//! The local chain's configuration: contracts and transactions from
//! `Contracts.toml`, references between them, storage slots and values as
//! 32-byte hex words, and the addresses the chain is set up with.
use vstd::prelude::*;
use crate::text::{
    chars_of, string_of, push_all, push_str, has_prefix, strip_prefixes, trim_start_matches,
    starts_with, slice_of,
};
use crate::setup::{digits_value, unsigned_digits, all_digits, is_digit};
use alloy_sol_types::SolValue;

verus! {

/// A storage value: a text (`#name` refers to a deployed contract) or a number.
#[derive(Clone, Debug)]
pub enum StorageValue {
    String(String),
    Number(u64),
}

/// A typed argument; a value `#name` refers to a deployed contract.
#[derive(Clone, Debug)]
pub struct ConstructorArg {
    pub arg_type: String,
    pub value: String,
}

/// A contract to deploy or to place at a known address.
#[derive(Clone, Debug)]
pub struct ContractConfig {
    pub name: Option<String>,
    pub contract_json_path: Option<String>,
    pub address: Option<String>,
    pub bytecode: Option<String>,
    pub deployed_bytecode_path: Option<String>,
    pub constructor_args: Vec<ConstructorArg>,
    pub storage: Vec<(String, StorageValue)>,
}

/// A transaction to send once the contracts are in place.
#[derive(Clone, Debug)]
pub struct TransactionConfig {
    pub name: Option<String>,
    pub target: String,
    pub function_signature: Option<String>,
    pub args: Vec<ConstructorArg>,
    pub data: Option<String>,
}

/// The whole of `Contracts.toml`.
#[derive(Clone, Debug)]
pub struct ChainConfig {
    pub contracts: Vec<ContractConfig>,
    pub transactions: Vec<TransactionConfig>,
}

/// The deployed contracts: each name once, with its address.
pub struct ContractMap {
    entries: Vec<(String, String)>,
}

pub open spec fn pairs_view(v: Seq<(String, String)>) -> Seq<(Seq<char>, Seq<char>)> {
    v.map_values(|p: (String, String)| (p.0@, p.1@))
}

/// No name occurs twice.
pub open spec fn names_unique(v: Seq<(Seq<char>, Seq<char>)>) -> bool {
    forall|i: int, j: int| 0 <= i < j < v.len() ==> v[i].0 != v[j].0
}

/// The map from names to addresses the entries hold.
pub open spec fn as_map(v: Seq<(Seq<char>, Seq<char>)>) -> Map<Seq<char>, Seq<char>>
    decreases v.len(),
{
    if v.len() == 0 {
        Map::empty()
    } else {
        as_map(v.drop_last()).insert(v.last().0, v.last().1)
    }
}

proof fn lemma_as_map_lookup(v: Seq<(Seq<char>, Seq<char>)>, k: Seq<char>)
    requires
        names_unique(v),
    ensures
        as_map(v).contains_key(k) <==> exists|i: int| 0 <= i < v.len() && #[trigger] v[i].0 == k,
        forall|i: int| 0 <= i < v.len() && #[trigger] v[i].0 == k ==> as_map(v)[k] == v[i].1,
    decreases v.len(),
{
    if v.len() > 0 {
        let r = v.drop_last();
        let n = v.len() - 1;
        assert(names_unique(r));
        lemma_as_map_lookup(r, k);
        if exists|i: int| 0 <= i < r.len() && #[trigger] r[i].0 == k {
            let i = choose|i: int| 0 <= i < r.len() && #[trigger] r[i].0 == k;
            assert(v[i] == r[i]);
        }
        if v[n].0 == k {
            assert(as_map(v).contains_key(k));
        }
        if exists|i: int| 0 <= i < v.len() && #[trigger] v[i].0 == k {
            let i = choose|i: int| 0 <= i < v.len() && #[trigger] v[i].0 == k;
            if i < n {
                assert(r[i].0 == k);
            }
        }
        assert forall|i: int| 0 <= i < v.len() && #[trigger] v[i].0 == k implies as_map(v)[k] == v[i].1 by {
            if i < v.len() - 1 {
                assert(v[i] == r[i]);
            }
        }
    }
}

impl ContractMap {
    pub closed spec fn view(&self) -> Map<Seq<char>, Seq<char>> {
        as_map(pairs_view(self.entries@))
    }

    pub closed spec fn wf(&self) -> bool {
        names_unique(pairs_view(self.entries@))
    }

    /// No contract deployed yet.
    pub fn new() -> (r: ContractMap)
        ensures
            r.wf(),
            r.view() == Map::<Seq<char>, Seq<char>>::empty(),
    {
        let r = ContractMap { entries: Vec::new() };
        assert(pairs_view(r.entries@) =~= Seq::<(Seq<char>, Seq<char>)>::empty());
        r
    }

    fn position(&self, name: &str) -> (r: Option<usize>)
        requires
            self.wf(),
        ensures
            r matches Some(i) ==> i < self.entries@.len() && self.entries@[i as int].0@ == name@,
            r is None ==> forall|i: int| 0 <= i < self.entries@.len() ==> self.entries@[i].0@ != name@,
    {
        let mut i: usize = 0;
        while i < self.entries.len()
            invariant
                i <= self.entries@.len(),
                forall|j: int| 0 <= j < i ==> self.entries@[j].0@ != name@,
            decreases self.entries.len() - i,
        {
            if crate::naming::eq_lit(&chars_of(self.entries[i].0.as_str()), name) {
                return Some(i);
            }
            i = i + 1;
        }
        None
    }

    /// The address deployed under `name`.
    pub fn get(&self, name: &str) -> (r: Option<String>)
        requires
            self.wf(),
        ensures
            self.view().contains_key(name@) ==> (r matches Some(a) && a@ == self.view()[name@]),
            !self.view().contains_key(name@) ==> r is None,
    {
        let ghost pv = pairs_view(self.entries@);
        proof {
            lemma_as_map_lookup(pv, name@);
        }
        match self.position(name) {
            Some(i) => {
                assert(pv[i as int].0 == name@);
                Some(self.entries[i].1.clone())
            },
            None => {
                assert forall|i: int| 0 <= i < pv.len() implies pv[i].0 != name@ by {
                    assert(pv[i].0 == self.entries@[i].0@);
                }
                None
            },
        }
    }

    /// Records `address` under `name`, replacing an earlier one.
    pub fn insert(&mut self, name: String, address: String)
        requires
            old(self).wf(),
        ensures
            final(self).wf(),
            final(self).view() == old(self).view().insert(name@, address@),
    {
        let ghost pv = pairs_view(self.entries@);
        match self.position(name.as_str()) {
            Some(i) => {
                self.entries.set(i, (name, address));
                let ghost nv = pairs_view(self.entries@);
                assert(nv =~= pv.update(i as int, (pv[i as int].0, address@)));
                assert(names_unique(nv));
                proof {
                    assert(nv[i as int].0 == name@);
                    let goal = as_map(pv).insert(name@, address@);
                    assert forall|k: Seq<char>| #[trigger] as_map(nv).contains_key(k) == goal.contains_key(k) && (as_map(nv).contains_key(k) ==> as_map(nv)[k] == goal[k]) by {
                        lemma_as_map_lookup(nv, k);
                        lemma_as_map_lookup(pv, k);
                        if k != name@ {
                            if as_map(pv).contains_key(k) {
                                let j = choose|j: int| 0 <= j < pv.len() && #[trigger] pv[j].0 == k;
                                assert(nv[j] == pv[j]);
                            }
                            if as_map(nv).contains_key(k) {
                                let j = choose|j: int| 0 <= j < nv.len() && #[trigger] nv[j].0 == k;
                                assert(nv[j] == pv[j]);
                            }
                        }
                    }
                    assert(as_map(nv) =~= as_map(pv).insert(name@, address@));
                }
            },
            None => {
                self.entries.push((name, address));
                let ghost nv = pairs_view(self.entries@);
                assert(nv =~= pv.push((name@, address@)));
                assert forall|a: int, b: int| 0 <= a < b < nv.len() implies nv[a].0 != nv[b].0 by {
                    if b == nv.len() - 1 {
                        assert(pv[a].0 == self.entries@[a].0@);
                    }
                }
                assert(nv.drop_last() =~= pv);
            },
        }
    }
}

/// What a reference `#name` to a deployed contract resolves to.
pub open spec fn resolve_ref(v: Seq<char>, deployed: Map<Seq<char>, Seq<char>>) -> Result<Seq<char>, Seq<char>> {
    if v.len() > 0 && v[0] == '#' {
        let name = v.drop_first();
        if deployed.contains_key(name) {
            Ok(deployed[name])
        } else {
            Err(name)
        }
    } else {
        Ok(v)
    }
}

fn resolve_ref_exec(v: &String, deployed: &ContractMap) -> (r: Result<String, Vec<char>>)
    requires
        deployed.wf(),
    ensures
        match resolve_ref(v@, deployed.view()) {
            Ok(s) => r matches Ok(x) && x@ == s,
            Err(n) => r matches Err(x) && x@ == n,
        },
{
    let c = chars_of(v.as_str());
    if c.len() > 0 && c[0] == '#' {
        let name = slice_of(&c, 1, c.len());
        assert(name@ == v@.drop_first());
        match deployed.get(string_of(&name).as_str()) {
            Some(a) => Ok(a),
            None => Err(name),
        }
    } else {
        Ok(v.clone())
    }
}

impl ConstructorArg {
    /// The argument's value, a `#name` replaced by that contract's address;
    /// an error for a name that was not deployed.
    pub fn resolve_value(&self, deployed: &ContractMap) -> (r: Result<String, String>)
        requires
            deployed.wf(),
        ensures
            match resolve_ref(self.value@, deployed.view()) {
                Ok(s) => r matches Ok(x) && x@ == s,
                Err(n) => r matches Err(e) && e@ == "Reference to unknown contract in constructor: #"@ + n,
            },
    {
        match resolve_ref_exec(&self.value, deployed) {
            Ok(s) => Ok(s),
            Err(name) => {
                let mut m = chars_of("Reference to unknown contract in constructor: #");
                push_all(&mut m, &name);
                Err(string_of(&m))
            },
        }
    }
}

/// The lower-case hexadecimal digit of `d`.
pub open spec fn hex_digit(d: nat) -> char {
    if d < 10 {
        (('0' as nat) + d) as char
    } else {
        (('a' as nat) + d - 10) as char
    }
}

/// `n` in lower-case hexadecimal, without leading zeros (`0` for zero).
pub open spec fn lower_hex(n: nat) -> Seq<char>
    decreases n,
{
    if n < 16 {
        seq![hex_digit(n)]
    } else {
        lower_hex(n / 16).push(hex_digit(n % 16))
    }
}

/// `s` padded on the left with `0` to 64 characters (`{:0>64}`).
pub open spec fn pad64(s: Seq<char>) -> Seq<char> {
    if s.len() >= 64 {
        s
    } else {
        Seq::new((64 - s.len()) as nat, |i: int| '0') + s
    }
}

/// `u64`'s `from_str`.
pub open spec fn parse_u64(s: Seq<char>) -> Option<u64> {
    let d = unsigned_digits(s);
    if d.len() > 0 && all_digits(d) && digits_value(d) <= u64::MAX {
        Some(digits_value(d) as u64)
    } else {
        None
    }
}

/// A storage slot or value as a 32-byte hex word: `0x`-prefixed text keeps
/// its digits (all leading `0x` removed), a decimal `u64` is written in hex,
/// anything else is kept as it is; each padded to 64 characters.
pub open spec fn hex_word(s: Seq<char>) -> Seq<char> {
    if has_prefix(s, "0x"@) {
        "0x"@ + pad64(strip_prefixes(s, "0x"@))
    } else {
        match parse_u64(s) {
            Some(n) => "0x"@ + pad64(lower_hex(n as nat)),
            None => "0x"@ + pad64(s),
        }
    }
}

/// Reads a decimal `u64` the way `str::parse::<u64>` does.
pub fn parse_u64_exec(s: &Vec<char>) -> (r: Option<u64>)
    ensures
        r == parse_u64(s@),
{
    let start: usize = if s.len() > 0 && s[0] == '+' {
        1
    } else {
        0
    };
    let ghost d = unsigned_digits(s@);
    assert(d =~= s@.skip(start as int));
    if start >= s.len() {
        return None;
    }
    let mut acc: u128 = 0;
    let mut too_big = false;
    let mut i: usize = start;
    while i < s.len()
        invariant
            start <= i <= s.len(),
            d == unsigned_digits(s@),
            d =~= s@.skip(start as int),
            forall|k: int| 0 <= k < i - start ==> is_digit(#[trigger] d[k]),
            !too_big ==> acc == digits_value(d.take(i - start)) && acc <= u64::MAX,
            too_big ==> digits_value(d.take(i - start)) > u64::MAX,
        decreases s.len() - i,
    {
        let c = s[i];
        if !('0' <= c && c <= '9') {
            assert(!is_digit(d[i - start]));
            assert(!all_digits(d));
            return None;
        }
        proof {
            assert(d.take(i + 1 - start).drop_last() =~= d.take(i - start));
            assert(d.take(i + 1 - start).last() == c);
        }
        if !too_big {
            let digit = (c as u32 - '0' as u32) as u128;
            acc = acc * 10 + digit;
            if acc > 0xffff_ffff_ffff_ffff {
                too_big = true;
            }
        }
        i = i + 1;
    }
    assert(d.take(s.len() - start) =~= d);
    if too_big {
        None
    } else {
        Some(acc as u64)
    }
}

fn hex_digit_exec(d: u64) -> (c: char)
    requires
        d < 16,
    ensures
        c == hex_digit(d as nat),
{
    if d < 10 {
        ((0x30u32 + d as u32) as u8) as char
    } else {
        ((0x61u32 + d as u32 - 10) as u8) as char
    }
}

/// `n` in lower-case hexadecimal.
pub fn lower_hex_exec(n: u64) -> (r: Vec<char>)
    ensures
        r@ == lower_hex(n as nat),
    decreases n,
{
    if n < 16 {
        let mut v: Vec<char> = Vec::new();
        v.push(hex_digit_exec(n));
        v
    } else {
        let mut v = lower_hex_exec(n / 16);
        v.push(hex_digit_exec(n % 16));
        v
    }
}

fn pad64_exec(s: &Vec<char>) -> (r: Vec<char>)
    ensures
        r@ == pad64(s@),
{
    if s.len() >= 64 {
        return s.clone();
    }
    let mut r: Vec<char> = Vec::new();
    let n = 64 - s.len();
    let mut i: usize = 0;
    while i < n
        invariant
            i <= n,
            n == 64 - s.len(),
            r@ == Seq::new(i as nat, |j: int| '0'),
        decreases n - i,
    {
        r.push('0');
        assert(r@ =~= Seq::new((i + 1) as nat, |j: int| '0'));
        i = i + 1;
    }
    push_all(&mut r, s);
    r
}

fn hex_word_exec(s: &str) -> (r: String)
    ensures
        r@ == hex_word(s@),
{
    let c = chars_of(s);
    let prefix = chars_of("0x");
    let mut out = chars_of("0x");
    if starts_with(&c, &prefix) {
        let stripped = trim_start_matches(&c, &prefix);
        push_all(&mut out, &pad64_exec(&stripped));
    } else {
        match parse_u64_exec(&c) {
            Some(n) => push_all(&mut out, &pad64_exec(&lower_hex_exec(n))),
            None => push_all(&mut out, &pad64_exec(&c)),
        }
    }
    string_of(&out)
}

/// A storage slot as a 32-byte hex word.
pub fn normalize_slot(slot: &str) -> (r: String)
    ensures
        r@ == hex_word(slot@),
{
    hex_word_exec(slot)
}

/// The text of a number in decimal.
pub open spec fn storage_text(v: StorageValue) -> Seq<char> {
    match v {
        StorageValue::String(s) => s@,
        StorageValue::Number(n) => crate::text::decimal(n as nat),
    }
}

impl StorageValue {
    /// The value as text: a number in decimal, a `#name` the address of that
    /// contract; an error for a name that was not deployed.
    pub fn resolve(&self, deployed: &ContractMap) -> (r: Result<String, String>)
        requires
            deployed.wf(),
        ensures
            match self {
                StorageValue::Number(n) => r matches Ok(x) && x@ == crate::text::decimal(*n as nat),
                StorageValue::String(s) => match resolve_ref(s@, deployed.view()) {
                    Ok(v) => r matches Ok(x) && x@ == v,
                    Err(n) => r matches Err(e) && e@ == "Reference to unknown contract: #"@ + n,
                },
            },
    {
        match self {
            StorageValue::String(s) => match resolve_ref_exec(s, deployed) {
                Ok(v) => Ok(v),
                Err(name) => {
                    let mut m = chars_of("Reference to unknown contract: #");
                    push_all(&mut m, &name);
                    Err(string_of(&m))
                },
            },
            StorageValue::Number(n) => Ok(string_of(&crate::text::decimal_exec(*n))),
        }
    }

    /// The resolved value as a 32-byte hex word.
    pub fn to_hex_string(&self, deployed: &ContractMap) -> (r: Result<String, String>)
        requires
            deployed.wf(),
        ensures
            match self {
                StorageValue::Number(n) => r matches Ok(x) && x@ == hex_word(crate::text::decimal(*n as nat)),
                StorageValue::String(s) => match resolve_ref(s@, deployed.view()) {
                    Ok(v) => r matches Ok(x) && x@ == hex_word(v),
                    Err(n) => r matches Err(e) && e@ == "Reference to unknown contract: #"@ + n,
                },
            },
    {
        match self.resolve(deployed) {
            Ok(v) => Ok(hex_word_exec(v.as_str())),
            Err(e) => Err(e),
        }
    }
}

impl ChainConfig {
    /// The address of the first contract named `name`, if it has one.
    pub fn get_address_by_name(&self, name: &str) -> (r: Option<String>)
        ensures
            match first_named(self.contracts@, name@, 0) {
                Some(i) => match self.contracts@[i].address {
                    Some(a) => r matches Some(x) && x@ == a@,
                    None => r is None,
                },
                None => r is None,
            },
    {
        let mut i: usize = 0;
        while i < self.contracts.len()
            invariant
                i <= self.contracts@.len(),
                first_named(self.contracts@, name@, 0) == first_named(self.contracts@, name@, i as int),
            decreases self.contracts.len() - i,
        {
            let hit = match &self.contracts[i].name {
                Some(n) => crate::naming::eq_lit(&chars_of(n.as_str()), name),
                None => false,
            };
            if hit {
                return match &self.contracts[i].address {
                    Some(a) => Some(a.clone()),
                    None => None,
                };
            }
            i = i + 1;
        }
        None
    }
}

/// The first contract from position `j` on named `name`.
pub open spec fn first_named(cs: Seq<ContractConfig>, name: Seq<char>, j: int) -> Option<int>
    decreases cs.len() - j,
{
    if j < 0 || j >= cs.len() {
        None
    } else if cs[j].name matches Some(n) && n@ == name {
        Some(j)
    } else {
        first_named(cs, name, j + 1)
    }
}

} // verus!

verus! {

/// The value of a hexadecimal digit of either case.
pub open spec fn hex_val(c: char) -> Option<nat> {
    if '0' <= c && c <= '9' {
        Some(((c as nat) - ('0' as nat)) as nat)
    } else if 'a' <= c && c <= 'f' {
        Some(((c as nat) - ('a' as nat) + 10) as nat)
    } else if 'A' <= c && c <= 'F' {
        Some(((c as nat) - ('A' as nat) + 10) as nat)
    } else {
        None
    }
}

/// The bytes a text of hex digit pairs spells (`hex::decode` of the hex
/// crate): `None` for an odd length or a character that is no hex digit.
pub open spec fn hex_decoded(s: Seq<char>) -> Option<Seq<u8>>
    decreases s.len(),
{
    if s.len() == 0 {
        Some(seq![])
    } else if s.len() == 1 {
        None
    } else {
        match (hex_val(s[0]), hex_val(s[1]), hex_decoded(s.skip(2))) {
            (Some(h), Some(l), Some(rest)) => Some(seq![(h * 16 + l) as u8] + rest),
            _ => None,
        }
    }
}

/// The lower-case hex text of bytes, two digits each (`hex::encode`).
pub open spec fn hex_text(b: Seq<u8>) -> Seq<char>
    decreases b.len(),
{
    if b.len() == 0 {
        seq![]
    } else {
        seq![hex_digit((b[0] / 16) as nat), hex_digit((b[0] % 16) as nat)] + hex_text(b.drop_first())
    }
}

/// `hex::decode` of the hex crate on the characters of `s`.
#[verifier::external_body]
fn hex_decode(s: &str) -> (r: Result<Vec<u8>, String>)
    ensures
        match hex_decoded(s@) {
            Some(b) => r matches Ok(v) && v@ == b,
            None => r is Err,
        },
{
    hex::decode(s).map_err(|e| e.to_string())
}

/// `hex::encode` of the hex crate: lower-case, two digits per byte.
#[verifier::external_body]
pub(crate) fn hex_encode(b: &[u8]) -> (r: String)
    ensures
        r@ == hex_text(b@),
{
    hex::encode(b)
}

/// The Keccak-256 digest of the bytes, as alloy computes it.
pub uninterp spec fn keccak(b: Seq<u8>) -> Seq<u8>;

/// `alloy_primitives::keccak256`: the 32-byte Keccak-256 digest.
#[verifier::external_body]
fn keccak256(b: &[u8]) -> (r: Vec<u8>)
    ensures
        r@ == keccak(b@),
        r@.len() == 32,
{
    alloy_primitives::keccak256(b).to_vec()
}

/// The 20 bytes alloy's `Address` parser reads from a text (const-hex's
/// `decode_to_array`): after an optional `0x` or `0X` prefix, exactly 40 hex
/// digits of either case, two to a byte; `None` for any other text.
pub open spec fn parsed_address(s: Seq<char>) -> Option<Seq<u8>> {
    let digits = if s.len() >= 2 && s[0] == '0' && (s[1] == 'x' || s[1] == 'X') {
        s.skip(2)
    } else {
        s
    };
    if digits.len() == 40 {
        hex_decoded(digits)
    } else {
        None
    }
}

/// `n` as a 32-byte big-endian word.
pub open spec fn be_word(n: nat) -> Seq<u8> {
    Seq::new(32, |i: int| ((n as int / vstd::arithmetic::power::pow(256, (31 - i) as nat)) % 256) as u8)
}

/// A word of zeros ending in `tail` (`tail` at most 32 bytes).
pub open spec fn left_padded(tail: Seq<u8>) -> Seq<u8> {
    Seq::new((32 - tail.len()) as nat, |i: int| 0u8) + tail
}

/// The value of a digit of radix up to 36, either case.
pub open spec fn radix_digit(c: char) -> Option<nat> {
    if '0' <= c && c <= '9' {
        Some(((c as nat) - ('0' as nat)) as nat)
    } else if 'a' <= c && c <= 'z' {
        Some(((c as nat) - ('a' as nat) + 10) as nat)
    } else if 'A' <= c && c <= 'Z' {
        Some(((c as nat) - ('A' as nat) + 10) as nat)
    } else {
        None
    }
}

/// The number the digits of `s` spell in `radix`, `_` skipped (`0` for no
/// digits); `None` at a character that is no digit of the radix.
pub open spec fn uint_digits(s: Seq<char>, radix: nat) -> Option<nat>
    decreases s.len(),
{
    if s.len() == 0 {
        Some(0)
    } else {
        match uint_digits(s.drop_last(), radix) {
            None => None,
            Some(v) => if s.last() == '_' {
                Some(v)
            } else {
                match radix_digit(s.last()) {
                    Some(d) => if d < radix {
                        Some(v * radix + d)
                    } else {
                        None
                    },
                    None => None,
                }
            },
        }
    }
}

/// The ABI encoding of one dynamic `string` or `bytes` value: the offset
/// word `0x20`, the length word, then the data padded with zeros to whole
/// words.
pub open spec fn abi_dynamic(data: Seq<u8>) -> Seq<u8> {
    be_word(32) + be_word(data.len()) + data + Seq::new(
        ((32 - data.len() % 32) % 32) as nat,
        |i: int| 0u8,
    )
}

/// alloy's `Address` parser (`str::parse::<Address>`) and the ABI encoding
/// of the address (`SolValue::abi_encode`): twelve zero bytes, then the
/// twenty bytes of the address.
#[verifier::external_body]
fn abi_address_word(s: &str) -> (r: Result<Vec<u8>, String>)
    ensures
        match parsed_address(s@) {
            Some(a) => a.len() == 20 && (r matches Ok(w) && w@ == left_padded(a)),
            None => r is Err,
        },
{
    match s.parse::<alloy_primitives::Address>() {
        Ok(a) => Ok(a.abi_encode()),
        Err(e) => Err(e.to_string()),
    }
}

/// `U256::from_str_radix` (ruint, through alloy) and the ABI encoding of the
/// number: digits of either case, `_` skipped, a value below 2^256, written
/// as one big-endian word.
#[verifier::external_body]
fn abi_uint_word(s: &str, radix: u32) -> (r: Result<Vec<u8>, String>)
    requires
        radix == 10 || radix == 16,
    ensures
        match uint_digits(s@, radix as nat) {
            Some(v) => if v < vstd::arithmetic::power2::pow2(256) {
                r matches Ok(w) && w@ == be_word(v)
            } else {
                r is Err
            },
            None => r is Err,
        },
{
    match alloy_primitives::U256::from_str_radix(s, radix as u64) {
        Ok(v) => Ok(v.abi_encode()),
        Err(e) => Err(e.to_string()),
    }
}

/// The ABI encoding of a `string` value (`SolValue::abi_encode` on `str`),
/// whose data are the text's UTF-8 bytes.
#[verifier::external_body]
fn abi_string(s: &str) -> (r: Vec<u8>)
    ensures
        r@ == abi_dynamic(utf8(s@)),
{
    s.abi_encode()
}

/// The ABI encoding of a `bytes` value (`SolValue::abi_encode` on `Bytes`).
#[verifier::external_body]
fn abi_bytes(b: Vec<u8>) -> (r: Vec<u8>)
    ensures
        r@ == abi_dynamic(b@),
{
    alloy_primitives::Bytes::from(b).abi_encode()
}

/// The ABI encoding of a `bool` (`SolValue::abi_encode`): one word, 1 or 0.
#[verifier::external_body]
fn abi_bool_word(b: bool) -> (r: Vec<u8>)
    ensures
        r@ == be_word(if b { 1 } else { 0 }),
{
    b.abi_encode()
}

/// Why an argument could not be encoded.
pub enum ArgError {
    /// `#name` names no deployed contract.
    UnknownReference { name: String },
    /// The value is no address; the parser's message.
    InvalidAddress { value: String, reason: String },
    /// The value is no 256-bit number; the parser's message.
    InvalidNumber { reason: String },
    /// The value is no hex text.
    InvalidBytes { value: String, reason: String },
    /// The value is neither `true` nor `false`.
    InvalidBool { value: String },
    /// The type is none of those supported.
    UnsupportedType { arg_type: String },
}

impl ArgError {
    /// The error as the user reads it.
    pub fn message(&self) -> (r: String)
        ensures
            r@ == arg_error_text(*self),
    {
        let mut m: Vec<char> = Vec::new();
        match self {
            ArgError::UnknownReference { name } => {
                push_str(&mut m, "Reference to unknown contract in constructor: #");
                push_str(&mut m, name.as_str());
            },
            ArgError::InvalidAddress { value, reason } => {
                push_str(&mut m, "Invalid address '");
                push_str(&mut m, value.as_str());
                push_str(&mut m, "': ");
                push_str(&mut m, reason.as_str());
            },
            ArgError::InvalidNumber { reason } => {
                push_str(&mut m, reason.as_str());
            },
            ArgError::InvalidBytes { value, reason } => {
                push_str(&mut m, "Invalid hex bytes '");
                push_str(&mut m, value.as_str());
                push_str(&mut m, "': ");
                push_str(&mut m, reason.as_str());
            },
            ArgError::InvalidBool { value } => {
                push_str(&mut m, "Invalid bool value '");
                push_str(&mut m, value.as_str());
                push_str(&mut m, "': ");
                push_str(&mut m, "provided string was not `true` or `false`");
            },
            ArgError::UnsupportedType { arg_type } => {
                push_str(&mut m, "Unsupported constructor arg type: ");
                push_str(&mut m, arg_type.as_str());
            },
        }
        string_of(&m)
    }
}

pub open spec fn arg_error_text(e: ArgError) -> Seq<char> {
    match e {
        ArgError::UnknownReference { name } => "Reference to unknown contract in constructor: #"@ + name@,
        ArgError::InvalidAddress { value, reason } => "Invalid address '"@ + value@ + "': "@ + reason@,
        ArgError::InvalidNumber { reason } => reason@,
        ArgError::InvalidBytes { value, reason } => "Invalid hex bytes '"@ + value@ + "': "@ + reason@,
        ArgError::InvalidBool { value } => "Invalid bool value '"@ + value@ + "': "@
            + "provided string was not `true` or `false`"@,
        ArgError::UnsupportedType { arg_type } => "Unsupported constructor arg type: "@ + arg_type@,
    }
}

/// The kind of failure, without the outside parsers' messages.
pub enum ArgFailure {
    UnknownReference(Seq<char>),
    InvalidAddress(Seq<char>),
    InvalidNumber,
    InvalidBytes(Seq<char>),
    InvalidBool(Seq<char>),
    UnsupportedType(Seq<char>),
}

pub open spec fn failure_of(e: ArgError) -> ArgFailure {
    match e {
        ArgError::UnknownReference { name } => ArgFailure::UnknownReference(name@),
        ArgError::InvalidAddress { value, reason } => ArgFailure::InvalidAddress(value@),
        ArgError::InvalidNumber { reason } => ArgFailure::InvalidNumber,
        ArgError::InvalidBytes { value, reason } => ArgFailure::InvalidBytes(value@),
        ArgError::InvalidBool { value } => ArgFailure::InvalidBool(value@),
        ArgError::UnsupportedType { arg_type } => ArgFailure::UnsupportedType(arg_type@),
    }
}

/// The ABI encoding of one resolved argument value of type `ty`.
pub open spec fn encode_value(ty: Seq<char>, v: Seq<char>) -> Result<Seq<u8>, ArgFailure> {
    if ty == "address"@ {
        match parsed_address(v) {
            Some(a) => Ok(left_padded(a)),
            None => Err(ArgFailure::InvalidAddress(v)),
        }
    } else if ty == "uint256"@ || ty == "uint"@ {
        let (digits, radix) = if has_prefix(v, "0x"@) { (v.skip(2), 16nat) } else { (v, 10nat) };
        match uint_digits(digits, radix) {
            Some(n) => if n < vstd::arithmetic::power2::pow2(256) {
                Ok(be_word(n))
            } else {
                Err(ArgFailure::InvalidNumber)
            },
            None => Err(ArgFailure::InvalidNumber),
        }
    } else if ty == "string"@ {
        Ok(abi_dynamic(utf8(v)))
    } else if ty == "bytes"@ {
        match hex_decoded(strip_prefixes(v, "0x"@)) {
            Some(b) => Ok(abi_dynamic(b)),
            None => Err(ArgFailure::InvalidBytes(v)),
        }
    } else if ty == "bool"@ {
        if v == "true"@ {
            Ok(be_word(1))
        } else if v == "false"@ {
            Ok(be_word(0))
        } else {
            Err(ArgFailure::InvalidBool(v))
        }
    } else {
        Err(ArgFailure::UnsupportedType(ty))
    }
}

/// The UTF-8 encoding of one character.
pub open spec fn utf8_char(c: char) -> Seq<u8> {
    let n = c as nat;
    if n < 0x80 {
        seq![n as u8]
    } else if n < 0x800 {
        seq![(0xc0 + n / 64) as u8, (0x80 + n % 64) as u8]
    } else if n < 0x10000 {
        seq![(0xe0 + n / 4096) as u8, (0x80 + (n / 64) % 64) as u8, (0x80 + n % 64) as u8]
    } else {
        seq![
            (0xf0 + n / 262144) as u8,
            (0x80 + (n / 4096) % 64) as u8,
            (0x80 + (n / 64) % 64) as u8,
            (0x80 + n % 64) as u8,
        ]
    }
}

/// The UTF-8 bytes of a text.
pub open spec fn utf8(s: Seq<char>) -> Seq<u8>
    decreases s.len(),
{
    if s.len() == 0 {
        seq![]
    } else {
        utf8(s.drop_last()) + utf8_char(s.last())
    }
}

pub open spec fn args_view(args: Seq<ConstructorArg>) -> Seq<(Seq<char>, Seq<char>)> {
    args.map_values(|a: ConstructorArg| (a.arg_type@, a.value@))
}

/// The ABI encodings of the arguments, one after the other, each value
/// resolved first; the first failure otherwise.
pub open spec fn encode_args(args: Seq<(Seq<char>, Seq<char>)>, deployed: Map<Seq<char>, Seq<char>>) -> Result<Seq<u8>, ArgFailure>
    decreases args.len(),
{
    if args.len() == 0 {
        Ok(seq![])
    } else {
        match encode_args(args.drop_last(), deployed) {
            Err(f) => Err(f),
            Ok(prefix) => {
                let a = args.last();
                match resolve_ref(a.1, deployed) {
                    Err(name) => Err(ArgFailure::UnknownReference(name)),
                    Ok(v) => match encode_value(a.0, v) {
                        Ok(b) => Ok(prefix + b),
                        Err(f) => Err(f),
                    },
                }
            },
        }
    }
}

} // verus!

verus! {

fn encode_value_exec(ty: &str, v: &String) -> (r: Result<Vec<u8>, ArgError>)
    ensures
        match encode_value(ty@, v@) {
            Ok(b) => r matches Ok(x) && x@ == b,
            Err(f) => r matches Err(e) && failure_of(e) == f,
        },
{
    let t = chars_of(ty);
    if crate::naming::eq_lit(&t, "address") {
        match abi_address_word(v.as_str()) {
            Ok(w) => Ok(w),
            Err(reason) => Err(ArgError::InvalidAddress { value: v.clone(), reason }),
        }
    } else if crate::naming::eq_lit(&t, "uint256") || crate::naming::eq_lit(&t, "uint") {
        let c = chars_of(v.as_str());
        proof {
            reveal_strlit("0x");
        }
        let word = if starts_with(&c, &chars_of("0x")) {
            let digits = string_of(&slice_of(&c, 2, c.len()));
            assert(digits@ == v@.skip(2));
            abi_uint_word(digits.as_str(), 16)
        } else {
            abi_uint_word(v.as_str(), 10)
        };
        match word {
            Ok(w) => Ok(w),
            Err(reason) => Err(ArgError::InvalidNumber { reason }),
        }
    } else if crate::naming::eq_lit(&t, "string") {
        Ok(abi_string(v.as_str()))
    } else if crate::naming::eq_lit(&t, "bytes") {
        let data = string_of(&trim_start_matches(&chars_of(v.as_str()), &chars_of("0x")));
        match hex_decode(data.as_str()) {
            Ok(b) => Ok(abi_bytes(b)),
            Err(reason) => Err(ArgError::InvalidBytes { value: v.clone(), reason }),
        }
    } else if crate::naming::eq_lit(&t, "bool") {
        let c = chars_of(v.as_str());
        if crate::naming::eq_lit(&c, "true") {
            Ok(abi_bool_word(true))
        } else if crate::naming::eq_lit(&c, "false") {
            Ok(abi_bool_word(false))
        } else {
            Err(ArgError::InvalidBool { value: v.clone() })
        }
    } else {
        Err(ArgError::UnsupportedType { arg_type: ty.to_owned() })
    }
}

/// The arguments ABI-encoded one after the other, as `0x`-prefixed hex;
/// references to deployed contracts resolved first. The first argument that
/// cannot be resolved or encoded is the error.
pub fn encode_constructor_args(args: &Vec<ConstructorArg>, deployed: &ContractMap) -> (r: Result<String, ArgError>)
    requires
        deployed.wf(),
    ensures
        match encode_args(args_view(args@), deployed.view()) {
            Ok(b) => r matches Ok(s) && s@ == "0x"@ + hex_text(b),
            Err(f) => r matches Err(e) && failure_of(e) == f,
        },
{
    let ghost av = args_view(args@);
    let mut encoded: Vec<u8> = Vec::new();
    let mut i: usize = 0;
    while i < args.len()
        invariant
            av == args_view(args@),
            deployed.wf(),
            i <= args.len(),
            encode_args(av.take(i as int), deployed.view()) == Ok::<Seq<u8>, ArgFailure>(encoded@),
        decreases args.len() - i,
    {
        assert(av.take(i + 1).drop_last() =~= av.take(i as int));
        assert(av.take(i + 1).last() == av[i as int]);
        let resolved = match resolve_ref_exec(&args[i].value, deployed) {
            Ok(v) => v,
            Err(name) => {
                proof {
                    lemma_encode_err_extend(av, deployed.view(), i + 1);
                }
                return Err(ArgError::UnknownReference { name: string_of(&name) });
            },
        };
        match encode_value_exec(args[i].arg_type.as_str(), &resolved) {
            Ok(w) => {
                let mut w = w;
                encoded.append(&mut w);
            },
            Err(e) => {
                proof {
                    lemma_encode_err_extend(av, deployed.view(), i + 1);
                }
                return Err(e);
            },
        }
        i = i + 1;
    }
    assert(av.take(args.len() as int) =~= av);
    let mut out = chars_of("0x");
    push_str(&mut out, hex_encode(encoded.as_slice()).as_str());
    Ok(string_of(&out))
}

proof fn lemma_encode_err_extend(args: Seq<(Seq<char>, Seq<char>)>, deployed: Map<Seq<char>, Seq<char>>, k: int)
    requires
        0 < k <= args.len(),
        encode_args(args.take(k), deployed) is Err,
    ensures
        encode_args(args, deployed) == encode_args(args.take(k), deployed),
    decreases args.len() - k,
{
    if k < args.len() {
        assert(args.take(k + 1).drop_last() =~= args.take(k));
        lemma_encode_err_extend(args, deployed, k + 1);
    } else {
        assert(args.take(k) =~= args);
    }
}

/// The data of a call of the function with signature `sig`: `0x`, the hex
/// of the first four bytes of the Keccak-256 digest of the signature's UTF-8
/// bytes, then the hex of the ABI-encoded arguments (nothing when there are
/// none); the first argument failure otherwise.
pub open spec fn call_data(sig: Seq<char>, args: Seq<(Seq<char>, Seq<char>)>, deployed: Map<Seq<char>, Seq<char>>) -> Result<Seq<char>, ArgFailure> {
    let selector = "0x"@ + hex_text(keccak(utf8(sig)).take(4));
    if args.len() == 0 {
        Ok(selector)
    } else {
        match encode_args(args, deployed) {
            Ok(b) => Ok(selector + strip_prefixes("0x"@ + hex_text(b), "0x"@)),
            Err(f) => Err(f),
        }
    }
}

/// The UTF-8 bytes of a text (`str::as_bytes`).
#[verifier::external_body]
pub(crate) fn utf8_bytes(s: &str) -> (r: Vec<u8>)
    ensures
        r@ == utf8(s@),
{
    s.as_bytes().to_vec()
}

/// The data of a call of `function_sig` with the arguments.
pub fn encode_function_call(function_sig: &str, args: &Vec<ConstructorArg>, deployed: &ContractMap) -> (r: Result<String, ArgError>)
    requires
        deployed.wf(),
    ensures
        match call_data(function_sig@, args_view(args@), deployed.view()) {
            Ok(d) => r matches Ok(s) && s@ == d,
            Err(f) => r matches Err(e) && failure_of(e) == f,
        },
{
    let digest = keccak256(utf8_bytes(function_sig).as_slice());
    let selector = slice_bytes(&digest, 4);
    let encoded_args: Vec<char> = if args.len() == 0 {
        Vec::new()
    } else {
        match encode_constructor_args(args, deployed) {
            Ok(s) => trim_start_matches(&chars_of(s.as_str()), &chars_of("0x")),
            Err(e) => return Err(e),
        }
    };
    let mut out = chars_of("0x");
    push_str(&mut out, hex_encode(selector.as_slice()).as_str());
    push_all(&mut out, &encoded_args);
    Ok(string_of(&out))
}

fn slice_bytes(b: &Vec<u8>, n: usize) -> (r: Vec<u8>)
    requires
        n <= b@.len(),
    ensures
        r@ == b@.take(n as int),
{
    let mut r: Vec<u8> = Vec::new();
    let mut i: usize = 0;
    while i < n
        invariant
            i <= n,
            n <= b@.len(),
            r@ == b@.take(i as int),
        decreases n - i,
    {
        r.push(b[i]);
        assert(b@.take(i + 1) =~= b@.take(i as int).push(b@[i as int]));
        i = i + 1;
    }
    r
}

} // verus!

verus! {

/// A recorded address can be read back: after `insert(name, address)`, the
/// map gives `address` for `name`, and every other name as before.
pub proof fn lemma_deployed_read_after_write(
    before: Map<Seq<char>, Seq<char>>,
    name: Seq<char>,
    address: Seq<char>,
    other: Seq<char>,
)
    requires
        other != name,
    ensures
        before.insert(name, address).contains_key(name),
        before.insert(name, address)[name] == address,
        before.insert(name, address).contains_key(other) == before.contains_key(other),
        before.contains_key(other) ==> before.insert(name, address)[other] == before[other],
{
}

/// The addresses the chain is set up with.
#[derive(Clone, Debug)]
pub struct ContractAddresses {
    pub hypermap_proxy: String,
    pub hypermap_impl: String,
    pub hyperaccount: String,
    pub erc6551registry: String,
    pub multicall: String,
    pub create2: String,
    pub dot_os_tba: String,
    pub zeroth_tba: String,
}

/// The address of the first contract named `name` in the configuration.
pub open spec fn config_address(cs: Seq<ContractConfig>, name: Seq<char>) -> Option<Seq<char>> {
    match first_named(cs, name, 0) {
        Some(i) => match cs[i].address {
            Some(a) => Some(a@),
            None => None,
        },
        None => None,
    }
}

/// A contract's address: the deployed one, else the configured one.
pub open spec fn lookup_address(config: ChainConfig, deployed: Map<Seq<char>, Seq<char>>, name: Seq<char>) -> Option<Seq<char>> {
    if deployed.contains_key(name) {
        Some(deployed[name])
    } else {
        config_address(config.contracts@, name)
    }
}

pub open spec fn missing_text(name: Seq<char>) -> Seq<char> {
    "Missing '"@ + name + "' in config and deployed contracts"@
}

/// A contract's address, deployed or configured; an error naming it when
/// it is neither.
pub fn resolve_address(config: &ChainConfig, deployed: &ContractMap, name: &str) -> (r: Result<String, String>)
    requires
        deployed.wf(),
    ensures
        match lookup_address(*config, deployed.view(), name@) {
            Some(a) => r matches Ok(x) && x@ == a,
            None => r matches Err(e) && e@ == missing_text(name@),
        },
{
    match deployed.get(name) {
        Some(a) => Ok(a),
        None => match config.get_address_by_name(name) {
            Some(a) => Ok(a),
            None => {
                let mut m = chars_of("Missing '");
                push_str(&mut m, name);
                push_str(&mut m, "' in config and deployed contracts");
                Err(string_of(&m))
            },
        },
    }
}

fn resolve_optional(config: &ChainConfig, deployed: &ContractMap, name: &str, default: &str) -> (r: String)
    requires
        deployed.wf(),
    ensures
        match lookup_address(*config, deployed.view(), name@) {
            Some(a) => r@ == a,
            None => r@ == default@,
        },
{
    match deployed.get(name) {
        Some(a) => a,
        None => match config.get_address_by_name(name) {
            Some(a) => a,
            None => default.to_owned(),
        },
    }
}

/// The zeroth token-bound account read from the reply to `tbaOf(0)`: its
/// last 40 hex digits, when the reply is long enough to hold an address.
pub open spec fn zeroth_from_reply(reply: Seq<char>) -> Option<Seq<char>> {
    if reply.len() >= 42 {
        Some("0x"@ + reply.skip(reply.len() - 40))
    } else {
        None
    }
}

/// The names the setup needs, in the order they are resolved.
pub open spec fn required_names() -> Seq<Seq<char>> {
    seq!["hypermap-proxy"@, "hypermap-impl"@, "hyperaccount"@, "erc6551registry"@, "multicall"@, "create2"@]
}

/// The first required name that resolves to no address.
pub open spec fn first_missing(config: ChainConfig, deployed: Map<Seq<char>, Seq<char>>, names: Seq<Seq<char>>) -> Option<Seq<char>>
    decreases names.len(),
{
    if names.len() == 0 {
        None
    } else if lookup_address(config, deployed, names[0]) is None {
        Some(names[0])
    } else {
        first_missing(config, deployed, names.drop_first())
    }
}

impl ContractAddresses {
    /// The addresses from the deployed and configured contracts, the zeroth
    /// account from `zeroth_tba_reply` (the reply to `tbaOf(0)` on the
    /// hypermap proxy) or, for a short reply, from the configuration or its
    /// default; an error naming the first required contract that is missing.
    pub fn from_config(config: &ChainConfig, deployed: &ContractMap, zeroth_tba_reply: &str) -> (r: Result<ContractAddresses, String>)
        requires
            deployed.wf(),
            crate::casing::all_ascii(zeroth_tba_reply@),
        ensures
            match first_missing(*config, deployed.view(), required_names()) {
                Some(name) => r matches Err(e) && e@ == missing_text(name),
                None => r matches Ok(a) && {
                    &&& Some(a.hypermap_proxy@) == lookup_address(*config, deployed.view(), "hypermap-proxy"@)
                    &&& Some(a.hypermap_impl@) == lookup_address(*config, deployed.view(), "hypermap-impl"@)
                    &&& Some(a.hyperaccount@) == lookup_address(*config, deployed.view(), "hyperaccount"@)
                    &&& Some(a.erc6551registry@) == lookup_address(*config, deployed.view(), "erc6551registry"@)
                    &&& Some(a.multicall@) == lookup_address(*config, deployed.view(), "multicall"@)
                    &&& Some(a.create2@) == lookup_address(*config, deployed.view(), "create2"@)
                    &&& a.dot_os_tba@ == match lookup_address(*config, deployed.view(), "dot-os-tba"@) {
                        Some(x) => x,
                        None => "0x9b3853358ede717fc7D4806cF75d7A4d4517A9C9"@,
                    }
                    &&& a.zeroth_tba@ == match zeroth_from_reply(zeroth_tba_reply@) {
                        Some(z) => z,
                        None => match lookup_address(*config, deployed.view(), "zeroth-tba"@) {
                            Some(x) => x,
                            None => "0x809A598d9883f2Fb6B77382eBfC9473Fd6A857c9"@,
                        },
                    }
                },
            },
    {
        let ghost dv = deployed.view();
        let ghost names = required_names();
        proof {
            reveal_with_fuel(first_missing, 7);
        }
        assert(names.drop_first() =~= seq!["hypermap-impl"@, "hyperaccount"@, "erc6551registry"@, "multicall"@, "create2"@]);
        assert(names.drop_first().drop_first() =~= seq!["hyperaccount"@, "erc6551registry"@, "multicall"@, "create2"@]);
        assert(names.drop_first().drop_first().drop_first() =~= seq!["erc6551registry"@, "multicall"@, "create2"@]);
        assert(names.drop_first().drop_first().drop_first().drop_first() =~= seq!["multicall"@, "create2"@]);
        assert(names.drop_first().drop_first().drop_first().drop_first().drop_first() =~= seq!["create2"@]);
        assert(names.drop_first().drop_first().drop_first().drop_first().drop_first().drop_first() =~= Seq::<Seq<char>>::empty());
        let hypermap_proxy = resolve_address(config, deployed, "hypermap-proxy")?;
        let reply = chars_of(zeroth_tba_reply);
        let zeroth_tba = if reply.len() >= 42 {
            let mut z = chars_of("0x");
            push_all(&mut z, &slice_of(&reply, reply.len() - 40, reply.len()));
            assert(reply@.subrange(reply@.len() - 40, reply@.len() as int) =~= reply@.skip(reply@.len() - 40));
            string_of(&z)
        } else {
            resolve_optional(config, deployed, "zeroth-tba", "0x809A598d9883f2Fb6B77382eBfC9473Fd6A857c9")
        };
        let hypermap_impl = resolve_address(config, deployed, "hypermap-impl")?;
        let hyperaccount = resolve_address(config, deployed, "hyperaccount")?;
        let erc6551registry = resolve_address(config, deployed, "erc6551registry")?;
        let multicall = resolve_address(config, deployed, "multicall")?;
        let create2 = resolve_address(config, deployed, "create2")?;
        let dot_os_tba = resolve_optional(config, deployed, "dot-os-tba", "0x9b3853358ede717fc7D4806cF75d7A4d4517A9C9");
        Ok(ContractAddresses {
            hypermap_proxy,
            hypermap_impl,
            hyperaccount,
            erc6551registry,
            multicall,
            create2,
            dot_os_tba,
            zeroth_tba,
        })
    }

    /// The transactions that set the chain up, in order: initialize the
    /// hypermap, deploy the three minters through CREATE2, and mint `.os`;
    /// `calldata` holds the calldata of the last four.
    pub fn get_transactions(&self, calldata: &SetupCalldata) -> (r: Vec<(String, String)>)
        ensures
            pairs_view(r@) == seq![
                (self.hypermap_proxy@, "0xc4d66de8000000000000000000000000f39fd6e51aad88f6f4ce6ab8827279cfffb92266"@),
                (self.create2@, calldata.deploy_hyperaccount_minter@),
                (self.create2@, calldata.deploy_permissioned_minter@),
                (self.create2@, calldata.deploy_commit_minter@),
                (self.zeroth_tba@, calldata.mint_os@),
            ],
    {
        let mut out: Vec<(String, String)> = Vec::new();
        out.push((self.hypermap_proxy.clone(), "0xc4d66de8000000000000000000000000f39fd6e51aad88f6f4ce6ab8827279cfffb92266".to_owned()));
        out.push((self.create2.clone(), calldata.deploy_hyperaccount_minter.clone()));
        out.push((self.create2.clone(), calldata.deploy_permissioned_minter.clone()));
        out.push((self.create2.clone(), calldata.deploy_commit_minter.clone()));
        out.push((self.zeroth_tba.clone(), calldata.mint_os.clone()));
        assert(pairs_view(out@) =~= seq![
                (self.hypermap_proxy@, "0xc4d66de8000000000000000000000000f39fd6e51aad88f6f4ce6ab8827279cfffb92266"@),
                (self.create2@, calldata.deploy_hyperaccount_minter@),
                (self.create2@, calldata.deploy_permissioned_minter@),
                (self.create2@, calldata.deploy_commit_minter@),
                (self.zeroth_tba@, calldata.mint_os@),
            ]);
        out
    }
}

/// The calldata of the setup transactions that deploy the minters and mint
/// `.os`, as shipped with kit.
pub struct SetupCalldata {
    pub deploy_hyperaccount_minter: String,
    pub deploy_permissioned_minter: String,
    pub deploy_commit_minter: String,
    pub mint_os: String,
}

/// What a bytecode artifact file holds, read as JSON: the text at
/// `key.object`, and the text at `key`, where those are strings.
pub uninterp spec fn json_bytecode(content: Seq<char>, key: Seq<char>) -> Option<(Option<Seq<char>>, Option<Seq<char>>)>;

pub open spec fn opt_text(o: Option<String>) -> Option<Seq<char>> {
    match o {
        Some(s) => Some(s@),
        None => None,
    }
}

/// `serde_json::from_str::<serde_json::Value>` of the artifact, then the
/// strings at `key.object` and at `key`; `None` when it is no JSON.
#[verifier::external_body]
fn bytecode_fields(content: &str, key: &str) -> (r: Option<(Option<String>, Option<String>)>)
    ensures
        match json_bytecode(content@, key@) {
            Some((o, k)) => r matches Some(p) && opt_text(p.0) == o && opt_text(p.1) == k,
            None => r is None,
        },
{
    let json = match serde_json::from_str::<serde_json::Value>(content) {
        Ok(v) => v,
        Err(_) => return None,
    };
    let object = json.get(key).and_then(|b| b.get("object")).and_then(|o| o.as_str()).map(|s| s.to_string());
    let direct = json.get(key).and_then(|b| b.as_str()).map(|s| s.to_string());
    Some((object, direct))
}

/// The bytecode an artifact holds under `key`: `key.object` (Foundry and
/// Hardhat), else `key` (Brownie), else the whole text trimmed.
pub open spec fn artifact_bytecode(content: Seq<char>, key: Seq<char>) -> Seq<char> {
    match json_bytecode(content, key) {
        Some((Some(o), _)) => o,
        Some((None, Some(k))) => k,
        _ => crate::text::trim(content),
    }
}

fn artifact_bytecode_exec(content: &str, key: &str) -> (r: String)
    ensures
        r@ == artifact_bytecode(content@, key@),
{
    match bytecode_fields(content, key) {
        Some((Some(o), _)) => o,
        Some((None, Some(k))) => k,
        _ => string_of(&crate::text::trim_chars(&chars_of(content))),
    }
}

/// The deployed bytecode held by an artifact's text.
pub fn load_deployed_bytecode(content: &str) -> (r: String)
    ensures
        r@ == artifact_bytecode(content@, "deployedBytecode"@),
{
    artifact_bytecode_exec(content, "deployedBytecode")
}

/// The creation bytecode held by the artifact at `path` (`content` is its
/// text); an error when there is none.
pub fn load_creation_bytecode(path: &str, content: &str) -> (r: Result<String, String>)
    ensures
        artifact_bytecode(content@, "bytecode"@).len() > 0 ==> (r matches Ok(b) && b@ == artifact_bytecode(content@, "bytecode"@)),
        artifact_bytecode(content@, "bytecode"@).len() == 0 ==> (r matches Err(e) && e@ == "Could not find creation bytecode in "@ + path@),
{
    let b = artifact_bytecode_exec(content, "bytecode");
    if chars_of(b.as_str()).len() == 0 {
        let mut m = chars_of("Could not find creation bytecode in ");
        push_str(&mut m, path);
        return Err(string_of(&m));
    }
    Ok(b)
}

} // verus!

verus! {

impl ContractMap {
    /// The recorded names and addresses, in the order they were first recorded.
    pub fn entries(&self) -> (r: &Vec<(String, String)>)
        ensures
            as_map(pairs_view(r@)) == self.view(),
            names_unique(pairs_view(r@)) == self.wf(),
    {
        &self.entries
    }

    /// Records every entry of `other`, in its order, over those already here
    /// (`HashMap::extend`).
    pub fn extend(&mut self, other: &ContractMap)
        requires
            old(self).wf(),
            other.wf(),
        ensures
            final(self).wf(),
            final(self).view() == old(self).view().union_prefer_right(other.view()),
    {
        let ghost ov = pairs_view(other.entries@);
        let ghost start = self.view();
        let mut i: usize = 0;
        while i < other.entries.len()
            invariant
                ov == pairs_view(other.entries@),
                i <= other.entries.len(),
                self.wf(),
                self.view() == start.union_prefer_right(as_map(ov.take(i as int))),
            decreases other.entries.len() - i,
        {
            let name = other.entries[i].0.clone();
            let address = other.entries[i].1.clone();
            self.insert(name, address);
            assert(ov.take(i + 1).drop_last() =~= ov.take(i as int));
            assert(ov.take(i + 1).last() == ov[i as int]);
            assert(self.view() =~= start.union_prefer_right(as_map(ov.take(i + 1))));
            i = i + 1;
        }
        assert(ov.take(other.entries.len() as int) =~= ov);
    }
}

/// The contracts the configuration places at known addresses, by name:
/// every contract with both a name and an address, later ones winning.
pub open spec fn preregistered_spec(cs: Seq<ContractConfig>) -> Map<Seq<char>, Seq<char>>
    decreases cs.len(),
{
    if cs.len() == 0 {
        Map::empty()
    } else {
        let rest = preregistered_spec(cs.drop_last());
        match (cs.last().name, cs.last().address) {
            (Some(n), Some(a)) => rest.insert(n@, a@),
            _ => rest,
        }
    }
}

/// The contracts placed at known addresses, recorded before any deployment.
pub fn preregistered(config: &ChainConfig) -> (r: ContractMap)
    ensures
        r.wf(),
        r.view() == preregistered_spec(config.contracts@),
{
    let mut m = ContractMap::new();
    let mut i: usize = 0;
    while i < config.contracts.len()
        invariant
            i <= config.contracts@.len(),
            m.wf(),
            m.view() == preregistered_spec(config.contracts@.take(i as int)),
        decreases config.contracts.len() - i,
    {
        assert(config.contracts@.take(i + 1).drop_last() =~= config.contracts@.take(i as int));
        let c = &config.contracts[i];
        match (&c.name, &c.address) {
            (Some(n), Some(a)) => {
                m.insert(n.clone(), a.clone());
            },
            _ => {},
        }
        i = i + 1;
    }
    assert(config.contracts@.take(config.contracts.len() as int) =~= config.contracts@);
    m
}

/// The creation code sent to deploy a contract: its bytecode, followed by
/// its encoded constructor arguments when it has any (each without `0x`).
pub fn deployment_bytecode(bytecode: String, args: &Vec<ConstructorArg>, deployed: &ContractMap) -> (r: Result<String, ArgError>)
    requires
        deployed.wf(),
    ensures
        args@.len() == 0 ==> (r matches Ok(s) && s@ == bytecode@),
        args@.len() > 0 ==> match encode_args(args_view(args@), deployed.view()) {
            Ok(b) => r matches Ok(s) && s@ == "0x"@ + strip_prefixes(bytecode@, "0x"@) + strip_prefixes("0x"@ + hex_text(b), "0x"@),
            Err(f) => r matches Err(e) && failure_of(e) == f,
        },
{
    if args.len() == 0 {
        return Ok(bytecode);
    }
    let encoded = match encode_constructor_args(args, deployed) {
        Ok(s) => s,
        Err(e) => return Err(e),
    };
    let prefix = chars_of("0x");
    let mut out = chars_of("0x");
    push_all(&mut out, &trim_start_matches(&chars_of(bytecode.as_str()), &prefix));
    push_all(&mut out, &trim_start_matches(&chars_of(encoded.as_str()), &prefix));
    Ok(string_of(&out))
}

/// The address a transaction goes to: its target, a `#name` resolved to
/// that contract; an error for a name that was not deployed.
pub fn transaction_target(target: &String, deployed: &ContractMap) -> (r: Result<String, String>)
    requires
        deployed.wf(),
    ensures
        match resolve_ref(target@, deployed.view()) {
            Ok(s) => r matches Ok(x) && x@ == s,
            Err(n) => r matches Err(e) && e@ == "Reference to unknown contract in transaction target: #"@ + n,
        },
{
    match resolve_ref_exec(target, deployed) {
        Ok(s) => Ok(s),
        Err(name) => {
            let mut m = chars_of("Reference to unknown contract in transaction target: #");
            push_all(&mut m, &name);
            Err(string_of(&m))
        },
    }
}

/// Why a transaction's data could not be built.
pub enum TxDataError {
    /// The arguments could not be encoded.
    Args(ArgError),
    /// Neither data nor a function signature is given; the transaction's name.
    NoData(String),
}

impl TxDataError {
    /// The error as the user reads it.
    pub fn message(&self) -> (r: String)
        ensures
            match self {
                TxDataError::Args(e) => r@ == arg_error_text(*e),
                TxDataError::NoData(name) => r@ == "Transaction '"@ + name@ + "' must have either 'data' or 'function_signature'"@,
            },
    {
        match self {
            TxDataError::Args(e) => e.message(),
            TxDataError::NoData(name) => {
                let mut m = chars_of("Transaction '");
                push_str(&mut m, name.as_str());
                push_str(&mut m, "' must have either 'data' or 'function_signature'");
                string_of(&m)
            },
        }
    }
}

/// A transaction's name, `unnamed` when it has none.
pub open spec fn tx_name(tx: TransactionConfig) -> Seq<char> {
    match tx.name {
        Some(n) => n@,
        None => "unnamed"@,
    }
}

/// The data a configured transaction sends: its inline data, else the
/// encoded call of its function signature; an error when it has neither.
pub fn transaction_data(tx: &TransactionConfig, deployed: &ContractMap) -> (r: Result<String, TxDataError>)
    requires
        deployed.wf(),
    ensures
        tx.data matches Some(d) ==> (r matches Ok(s) && s@ == d@),
        tx.data is None && tx.function_signature is None ==> (r matches Err(TxDataError::NoData(n)) && n@ == tx_name(*tx)),
        tx.data is None && tx.function_signature is Some ==> match call_data(tx.function_signature.unwrap()@, args_view(tx.args@), deployed.view()) {
            Ok(d) => r matches Ok(x) && x@ == d,
            Err(f) => r matches Err(TxDataError::Args(e)) && failure_of(e) == f,
        },
{
    match &tx.data {
        Some(d) => Ok(d.clone()),
        None => match &tx.function_signature {
            Some(sig) => match encode_function_call(sig.as_str(), &tx.args, deployed) {
                Ok(s) => Ok(s),
                Err(e) => Err(TxDataError::Args(e)),
            },
            None => {
                let name = match &tx.name {
                    Some(n) => n.clone(),
                    None => "unnamed".to_owned(),
                };
                Err(TxDataError::NoData(name))
            },
        },
    }
}

} // verus!

verus! {

/// Where the code placed at a configured address comes from.
pub enum CodeSource {
    /// Given inline in the configuration.
    Inline(String),
    /// Read from the deployed bytecode of an artifact file.
    File(String),
    /// No code: only storage is written.
    NoCode,
}

/// What setting a contract up at a known address takes: where, and its
/// code; `None` for a contract that is deployed instead or has no address.
pub fn code_placement(contract: &ContractConfig) -> (r: Option<(String, CodeSource)>)
    ensures
        contract.contract_json_path is Some || contract.address is None ==> r is None,
        contract.contract_json_path is None && contract.address is Some ==> (r matches Some(p) && p.0@ == contract.address.unwrap()@ && match contract.bytecode {
            Some(b) => p.1 matches CodeSource::Inline(x) && x@ == b@,
            None => match contract.deployed_bytecode_path {
                Some(f) => p.1 matches CodeSource::File(x) && x@ == f@,
                None => p.1 is NoCode,
            },
        }),
{
    if contract.contract_json_path.is_some() {
        return None;
    }
    let address = match &contract.address {
        Some(a) => a.clone(),
        None => return None,
    };
    let source = match &contract.bytecode {
        Some(b) => CodeSource::Inline(b.clone()),
        None => match &contract.deployed_bytecode_path {
            Some(f) => CodeSource::File(f.clone()),
            None => CodeSource::NoCode,
        },
    };
    Some((address, source))
}

pub open spec fn storage_pairs(st: Seq<(String, StorageValue)>) -> Seq<(Seq<char>, StorageValue)> {
    st.map_values(|p: (String, StorageValue)| (p.0@, p.1))
}

/// The storage a configured contract gets: each slot and value as hex words,
/// in order; the first value that refers to an unknown contract is the error.
pub open spec fn storage_words(st: Seq<(Seq<char>, StorageValue)>, deployed: Map<Seq<char>, Seq<char>>) -> Result<Seq<(Seq<char>, Seq<char>)>, Seq<char>>
    decreases st.len(),
{
    if st.len() == 0 {
        Ok(seq![])
    } else {
        match storage_words(st.drop_last(), deployed) {
            Err(e) => Err(e),
            Ok(ws) => {
                let (slot, value) = st.last();
                let text = match value {
                    StorageValue::Number(n) => Ok(crate::text::decimal(n as nat)),
                    StorageValue::String(s) => match resolve_ref(s@, deployed) {
                        Ok(v) => Ok(v),
                        Err(n) => Err("Reference to unknown contract: #"@ + n),
                    },
                };
                match text {
                    Ok(t) => Ok(ws.push((hex_word(slot), hex_word(t)))),
                    Err(e) => Err(e),
                }
            },
        }
    }
}

proof fn lemma_storage_err_extend(st: Seq<(Seq<char>, StorageValue)>, deployed: Map<Seq<char>, Seq<char>>, k: int)
    requires
        0 < k <= st.len(),
        storage_words(st.take(k), deployed) is Err,
    ensures
        storage_words(st, deployed) == storage_words(st.take(k), deployed),
    decreases st.len() - k,
{
    if k < st.len() {
        assert(st.take(k + 1).drop_last() =~= st.take(k));
        lemma_storage_err_extend(st, deployed, k + 1);
    } else {
        assert(st.take(k) =~= st);
    }
}

/// The storage writes for a configured contract: slot and value, each a
/// 32-byte hex word.
pub fn storage_writes(storage: &Vec<(String, StorageValue)>, deployed: &ContractMap) -> (r: Result<Vec<(String, String)>, String>)
    requires
        deployed.wf(),
    ensures
        match storage_words(storage_pairs(storage@), deployed.view()) {
            Ok(ws) => r matches Ok(v) && pairs_view(v@) == ws,
            Err(e) => r matches Err(m) && m@ == e,
        },
{
    let ghost sv = storage_pairs(storage@);
    let mut out: Vec<(String, String)> = Vec::new();
    let mut i: usize = 0;
    assert(pairs_view(out@) =~= Seq::<(Seq<char>, Seq<char>)>::empty());
    while i < storage.len()
        invariant
            sv == storage_pairs(storage@),
            deployed.wf(),
            i <= storage.len(),
            storage_words(sv.take(i as int), deployed.view()) == Ok::<Seq<(Seq<char>, Seq<char>)>, Seq<char>>(pairs_view(out@)),
        decreases storage.len() - i,
    {
        assert(sv.take(i + 1).drop_last() =~= sv.take(i as int));
        assert(sv.take(i + 1).last() == sv[i as int]);
        let slot = normalize_slot(storage[i].0.as_str());
        match storage[i].1.to_hex_string(deployed) {
            Ok(v) => {
                let ghost before = out@;
                out.push((slot, v));
                assert(pairs_view(out@) =~= pairs_view(before).push((slot@, v@)));
            },
            Err(e) => {
                proof {
                    lemma_storage_err_extend(sv, deployed.view(), i + 1);
                }
                return Err(e);
            },
        }
        i = i + 1;
    }
    assert(sv.take(storage.len() as int) =~= sv);
    Ok(out)
}

/// The configuration the chain is set up from: the custom one if given,
/// else the default one; an error when there is neither.
pub fn active_config<'a>(default_config: &'a Option<ChainConfig>, custom_config: &'a Option<ChainConfig>) -> (r: Result<&'a ChainConfig, String>)
    ensures
        custom_config matches Some(c) ==> (r matches Ok(x) && *x == c),
        custom_config is None && default_config is Some ==> (r matches Ok(x) && *x == default_config.unwrap()),
        custom_config is None && default_config is None ==> (r matches Err(e) && e@ == "No config file found. Please provide "@ + "./Contracts.toml"@ + " or specify a custom config path"@),
{
    match custom_config {
        Some(c) => Ok(c),
        None => match default_config {
            Some(d) => Ok(d),
            None => {
                let mut m = chars_of("No config file found. Please provide ");
                push_str(&mut m, "./Contracts.toml");
                push_str(&mut m, " or specify a custom config path");
                Err(string_of(&m))
            },
        },
    }
}

/// The arguments `anvil` is started with.
pub fn anvil_args(port: u16, tracing: bool) -> (r: Vec<String>)
    ensures
        pairs_free_view(r@) == seq!["--port"@, crate::text::decimal(port as nat)] + (if tracing { seq!["--tracing"@] } else { Seq::<Seq<char>>::empty() }),
{
    let mut args: Vec<String> = Vec::new();
    args.push("--port".to_owned());
    args.push(string_of(&crate::text::decimal_exec(port as u64)));
    if tracing {
        args.push("--tracing".to_owned());
    }
    assert(pairs_free_view(args@) =~= seq!["--port"@, crate::text::decimal(port as nat)] + (if tracing { seq!["--tracing"@] } else { Seq::<Seq<char>>::empty() }));
    args
}

pub open spec fn pairs_free_view(v: Seq<String>) -> Seq<Seq<char>> {
    v.map_values(|s: String| s@)
}

/// Anvil answers a block number query with a `0x` number once it is ready.
pub fn anvil_ready(block_number: &Option<String>) -> (r: bool)
    ensures
        r == (block_number matches Some(b) && has_prefix(b@, "0x"@)),
{
    match block_number {
        Some(b) => starts_with(&chars_of(b.as_str()), &chars_of("0x")),
        None => false,
    }
}

/// Whether code is deployed, from the reply to `eth_getCode` (no reply
/// counts as `0x`, no code).
pub fn has_code(code: &Option<String>) -> (r: bool)
    ensures
        r == (code matches Some(c) && c@ != "0x"@),
{
    match code {
        Some(c) => !crate::naming::eq_lit(&chars_of(c.as_str()), "0x"),
        None => false,
    }
}

/// The calldata of `tbaOf(0)`.
pub fn tba_of_zero_calldata() -> (r: String)
    ensures
        r@ == "0x27244d1e0000000000000000000000000000000000000000000000000000000000000000"@,
{
    "0x27244d1e0000000000000000000000000000000000000000000000000000000000000000".to_owned()
}

/// A transaction nonce as the JSON-RPC quantity `0x` and lower-case hex.
pub fn nonce_param(nonce: u64) -> (r: String)
    ensures
        r@ == "0x"@ + lower_hex(nonce as nat),
{
    let mut c = chars_of("0x");
    push_all(&mut c, &lower_hex_exec(nonce));
    string_of(&c)
}

} // verus!

verus! {

/// Where starting the chain stands; `spawned` when this run started the
/// anvil.
pub enum StartState {
    /// The configurations are being read.
    Begin,
    /// Asked whether an anvil already answers on the port.
    Probing,
    /// Started an anvil and waiting for it to answer.
    Starting,
    /// Deploying the configured contracts.
    Deploying { spawned: bool },
    /// Reading the contract addresses (`ContractAddresses::from_config`).
    Loading { spawned: bool },
    /// Asking whether the `.os` TBA has code, i.e. the chain was set up.
    Checking { spawned: bool },
    /// Placing code and storage, sending the configured transactions and
    /// initializing the contracts.
    Configuring { spawned: bool },
    /// Checking the Hypermap contract of an anvil this run started.
    Verifying,
    /// Nothing more to do.
    Finished,
}

/// What happened last while starting the chain.
pub enum StartEvent {
    /// The configurations were read: which of the default and the custom
    /// one exist.
    ConfigsRead { has_default: bool, has_custom: bool },
    /// The probe of the port ended: whether an anvil answered.
    Probed { running: bool },
    /// Waiting for the started anvil ended: whether it answered.
    AnvilReady { ok: bool },
    /// Deploying ended: whether it succeeded.
    Deployed { ok: bool },
    /// Reading the addresses ended: whether it succeeded.
    AddressesLoaded { ok: bool },
    /// Asking for the `.os` TBA's code ended: whether the question could be
    /// asked, and whether it has code.
    TbaChecked { ok: bool, has_code: bool },
    /// Configuring ended: whether it succeeded.
    Configured { ok: bool },
    /// Checking the Hypermap contract ended: whether it succeeded.
    Verified { ok: bool },
}

/// What to do next.
pub enum StartAction {
    /// Ask once whether an anvil answers on the port.
    Probe,
    /// Start an anvil and wait for it.
    SpawnAnvil,
    /// Deploy the configured contracts.
    Deploy,
    /// Read the contract addresses.
    LoadAddresses,
    /// Ask whether the `.os` TBA has code.
    CheckTba,
    /// Place code and storage, send the transactions, initialize.
    Configure,
    /// Check the Hypermap contract.
    Verify,
    /// Fail: no configuration was found.
    FailNoConfig,
    /// Fail with the error of the last step (a started anvil is left
    /// running).
    Fail,
    /// Kill the anvil this run started, then fail with the last error.
    KillAndFail,
    /// Done; `with_child` when the started anvil is handed back.
    Done { with_child: bool },
    /// The event does not belong to this state: nothing to do.
    Ignore,
}

/// After the chain is set up: an anvil this run started is checked, one
/// that was running is done with.
pub open spec fn after_set_up(spawned: bool) -> (StartState, StartAction) {
    if spawned {
        (StartState::Verifying, StartAction::Verify)
    } else {
        (StartState::Finished, StartAction::Done { with_child: false })
    }
}

/// A failed step: an anvil this run started is killed when `kill` says so.
pub open spec fn failed(spawned: bool, kill: bool) -> (StartState, StartAction) {
    (StartState::Finished, if spawned && kill {
        StartAction::KillAndFail
    } else {
        StartAction::Fail
    })
}

/// The decisions of starting a chain. The configurations are checked
/// first: without any, it fails before probing or starting anything. An
/// anvil that already answers is set up without starting another, and
/// nothing is handed back; otherwise one is started, set up and checked.
/// Setting up deploys, reads the addresses, and configures the chain unless
/// the `.os` TBA already has code. A started anvil is killed when waiting
/// for it, deploying, configuring or checking fails, and left running when
/// reading the addresses or asking for the TBA's code fails.
pub open spec fn start_spec(state: StartState, event: StartEvent) -> (StartState, StartAction) {
    match (state, event) {
        (StartState::Begin, StartEvent::ConfigsRead { has_default, has_custom }) => if has_default
            || has_custom {
            (StartState::Probing, StartAction::Probe)
        } else {
            (StartState::Finished, StartAction::FailNoConfig)
        },
        (StartState::Probing, StartEvent::Probed { running }) => if running {
            (StartState::Deploying { spawned: false }, StartAction::Deploy)
        } else {
            (StartState::Starting, StartAction::SpawnAnvil)
        },
        (StartState::Starting, StartEvent::AnvilReady { ok }) => if ok {
            (StartState::Deploying { spawned: true }, StartAction::Deploy)
        } else {
            (StartState::Finished, StartAction::KillAndFail)
        },
        (StartState::Deploying { spawned }, StartEvent::Deployed { ok }) => if ok {
            (StartState::Loading { spawned }, StartAction::LoadAddresses)
        } else {
            failed(spawned, true)
        },
        (StartState::Loading { spawned }, StartEvent::AddressesLoaded { ok }) => if ok {
            (StartState::Checking { spawned }, StartAction::CheckTba)
        } else {
            failed(spawned, false)
        },
        (StartState::Checking { spawned }, StartEvent::TbaChecked { ok, has_code }) => if !ok {
            failed(spawned, false)
        } else if has_code {
            after_set_up(spawned)
        } else {
            (StartState::Configuring { spawned }, StartAction::Configure)
        },
        (StartState::Configuring { spawned }, StartEvent::Configured { ok }) => if ok {
            after_set_up(spawned)
        } else {
            failed(spawned, true)
        },
        (StartState::Verifying, StartEvent::Verified { ok }) => if ok {
            (StartState::Finished, StartAction::Done { with_child: true })
        } else {
            (StartState::Finished, StartAction::KillAndFail)
        },
        (s, _) => (s, StartAction::Ignore),
    }
}

fn after_set_up_exec(spawned: bool) -> (r: (StartState, StartAction))
    ensures
        r == after_set_up(spawned),
{
    if spawned {
        (StartState::Verifying, StartAction::Verify)
    } else {
        (StartState::Finished, StartAction::Done { with_child: false })
    }
}

fn failed_exec(spawned: bool, kill: bool) -> (r: (StartState, StartAction))
    ensures
        r == failed(spawned, kill),
{
    (StartState::Finished, if spawned && kill {
        StartAction::KillAndFail
    } else {
        StartAction::Fail
    })
}

/// One step of starting a chain, as `start_spec` decides it.
pub fn start_step(state: StartState, event: StartEvent) -> (r: (StartState, StartAction))
    ensures
        r == start_spec(state, event),
{
    match (state, event) {
        (StartState::Begin, StartEvent::ConfigsRead { has_default, has_custom }) => if has_default
            || has_custom {
            (StartState::Probing, StartAction::Probe)
        } else {
            (StartState::Finished, StartAction::FailNoConfig)
        },
        (StartState::Probing, StartEvent::Probed { running }) => if running {
            (StartState::Deploying { spawned: false }, StartAction::Deploy)
        } else {
            (StartState::Starting, StartAction::SpawnAnvil)
        },
        (StartState::Starting, StartEvent::AnvilReady { ok }) => if ok {
            (StartState::Deploying { spawned: true }, StartAction::Deploy)
        } else {
            (StartState::Finished, StartAction::KillAndFail)
        },
        (StartState::Deploying { spawned }, StartEvent::Deployed { ok }) => if ok {
            (StartState::Loading { spawned }, StartAction::LoadAddresses)
        } else {
            failed_exec(spawned, true)
        },
        (StartState::Loading { spawned }, StartEvent::AddressesLoaded { ok }) => if ok {
            (StartState::Checking { spawned }, StartAction::CheckTba)
        } else {
            failed_exec(spawned, false)
        },
        (StartState::Checking { spawned }, StartEvent::TbaChecked { ok, has_code }) => if !ok {
            failed_exec(spawned, false)
        } else if has_code {
            after_set_up_exec(spawned)
        } else {
            (StartState::Configuring { spawned }, StartAction::Configure)
        },
        (StartState::Configuring { spawned }, StartEvent::Configured { ok }) => if ok {
            after_set_up_exec(spawned)
        } else {
            failed_exec(spawned, true)
        },
        (StartState::Verifying, StartEvent::Verified { ok }) => if ok {
            (StartState::Finished, StartAction::Done { with_child: true })
        } else {
            (StartState::Finished, StartAction::KillAndFail)
        },
        (s, _) => (s, StartAction::Ignore),
    }
}

/// Starting a chain without any configuration fails at once, before any
/// probe or start of anvil; an anvil that already answers is deployed to
/// without starting another one, and nothing is handed back for it; an
/// anvil this run started is killed when deploying or configuring fails,
/// but not when reading the addresses fails.
pub proof fn lemma_start_order(has_default: bool, has_custom: bool, spawned: bool, ok: bool)
    ensures
        !has_default && !has_custom ==> start_spec(
            StartState::Begin,
            StartEvent::ConfigsRead { has_default, has_custom },
        ) == (StartState::Finished, StartAction::FailNoConfig),
        has_default || has_custom ==> start_spec(
            StartState::Begin,
            StartEvent::ConfigsRead { has_default, has_custom },
        ).1 == StartAction::Probe,
        start_spec(StartState::Probing, StartEvent::Probed { running: true }).1 == StartAction::Deploy,
        start_spec(StartState::Configuring { spawned: false }, StartEvent::Configured { ok: true }).1
            == (StartAction::Done { with_child: false }),
        spawned && !ok ==> start_spec(StartState::Deploying { spawned }, StartEvent::Deployed { ok }).1
            == StartAction::KillAndFail,
        spawned && !ok ==> start_spec(StartState::Configuring { spawned }, StartEvent::Configured { ok }).1
            == StartAction::KillAndFail,
        !ok ==> start_spec(StartState::Loading { spawned }, StartEvent::AddressesLoaded { ok }).1
            == StartAction::Fail,
        !ok ==> start_spec(StartState::Starting, StartEvent::AnvilReady { ok }).1 == StartAction::KillAndFail,
        !ok ==> start_spec(StartState::Verifying, StartEvent::Verified { ok }).1 == StartAction::KillAndFail,
{
}

} // verus!

verus! {

/// How often the receipt of a deployment is asked for before giving up on
/// its address.
pub const RECEIPT_POLLS: u32 = 10;

/// Where deploying a configuration's contracts stands.
pub enum DeployPhase {
    /// Nothing sent yet.
    Idle,
    /// The creation transaction of the contract at `index` is being sent.
    Sending,
    /// Asking for the receipt of that transaction.
    Polling,
    /// Recording the address the receipt gave.
    Recording,
    /// All contracts are done.
    Done,
}

/// The phase, the contract at hand, the nonce its transaction uses and how
/// often its receipt was asked for.
pub struct DeployState {
    pub phase: DeployPhase,
    pub index: usize,
    pub nonce: u64,
    pub polls: u32,
}

/// What happened last while deploying.
pub enum DeployEvent {
    /// Deploying began; the owner's account has `nonce` as its next nonce.
    Started { nonce: u64 },
    /// Sending the creation transaction ended: whether it was accepted.
    Sent { ok: bool },
    /// A receipt was asked for (after a short wait): whether it named the
    /// contract's address.
    Polled { found: bool },
    /// The address was recorded under the contract's name.
    Recorded,
}

/// What to do next.
pub enum DeployAction {
    /// Send the creation transaction of the contract at `index` (its
    /// bytecode with the encoded constructor arguments) with `nonce`.
    Send { index: usize, nonce: u64 },
    /// Wait a moment and ask for the receipt.
    Poll,
    /// Record the address the receipt gave under the name of the contract
    /// at `index`.
    Record { index: usize },
    /// Every contract is done.
    Finished,
    /// The event does not belong to this state: nothing to do.
    Ignore,
}

/// The position of the first contract from `from` on that has a build
/// artifact to deploy from.
pub open spec fn first_artifact(cs: Seq<ContractConfig>, from: int) -> Option<int>
    decreases cs.len() - from,
{
    if from < 0 || from >= cs.len() {
        None
    } else if cs[from].contract_json_path is Some {
        Some(from)
    } else {
        first_artifact(cs, from + 1)
    }
}

/// Sending the next contract with an artifact from `from` on, with `nonce`;
/// done when there is none.
pub open spec fn send_from(cs: Seq<ContractConfig>, from: int, nonce: u64) -> (DeployState, DeployAction) {
    match first_artifact(cs, from) {
        Some(i) => (
            DeployState { phase: DeployPhase::Sending, index: i as usize, nonce, polls: 0 },
            DeployAction::Send { index: i as usize, nonce },
        ),
        None => (DeployState { phase: DeployPhase::Done, index: 0, nonce, polls: 0 }, DeployAction::Finished),
    }
}

/// Moving on past the contract at hand: the next one uses the next nonce,
/// whether or not this one was deployed.
pub open spec fn advance(cs: Seq<ContractConfig>, s: DeployState) -> (DeployState, DeployAction) {
    send_from(cs, s.index + 1, (s.nonce + 1) as u64)
}

/// The decisions of deploying a configuration's contracts: those without a
/// build artifact are skipped; each other one is sent in order with the
/// next nonce, one nonce per contract sent whether or not it is accepted;
/// the receipt of an accepted one is asked for up to `RECEIPT_POLLS` times,
/// and the address it gives is recorded when the contract has a name.
pub open spec fn deploy_spec(cs: Seq<ContractConfig>, s: DeployState, e: DeployEvent) -> (DeployState, DeployAction) {
    match (s.phase, e) {
        (DeployPhase::Idle, DeployEvent::Started { nonce }) => send_from(cs, 0, nonce),
        (DeployPhase::Sending, DeployEvent::Sent { ok }) => if ok {
            (DeployState { phase: DeployPhase::Polling, polls: 0, ..s }, DeployAction::Poll)
        } else {
            advance(cs, s)
        },
        (DeployPhase::Polling, DeployEvent::Polled { found }) => {
            let p = (s.polls + 1) as u32;
            if found {
                if s.index < cs.len() && cs[s.index as int].name is Some {
                    (
                        DeployState { phase: DeployPhase::Recording, polls: p, ..s },
                        DeployAction::Record { index: s.index },
                    )
                } else {
                    advance(cs, s)
                }
            } else if p < RECEIPT_POLLS {
                (DeployState { phase: DeployPhase::Polling, polls: p, ..s }, DeployAction::Poll)
            } else {
                advance(cs, s)
            }
        },
        (DeployPhase::Recording, DeployEvent::Recorded) => advance(cs, s),
        (_, _) => (s, DeployAction::Ignore),
    }
}

fn send_from_exec(cs: &Vec<ContractConfig>, from: usize, nonce: u64) -> (r: (DeployState, DeployAction))
    ensures
        r == send_from(cs@, from as int, nonce),
{
    let mut i = from;
    while i < cs.len()
        invariant
            from <= i,
            first_artifact(cs@, from as int) == first_artifact(cs@, i as int),
        decreases cs.len() - i,
    {
        if cs[i].contract_json_path.is_some() {
            return (
                DeployState { phase: DeployPhase::Sending, index: i, nonce, polls: 0 },
                DeployAction::Send { index: i, nonce },
            );
        }
        i = i + 1;
    }
    (DeployState { phase: DeployPhase::Done, index: 0, nonce, polls: 0 }, DeployAction::Finished)
}

fn advance_exec(cs: &Vec<ContractConfig>, s: DeployState) -> (r: (DeployState, DeployAction))
    requires
        s.nonce < u64::MAX,
    ensures
        r == advance(cs@, s),
{
    if s.index >= cs.len() {
        return (DeployState { phase: DeployPhase::Done, index: 0, nonce: s.nonce + 1, polls: 0 }, DeployAction::Finished);
    }
    send_from_exec(cs, s.index + 1, s.nonce + 1)
}

/// One step of deploying the contracts `cs`, as `deploy_spec` decides it.
pub fn deploy_step(cs: &Vec<ContractConfig>, s: DeployState, e: DeployEvent) -> (r: (DeployState, DeployAction))
    requires
        s.nonce < u64::MAX,
        s.polls < u32::MAX,
    ensures
        r == deploy_spec(cs@, s, e),
{
    match (&s.phase, e) {
        (DeployPhase::Idle, DeployEvent::Started { nonce }) => send_from_exec(cs, 0, nonce),
        (DeployPhase::Sending, DeployEvent::Sent { ok }) => if ok {
            (DeployState { phase: DeployPhase::Polling, index: s.index, nonce: s.nonce, polls: 0 }, DeployAction::Poll)
        } else {
            advance_exec(cs, s)
        },
        (DeployPhase::Polling, DeployEvent::Polled { found }) => {
            let p = s.polls + 1;
            if found {
                if s.index < cs.len() && cs[s.index].name.is_some() {
                    (
                        DeployState { phase: DeployPhase::Recording, index: s.index, nonce: s.nonce, polls: p },
                        DeployAction::Record { index: s.index },
                    )
                } else {
                    advance_exec(cs, s)
                }
            } else if p < RECEIPT_POLLS {
                (DeployState { phase: DeployPhase::Polling, index: s.index, nonce: s.nonce, polls: p }, DeployAction::Poll)
            } else {
                advance_exec(cs, s)
            }
        },
        (DeployPhase::Recording, DeployEvent::Recorded) => advance_exec(cs, s),
        (_, _) => (s, DeployAction::Ignore),
    }
}

} // verus!

verus! {

proof fn lemma_small_word(n: nat, i: int)
    requires
        n <= 1,
        0 <= i < 32,
    ensures
        be_word(n)[i] == (if i == 31 { n as u8 } else { 0u8 }),
{
    vstd::arithmetic::power::lemma_pow_positive(256, (31 - i) as nat);
    if i == 31 {
        vstd::arithmetic::power::lemma_pow0(256);
    } else {
        vstd::arithmetic::power::lemma_pow1(256);
        vstd::arithmetic::power::lemma_pow_increases(256, 1, (31 - i) as nat);
        vstd::arithmetic::div_mod::lemma_basic_div(n as int, vstd::arithmetic::power::pow(256, (31 - i) as nat));
    }
}

/// A `bool` argument encodes as one ABI word: `false` as the word of zeros,
/// `true` as the word ending in 1, so the two differ; any other text is
/// refused.
pub proof fn lemma_bool_argument_words(v: Seq<char>)
    ensures
        encode_value("bool"@, v) is Ok <==> (v == "true"@ || v == "false"@),
        encode_value("bool"@, v) matches Ok(w) ==> w.len() == 32 && (forall|i: int|
            0 <= i < 31 ==> #[trigger] w[i] == 0u8) && w[31] == (if v == "true"@ {
            1u8
        } else {
            0u8
        }),
        encode_value("bool"@, "true"@) != encode_value("bool"@, "false"@),
{
    reveal_strlit("bool");
    reveal_strlit("address");
    reveal_strlit("uint256");
    reveal_strlit("uint");
    reveal_strlit("string");
    reveal_strlit("bytes");
    reveal_strlit("true");
    reveal_strlit("false");
    assert("bool"@.len() == 4 && "address"@.len() == 7 && "uint256"@.len() == 7);
    assert("bool"@ != "uint"@) by {
        assert("bool"@[0] == 'b' && "uint"@[0] == 'u');
    }
    assert("bool"@ != "string"@ && "bool"@ != "bytes"@ && "bool"@ != "address"@ && "bool"@
        != "uint256"@);
    assert("true"@ != "false"@);
    assert forall|i: int| 0 <= i < 32 implies be_word(0)[i] == (if i == 31 { 0u8 } else { 0u8 })
        && be_word(1)[i] == (if i == 31 { 1u8 } else { 0u8 }) by {
        lemma_small_word(0, i);
        lemma_small_word(1, i);
    }
    assert(be_word(0)[31] != be_word(1)[31]);
}

} // verus!
