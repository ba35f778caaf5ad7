//! The state and endpoint logic of the process templates `kit new` writes:
//! the echo processes, the key-value framework process, and the todo list.
use vstd::prelude::*;
use crate::text::{chars_of, trim, trim_chars};

verus! {

/// The (empty) state of the hyperapp echo template.
pub struct HyperappEchoState {}

/// The argument of the echo endpoint.
pub struct Argument {
    pub header: String,
    pub body: String,
}

/// The reply of the echo endpoint.
pub struct ReturnValue {
    pub response: String,
}

impl Default for HyperappEchoState {
    fn default() -> (r: HyperappEchoState)
        ensures
            r == (HyperappEchoState {}),
    {
        HyperappEchoState {}
    }
}

impl HyperappEchoState {
    /// Answers any argument with `Ack`.
    pub fn echo(&self, arg: Argument) -> (r: ReturnValue)
        ensures
            r.response@ == "Ack"@,
    {
        ReturnValue { response: "Ack".to_owned() }
    }
}

/// The (empty) state of the hypr echo template.
pub struct HyprEchoState {}

/// The request of the hypr echo endpoint.
pub struct HyprEchoReq {
    pub payload: String,
}

/// The reply of the hypr echo endpoint.
pub struct HyprEchoResp {
    pub payload: String,
}

impl Default for HyprEchoState {
    fn default() -> (r: HyprEchoState)
        ensures
            r == (HyprEchoState {}),
    {
        HyprEchoState {}
    }
}

/// A WebSocket text message to push to a channel.
pub struct WsPush {
    pub channel_id: u32,
    pub mime: String,
    pub bytes: Vec<u8>,
}

/// Printable ASCII that JSON strings hold without escapes.
pub open spec fn json_plain(s: Seq<char>) -> bool {
    forall|i: int| 0 <= i < s.len() ==> ' ' <= #[trigger] s[i] && s[i] <= '~' && s[i] != '"' && s[i] != '\\'
}

/// `serde_json::to_vec` of a string: a JSON string literal. Text of
/// printable ASCII without quotes or backslashes is written as it is,
/// between double quotes; serialising a string does not fail.
#[verifier::external_body]
fn json_string_bytes(s: &str) -> (r: Vec<u8>)
    ensures
        json_plain(s@) ==> r@ == seq![0x22u8] + s@.map_values(|c: char| c as u8) + seq![0x22u8],
{
    serde_json::to_vec(s).unwrap()
}

impl HyprEchoState {
    /// Answers a WebSocket message on `channel_id` with the JSON text
    /// `"Ack"` on the same channel.
    pub fn ws_echo(&mut self, channel_id: u32) -> (r: WsPush)
        ensures
            r.channel_id == channel_id,
            r.mime@ == "application/json"@,
            r.bytes@ == seq![0x22u8, 0x41u8, 0x63u8, 0x6bu8, 0x22u8],
    {
        proof {
            reveal_strlit("Ack");
            assert(json_plain("Ack"@));
            assert("Ack"@.map_values(|c: char| c as u8) =~= seq![0x41u8, 0x63u8, 0x6bu8]);
        }
        let bytes = json_string_bytes("Ack");
        WsPush { channel_id, mime: "application/json".to_owned(), bytes }
    }

    /// Answers any request with the payload `Ack`.
    pub fn echo(&self, req: HyprEchoReq) -> (r: HyprEchoResp)
        ensures
            r.payload@ == "Ack"@,
    {
        HyprEchoResp { payload: "Ack".to_owned() }
    }
}

/// The framework process template's state: entries by key, each key once,
/// in the order keys were first stored.
pub struct FrameworkProcessState {
    pub state: Vec<(String, String)>,
}

pub open spec fn entries_view(v: Seq<(String, String)>) -> Seq<(Seq<char>, Seq<char>)> {
    v.map_values(|p: (String, String)| (p.0@, p.1@))
}

/// No key is stored twice.
pub open spec fn keys_unique(v: Seq<(Seq<char>, Seq<char>)>) -> bool {
    forall|i: int, j: int| 0 <= i < j < v.len() ==> v[i].0 != v[j].0
}

/// The position of the entry with key `k`, from `j` on.
pub open spec fn key_index(v: Seq<(Seq<char>, Seq<char>)>, k: Seq<char>, j: int) -> Option<int>
    decreases v.len() - j,
{
    if j < 0 || j >= v.len() {
        None
    } else if v[j].0 == k {
        Some(j)
    } else {
        key_index(v, k, j + 1)
    }
}

/// The entries after storing `v` under `k`.
pub open spec fn stored(es: Seq<(Seq<char>, Seq<char>)>, k: Seq<char>, v: Seq<char>) -> Seq<
    (Seq<char>, Seq<char>),
> {
    match key_index(es, k, 0) {
        Some(i) => es.update(i, (k, v)),
        None => es.push((k, v)),
    }
}

/// The stored values, in order.
pub open spec fn values_of(es: Seq<(Seq<char>, Seq<char>)>) -> Seq<Seq<char>> {
    es.map_values(|p: (Seq<char>, Seq<char>)| p.1)
}

pub open spec fn strings_view(v: Seq<String>) -> Seq<Seq<char>> {
    v.map_values(|s: String| s@)
}

impl FrameworkProcessState {
    /// Starts with no entries.
    pub fn initialize(&mut self)
        ensures
            final(self).state@.len() == 0,
    {
        self.state = Vec::new();
    }

    fn insert_entry(&mut self, value: String)
        ensures
            entries_view(final(self).state@) == stored(entries_view(old(self).state@), value@, value@),
    {
        let ghost es = entries_view(self.state@);
        let mut j: usize = 0;
        while j < self.state.len()
            invariant
                es == entries_view(self.state@),
                es == entries_view(old(self).state@),
                j <= self.state.len(),
                key_index(es, value@, 0) == key_index(es, value@, j as int),
            decreases self.state.len() - j,
        {
            assert(es[j as int].0 == self.state[j as int].0@);
            if self.state[j].0 == value {
                assert(key_index(es, value@, j as int) == Some(j as int));
                self.state.set(j, (value.clone(), value));
                assert(entries_view(self.state@) =~= es.update(j as int, (es[j as int].0, es[j as int].0)));
                assert(stored(es, value@, value@) == es.update(j as int, (value@, value@)));
                return;
            }
            j = j + 1;
        }
        self.state.push((value.clone(), value));
        assert(entries_view(self.state@) =~= es.push((value@, value@)));
    }

    fn values(&self) -> (r: Vec<String>)
        ensures
            strings_view(r@) == values_of(entries_view(self.state@)),
    {
        let ghost es = entries_view(self.state@);
        let mut r: Vec<String> = Vec::new();
        let mut i: usize = 0;
        while i < self.state.len()
            invariant
                es == entries_view(self.state@),
                i <= self.state.len(),
                strings_view(r@) == values_of(es.take(i as int)),
            decreases self.state.len() - i,
        {
            let ghost before = r@;
            r.push(self.state[i].1.clone());
            assert(strings_view(r@) =~= strings_view(before).push(es[i as int].1));
            assert(values_of(es.take(i + 1)) =~= values_of(es.take(i as int)).push(es[i as int].1));
            i = i + 1;
        }
        assert(es.take(self.state.len() as int) =~= es);
        r
    }

    /// Stores `value` under itself.
    pub fn add_to_state(&mut self, value: String) -> (r: Result<bool, String>)
        ensures
            entries_view(final(self).state@) == stored(entries_view(old(self).state@), value@, value@),
            r == Ok::<bool, String>(true),
    {
        self.insert_entry(value);
        Ok(true)
    }

    /// The stored values.
    pub fn get_state(&self) -> (r: Result<Vec<String>, String>)
        ensures
            r matches Ok(v) && strings_view(v@) == values_of(entries_view(self.state@)),
    {
        Ok(self.values())
    }

    /// The stored values (the argument is not used).
    pub fn view_state(&self, empty: String) -> (r: Result<Vec<String>, String>)
        ensures
            r matches Ok(v) && strings_view(v@) == values_of(entries_view(self.state@)),
    {
        Ok(self.values())
    }

    /// Stores `value` under itself.
    pub fn submit_entry(&mut self, value: String) -> (r: Result<bool, String>)
        ensures
            entries_view(final(self).state@) == stored(entries_view(old(self).state@), value@, value@),
            r == Ok::<bool, String>(true),
    {
        self.insert_entry(value);
        Ok(true)
    }
}

} // verus!

verus! {

proof fn lemma_key_index_found(es: Seq<(Seq<char>, Seq<char>)>, k: Seq<char>, j: int)
    requires
        0 <= j,
    ensures
        key_index(es, k, j) matches Some(i) ==> j <= i < es.len() && es[i].0 == k,
        key_index(es, k, j) is None ==> forall|i: int| j <= i < es.len() ==> es[i].0 != k,
    decreases es.len() - j,
{
    if j < es.len() && es[j].0 != k {
        lemma_key_index_found(es, k, j + 1);
    }
}

/// Storing keeps every key once, and what is stored under a key can be read
/// back: after `stored(es, k, v)` the entry for `k` holds `v`, and the other
/// entries are as they were.
pub proof fn lemma_stored_read_back(es: Seq<(Seq<char>, Seq<char>)>, k: Seq<char>, v: Seq<char>)
    requires
        keys_unique(es),
    ensures
        keys_unique(stored(es, k, v)),
        key_index(stored(es, k, v), k, 0) matches Some(i) && stored(es, k, v)[i].1 == v,
        forall|i: int| 0 <= i < es.len() && es[i].0 != k ==> #[trigger] stored(es, k, v)[i] == es[i],
{
    lemma_key_index_found(es, k, 0);
    let s = stored(es, k, v);
    lemma_key_index_found(s, k, 0);
    match key_index(es, k, 0) {
        Some(i) => {
            assert(s[i].0 == k);
            assert forall|a: int, b: int| 0 <= a < b < s.len() implies s[a].0 != s[b].0 by {
                assert(s[a].0 == es[a].0 && s[b].0 == es[b].0);
            }
            if let Some(p) = key_index(s, k, 0) {
                assert(p == i);
            }
        },
        None => {
            assert(s[es.len() as int].0 == k);
            assert forall|a: int, b: int| 0 <= a < b < s.len() implies s[a].0 != s[b].0 by {
                if b < es.len() {
                    assert(s[a] == es[a] && s[b] == es[b]);
                }
            }
            if let Some(p) = key_index(s, k, 0) {
                assert(p == es.len());
            }
        },
    }
}

} // verus!
