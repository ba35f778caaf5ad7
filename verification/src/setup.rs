//! The decisions of `kit setup`: which tool versions qualify, which
//! dependencies are missing, what to ask the user and which commands
//! install what is missing.
use vstd::prelude::*;
use crate::text::{
    chars_of, string_of, push_all, push_str, split_char, split_char_exec, strip_prefixes,
    trim_start_matches, views, join, join_exec, trim, trim_chars, split_ws, split_whitespace,
    lines, lines_exec, contains_sub, contains_exec, find_char_from, find_char_at,
    lemma_find_char_from, slice_of, lemma_split_char_from_len,
};
use crate::casing::{lower_text, str_lower};
use crate::naming::eq_lit;

verus! {

pub const REQUIRED_NODE_MAJOR: u32 = 20;

pub const MINIMUM_NODE_MINOR: u32 = 0;

pub const MINIMUM_NPM_MAJOR: u32 = 9;

pub const MINIMUM_NPM_MINOR: u32 = 0;

pub const REQUIRED_PY_MAJOR: u32 = 3;

pub const MINIMUM_PY_MINOR: u32 = 10;

/// A tool `kit` needs.
#[derive(Clone, Copy, Debug, PartialEq, Eq, Structural)]
pub enum Dependency {
    Foundry,
    Nvm,
    Npm,
    Node,
    Rust,
    RustWasm32Wasi,
    WasmTools,
    Docker,
}

/// How a dependency is named to the user.
pub open spec fn dep_text(d: Dependency) -> Seq<char> {
    match d {
        Dependency::Foundry => "foundry"@,
        Dependency::Nvm => "nvm v0.39.7"@,
        Dependency::Npm => "npm 9.0"@,
        Dependency::Node => "node 20.0"@,
        Dependency::Rust => "rust"@,
        Dependency::RustWasm32Wasi => "rust wasm32-wasip1 target"@,
        Dependency::WasmTools => "wasm-tools"@,
        Dependency::Docker => "docker"@,
    }
}

pub open spec fn deps_texts(ds: Seq<Dependency>) -> Seq<Seq<char>> {
    ds.map_values(|d: Dependency| dep_text(d))
}

impl Dependency {
    /// The dependency's name as shown to the user (its `Display` text).
    pub fn text(&self) -> (r: String)
        ensures
            r@ == dep_text(*self),
    {
        match self {
            Dependency::Foundry => "foundry".to_owned(),
            Dependency::Nvm => "nvm v0.39.7".to_owned(),
            Dependency::Npm => "npm 9.0".to_owned(),
            Dependency::Node => "node 20.0".to_owned(),
            Dependency::Rust => "rust".to_owned(),
            Dependency::RustWasm32Wasi => "rust wasm32-wasip1 target".to_owned(),
            Dependency::WasmTools => "wasm-tools".to_owned(),
            Dependency::Docker => "docker".to_owned(),
        }
    }
}

/// The dependencies' names, separated by `, `.
pub fn dependencies_text(deps: &Vec<Dependency>) -> (r: String)
    ensures
        r@ == join(deps_texts(deps@), ", "@),
{
    let mut parts: Vec<Vec<char>> = Vec::new();
    let mut i: usize = 0;
    while i < deps.len()
        invariant
            i <= deps.len(),
            views(parts@) == deps_texts(deps@).take(i as int),
        decreases deps.len() - i,
    {
        let t = chars_of(deps[i].text().as_str());
        proof {
            crate::text::lemma_views_push(parts@, t);
            assert(deps_texts(deps@).take(i + 1) =~= deps_texts(deps@).take(i as int).push(
                dep_text(deps@[i as int]),
            ));
        }
        parts.push(t);
        i = i + 1;
    }
    assert(deps_texts(deps@).take(deps.len() as int) =~= deps_texts(deps@));
    string_of(&join_exec(&parts, &chars_of(", ")))
}

/// Both parts of the installed version reach the required ones.
pub fn compare_versions_min_major(installed_version: (u32, u32), required_version: (u32, u32)) -> (r:
    bool)
    ensures
        r == (installed_version.0 >= required_version.0 && installed_version.1
            >= required_version.1),
{
    installed_version.0 >= required_version.0 && installed_version.1 >= required_version.1
}

pub open spec fn is_digit(c: char) -> bool {
    '0' <= c && c <= '9'
}

/// The number written by the decimal digits `d`.
pub open spec fn digits_value(d: Seq<char>) -> nat
    decreases d.len(),
{
    if d.len() == 0 {
        0
    } else {
        digits_value(d.drop_last()) * 10 + ((d.last() as u32) - ('0' as u32)) as nat
    }
}

/// The digits of an unsigned number: the text after an optional `+`.
pub open spec fn unsigned_digits(s: Seq<char>) -> Seq<char> {
    if s.len() > 0 && s[0] == '+' {
        s.drop_first()
    } else {
        s
    }
}

pub open spec fn all_digits(d: Seq<char>) -> bool {
    forall|i: int| 0 <= i < d.len() ==> is_digit(#[trigger] d[i])
}

/// `u32`'s `from_str`: an optional `+`, then one or more decimal digits,
/// of a value that fits in 32 bits.
pub open spec fn parse_u32(s: Seq<char>) -> Option<u32> {
    let d = unsigned_digits(s);
    if d.len() > 0 && all_digits(d) && digits_value(d) <= u32::MAX {
        Some(digits_value(d) as u32)
    } else {
        None
    }
}

/// Reads a decimal `u32` the way `str::parse::<u32>` does.
pub fn parse_u32_exec(s: &Vec<char>) -> (r: Option<u32>)
    ensures
        r == parse_u32(s@),
{
    let start: usize = if s.len() > 0 && s[0] == '+' {
        1
    } else {
        0
    };
    let ghost d = unsigned_digits(s@);
    assert(d =~= s@.skip(start as int));
    if start >= s.len() {
        return None;
    }
    let mut acc: u64 = 0;
    let mut too_big = false;
    let mut i: usize = start;
    while i < s.len()
        invariant
            start <= i <= s.len(),
            d == unsigned_digits(s@),
            d =~= s@.skip(start as int),
            forall|k: int| 0 <= k < i - start ==> is_digit(#[trigger] d[k]),
            !too_big ==> acc == digits_value(d.take(i - start)) && acc <= u32::MAX,
            too_big ==> digits_value(d.take(i - start)) > u32::MAX,
        decreases s.len() - i,
    {
        let c = s[i];
        if !('0' <= c && c <= '9') {
            assert(!is_digit(d[i - start]));
            assert(!all_digits(d));
            return None;
        }
        proof {
            assert(d.take(i + 1 - start).drop_last() =~= d.take(i - start));
            assert(d.take(i + 1 - start).last() == c);
        }
        if !too_big {
            let digit = (c as u32 - '0' as u32) as u64;
            acc = acc * 10 + digit;
            if acc > 0xffff_ffff {
                too_big = true;
            }
        }
        i = i + 1;
    }
    assert(d.take(s.len() - start) =~= d);
    if too_big {
        None
    } else {
        Some(acc as u32)
    }
}

/// `major.minor` read from the first two `.`-separated fields of a version,
/// leading `v`s of the first dropped; `None` where either is no number.
pub open spec fn parse_version(s: Seq<char>) -> Option<(u32, u32)> {
    let parts = split_char(s, '.');
    if parts.len() >= 2 {
        match (parse_u32(strip_prefixes(parts[0], "v"@)), parse_u32(parts[1])) {
            (Some(major), Some(minor)) => Some((major, minor)),
            _ => None,
        }
    } else {
        None
    }
}

/// Reads `major.minor` from a version such as `v20.11.1` or `3.10.12`.
pub fn parse_version_exec(version_str: &Vec<char>) -> (r: Option<(u32, u32)>)
    ensures
        r == parse_version(version_str@),
{
    let parts = split_char_exec(version_str, '.');
    if parts.len() < 2 {
        return None;
    }
    let first = trim_start_matches(&parts[0], &chars_of("v"));
    match (parse_u32_exec(&first), parse_u32_exec(&parts[1])) {
        (Some(major), Some(minor)) => Some((major, minor)),
        _ => None,
    }
}

/// `(a.0, a.1)` comes after `(b.0, b.1)` in the order of tuples.
pub open spec fn version_gt(a: (u32, u32), b: (u32, u32)) -> bool {
    a.0 > b.0 || (a.0 == b.0 && a.1 > b.1)
}

} // verus!

verus! {

/// Where an SGR escape (`ESC [`, anything but `m`, then `m`) starting at
/// `i` ends: the position of its `m`.
pub open spec fn sgr_end(s: Seq<char>, i: int) -> Option<int> {
    if 0 <= i && i + 1 < s.len() && s[i] == '\x1b' && s[i + 1] == '[' {
        find_char_from(s, 'm', i + 2)
    } else {
        None
    }
}

/// The text from `i` on with every SGR escape removed, scanning left to right.
pub open spec fn sgr_stripped_from(s: Seq<char>, i: int) -> Seq<char>
    decreases s.len() - i,
{
    if i < 0 || i >= s.len() {
        seq![]
    } else {
        match sgr_end(s, i) {
            Some(k) => {
                proof {
                    lemma_find_char_from(s, 'm', i + 2);
                }
                sgr_stripped_from(s, k + 1)
            },
            None => seq![s[i]] + sgr_stripped_from(s, i + 1),
        }
    }
}

/// The text with every SGR escape (terminal color code) removed.
pub open spec fn sgr_stripped(s: Seq<char>) -> Seq<char> {
    sgr_stripped_from(s, 0)
}

/// `Regex::new("\x1b\\[[^m]*m").unwrap().replace_all(input, "")` of the regex
/// crate. The pattern is valid, so `unwrap` does not fail; `replace_all`
/// removes the leftmost-first non-overlapping matches, and a match is `ESC [`
/// followed by everything up to and including the next `m`.
#[verifier::external_body]
fn strip_color_codes(input: &str) -> (r: String)
    ensures
        r@ == sgr_stripped(input@),
{
    regex::Regex::new("\x1b\\[[^m]*m").unwrap().replace_all(input, "").into_owned()
}

/// The version a line of `nvm ls --no-alias` names, split into fields: a
/// lone field, the field after `->`, or the field before `*`.
pub open spec fn nvm_line_version(fields: Seq<Seq<char>>) -> Option<Seq<char>> {
    if fields.len() == 1 {
        Some(fields[0])
    } else if fields.len() == 2 {
        if fields[0] == "->"@ {
            Some(fields[1])
        } else if fields[1] == "*"@ {
            Some(fields[0])
        } else {
            None
        }
    } else {
        None
    }
}

/// The versions named by the lines of `nvm ls --no-alias`, color codes removed.
pub open spec fn nvm_versions(lines: Seq<Seq<char>>) -> Seq<Seq<char>>
    decreases lines.len(),
{
    if lines.len() == 0 {
        seq![]
    } else {
        let rest = nvm_versions(lines.drop_last());
        match nvm_line_version(split_ws(sgr_stripped(lines.last()))) {
            Some(v) => rest.push(v),
            None => rest,
        }
    }
}

/// A candidate, named by `label`, with the version it has if it could be read.
pub type Candidate = (Seq<char>, Option<(u32, u32)>);

/// The version `v` is at least as new as `(major, minor)`: a newer major
/// version, or the same major version and at least that minor one.
pub open spec fn version_at_least(v: (u32, u32), major: u32, minor: u32) -> bool {
    v.0 > major || (v.0 == major && v.1 >= minor)
}

/// Scanning the candidates in order, the label of the last one whose version
/// is at least as new as `required_major.minimum_minor` and, unless it is the
/// first such, newer than the one picked before it; with the version picked
/// (`0.0` while nothing is picked).
pub open spec fn newest_matching(items: Seq<Candidate>, required_major: u32, minimum_minor: u32) -> (
    Option<Seq<char>>,
    (u32, u32),
)
    decreases items.len(),
{
    if items.len() == 0 {
        (None, (0, 0))
    } else {
        let prev = newest_matching(items.drop_last(), required_major, minimum_minor);
        let item = items.last();
        match item.1 {
            Some(v) => if version_at_least(v, required_major, minimum_minor) && (prev.0 is None
                || version_gt(v, prev.1)) {
                (Some(item.0), v)
            } else {
                prev
            },
            None => prev,
        }
    }
}

/// A version string as a candidate: itself, with the version it spells.
pub open spec fn version_candidate(v: Seq<char>) -> Candidate {
    (v, parse_version(v))
}

pub open spec fn candidates_view(items: Seq<(String, Option<(u32, u32)>)>) -> Seq<Candidate> {
    items.map_values(|c: (String, Option<(u32, u32)>)| (c.0@, c.1))
}

pub open spec fn opt_string_view(o: Option<String>) -> Option<Seq<char>> {
    match o {
        Some(s) => Some(s@),
        None => None,
    }
}

/// The label of the newest qualifying candidate, as `newest_matching` picks it.
pub fn select_newest(items: &Vec<(String, Option<(u32, u32)>)>, required_major: u32, minimum_minor: u32) -> (r: Option<String>)
    ensures
        opt_string_view(r) == newest_matching(candidates_view(items@), required_major, minimum_minor).0,
{
    let ghost cs = candidates_view(items@);
    let mut best: Option<String> = None;
    let mut max_version: (u32, u32) = (0, 0);
    let mut i: usize = 0;
    while i < items.len()
        invariant
            cs == candidates_view(items@),
            i <= items.len(),
            opt_string_view(best) == newest_matching(cs.take(i as int), required_major, minimum_minor).0,
            max_version == newest_matching(cs.take(i as int), required_major, minimum_minor).1,
        decreases items.len() - i,
    {
        assert(cs.take(i + 1).drop_last() =~= cs.take(i as int));
        assert(cs.take(i + 1).last() == cs[i as int]);
        match items[i].1 {
            Some(v) => {
                if (v.0 > required_major || (v.0 == required_major && v.1 >= minimum_minor)) && (
                best.is_none() || v.0 > max_version.0 || (v.0 == max_version.0 && v.1
                    > max_version.1)) {
                    max_version = v;
                    best = Some(items[i].0.clone());
                }
            },
            None => {},
        }
        i = i + 1;
    }
    assert(cs.take(items.len() as int) =~= cs);
    best
}

/// The versions `nvm ls --no-alias` lists, as `nvm_versions` reads them.
pub fn nvm_ls_versions(nvm_ls: &str) -> (r: Vec<String>)
    ensures
        r@.map_values(|s: String| s@) == nvm_versions(lines(nvm_ls@)),
{
    let ls = lines_exec(&chars_of(nvm_ls));
    let ghost ln = views(ls@);
    let mut out: Vec<String> = Vec::new();
    let mut i: usize = 0;
    while i < ls.len()
        invariant
            ln == views(ls@),
            ln == lines(nvm_ls@),
            i <= ls.len(),
            out@.map_values(|s: String| s@) == nvm_versions(ln.take(i as int)),
        decreases ls.len() - i,
    {
        assert(ln.take(i + 1).drop_last() =~= ln.take(i as int));
        assert(ln.take(i + 1).last() == ls@[i as int]@);
        let stripped = strip_color_codes(string_of(&ls[i]).as_str());
        let fields = split_whitespace(&chars_of(stripped.as_str()));
        let ghost before = out@;
        let ghost fv = views(fields@);
        let mut picked: Option<usize> = None;
        if fields.len() == 1 {
            picked = Some(0);
        } else if fields.len() == 2 {
            if eq_lit(&fields[0], "->") {
                picked = Some(1);
            } else if eq_lit(&fields[1], "*") {
                picked = Some(0);
            }
        }
        assert(nvm_line_version(fv) == match picked {
            Some(k) => Some(fv[k as int]),
            None => None::<Seq<char>>,
        });
        match picked {
            Some(k) => {
                out.push(string_of(&fields[k]));
                assert(out@.map_values(|s: String| s@) =~= before.map_values(|s: String| s@).push(fv[k as int]));
            },
            None => {},
        }
        i = i + 1;
    }
    assert(ln.take(ls.len() as int) =~= ln);
    out
}

/// The newest installed `node` version `nvm` lists (`nvm_ls` is the output
/// of `nvm ls --no-alias`) that is at least as new as the required major
/// version (20 unless given) with the minimum minor one (0 unless given).
pub fn get_newest_valid_node_version(nvm_ls: &str, required_major: Option<u32>, minimum_minor: Option<u32>) -> (r: Option<String>)
    ensures
        opt_string_view(r) == newest_matching(
            nvm_versions(lines(nvm_ls@)).map_values(|v: Seq<char>| version_candidate(v)),
            match required_major { Some(m) => m, None => REQUIRED_NODE_MAJOR },
            match minimum_minor { Some(m) => m, None => MINIMUM_NODE_MINOR },
        ).0,
{
    let required_major = match required_major {
        Some(m) => m,
        None => REQUIRED_NODE_MAJOR,
    };
    let minimum_minor = match minimum_minor {
        Some(m) => m,
        None => MINIMUM_NODE_MINOR,
    };
    let versions = nvm_ls_versions(nvm_ls);
    let ghost vs = versions@.map_values(|s: String| s@);
    let mut items: Vec<(String, Option<(u32, u32)>)> = Vec::new();
    let mut i: usize = 0;
    while i < versions.len()
        invariant
            vs == versions@.map_values(|s: String| s@),
            i <= versions.len(),
            candidates_view(items@) == vs.take(i as int).map_values(|v: Seq<char>| version_candidate(v)),
        decreases versions.len() - i,
    {
        let parsed = parse_version_exec(&chars_of(versions[i].as_str()));
        let ghost before = items@;
        items.push((versions[i].clone(), parsed));
        assert(candidates_view(items@) =~= candidates_view(before).push(version_candidate(vs[i as int])));
        assert(vs.take(i + 1).map_values(|v: Seq<char>| version_candidate(v)) =~= vs.take(i as int).map_values(|v: Seq<char>| version_candidate(v)).push(version_candidate(vs[i as int])));
        i = i + 1;
    }
    assert(vs.take(versions.len() as int) =~= vs);
    select_newest(&items, required_major, minimum_minor)
}

} // verus!

verus! {

/// A python command as a candidate: its version is the second
/// whitespace-separated field of what `--version` printed.
pub open spec fn python_candidate(command: Seq<char>, version_output: Seq<char>) -> Candidate {
    let fields = split_ws(version_output);
    (command, if fields.len() >= 2 { parse_version(fields[1]) } else { None })
}

pub open spec fn python_candidates(found: Seq<(String, String)>) -> Seq<Candidate> {
    found.map_values(|p: (String, String)| python_candidate(p.0@, p.1@))
}

/// Among the python commands found, each with what its `--version` printed,
/// the newest that is at least as new as the required major version (3
/// unless given) with the minimum minor one (10 unless given).
pub fn get_python_version(found: &Vec<(String, String)>, required_major: Option<u32>, minimum_minor: Option<u32>) -> (r: Option<String>)
    ensures
        opt_string_view(r) == newest_matching(
            python_candidates(found@),
            match required_major { Some(m) => m, None => REQUIRED_PY_MAJOR },
            match minimum_minor { Some(m) => m, None => MINIMUM_PY_MINOR },
        ).0,
{
    let required_major = match required_major {
        Some(m) => m,
        None => REQUIRED_PY_MAJOR,
    };
    let minimum_minor = match minimum_minor {
        Some(m) => m,
        None => MINIMUM_PY_MINOR,
    };
    let ghost ps = python_candidates(found@);
    let mut items: Vec<(String, Option<(u32, u32)>)> = Vec::new();
    let mut i: usize = 0;
    while i < found.len()
        invariant
            ps == python_candidates(found@),
            i <= found.len(),
            candidates_view(items@) == ps.take(i as int),
        decreases found.len() - i,
    {
        let fields = split_whitespace(&chars_of(found[i].1.as_str()));
        let parsed = if fields.len() >= 2 {
            parse_version_exec(&fields[1])
        } else {
            None
        };
        let ghost before = items@;
        items.push((found[i].0.clone(), parsed));
        assert(candidates_view(items@) =~= candidates_view(before).push(ps[i as int]));
        assert(ps.take(i + 1) =~= ps.take(i as int).push(ps[i as int]));
        i = i + 1;
    }
    assert(ps.take(found.len() as int) =~= ps);
    select_newest(&items, required_major, minimum_minor)
}

/// The last non-empty piece of `parts`, or the empty text.
pub open spec fn last_nonempty(parts: Seq<Seq<char>>) -> Seq<char>
    decreases parts.len(),
{
    if parts.len() == 0 {
        seq![]
    } else if parts.last().len() > 0 {
        parts.last()
    } else {
        last_nonempty(parts.drop_last())
    }
}

/// The `npm --version` output names a version (on its last non-empty line)
/// whose parts both reach the required ones.
pub open spec fn npm_version_ok(output: Seq<char>, required: (u32, u32)) -> bool {
    match parse_version(last_nonempty(split_char(output, '\n'))) {
        Some(v) => v.0 >= required.0 && v.1 >= required.1,
        None => false,
    }
}

/// Whether the npm version printed in `output` is recent enough.
pub fn is_npm_version_correct(output: &str, required_version: (u32, u32)) -> (r: bool)
    ensures
        r == npm_version_ok(output@, required_version),
{
    let parts = split_char_exec(&chars_of(output), '\n');
    let ghost ps = views(parts@);
    let mut last: Vec<char> = Vec::new();
    let mut i: usize = 0;
    while i < parts.len()
        invariant
            ps == views(parts@),
            i <= parts.len(),
            last@ == last_nonempty(ps.take(i as int)),
        decreases parts.len() - i,
    {
        assert(ps.take(i + 1).drop_last() =~= ps.take(i as int));
        assert(ps.take(i + 1).last() == parts@[i as int]@);
        if parts[i].len() > 0 {
            last = parts[i].clone();
        }
        i = i + 1;
    }
    assert(ps.take(parts.len() as int) =~= ps);
    match parse_version_exec(&last) {
        Some(v) => compare_versions_min_major(v, required_version),
        None => false,
    }
}

/// Some piece of `parts` holds `p`.
pub open spec fn any_contains(parts: Seq<Seq<char>>, p: Seq<char>) -> bool {
    exists|j: int| 0 <= j < parts.len() && contains_sub(#[trigger] parts[j], p)
}

/// The rust targets missing according to the output of `rustup show`:
/// the wasm target unless some line names `wasm32-wasip1`.
pub fn check_rust_toolchains_targets(rustup_show: &str) -> (r: Vec<Dependency>)
    ensures
        any_contains(split_char(rustup_show@, '\n'), "wasm32-wasip1"@) ==> r@ == Seq::<
            Dependency,
        >::empty(),
        !any_contains(split_char(rustup_show@, '\n'), "wasm32-wasip1"@) ==> r@ == seq![
            Dependency::RustWasm32Wasi,
        ],
{
    let parts = split_char_exec(&chars_of(rustup_show), '\n');
    let ghost ps = views(parts@);
    let target = chars_of("wasm32-wasip1");
    let mut found = false;
    let mut i: usize = 0;
    while i < parts.len()
        invariant
            ps == views(parts@),
            target@ == "wasm32-wasip1"@,
            i <= parts.len(),
            found == exists|j: int| 0 <= j < i && contains_sub(#[trigger] ps[j], "wasm32-wasip1"@),
        decreases parts.len() - i,
    {
        let hit = contains_exec(&parts[i], &target);
        assert(ps[i as int] == parts@[i as int]@);
        found = found || hit;
        i = i + 1;
    }
    let mut missing: Vec<Dependency> = Vec::new();
    if !found {
        missing.push(Dependency::RustWasm32Wasi);
    }
    missing
}

/// The rust dependencies missing: all three without `rustup`; otherwise the
/// missing targets, and `wasm-tools` if it is not installed.
pub fn check_rust_deps(rustup_installed: bool, missing_targets: Vec<Dependency>, wasm_tools_installed: bool) -> (r: Vec<Dependency>)
    ensures
        !rustup_installed ==> r@ == seq![Dependency::Rust, Dependency::RustWasm32Wasi, Dependency::WasmTools],
        rustup_installed && wasm_tools_installed ==> r@ == missing_targets@,
        rustup_installed && !wasm_tools_installed ==> r@ == missing_targets@.push(Dependency::WasmTools),
{
    if !rustup_installed {
        return vec![Dependency::Rust, Dependency::RustWasm32Wasi, Dependency::WasmTools];
    }
    let mut missing = missing_targets;
    if !wasm_tools_installed {
        missing.push(Dependency::WasmTools);
    }
    missing
}

/// The javascript dependencies missing: `nvm` if it is not installed; node
/// and npm without a valid node; otherwise npm if it is missing or too old.
pub fn check_js_deps(nvm_installed: bool, valid_node_found: bool, npm_ok: bool) -> (r: Vec<Dependency>)
    ensures
        r@ == (if nvm_installed { Seq::<Dependency>::empty() } else { seq![Dependency::Nvm] }) + (
        if !valid_node_found {
            seq![Dependency::Node, Dependency::Npm]
        } else if !npm_ok {
            seq![Dependency::Npm]
        } else {
            Seq::<Dependency>::empty()
        }),
{
    let mut missing: Vec<Dependency> = Vec::new();
    if !nvm_installed {
        missing.push(Dependency::Nvm);
    }
    if !valid_node_found {
        missing.push(Dependency::Node);
        missing.push(Dependency::Npm);
    } else if !npm_ok {
        missing.push(Dependency::Npm);
    }
    assert(missing@ =~= (if nvm_installed { Seq::<Dependency>::empty() } else { seq![Dependency::Nvm] }) + (
        if !valid_node_found {
            seq![Dependency::Node, Dependency::Npm]
        } else if !npm_ok {
            seq![Dependency::Npm]
        } else {
            Seq::<Dependency>::empty()
        }));
    missing
}

/// Foundry is missing exactly when `anvil` is not installed.
pub fn check_foundry_deps(anvil_installed: bool) -> (r: Vec<Dependency>)
    ensures
        anvil_installed ==> r@ == Seq::<Dependency>::empty(),
        !anvil_installed ==> r@ == seq![Dependency::Foundry],
{
    if !anvil_installed {
        return vec![Dependency::Foundry];
    }
    vec![]
}

/// The dependencies setup installs: the rust ones, then those of each other
/// group that is not optional.
pub fn collect_missing_deps(
    rust: Vec<Dependency>,
    js: Vec<Dependency>,
    docker: Vec<Dependency>,
    foundry: Vec<Dependency>,
    javascript_optional: bool,
    docker_optional: bool,
    foundry_optional: bool,
) -> (r: Vec<Dependency>)
    ensures
        r@ == rust@ + (if javascript_optional { Seq::<Dependency>::empty() } else { js@ }) + (
        if docker_optional {
            Seq::<Dependency>::empty()
        } else {
            docker@
        }) + (if foundry_optional { Seq::<Dependency>::empty() } else { foundry@ }),
{
    let ghost expected = rust@ + (if javascript_optional { Seq::<Dependency>::empty() } else { js@ }) + (
        if docker_optional {
            Seq::<Dependency>::empty()
        } else {
            docker@
        }) + (if foundry_optional { Seq::<Dependency>::empty() } else { foundry@ });
    let mut missing = rust;
    let mut js_deps = js;
    let mut docker_deps = docker;
    let mut foundry_deps = foundry;
    if !javascript_optional {
        missing.append(&mut js_deps);
    }
    if !docker_optional {
        missing.append(&mut docker_deps);
    }
    if !foundry_optional {
        missing.append(&mut foundry_deps);
    }
    assert(missing@ =~= expected);
    missing
}

} // verus!

verus! {

/// The question asked before installing `deps`.
pub open spec fn prompt_text(deps: Seq<Dependency>) -> Seq<char> {
    "kit requires "@ + (if deps.len() == 1 { "this"@ } else { "these"@ }) + " missing "@ + (
    if deps.len() == 1 {
        "dependency"@
    } else {
        "dependencies"@
    }) + ": "@ + join(deps_texts(deps), ", "@) + ". Install? [Y/n]: "@
}

/// The question asked before installing `deps`.
pub fn install_prompt(deps: &Vec<Dependency>) -> (r: String)
    ensures
        r@ == prompt_text(deps@),
{
    let mut v: Vec<char> = Vec::new();
    push_str(&mut v, "kit requires ");
    if deps.len() == 1 {
        push_str(&mut v, "this");
    } else {
        push_str(&mut v, "these");
    }
    push_str(&mut v, " missing ");
    if deps.len() == 1 {
        push_str(&mut v, "dependency");
    } else {
        push_str(&mut v, "dependencies");
    }
    push_str(&mut v, ": ");
    push_all(&mut v, &chars_of(dependencies_text(deps).as_str()));
    push_str(&mut v, ". Install? [Y/n]: ");
    string_of(&v)
}

/// The answer, trimmed and lower-cased, is `y`, `yes` or empty.
pub open spec fn accepts(response: Seq<char>) -> bool {
    let a = lower_text(trim(response));
    a == "y"@ || a == "yes"@ || a.len() == 0
}

/// Whether the user's answer to the prompt accepts the installation.
pub fn accepts_install(response: &str) -> (r: bool)
    ensures
        r == accepts(response@),
{
    let trimmed = string_of(&trim_chars(&chars_of(response)));
    let lowered = chars_of(str_lower(trimmed.as_str()).as_str());
    eq_lit(&lowered, "y") || eq_lit(&lowered, "yes") || lowered.len() == 0
}

/// `arg` run through `nvm`'s shell setup.
pub open spec fn nvm_command(arg: Seq<char>) -> Seq<char> {
    "source ~/.nvm/nvm.sh && "@ + arg
}

/// A `cargo` command for the toolchain, with colored output asked for unless
/// `arg` already asks for it.
pub open spec fn cargo_command_text(arg: Seq<char>, toolchain: Seq<char>) -> Seq<char> {
    if contains_sub(arg, "--color=always"@) {
        "cargo "@ + toolchain + " "@ + arg
    } else {
        "cargo "@ + toolchain + " --color=always "@ + arg
    }
}

/// The shell command that runs `cargo` with `arg` for the toolchain.
pub fn cargo_command(arg: &str, toolchain: &str) -> (r: String)
    ensures
        r@ == cargo_command_text(arg@, toolchain@),
{
    let mut v: Vec<char> = Vec::new();
    push_str(&mut v, "cargo ");
    push_str(&mut v, toolchain);
    if contains_exec(&chars_of(arg), &chars_of("--color=always")) {
        push_str(&mut v, " ");
    } else {
        push_str(&mut v, " --color=always ");
    }
    push_str(&mut v, arg);
    string_of(&v)
}

/// The shell commands that install a dependency, in order (none for docker).
pub open spec fn install_command_texts(dep: Dependency, toolchain: Seq<char>) -> Seq<Seq<char>> {
    match dep {
        Dependency::Nvm => seq![
            "curl -o- https://raw.githubusercontent.com/nvm-sh/nvm/"@ + "v0.39.7"@
                + "/install.sh | bash"@,
        ],
        Dependency::Npm => seq![nvm_command("nvm install-latest-npm"@)],
        Dependency::Node => seq![nvm_command("nvm install 20.0"@)],
        Dependency::Rust => seq!["curl --proto '=https' --tlsv1.2 -sSf https://sh.rustup.rs | sh"@],
        Dependency::RustWasm32Wasi => seq![
            "rustup "@ + toolchain + " "@ + "target add wasm32-wasip1"@,
        ],
        Dependency::WasmTools => seq![cargo_command_text("install wasm-tools"@, toolchain)],
        Dependency::Foundry => seq![
            "curl -L https://foundry.paradigm.xyz | bash"@,
            "export PATH=\"$PATH:$HOME/.foundry/bin\" && foundryup"@,
        ],
        Dependency::Docker => seq![],
    }
}

/// The shell commands that install `dep` for the toolchain, in order.
pub fn install_commands(dep: Dependency, toolchain: &str) -> (r: Vec<String>)
    ensures
        r@.map_values(|s: String| s@) == install_command_texts(dep, toolchain@),
{
    let mut out: Vec<String> = Vec::new();
    match dep {
        Dependency::Nvm => {
            let mut v = chars_of("curl -o- https://raw.githubusercontent.com/nvm-sh/nvm/");
            push_str(&mut v, "v0.39.7");
            push_str(&mut v, "/install.sh | bash");
            out.push(string_of(&v));
        },
        Dependency::Npm => {
            let mut v = chars_of("source ~/.nvm/nvm.sh && ");
            push_str(&mut v, "nvm install-latest-npm");
            out.push(string_of(&v));
        },
        Dependency::Node => {
            let mut v = chars_of("source ~/.nvm/nvm.sh && ");
            push_str(&mut v, "nvm install 20.0");
            out.push(string_of(&v));
        },
        Dependency::Rust => {
            out.push("curl --proto '=https' --tlsv1.2 -sSf https://sh.rustup.rs | sh".to_owned());
        },
        Dependency::RustWasm32Wasi => {
            let mut v = chars_of("rustup ");
            push_str(&mut v, toolchain);
            push_str(&mut v, " ");
            push_str(&mut v, "target add wasm32-wasip1");
            out.push(string_of(&v));
        },
        Dependency::WasmTools => {
            out.push(cargo_command("install wasm-tools", toolchain));
        },
        Dependency::Foundry => {
            out.push("curl -L https://foundry.paradigm.xyz | bash".to_owned());
            out.push("export PATH=\"$PATH:$HOME/.foundry/bin\" && foundryup".to_owned());
        },
        Dependency::Docker => {},
    }
    assert(out@.map_values(|s: String| s@) =~= install_command_texts(dep, toolchain@));
    out
}

} // verus!

verus! {

/// The candidate has a version at least as new as
/// `required_major.minimum_minor`.
pub open spec fn qualifies(c: Candidate, required_major: u32, minimum_minor: u32) -> bool {
    c.1 matches Some(v) && version_at_least(v, required_major, minimum_minor)
}

/// What is picked is the newest: no qualifying candidate has a newer version
/// than the one picked; what is picked qualifies and carries that version;
/// and something is picked exactly when some candidate qualifies.
pub proof fn lemma_newest_matching_is_newest(items: Seq<Candidate>, required_major: u32, minimum_minor: u32)
    ensures
        forall|j: int|
            0 <= j < items.len() && qualifies(#[trigger] items[j], required_major, minimum_minor)
                ==> !version_gt(items[j].1.unwrap(), newest_matching(items, required_major, minimum_minor).1),
        newest_matching(items, required_major, minimum_minor).0 matches Some(label) ==> exists|j: int|
            0 <= j < items.len() && #[trigger] items[j].0 == label && qualifies(items[j], required_major, minimum_minor)
                && items[j].1 == Some(newest_matching(items, required_major, minimum_minor).1),
        newest_matching(items, required_major, minimum_minor).0 is None <==> forall|j: int|
            0 <= j < items.len() ==> !qualifies(#[trigger] items[j], required_major, minimum_minor),
    decreases items.len(),
{
    if items.len() > 0 {
        let rest = items.drop_last();
        lemma_newest_matching_is_newest(rest, required_major, minimum_minor);
        let prev = newest_matching(rest, required_major, minimum_minor);
        let cur = newest_matching(items, required_major, minimum_minor);
        assert forall|j: int|
            0 <= j < items.len() && qualifies(#[trigger] items[j], required_major, minimum_minor)
                implies !version_gt(items[j].1.unwrap(), cur.1) by {
            if j < items.len() - 1 {
                assert(items[j] == rest[j]);
            }
        }
        if cur.0 is Some && cur != prev {
            assert(items[items.len() - 1].0 == cur.0.unwrap());
        } else if cur.0 is Some {
            let label = cur.0.unwrap();
            let j = choose|j: int|
                0 <= j < rest.len() && #[trigger] rest[j].0 == label && qualifies(rest[j], required_major, minimum_minor)
                    && rest[j].1 == Some(prev.1);
            assert(items[j] == rest[j]);
        } else {
            assert forall|j: int| 0 <= j < items.len() implies !qualifies(
                #[trigger] items[j],
                required_major,
                minimum_minor,
            ) by {
                if j < items.len() - 1 {
                    assert(items[j] == rest[j]);
                }
            }
        }
    }
}

} // verus!

verus! {

/// The candidate's version is at least `major.minor`, the bound itself
/// included: a newer major, or that major and at least that minor.
pub open spec fn reaches_minimum(c: Candidate, major: u32, minor: u32) -> bool {
    &&& c.1 is Some
    &&& c.1.unwrap().0 > major || (c.1.unwrap().0 == major && c.1.unwrap().1 >= minor)
}

/// The version picked is at least the minimum, the minimum included: when
/// any candidate's version reaches `required_major.minimum_minor` (for
/// example is exactly that), something is picked; what is picked reaches
/// it; and no candidate that reaches it has a newer version than the one
/// picked.
pub proof fn lemma_minimum_version_accepted(items: Seq<Candidate>, required_major: u32, minimum_minor: u32)
    ensures
        (exists|j: int| 0 <= j < items.len() && reaches_minimum(#[trigger] items[j], required_major, minimum_minor))
            ==> newest_matching(items, required_major, minimum_minor).0 is Some,
        newest_matching(items, required_major, minimum_minor).0 is Some ==> ({
            let v = newest_matching(items, required_major, minimum_minor).1;
            v.0 > required_major || (v.0 == required_major && v.1 >= minimum_minor)
        }),
        newest_matching(items, required_major, minimum_minor).0 is Some ==> forall|j: int|
            0 <= j < items.len() && reaches_minimum(#[trigger] items[j], required_major, minimum_minor)
                ==> ({
                let v = items[j].1.unwrap();
                let best = newest_matching(items, required_major, minimum_minor).1;
                v.0 < best.0 || (v.0 == best.0 && v.1 <= best.1)
            }),
{
    lemma_newest_matching_is_newest(items, required_major, minimum_minor);
    let r = newest_matching(items, required_major, minimum_minor);
    if exists|j: int| 0 <= j < items.len() && reaches_minimum(#[trigger] items[j], required_major, minimum_minor) {
        let j = choose|j: int|
            0 <= j < items.len() && reaches_minimum(#[trigger] items[j], required_major, minimum_minor);
        assert(qualifies(items[j], required_major, minimum_minor));
    }
    if r.0 is Some {
        let label = r.0.unwrap();
        let j = choose|j: int|
            0 <= j < items.len() && #[trigger] items[j].0 == label && qualifies(items[j], required_major, minimum_minor)
                && items[j].1 == Some(r.1);
        assert(qualifies(items[j], required_major, minimum_minor));
        assert forall|k: int|
            0 <= k < items.len() && reaches_minimum(#[trigger] items[k], required_major, minimum_minor) implies ({
                let v = items[k].1.unwrap();
                v.0 < r.1.0 || (v.0 == r.1.0 && v.1 <= r.1.1)
            }) by {
            assert(qualifies(items[k], required_major, minimum_minor));
        }
    }
}

} // verus!
