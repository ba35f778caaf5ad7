//! The decisions of `kit build`: which cargo features a process has, the
//! commands that compile each kind of process, which world a process uses,
//! which imports and exports a component declares, and what to build.
use vstd::prelude::*;
use crate::text::{
    chars_of, string_of, push_all, push_str, split_char, split_char_exec, views, join, join_exec,
    contains_sub, contains_exec, is_ws, is_whitespace, occurs_at, matches_at,
};
use crate::naming::eq_lit;

verus! {

pub open spec fn strings_view(v: Seq<String>) -> Seq<Seq<char>> {
    v.map_values(|s: String| s@)
}

pub open spec fn opt_strings_view(o: Option<Vec<String>>) -> Option<Seq<Seq<char>>> {
    match o {
        Some(v) => Some(strings_view(v@)),
        None => None,
    }
}

/// What the toml crate reads from a `Cargo.toml` text: `None` when the text
/// does not parse; otherwise the keys of its `[features]` table, if it has one.
pub uninterp spec fn toml_feature_table(content: Seq<char>) -> Option<Option<Seq<Seq<char>>>>;

/// Parses a `Cargo.toml` text with the toml crate (`str::parse::<toml::Value>`)
/// and lists the keys of its `features` table when that entry is a table.
/// The error text is the parser's message; nothing is claimed of it.
#[verifier::external_body]
fn cargo_toml_features(content: &str) -> (r: Result<Option<Vec<String>>, String>)
    ensures
        r is Err <==> toml_feature_table(content@) is None,
        r matches Ok(o) ==> toml_feature_table(content@) == Some(opt_strings_view(o)),
{
    let value: toml::Value = match content.parse() {
        Ok(v) => v,
        Err(e) => return Err(e.to_string()),
    };
    match value.get("features") {
        Some(toml::Value::Table(t)) => Ok(Some(t.keys().cloned().collect())),
        _ => Ok(None),
    }
}

/// `feature` is one of the declared features (none are declared without a table).
pub open spec fn declares(table: Option<Seq<Seq<char>>>, feature: Seq<char>) -> bool {
    match table {
        Some(keys) => keys.contains(feature),
        None => false,
    }
}

/// Whether `feature` is one of the declared feature names.
pub fn has_feature_in(table: &Option<Vec<String>>, feature: &str) -> (r: bool)
    ensures
        r == declares(opt_strings_view(*table), feature@),
{
    match table {
        None => false,
        Some(keys) => {
            let ghost ks = strings_view(keys@);
            assert(opt_strings_view(*table) == Some(ks));
            let mut i: usize = 0;
            while i < keys.len()
                invariant
                    ks == strings_view(keys@),
                    opt_strings_view(*table) == Some(ks),
                    i <= keys.len(),
                    forall|j: int| 0 <= j < i ==> ks[j] != feature@,
                decreases keys.len() - i,
            {
                if eq_lit(&chars_of(keys[i].as_str()), feature) {
                    assert(ks[i as int] == feature@);
                    assert(ks.contains(feature@));
                    return true;
                }
                i = i + 1;
            }
            false
        },
    }
}

/// Whether the `Cargo.toml` text declares `feature`; an error when it does not parse.
pub fn has_feature(cargo_toml_content: &str, feature: &str) -> (r: Result<bool, String>)
    ensures
        r is Err <==> toml_feature_table(cargo_toml_content@) is None,
        r matches Ok(b) ==> (toml_feature_table(cargo_toml_content@) matches Some(t) && b
            == declares(t, feature@)),
{
    match cargo_toml_features(cargo_toml_content) {
        Err(e) => Err(e),
        Ok(table) => Ok(has_feature_in(&table, feature)),
    }
}

/// The features of `features` that are declared, in their order; none when
/// no feature table exists.
pub open spec fn kept_features(table: Option<Seq<Seq<char>>>, features: Seq<Seq<char>>) -> Seq<
    Seq<char>,
>
    decreases features.len(),
{
    if features.len() == 0 {
        seq![]
    } else if declares(table, features.last()) {
        kept_features(table, features.drop_last()).push(features.last())
    } else {
        kept_features(table, features.drop_last())
    }
}

/// The requested features that the declared ones contain, in order.
pub fn features_present(table: &Option<Vec<String>>, features: &Vec<String>) -> (r: Vec<String>)
    ensures
        strings_view(r@) == kept_features(opt_strings_view(*table), strings_view(features@)),
{
    let ghost fs = strings_view(features@);
    let mut out: Vec<String> = Vec::new();
    let mut i: usize = 0;
    while i < features.len()
        invariant
            fs == strings_view(features@),
            i <= features.len(),
            strings_view(out@) == kept_features(opt_strings_view(*table), fs.take(i as int)),
        decreases features.len() - i,
    {
        assert(fs.take(i + 1).drop_last() =~= fs.take(i as int));
        assert(fs.take(i + 1).last() == features@[i as int]@);
        if has_feature_in(table, features[i].as_str()) {
            let ghost before = out@;
            out.push(features[i].clone());
            assert(strings_view(out@) =~= strings_view(before).push(features@[i as int]@));
        }
        i = i + 1;
    }
    assert(fs.take(features.len() as int) =~= fs);
    out
}

/// The requested features the `Cargo.toml` text declares, in order; an
/// error when the text does not parse.
pub fn remove_missing_features(cargo_toml_content: &str, features: &Vec<String>) -> (r: Result<
    Vec<String>,
    String,
>)
    ensures
        r is Err <==> toml_feature_table(cargo_toml_content@) is None,
        r matches Ok(v) ==> (toml_feature_table(cargo_toml_content@) matches Some(t)
            && strings_view(v@) == kept_features(t, strings_view(features@))),
{
    match cargo_toml_features(cargo_toml_content) {
        Err(e) => Err(e),
        Ok(table) => Ok(features_present(&table, features)),
    }
}

/// The pieces hold exactly one, empty, piece.
pub fn is_only_empty_string(splitted: &Vec<String>) -> (r: bool)
    ensures
        r == (splitted@.len() == 1 && splitted@[0]@.len() == 0),
{
    splitted.len() == 1 && chars_of(splitted[0].as_str()).len() == 0
}

pub open spec fn build_args_base() -> Seq<Seq<char>> {
    seq![
        "+nightly"@,
        "build"@,
        "--release"@,
        "--no-default-features"@,
        "--target"@,
        "wasm32-wasi"@,
        "--target-dir"@,
        "target"@,
        "--color=always"@,
    ]
}

/// The cargo arguments that build a rust process with the given features
/// (those declared, joined by `,`).
pub open spec fn build_args_with(kept: Seq<Seq<char>>) -> Seq<Seq<char>> {
    if join(kept, ","@).len() == 0 {
        build_args_base()
    } else {
        build_args_base() + seq!["--features"@, join(kept, ","@)]
    }
}

fn strings_of(parts: &Vec<Vec<char>>) -> (r: Vec<String>)
    ensures
        strings_view(r@) == views(parts@),
{
    let mut out: Vec<String> = Vec::new();
    let mut i: usize = 0;
    while i < parts.len()
        invariant
            i <= parts.len(),
            strings_view(out@) == views(parts@).take(i as int),
        decreases parts.len() - i,
    {
        let ghost before = out@;
        out.push(string_of(&parts[i]));
        assert(strings_view(out@) =~= strings_view(before).push(parts@[i as int]@));
        assert(views(parts@).take(i + 1) =~= views(parts@).take(i as int).push(parts@[i as int]@));
        i = i + 1;
    }
    assert(views(parts@).take(parts.len() as int) =~= views(parts@));
    out
}

fn push_lit(out: &mut Vec<String>, s: &str)
    ensures
        strings_view(final(out)@) == strings_view(old(out)@).push(s@),
{
    let ghost before = out@;
    out.push(s.to_owned());
    assert(strings_view(out@) =~= strings_view(before).push(s@));
}

/// The cargo arguments that build the rust process whose `Cargo.toml` text
/// is given, asking for the requested (`,`-separated) features it declares.
pub fn rust_build_args(features: &str, cargo_toml_content: &str) -> (r: Result<Vec<String>, String>)
    ensures
        r is Err <==> toml_feature_table(cargo_toml_content@) is None,
        r matches Ok(v) ==> (toml_feature_table(cargo_toml_content@) matches Some(t)
            && strings_view(v@) == build_args_with(kept_features(t, split_char(features@, ',')))),
{
    let requested = strings_of(&split_char_exec(&chars_of(features), ','));
    let kept = match remove_missing_features(cargo_toml_content, &requested) {
        Err(e) => return Err(e),
        Ok(k) => k,
    };
    let mut kept_chars: Vec<Vec<char>> = Vec::new();
    let mut i: usize = 0;
    while i < kept.len()
        invariant
            i <= kept.len(),
            views(kept_chars@) == strings_view(kept@).take(i as int),
        decreases kept.len() - i,
    {
        let c = chars_of(kept[i].as_str());
        proof {
            crate::text::lemma_views_push(kept_chars@, c);
            assert(strings_view(kept@).take(i + 1) =~= strings_view(kept@).take(i as int).push(
                kept@[i as int]@,
            ));
        }
        kept_chars.push(c);
        i = i + 1;
    }
    assert(strings_view(kept@).take(kept.len() as int) =~= strings_view(kept@));
    let joined = join_exec(&kept_chars, &chars_of(","));
    let mut args: Vec<String> = Vec::new();
    push_lit(&mut args, "+nightly");
    push_lit(&mut args, "build");
    push_lit(&mut args, "--release");
    push_lit(&mut args, "--no-default-features");
    push_lit(&mut args, "--target");
    push_lit(&mut args, "wasm32-wasi");
    push_lit(&mut args, "--target-dir");
    push_lit(&mut args, "target");
    push_lit(&mut args, "--color=always");
    assert(strings_view(args@) =~= build_args_base());
    if joined.len() > 0 {
        push_lit(&mut args, "--features");
        let ghost before = args@;
        args.push(string_of(&joined));
        assert(strings_view(args@) =~= strings_view(before).push(joined@));
    }
    Ok(args)
}

} // verus!

verus! {

/// The end of the run of whitespace starting at `a`.
pub open spec fn ws_end(s: Seq<char>, a: int) -> int
    decreases s.len() - a,
{
    if a < 0 || a >= s.len() || !is_ws(s[a]) {
        a
    } else {
        ws_end(s, a + 1)
    }
}

/// The end of the run of characters that are neither whitespace nor `delim`
/// starting at `b`.
pub open spec fn field_end(s: Seq<char>, b: int, delim: char) -> int
    decreases s.len() - b,
{
    if b < 0 || b >= s.len() || is_ws(s[b]) || s[b] == delim {
        b
    } else {
        field_end(s, b + 1, delim)
    }
}

/// A match of `kw`, whitespace, then a field of characters that are neither
/// whitespace nor `delim`, starting at `i`: where the captured field lies.
pub open spec fn capture_at(s: Seq<char>, kw: Seq<char>, delim: char, i: int) -> Option<(int, int)> {
    if occurs_at(s, kw, i) {
        let a = i + kw.len();
        let b = ws_end(s, a);
        let e = field_end(s, b, delim);
        if b > a && e > b {
            Some((b, e))
        } else {
            None
        }
    } else {
        None
    }
}

proof fn lemma_ws_end(s: Seq<char>, a: int)
    requires
        0 <= a <= s.len(),
    ensures
        a <= ws_end(s, a) <= s.len(),
    decreases s.len() - a,
{
    if a < s.len() && is_ws(s[a]) {
        lemma_ws_end(s, a + 1);
    }
}

proof fn lemma_field_end(s: Seq<char>, b: int, delim: char)
    requires
        0 <= b <= s.len(),
    ensures
        b <= field_end(s, b, delim) <= s.len(),
    decreases s.len() - b,
{
    if b < s.len() && !is_ws(s[b]) && s[b] != delim {
        lemma_field_end(s, b + 1, delim);
    }
}

/// A captured field starts after the match does, is not empty, and ends
/// within the text.
pub proof fn lemma_capture_after(s: Seq<char>, kw: Seq<char>, delim: char, i: int)
    ensures
        capture_at(s, kw, delim, i) matches Some(p) ==> i < p.0 < p.1 <= s.len(),
{
    if occurs_at(s, kw, i) {
        let a = i + kw.len();
        lemma_ws_end(s, a);
        lemma_field_end(s, ws_end(s, a), delim);
    }
}

/// The captured fields of the leftmost non-overlapping matches from `i` on.
pub open spec fn captures_from(s: Seq<char>, kw: Seq<char>, delim: char, i: int) -> Seq<Seq<char>>
    decreases s.len() - i,
{
    if i < 0 || i >= s.len() {
        seq![]
    } else {
        match capture_at(s, kw, delim, i) {
            Some((b, e)) => {
                proof {
                    lemma_capture_after(s, kw, delim, i);
                }
                seq![s.subrange(b, e)] + captures_from(s, kw, delim, e)
            },
            None => captures_from(s, kw, delim, i + 1),
        }
    }
}

pub open spec fn first_capture(s: Seq<char>, kw: Seq<char>, delim: char) -> Option<Seq<char>> {
    let c = captures_from(s, kw, delim, 0);
    if c.len() > 0 {
        Some(c[0])
    } else {
        None
    }
}

pub open spec fn opt_string_view(o: Option<String>) -> Option<Seq<char>> {
    match o {
        Some(s) => Some(s@),
        None => None,
    }
}

/// `Regex::new(r"world\s+([^\s\{]+)").unwrap().captures(data)` of the regex
/// crate, its first group. The pattern is valid; the leftmost match is
/// `world`, one or more whitespace characters (`\s` is Unicode white space),
/// and the longest run of characters that are neither whitespace nor `{`.
#[verifier::external_body]
fn regex_world_capture(data: &str) -> (r: Option<String>)
    ensures
        opt_string_view(r) == first_capture(data@, "world"@, '{'),
{
    match regex::Regex::new(r"world\s+([^\s\{]+)").unwrap().captures(data) {
        Some(caps) => caps.get(1).map(|m| m.as_str().to_string()),
        None => None,
    }
}

/// `Regex::new(r"import\s+([^\s;]+)").unwrap().captures_iter(input)` of the
/// regex crate, the first group of each match, in order: leftmost,
/// non-overlapping matches of `import`, whitespace, and the longest run of
/// characters that are neither whitespace nor `;`.
#[verifier::external_body]
fn regex_import_captures(input: &str) -> (r: Vec<String>)
    ensures
        strings_view(r@) == captures_from(input@, "import"@, ';', 0),
{
    regex::Regex::new(r"import\s+([^\s;]+)").unwrap().captures_iter(input).map(|cap| cap[1].to_string()).collect()
}

/// `Regex::new(r"export\s+([^\s;]+)").unwrap().captures_iter(input)` of the
/// regex crate, the first group of each match, in order (as for imports).
#[verifier::external_body]
fn regex_export_captures(input: &str) -> (r: Vec<String>)
    ensures
        strings_view(r@) == captures_from(input@, "export"@, ';', 0),
{
    regex::Regex::new(r"export\s+([^\s;]+)").unwrap().captures_iter(input).map(|cap| cap[1].to_string()).collect()
}

/// The world a WIT text declares: the name after the first `world`.
pub fn extract_world(data: &str) -> (r: Option<String>)
    ensures
        opt_string_view(r) == first_capture(data@, "world"@, '{'),
{
    regex_world_capture(data)
}

/// An import that the build composes: not a `wasi` one and not the standard
/// process interface.
pub open spec fn composed_import(s: Seq<char>) -> bool {
    !(contains_sub(s, "wasi"@) || contains_sub(s, "kinode:process/standard"@))
}

/// An export that the build composes: anything but `init`.
pub open spec fn composed_export(s: Seq<char>) -> bool {
    !contains_sub(s, "init"@)
}

pub open spec fn filter_imports(v: Seq<Seq<char>>) -> Seq<Seq<char>>
    decreases v.len(),
{
    if v.len() == 0 {
        seq![]
    } else if composed_import(v.last()) {
        filter_imports(v.drop_last()).push(v.last())
    } else {
        filter_imports(v.drop_last())
    }
}

pub open spec fn filter_exports(v: Seq<Seq<char>>) -> Seq<Seq<char>>
    decreases v.len(),
{
    if v.len() == 0 {
        seq![]
    } else if composed_export(v.last()) {
        filter_exports(v.drop_last()).push(v.last())
    } else {
        filter_exports(v.drop_last())
    }
}

/// The interfaces a component's WIT text imports and exports, other than
/// the standard ones.
pub fn extract_imports_exports_from_wit(input: &str) -> (r: (Vec<String>, Vec<String>))
    ensures
        strings_view(r.0@) == filter_imports(captures_from(input@, "import"@, ';', 0)),
        strings_view(r.1@) == filter_exports(captures_from(input@, "export"@, ';', 0)),
{
    let all_imports = regex_import_captures(input);
    let all_exports = regex_export_captures(input);
    let ghost iv = strings_view(all_imports@);
    let ghost ev = strings_view(all_exports@);
    let wasi = chars_of("wasi");
    let standard = chars_of("kinode:process/standard");
    let init = chars_of("init");
    let mut imports: Vec<String> = Vec::new();
    let mut i: usize = 0;
    while i < all_imports.len()
        invariant
            iv == strings_view(all_imports@),
            wasi@ == "wasi"@,
            standard@ == "kinode:process/standard"@,
            i <= all_imports.len(),
            strings_view(imports@) == filter_imports(iv.take(i as int)),
        decreases all_imports.len() - i,
    {
        assert(iv.take(i + 1).drop_last() =~= iv.take(i as int));
        assert(iv.take(i + 1).last() == all_imports@[i as int]@);
        let c = chars_of(all_imports[i].as_str());
        if !(contains_exec(&c, &wasi) || contains_exec(&c, &standard)) {
            let ghost before = imports@;
            imports.push(all_imports[i].clone());
            assert(strings_view(imports@) =~= strings_view(before).push(all_imports@[i as int]@));
        }
        i = i + 1;
    }
    assert(iv.take(all_imports.len() as int) =~= iv);
    let mut exports: Vec<String> = Vec::new();
    let mut j: usize = 0;
    while j < all_exports.len()
        invariant
            ev == strings_view(all_exports@),
            init@ == "init"@,
            j <= all_exports.len(),
            strings_view(exports@) == filter_exports(ev.take(j as int)),
        decreases all_exports.len() - j,
    {
        assert(ev.take(j + 1).drop_last() =~= ev.take(j as int));
        assert(ev.take(j + 1).last() == all_exports@[j as int]@);
        let c = chars_of(all_exports[j].as_str());
        if !contains_exec(&c, &init) {
            let ghost before = exports@;
            exports.push(all_exports[j].clone());
            assert(strings_view(exports@) =~= strings_view(before).push(all_exports@[j as int]@));
        }
        j = j + 1;
    }
    assert(ev.take(all_exports.len() as int) =~= ev);
    (imports, exports)
}

proof fn lemma_rfind_in_range(s: Seq<char>, c: char, e: int)
    ensures
        crate::text::rfind_char_before(s, c, e) matches Some(k) ==> 0 <= k < e <= s.len() && s[k] == c,
    decreases e,
{
    if 0 < e <= s.len() && s[e - 1] != c {
        lemma_rfind_in_range(s, c, e - 1);
    }
}

/// A file name whose extension (`Path::extension`: the text after its last
/// `.`, where that dot is not the name's first character) is `ext`.
pub open spec fn has_extension(name: Seq<char>, ext: Seq<char>) -> bool {
    crate::text::rfind_char(name, '.') matches Some(k) && k > 0 && name.skip(k + 1) == ext
}

/// A file name with the extension `wit`.
pub open spec fn has_wit_extension(name: Seq<char>) -> bool {
    has_extension(name, "wit"@)
}

/// Whether a file name has the extension `ext`.
pub fn file_has_extension(name: &str, ext: &str) -> (r: bool)
    ensures
        r == has_extension(name@, ext@),
{
    let c = chars_of(name);
    match crate::text::rfind_char_exec(&c, '.') {
        Some(k) => {
            proof {
                lemma_rfind_in_range(c@, '.', c@.len() as int);
            }
            if k == 0 {
                return false;
            }
            assert(k < c.len());
            let e = crate::text::slice_of(&c, k + 1, c.len());
            assert(e@ == c@.skip(k + 1));
            eq_lit(&e, ext)
        },
        None => false,
    }
}

/// Whether an `api` directory file of this name is read as an API.
pub fn is_api_file_name(name: &str) -> (r: bool)
    ensures
        r == has_wit_extension(name@),
{
    file_has_extension(name, "wit")
}

/// A WIT file other than `kinode.wit`.
pub open spec fn is_world_file(name: Seq<char>) -> bool {
    name != "kinode.wit"@ && has_wit_extension(name)
}

/// Whether a file of this name in a WIT directory can declare the world.
pub fn is_world_file_name(name: &str) -> (r: bool)
    ensures
        r == is_world_file(name@),
{
    !eq_lit(&chars_of(name), "kinode.wit") && is_api_file_name(name)
}

/// The worlds declared by the WIT files among `files` (name and contents).
pub open spec fn worlds_of(files: Seq<(Seq<char>, Seq<char>)>) -> Seq<Seq<char>>
    decreases files.len(),
{
    if files.len() == 0 {
        seq![]
    } else {
        let rest = worlds_of(files.drop_last());
        let f = files.last();
        if is_world_file(f.0) {
            match first_capture(f.1, "world"@, '{') {
                Some(w) => rest.push(w),
                None => rest,
            }
        } else {
            rest
        }
    }
}

pub open spec fn files_view(files: Seq<(String, String)>) -> Seq<(Seq<char>, Seq<char>)> {
    files.map_values(|f: (String, String)| (f.0@, f.1@))
}

/// The worlds the WIT files of a directory declare (each file given by its
/// name and contents), in the order given.
pub fn extract_worlds_from_files(files: &Vec<(String, String)>) -> (r: Vec<String>)
    ensures
        strings_view(r@) == worlds_of(files_view(files@)),
{
    let ghost fv = files_view(files@);
    let mut out: Vec<String> = Vec::new();
    let mut i: usize = 0;
    while i < files.len()
        invariant
            fv == files_view(files@),
            i <= files.len(),
            strings_view(out@) == worlds_of(fv.take(i as int)),
        decreases files.len() - i,
    {
        assert(fv.take(i + 1).drop_last() =~= fv.take(i as int));
        assert(fv.take(i + 1).last() == fv[i as int]);
        if is_world_file_name(files[i].0.as_str()) {
            match extract_world(files[i].1.as_str()) {
                Some(w) => {
                    let ghost before = out@;
                    out.push(w);
                    assert(strings_view(out@) =~= strings_view(before).push(w@));
                },
                None => {},
            }
        }
        i = i + 1;
    }
    assert(fv.take(files.len() as int) =~= fv);
    out
}

/// The one world the WIT files declare; `default_world` when they declare
/// none or several.
pub fn get_world_or_default(files: &Vec<(String, String)>, default_world: String) -> (r: String)
    ensures
        worlds_of(files_view(files@)).len() == 1 ==> r@ == worlds_of(files_view(files@))[0],
        worlds_of(files_view(files@)).len() != 1 ==> r@ == default_world@,
{
    let worlds = extract_worlds_from_files(files);
    if worlds.len() == 1 {
        return worlds[0].clone();
    }
    default_world
}

} // verus!

verus! {

/// Where the `kinode.wit` of a WIT version is downloaded from.
pub open spec fn wit_url_text(wit_version: Option<u32>) -> Seq<char> {
    match wit_version {
        None => "https://raw.githubusercontent.com/kinode-dao/kinode-wit/aa2c8b11c9171b949d1991c32f58591c0e881f85/kinode.wit"@,
        Some(_) => "https://raw.githubusercontent.com/kinode-dao/kinode-wit/v0.8/kinode.wit"@,
    }
}

/// The URL of the `kinode.wit` matching the package's WIT version.
pub fn wit_url(wit_version: Option<u32>) -> (r: String)
    ensures
        r@ == wit_url_text(wit_version),
{
    match wit_version {
        None => "https://raw.githubusercontent.com/kinode-dao/kinode-wit/aa2c8b11c9171b949d1991c32f58591c0e881f85/kinode.wit".to_owned(),
        Some(_) => "https://raw.githubusercontent.com/kinode-dao/kinode-wit/v0.8/kinode.wit".to_owned(),
    }
}

/// The world processes are built against: the one given, else the default
/// world of the package's WIT version.
pub fn default_wit_world(default_world: Option<String>, wit_version: Option<u32>) -> (r: String)
    ensures
        default_world matches Some(w) ==> r@ == w@,
        default_world is None && wit_version is None ==> r@ == "process"@,
        default_world is None && wit_version is Some ==> r@ == "process-v0"@,
{
    match default_world {
        Some(w) => w,
        None => match wit_version {
            None => "process".to_owned(),
            Some(_) => "process-v0".to_owned(),
        },
    }
}

/// The language a process is written in.
#[derive(Clone, Copy, Debug, PartialEq, Eq, Structural)]
pub enum ProcessKind {
    Rust,
    Python,
    Javascript,
}

/// The kind of process a directory holds, by which source file it has:
/// `src/lib.rs` first, then `src/lib.py`, then `src/lib.js`.
pub fn process_kind(has_rust_src: bool, has_python_src: bool, has_javascript_src: bool) -> (r:
    Option<ProcessKind>)
    ensures
        has_rust_src ==> r == Some(ProcessKind::Rust),
        !has_rust_src && has_python_src ==> r == Some(ProcessKind::Python),
        !has_rust_src && !has_python_src && has_javascript_src ==> r == Some(ProcessKind::Javascript),
        !has_rust_src && !has_python_src && !has_javascript_src ==> r is None,
{
    if has_rust_src {
        Some(ProcessKind::Rust)
    } else if has_python_src {
        Some(ProcessKind::Python)
    } else if has_javascript_src {
        Some(ProcessKind::Javascript)
    } else {
        None
    }
}

/// Which dependency checks have run while scanning a package.
#[derive(Clone, Copy, Debug, PartialEq, Eq, Structural)]
pub struct DepChecks {
    pub rust: bool,
    pub python: bool,
    pub javascript: bool,
}

/// What the scan of a package does for one of its entries.
#[derive(Clone, Copy, Debug, PartialEq, Eq, Structural)]
pub enum ScanAction {
    Nothing,
    CheckRustDeps,
    CheckPythonDeps,
    CheckJavascriptDeps,
    ReadApis,
}

/// One entry of a package directory, as the scan sees it.
#[derive(Clone, Copy, Debug, PartialEq, Eq, Structural)]
pub struct ScanEntry {
    pub is_dir: bool,
    pub has_rust_src: bool,
    pub has_python_src: bool,
    pub has_javascript_src: bool,
    pub is_api_dir: bool,
}

pub open spec fn scan_step_spec(checks: DepChecks, e: ScanEntry, skip_deps_check: bool) -> (
    DepChecks,
    ScanAction,
) {
    if !e.is_dir {
        (checks, ScanAction::Nothing)
    } else if e.has_rust_src && !checks.rust && !skip_deps_check {
        (DepChecks { rust: true, ..checks }, ScanAction::CheckRustDeps)
    } else if e.has_python_src && !checks.python {
        (DepChecks { python: true, ..checks }, ScanAction::CheckPythonDeps)
    } else if e.has_javascript_src && !checks.javascript && !skip_deps_check {
        (DepChecks { javascript: true, ..checks }, ScanAction::CheckJavascriptDeps)
    } else if e.is_api_dir {
        (checks, ScanAction::ReadApis)
    } else {
        (checks, ScanAction::Nothing)
    }
}

/// One step of the scan of a package: each language's dependencies are
/// checked at its first process (rust and javascript not when checks are
/// skipped), and the `api` directory is read.
pub fn scan_step(checks: DepChecks, entry: ScanEntry, skip_deps_check: bool) -> (r: (
    DepChecks,
    ScanAction,
))
    ensures
        r == scan_step_spec(checks, entry, skip_deps_check),
{
    if !entry.is_dir {
        (checks, ScanAction::Nothing)
    } else if entry.has_rust_src && !checks.rust && !skip_deps_check {
        (DepChecks { rust: true, python: checks.python, javascript: checks.javascript }, ScanAction::CheckRustDeps)
    } else if entry.has_python_src && !checks.python {
        (DepChecks { rust: checks.rust, python: true, javascript: checks.javascript }, ScanAction::CheckPythonDeps)
    } else if entry.has_javascript_src && !checks.javascript && !skip_deps_check {
        (DepChecks { rust: checks.rust, python: checks.python, javascript: true }, ScanAction::CheckJavascriptDeps)
    } else if entry.is_api_dir {
        (checks, ScanAction::ReadApis)
    } else {
        (checks, ScanAction::Nothing)
    }
}

/// Each language's dependencies are checked at most once in a scan: once a
/// check has run, no later step asks for it again.
pub proof fn lemma_scan_checks_once(checks: DepChecks, e: ScanEntry, skip_deps_check: bool)
    ensures
        checks.rust ==> scan_step_spec(checks, e, skip_deps_check).1 != ScanAction::CheckRustDeps,
        checks.python ==> scan_step_spec(checks, e, skip_deps_check).1 != ScanAction::CheckPythonDeps,
        checks.javascript ==> scan_step_spec(checks, e, skip_deps_check).1 != ScanAction::CheckJavascriptDeps,
        checks.rust ==> scan_step_spec(checks, e, skip_deps_check).0.rust,
        checks.python ==> scan_step_spec(checks, e, skip_deps_check).0.python,
        checks.javascript ==> scan_step_spec(checks, e, skip_deps_check).0.javascript,
{
}

/// What `kit build` does with a package directory.
#[derive(Clone, Copy, Debug, PartialEq, Eq, Structural)]
pub enum BuildPlan {
    /// A `.DS_Store` entry: nothing to build.
    Skip,
    /// No `pkg/` directory: not a package.
    MissingPkgDir,
    /// Only the UI is asked for, and there is none.
    MissingUiDir,
    /// Build the processes only.
    Package,
    /// Check the javascript dependencies, then build the UI only.
    UiOnly,
    /// Check the javascript dependencies, then build the UI and the processes.
    PackageAndUi,
}

/// What to build, given what the package directory holds and the flags.
pub fn build_plan(has_pkg_dir: bool, is_ds_store: bool, has_ui_dir: bool, no_ui: bool, ui_only: bool) -> (r: BuildPlan)
    ensures
        !has_pkg_dir ==> r == (if is_ds_store { BuildPlan::Skip } else { BuildPlan::MissingPkgDir }),
        has_pkg_dir && !has_ui_dir ==> r == (if ui_only { BuildPlan::MissingUiDir } else { BuildPlan::Package }),
        has_pkg_dir && has_ui_dir ==> r == (if no_ui {
            BuildPlan::Package
        } else if ui_only {
            BuildPlan::UiOnly
        } else {
            BuildPlan::PackageAndUi
        }),
{
    if !has_pkg_dir {
        if is_ds_store {
            return BuildPlan::Skip;
        }
        return BuildPlan::MissingPkgDir;
    }
    if !has_ui_dir {
        if ui_only {
            BuildPlan::MissingUiDir
        } else {
            BuildPlan::Package
        }
    } else if no_ui {
        BuildPlan::Package
    } else if ui_only {
        BuildPlan::UiOnly
    } else {
        BuildPlan::PackageAndUi
    }
}

/// `cmd` run after switching to the given node version with `nvm`, or as it
/// is without one.
pub open spec fn with_node(valid_node: Option<Seq<char>>, cmd: Seq<char>) -> Seq<char> {
    match valid_node {
        Some(v) => "source ~/.nvm/nvm.sh && nvm use "@ + v + " && "@ + cmd,
        None => cmd,
    }
}

fn with_node_exec(valid_node: &Option<String>, cmd: &str) -> (r: String)
    ensures
        r@ == with_node(opt_string_view(*valid_node), cmd@),
{
    match valid_node {
        Some(v) => {
            let mut out = chars_of("source ~/.nvm/nvm.sh && nvm use ");
            push_str(&mut out, v.as_str());
            push_str(&mut out, " && ");
            push_str(&mut out, cmd);
            string_of(&out)
        },
        None => cmd.to_owned(),
    }
}

/// The two shell commands that build a javascript process: install, then
/// componentize into `<name>.wasm` for the world.
pub fn javascript_commands(valid_node: &Option<String>, wasm_file_name: &str, world_name: &str) -> (r: (String, String))
    ensures
        r.0@ == with_node(opt_string_view(*valid_node), "npm install"@),
        r.1@ == with_node(opt_string_view(*valid_node), "node componentize.mjs "@ + wasm_file_name@ + " "@ + world_name@),
{
    let install = with_node_exec(valid_node, "npm install");
    let mut c = chars_of("node componentize.mjs ");
    push_str(&mut c, wasm_file_name);
    push_str(&mut c, " ");
    push_str(&mut c, world_name);
    let componentize = string_of(&c);
    (install, with_node_exec(valid_node, componentize.as_str()))
}

/// The two shell commands that build the UI: install, then build and copy.
pub fn ui_commands(valid_node: &Option<String>) -> (r: (String, String))
    ensures
        r.0@ == with_node(opt_string_view(*valid_node), "npm install"@),
        r.1@ == with_node(opt_string_view(*valid_node), "npm run build:copy"@),
{
    (with_node_exec(valid_node, "npm install"), with_node_exec(valid_node, "npm run build:copy"))
}

/// The shell command that builds a python process in its `src/` directory:
/// activate the environment, install the componentizer, componentize.
pub open spec fn python_command_text(wasm_file_name: Seq<char>, world_name: Seq<char>) -> Seq<char> {
    "source ../process_env/bin/activate"@ + " && "@ + "pip install componentize-py==0.11.0"@
        + " && "@ + "componentize-py -d ../target/wit/ -w "@ + world_name
        + " componentize lib -o ../../pkg/"@ + wasm_file_name + ".wasm"@
}

/// The shell command that builds a python process.
pub fn python_command(wasm_file_name: &str, world_name: &str) -> (r: String)
    ensures
        r@ == python_command_text(wasm_file_name@, world_name@),
{
    let mut c = chars_of("source ../process_env/bin/activate");
    push_str(&mut c, " && ");
    push_str(&mut c, "pip install componentize-py==0.11.0");
    push_str(&mut c, " && ");
    push_str(&mut c, "componentize-py -d ../target/wit/ -w ");
    push_str(&mut c, world_name);
    push_str(&mut c, " componentize lib -o ../../pkg/");
    push_str(&mut c, wasm_file_name);
    push_str(&mut c, ".wasm");
    string_of(&c)
}

/// The `wasm-tools` arguments that adapt a built rust module into a component.
pub fn wasm_adapt_args(wasm_file_name: &str) -> (r: Vec<String>)
    ensures
        strings_view(r@) == seq![
            "component"@,
            "new"@,
            "target/wasm32-wasi/release/"@ + wasm_file_name@ + ".wasm"@,
            "-o"@,
            "../pkg/"@ + wasm_file_name@ + ".wasm"@,
            "--adapt"@,
            "target/wasi_snapshot_preview1.wasm"@,
        ],
{
    let mut out: Vec<String> = Vec::new();
    push_lit(&mut out, "component");
    push_lit(&mut out, "new");
    let mut a = chars_of("target/wasm32-wasi/release/");
    push_str(&mut a, wasm_file_name);
    push_str(&mut a, ".wasm");
    let ghost b1 = out@;
    out.push(string_of(&a));
    assert(strings_view(out@) =~= strings_view(b1).push(a@));
    push_lit(&mut out, "-o");
    let mut b = chars_of("../pkg/");
    push_str(&mut b, wasm_file_name);
    push_str(&mut b, ".wasm");
    let ghost b2 = out@;
    out.push(string_of(&b));
    assert(strings_view(out@) =~= strings_view(b2).push(b@));
    push_lit(&mut out, "--adapt");
    push_lit(&mut out, "target/wasi_snapshot_preview1.wasm");
    assert(strings_view(out@) =~= seq![
            "component"@,
            "new"@,
            "target/wasm32-wasi/release/"@ + wasm_file_name@ + ".wasm"@,
            "-o"@,
            "../pkg/"@ + wasm_file_name@ + ".wasm"@,
            "--adapt"@,
            "target/wasi_snapshot_preview1.wasm"@,
        ]);
    out
}

/// Where the WASI adapter of the pinned wasmtime release is downloaded from.
pub fn wasi_snapshot_url() -> (r: String)
    ensures
        r@ == "https://github.com/bytecodealliance/wasmtime/releases/download/v"@ + "19.0.1"@
            + "/wasi_snapshot_preview1.reactor.wasm"@,
{
    let mut c = chars_of("https://github.com/bytecodealliance/wasmtime/releases/download/v");
    push_str(&mut c, "19.0.1");
    push_str(&mut c, "/wasi_snapshot_preview1.reactor.wasm");
    string_of(&c)
}

} // verus!

verus! {

/// Position of the entry with key `k`, the first from `j` on.
pub open spec fn key_pos<V>(m: Seq<(Seq<char>, V)>, k: Seq<char>, j: int) -> Option<int>
    decreases m.len() - j,
{
    if j < 0 || j >= m.len() {
        None
    } else if m[j].0 == k {
        Some(j)
    } else {
        key_pos(m, k, j + 1)
    }
}

proof fn lemma_key_pos<V>(m: Seq<(Seq<char>, V)>, k: Seq<char>, j: int)
    requires
        0 <= j,
    ensures
        key_pos(m, k, j) matches Some(p) ==> j <= p < m.len() && m[p].0 == k,
        key_pos(m, k, j) is None ==> forall|q: int| j <= q < m.len() ==> m[q].0 != k,
    decreases m.len() - j,
{
    if j < m.len() && m[j].0 != k {
        lemma_key_pos(m, k, j + 1);
    }
}

/// Importers so far (interface, importing components), with `path` added as
/// an importer of `name`.
pub open spec fn add_import(m: Seq<(Seq<char>, Seq<Seq<char>>)>, name: Seq<char>, path: Seq<char>) -> Seq<
    (Seq<char>, Seq<Seq<char>>),
> {
    match key_pos(m, name, 0) {
        Some(p) => m.update(p, (name, m[p].1.push(path))),
        None => m.push((name, seq![path])),
    }
}

pub open spec fn add_imports(m: Seq<(Seq<char>, Seq<Seq<char>>)>, names: Seq<Seq<char>>, path: Seq<char>) -> Seq<
    (Seq<char>, Seq<Seq<char>>),
>
    decreases names.len(),
{
    if names.len() == 0 {
        m
    } else {
        add_import(add_imports(m, names.drop_last(), path), names.last(), path)
    }
}

/// Exporters so far with `path` added as the exporter of each of `names`;
/// the first name that already has an exporter is an error.
pub open spec fn add_exports(m: Seq<(Seq<char>, Seq<char>)>, names: Seq<Seq<char>>, path: Seq<char>) -> Result<
    Seq<(Seq<char>, Seq<char>)>,
    Seq<char>,
>
    decreases names.len(),
{
    if names.len() == 0 {
        Ok(m)
    } else {
        match add_exports(m, names.drop_last(), path) {
            Ok(m2) => if key_pos(m2, names.last(), 0) is Some {
                Err(names.last())
            } else {
                Ok(m2.push((names.last(), path)))
            },
            Err(e) => Err(e),
        }
    }
}

/// A component: where it is and what its WIT imports and exports.
pub struct ComponentWit {
    pub path: String,
    pub imports: Vec<String>,
    pub exports: Vec<String>,
}

pub type ImportersView = Seq<(Seq<char>, Seq<Seq<char>>)>;

pub type ExportersView = Seq<(Seq<char>, Seq<char>)>;

/// Importers and exporters gathered from the components in order; an error
/// naming the interface and the component that exports it a second time.
pub open spec fn gather(cs: Seq<(Seq<char>, Seq<Seq<char>>, Seq<Seq<char>>)>) -> Result<
    (ImportersView, ExportersView),
    (Seq<char>, Seq<char>),
>
    decreases cs.len(),
{
    if cs.len() == 0 {
        Ok((seq![], seq![]))
    } else {
        let c = cs.last();
        match gather(cs.drop_last()) {
            Ok((im, ex)) => match add_exports(ex, c.2, c.0) {
                Ok(ex2) => Ok((add_imports(im, c.1, c.0), ex2)),
                Err(name) => Err((name, c.0)),
            },
            Err(e) => Err(e),
        }
    }
}

pub open spec fn components_view(cs: Seq<ComponentWit>) -> Seq<(Seq<char>, Seq<Seq<char>>, Seq<Seq<char>>)> {
    cs.map_values(|c: ComponentWit| (c.path@, strings_view(c.imports@), strings_view(c.exports@)))
}

pub open spec fn importers_view(m: Seq<(String, Vec<String>)>) -> ImportersView {
    m.map_values(|e: (String, Vec<String>)| (e.0@, strings_view(e.1@)))
}

pub open spec fn exporters_view(m: Seq<(String, String)>) -> ExportersView {
    m.map_values(|e: (String, String)| (e.0@, e.1@))
}

fn find_import(m: &Vec<(String, Vec<String>)>, name: &String) -> (r: Option<usize>)
    ensures
        r matches Some(p) ==> key_pos(importers_view(m@), name@, 0) == Some(p as int),
        r is None ==> key_pos(importers_view(m@), name@, 0) is None,
{
    let ghost mv = importers_view(m@);
    let mut j: usize = 0;
    while j < m.len()
        invariant
            mv == importers_view(m@),
            j <= m.len(),
            key_pos(mv, name@, 0) == key_pos(mv, name@, j as int),
        decreases m.len() - j,
    {
        assert(mv[j as int].0 == m@[j as int].0@);
        if eq_lit(&chars_of(m[j].0.as_str()), name.as_str()) {
            return Some(j);
        }
        j = j + 1;
    }
    None
}

fn find_export(m: &Vec<(String, String)>, name: &str) -> (r: Option<usize>)
    ensures
        r matches Some(p) ==> key_pos(exporters_view(m@), name@, 0) == Some(p as int) && p < m@.len(),
        r is None ==> key_pos(exporters_view(m@), name@, 0) is None,
{
    let ghost mv = exporters_view(m@);
    let mut j: usize = 0;
    while j < m.len()
        invariant
            mv == exporters_view(m@),
            j <= m.len(),
            key_pos(mv, name@, 0) == key_pos(mv, name@, j as int),
        decreases m.len() - j,
    {
        assert(mv[j as int].0 == m@[j as int].0@);
        if eq_lit(&chars_of(m[j].0.as_str()), name) {
            return Some(j);
        }
        j = j + 1;
    }
    None
}

fn add_import_exec(m: &mut Vec<(String, Vec<String>)>, name: &String, path: &String)
    ensures
        importers_view(final(m)@) == add_import(importers_view(old(m)@), name@, path@),
{
    let ghost mv = importers_view(m@);
    match find_import(m, name) {
        Some(p) => {
            proof {
                lemma_key_pos(mv, name@, 0);
            }
            let mut entry = (String::new(), Vec::new());
            std::mem::swap(&mut entry, &mut m[p]);
            let ghost old_paths = strings_view(entry.1@);
            entry.1.push(path.clone());
            assert(strings_view(entry.1@) =~= old_paths.push(path@));
            m.set(p, entry);
            assert(importers_view(m@) =~= mv.update(p as int, (name@, mv[p as int].1.push(path@))));
        },
        None => {
            let paths = vec![path.clone()];
            assert(strings_view(paths@) =~= seq![path@]);
            m.push((name.clone(), paths));
            assert(importers_view(m@) =~= mv.push((name@, seq![path@])));
        },
    }
}

/// Gathers which components import each interface and which one exports it;
/// an error (interface, component) where an interface is exported twice.
pub fn collect_imports_exports(components: &Vec<ComponentWit>) -> (r: Result<
    (Vec<(String, Vec<String>)>, Vec<(String, String)>),
    (String, String),
>)
    ensures
        match gather(components_view(components@)) {
            Ok((im, ex)) => r matches Ok(p) && importers_view(p.0@) == im && exporters_view(p.1@) == ex,
            Err((name, path)) => r matches Err(e) && e.0@ == name && e.1@ == path,
        },
{
    let ghost cv = components_view(components@);
    let mut importers: Vec<(String, Vec<String>)> = Vec::new();
    let mut exporters: Vec<(String, String)> = Vec::new();
    assert(importers_view(importers@) =~= Seq::<(Seq<char>, Seq<Seq<char>>)>::empty());
    assert(exporters_view(exporters@) =~= Seq::<(Seq<char>, Seq<char>)>::empty());
    assert(cv.take(0) =~= Seq::<(Seq<char>, Seq<Seq<char>>, Seq<Seq<char>>)>::empty());
    let mut i: usize = 0;
    while i < components.len()
        invariant
            cv == components_view(components@),
            i <= components.len(),
            gather(cv.take(i as int)) == Ok::<(ImportersView, ExportersView), (Seq<char>, Seq<char>)>(
                (importers_view(importers@), exporters_view(exporters@)),
            ),
        decreases components.len() - i,
    {
        let c = &components[i];
        assert(cv.take(i + 1).drop_last() =~= cv.take(i as int));
        assert(cv.take(i + 1).last() == cv[i as int]);
        let ghost iv = strings_view(c.imports@);
        let ghost ev = strings_view(c.exports@);
        let ghost im0 = importers_view(importers@);
        let ghost ex0 = exporters_view(exporters@);
        let mut k: usize = 0;
        while k < c.exports.len()
            invariant
                cv == components_view(components@),
                i < components.len(),
                c == &components[i as int],
                gather(cv.take(i as int)) == Ok::<(ImportersView, ExportersView), (Seq<char>, Seq<char>)>((im0, ex0)),
                cv[i as int] == (c.path@, iv, ev),
                cv.take(i + 1).drop_last() == cv.take(i as int),
                cv.take(i + 1).last() == cv[i as int],
                importers_view(importers@) == im0,
                ev == strings_view(c.exports@),
                k <= c.exports.len(),
                add_exports(ex0, ev.take(k as int), c.path@) == Ok::<ExportersView, Seq<char>>(
                    exporters_view(exporters@),
                ),
            decreases c.exports.len() - k,
        {
            assert(ev.take(k + 1).drop_last() =~= ev.take(k as int));
            assert(ev.take(k + 1).last() == c.exports@[k as int]@);
            if find_export(&exporters, c.exports[k].as_str()).is_some() {
                proof {
                    lemma_add_exports_err(ex0, ev, c.path@, k + 1);
                    assert(gather(cv.take(i + 1)) == Err::<(ImportersView, ExportersView), (Seq<char>, Seq<char>)>((ev[k as int], c.path@)));
                    lemma_gather_err_extend(cv, i + 1);
                }
                return Err((c.exports[k].clone(), c.path.clone()));
            }
            let ghost before = exporters@;
            exporters.push((c.exports[k].clone(), c.path.clone()));
            assert(exporters_view(exporters@) =~= exporters_view(before).push((ev[k as int], c.path@)));
            k = k + 1;
        }
        assert(ev.take(c.exports.len() as int) =~= ev);
        let mut j: usize = 0;
        while j < c.imports.len()
            invariant
                cv == components_view(components@),
                i < components.len(),
                c == &components[i as int],
                gather(cv.take(i as int)) == Ok::<(ImportersView, ExportersView), (Seq<char>, Seq<char>)>((im0, ex0)),
                cv[i as int] == (c.path@, iv, ev),
                cv.take(i + 1).drop_last() == cv.take(i as int),
                cv.take(i + 1).last() == cv[i as int],
                add_exports(ex0, ev, c.path@) == Ok::<ExportersView, Seq<char>>(exporters_view(exporters@)),
                iv == strings_view(c.imports@),
                j <= c.imports.len(),
                importers_view(importers@) == add_imports(im0, iv.take(j as int), c.path@),
            decreases c.imports.len() - j,
        {
            assert(iv.take(j + 1).drop_last() =~= iv.take(j as int));
            assert(iv.take(j + 1).last() == c.imports@[j as int]@);
            add_import_exec(&mut importers, &c.imports[j], &c.path);
            j = j + 1;
        }
        assert(iv.take(c.imports.len() as int) =~= iv);
        i = i + 1;
    }
    assert(cv.take(components.len() as int) =~= cv);
    Ok((importers, exporters))
}

proof fn lemma_gather_err_extend(cs: Seq<(Seq<char>, Seq<Seq<char>>, Seq<Seq<char>>)>, k: int)
    requires
        0 < k <= cs.len(),
        gather(cs.take(k)) is Err,
    ensures
        gather(cs) == gather(cs.take(k)),
    decreases cs.len() - k,
{
    if k < cs.len() {
        assert(cs.take(k + 1).drop_last() =~= cs.take(k));
        lemma_gather_err_extend(cs, k + 1);
    } else {
        assert(cs.take(k) =~= cs);
    }
}

/// Once adding exports fails, adding more fails with the same name.
proof fn lemma_add_exports_err(m: ExportersView, names: Seq<Seq<char>>, path: Seq<char>, k: int)
    requires
        0 < k <= names.len(),
        add_exports(m, names.take(k - 1), path) matches Ok(m2) && key_pos(m2, names[k - 1], 0) is Some,
    ensures
        add_exports(m, names, path) == Err::<ExportersView, Seq<char>>(names[k - 1]),
    decreases names.len() - k,
{
    assert(names.take(k).drop_last() =~= names.take(k - 1));
    assert(add_exports(m, names.take(k), path) == Err::<ExportersView, Seq<char>>(names[k - 1]));
    lemma_add_exports_err_extend(m, names, path, k);
}

proof fn lemma_add_exports_err_extend(m: ExportersView, names: Seq<Seq<char>>, path: Seq<char>, k: int)
    requires
        0 < k <= names.len(),
        add_exports(m, names.take(k), path) is Err,
    ensures
        add_exports(m, names, path) == add_exports(m, names.take(k), path),
    decreases names.len() - k,
{
    if k < names.len() {
        assert(names.take(k + 1).drop_last() =~= names.take(k));
        lemma_add_exports_err_extend(m, names, path, k + 1);
    } else {
        assert(names.take(k) =~= names);
    }
}

} // verus!

verus! {

/// The `wasm-tools` arguments that compose the importer at `import_path`
/// with the exporter at `export_path`, in place.
pub open spec fn compose_args(import_path: Seq<char>, export_path: Seq<char>) -> Seq<Seq<char>> {
    seq!["compose"@, import_path, "-d"@, export_path, "-o"@, import_path]
}

/// The compositions, importer by importer in order; an error naming the
/// first import that no component exports.
pub open spec fn compose_plan(im: ImportersView, ex: ExportersView) -> Result<Seq<Seq<Seq<char>>>, Seq<char>>
    decreases im.len(),
{
    if im.len() == 0 {
        Ok(seq![])
    } else {
        match compose_plan(im.drop_last(), ex) {
            Err(e) => Err(e),
            Ok(cmds) => {
                let (name, paths) = im.last();
                match key_pos(ex, name, 0) {
                    None => Err(name),
                    Some(p) => Ok(cmds + paths.map_values(|ip: Seq<char>| compose_args(ip, ex[p].1))),
                }
            },
        }
    }
}

pub open spec fn commands_view(v: Seq<Vec<String>>) -> Seq<Seq<Seq<char>>> {
    v.map_values(|c: Vec<String>| strings_view(c@))
}

proof fn lemma_compose_err_extend(im: ImportersView, ex: ExportersView, k: int)
    requires
        0 < k <= im.len(),
        compose_plan(im.take(k), ex) is Err,
    ensures
        compose_plan(im, ex) == compose_plan(im.take(k), ex),
    decreases im.len() - k,
{
    if k < im.len() {
        assert(im.take(k + 1).drop_last() =~= im.take(k));
        lemma_compose_err_extend(im, ex, k + 1);
    } else {
        assert(im.take(k) =~= im);
    }
}

/// The `wasm-tools` argument lists that compose every importer with the
/// exporter of what it imports; an error naming an import nobody exports.
pub fn compose_commands(importers: &Vec<(String, Vec<String>)>, exporters: &Vec<(String, String)>) -> (r: Result<Vec<Vec<String>>, String>)
    ensures
        match compose_plan(importers_view(importers@), exporters_view(exporters@)) {
            Ok(cmds) => r matches Ok(v) && commands_view(v@) == cmds,
            Err(name) => r matches Err(e) && e@ == name,
        },
{
    let ghost im = importers_view(importers@);
    let ghost ex = exporters_view(exporters@);
    let mut out: Vec<Vec<String>> = Vec::new();
    let mut i: usize = 0;
    assert(commands_view(out@) =~= Seq::<Seq<Seq<char>>>::empty());
    while i < importers.len()
        invariant
            im == importers_view(importers@),
            ex == exporters_view(exporters@),
            i <= importers.len(),
            compose_plan(im.take(i as int), ex) == Ok::<Seq<Seq<Seq<char>>>, Seq<char>>(commands_view(out@)),
        decreases importers.len() - i,
    {
        assert(im.take(i + 1).drop_last() =~= im.take(i as int));
        assert(im.take(i + 1).last() == im[i as int]);
        let name = &importers[i].0;
        let paths = &importers[i].1;
        match find_export(exporters, name.as_str()) {
            None => {
                proof {
                    lemma_compose_err_extend(im, ex, i + 1);
                }
                return Err(name.clone());
            },
            Some(p) => {
                let export_path = &exporters[p].1;
                let ghost pv = strings_view(paths@);
                let ghost base = commands_view(out@);
                let mut j: usize = 0;
                while j < paths.len()
                    invariant
                        pv == strings_view(paths@),
                        j <= paths.len(),
                        export_path@ == ex[p as int].1,
                        commands_view(out@) == base + pv.take(j as int).map_values(|ip: Seq<char>| compose_args(ip, ex[p as int].1)),
                    decreases paths.len() - j,
                {
                    let mut cmd: Vec<String> = Vec::new();
                    push_lit(&mut cmd, "compose");
                    let ghost c1 = cmd@;
                    cmd.push(paths[j].clone());
                    assert(strings_view(cmd@) =~= strings_view(c1).push(pv[j as int]));
                    push_lit(&mut cmd, "-d");
                    let ghost c2 = cmd@;
                    cmd.push(export_path.clone());
                    assert(strings_view(cmd@) =~= strings_view(c2).push(ex[p as int].1));
                    push_lit(&mut cmd, "-o");
                    let ghost c3 = cmd@;
                    cmd.push(paths[j].clone());
                    assert(strings_view(cmd@) =~= strings_view(c3).push(pv[j as int]));
                    assert(strings_view(cmd@) =~= compose_args(pv[j as int], ex[p as int].1));
                    let ghost before = out@;
                    out.push(cmd);
                    assert(commands_view(out@) =~= commands_view(before).push(compose_args(pv[j as int], ex[p as int].1)));
                    assert(pv.take(j + 1).map_values(|ip: Seq<char>| compose_args(ip, ex[p as int].1)) =~= pv.take(j as int).map_values(|ip: Seq<char>| compose_args(ip, ex[p as int].1)).push(compose_args(pv[j as int], ex[p as int].1)));
                    j = j + 1;
                }
                assert(pv.take(paths.len() as int) =~= pv);
            },
        }
        i = i + 1;
    }
    assert(im.take(importers.len() as int) =~= im);
    Ok(out)
}

/// Dependencies can only be fetched through a node: an error when some are
/// listed and no node URL is given.
pub fn check_fetch_source(dependency_count: usize, url: &Option<String>) -> (r: Result<(), String>)
    ensures
        dependency_count > 0 && url is None ==> (r matches Err(e) && e@ == "Need a node to be able to fetch dependencies"@),
        !(dependency_count > 0 && url is None) ==> r is Ok,
{
    if dependency_count > 0 && url.is_none() {
        return Err("Need a node to be able to fetch dependencies".to_owned());
    }
    Ok(())
}

/// The arguments of the `cargo clean` that `kit clean` runs.
pub open spec fn clean_args_spec(release: bool, profile: Option<Seq<char>>, targets: Seq<Seq<char>>, packages: Seq<Seq<char>>, dry_run: bool) -> Seq<Seq<char>> {
    seq!["clean"@, "--target-dir"@, "target"@]
        + (if release { seq!["--release"@] } else { seq![] })
        + (match profile { Some(p) => seq!["--profile"@, p], None => seq![] })
        + targets.map_values(|t: Seq<char>| seq!["--target"@, t]).flatten()
        + packages.map_values(|p: Seq<char>| seq!["--package"@, p]).flatten()
        + (if dry_run { seq!["--dry-run"@] } else { seq![] })
}

fn push_flag_values(out: &mut Vec<String>, flag: &str, values: &Vec<String>)
    ensures
        strings_view(final(out)@) == strings_view(old(out)@) + strings_view(values@).map_values(|t: Seq<char>| seq![flag@, t]).flatten(),
{
    let ghost vs = strings_view(values@);
    let ghost start = strings_view(out@);
    let mut i: usize = 0;
    while i < values.len()
        invariant
            vs == strings_view(values@),
            i <= values.len(),
            strings_view(out@) == start + vs.take(i as int).map_values(|t: Seq<char>| seq![flag@, t]).flatten(),
        decreases values.len() - i,
    {
        let ghost before = strings_view(out@);
        push_lit(out, flag);
        let ghost mid = out@;
        out.push(values[i].clone());
        assert(strings_view(out@) =~= strings_view(mid).push(vs[i as int]));
        proof {
            let f = |t: Seq<char>| seq![flag@, t];
            assert(vs.take(i + 1).map_values(f) =~= vs.take(i as int).map_values(f).push(f(vs[i as int])));
            vs.take(i as int).map_values(f).lemma_flatten_push(f(vs[i as int]));
        }
        assert(strings_view(out@) =~= before + seq![flag@, vs[i as int]]);
        i = i + 1;
    }
    assert(vs.take(values.len() as int) =~= vs);
}

/// The arguments of the `cargo clean` run by `kit clean`.
pub fn clean_args(release: bool, profile: Option<String>, targets: &Vec<String>, packages: &Vec<String>, dry_run: bool) -> (r: Vec<String>)
    ensures
        strings_view(r@) == clean_args_spec(release, opt_string_view(profile), strings_view(targets@), strings_view(packages@), dry_run),
{
    let mut args: Vec<String> = Vec::new();
    push_lit(&mut args, "clean");
    push_lit(&mut args, "--target-dir");
    push_lit(&mut args, "target");
    let ghost a0 = strings_view(args@);
    if release {
        push_lit(&mut args, "--release");
    }
    let ghost a1 = strings_view(args@);
    assert(a1 =~= a0 + (if release { seq!["--release"@] } else { Seq::<Seq<char>>::empty() }));
    match profile {
        Some(p) => {
            push_lit(&mut args, "--profile");
            let ghost m = args@;
            args.push(p);
            assert(strings_view(args@) =~= strings_view(m).push(p@));
        },
        None => {},
    }
    let ghost a2 = strings_view(args@);
    assert(a2 =~= a1 + (match opt_string_view(profile) { Some(p) => seq!["--profile"@, p], None => Seq::<Seq<char>>::empty() }));
    push_flag_values(&mut args, "--target", targets);
    push_flag_values(&mut args, "--package", packages);
    let ghost a4 = strings_view(args@);
    if dry_run {
        push_lit(&mut args, "--dry-run");
    }
    assert(strings_view(args@) =~= a4 + (if dry_run { seq!["--dry-run"@] } else { Seq::<Seq<char>>::empty() }));
    assert(seq!["clean"@, "--target-dir"@, "target"@] =~= a0);
    args
}

/// The arguments of the `cargo install` that `kit update` runs: the
/// repository and branch, then the user's own arguments.
pub fn update_args(user_args: Vec<String>, branch: &str) -> (r: Vec<String>)
    ensures
        strings_view(r@) == seq!["install"@, "--git"@, "https://github.com/uqbar-dao/necdev"@, "--branch"@, branch@] + strings_view(user_args@),
{
    let mut args: Vec<String> = Vec::new();
    push_lit(&mut args, "install");
    push_lit(&mut args, "--git");
    push_lit(&mut args, "https://github.com/uqbar-dao/necdev");
    push_lit(&mut args, "--branch");
    push_lit(&mut args, branch);
    let ghost a = strings_view(args@);
    let mut rest = user_args;
    let ghost rv = strings_view(rest@);
    args.append(&mut rest);
    assert(strings_view(args@) =~= a + rv);
    args
}

} // verus!

verus! {

/// The name a component exporting an interface gets in `target/api`: its
/// file name with each `_` made `-`.
pub fn exported_component_name(file_name: &str) -> (r: String)
    ensures
        r@ == crate::text::replace_char(file_name@, '_', "-"@),
{
    string_of(&crate::text::replace_char_exec(&chars_of(file_name), '_', &chars_of("-")))
}

} // verus!

verus! {

/// Where a download of `url` is cached: the file in `cache_dir` named by the
/// lower-case hex of the URL's UTF-8 bytes.
pub fn cache_file_path(cache_dir: &str, url: &str) -> (r: String)
    ensures
        r@ == cache_dir@ + "/"@ + crate::chain::hex_text(crate::chain::utf8(url@)),
{
    let bytes = crate::chain::utf8_bytes(url);
    let name = crate::chain::hex_encode(bytes.as_slice());
    let mut out = chars_of(cache_dir);
    push_str(&mut out, "/");
    push_str(&mut out, name.as_str());
    string_of(&out)
}

} // verus!
