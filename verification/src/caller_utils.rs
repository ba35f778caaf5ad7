//! The TypeScript client file generated from a package's WIT API files: the
//! files are grouped by the hyperapp their names give, checked for type names
//! that clash with generated ones, and rendered as one namespace per hyperapp.
use vstd::prelude::*;
use crate::naming::{ends_with_lit, eq_lit, pascal, pascal_chars, starts_with_lit};
use crate::text::{
    chars_of, contains_exec, contains_sub, eq_chars, has_prefix, has_suffix, lemma_views_push, push_all,
    join, join_exec, lines, lines_exec, push_str, slice_of, string_of, views,
};
use crate::ts_emit::{
    enum_ts, fields_convertible, fields_ts_ok, function_parts_ts, generate_typescript_enum,
    generate_typescript_function, generate_typescript_interface, generate_typescript_variant,
    interface_ts, variant_convertible, variant_ok, variant_ts,
};
use crate::ts_types::{ts_convertible, ts_ok, ts_type, wit_type_to_typescript};
use crate::wit_parse::{
    empty_types, parse_wit, read_wit, EnumM, RecordM, SignatureM, SignatureStruct, VariantM,
    WitTypes, WitTypesM,
};

verus! {

/// One WIT file of the API directory: its file stem, the path it is reported
/// under, and its text.
pub struct WitSource {
    pub stem: String,
    pub display: String,
    pub content: String,
}

pub struct SourceM {
    pub stem: Seq<char>,
    pub display: Seq<char>,
    pub content: Seq<char>,
}

impl View for WitSource {
    type V = SourceM;

    open spec fn view(&self) -> SourceM {
        SourceM { stem: self.stem@, display: self.display@, content: self.content@ }
    }
}

pub open spec fn sources_view(v: Seq<WitSource>) -> Seq<SourceM> {
    v.map_values(|s: WitSource| s@)
}

/// A WIT type whose PascalCase name ends in a suffix the generated code
/// reserves for itself.
pub enum CallerUtilsError {
    /// The name ends in `Request` or `Response`.
    ReservedSuffix { name: String, file: String },
    /// The name ends in `RequestWrapper` or `ResponseWrapper`.
    ReservedWrapperSuffix { name: String, file: String },
}

pub enum CallerUtilsErrorM {
    ReservedSuffix { name: Seq<char>, file: Seq<char> },
    ReservedWrapperSuffix { name: Seq<char>, file: Seq<char> },
}

impl View for CallerUtilsError {
    type V = CallerUtilsErrorM;

    open spec fn view(&self) -> CallerUtilsErrorM {
        match self {
            CallerUtilsError::ReservedSuffix { name, file } => CallerUtilsErrorM::ReservedSuffix {
                name: name@,
                file: file@,
            },
            CallerUtilsError::ReservedWrapperSuffix {
                name,
                file,
            } => CallerUtilsErrorM::ReservedWrapperSuffix { name: name@, file: file@ },
        }
    }
}

/// The text reported for a reserved type name.
pub open spec fn error_message(e: CallerUtilsErrorM) -> Seq<char> {
    match e {
        CallerUtilsErrorM::ReservedSuffix { name, file } => "Type '"@ + name + "' in "@
            + file
            + " has a reserved suffix (Request/Response). These suffixes are reserved for generated wrapper types. Please rename the type in the WIT file."@,
        CallerUtilsErrorM::ReservedWrapperSuffix { name, file } => "Type '"@ + name
            + "' in "@ + file
            + " has a reserved suffix (RequestWrapper/ResponseWrapper). These suffixes are reserved for generated types. Please rename the type in the WIT file."@,
    }
}

impl CallerUtilsError {
    /// The error's text.
    pub fn message(&self) -> (r: String)
        ensures
            r@ == error_message(self@),
    {
        let mut out = chars_of("Type '");
        match self {
            CallerUtilsError::ReservedSuffix { name, file } => {
                push_str(&mut out, name.as_str());
                push_str(&mut out, "' in ");
                push_str(&mut out, file.as_str());
                push_str(
                    &mut out,
                    " has a reserved suffix (Request/Response). These suffixes are reserved for generated wrapper types. Please rename the type in the WIT file.",
                );
            },
            CallerUtilsError::ReservedWrapperSuffix { name, file } => {
                push_str(&mut out, name.as_str());
                push_str(&mut out, "' in ");
                push_str(&mut out, file.as_str());
                push_str(
                    &mut out,
                    " has a reserved suffix (RequestWrapper/ResponseWrapper). These suffixes are reserved for generated types. Please rename the type in the WIT file.",
                );
            },
        }
        string_of(&out)
    }
}

/// `s` without one trailing `-sys-v0`.
pub open spec fn drop_sys_suffix(s: Seq<char>) -> Seq<char> {
    if has_suffix(s, "-sys-v0"@) {
        s.take(s.len() - "-sys-v0"@.len())
    } else {
        s
    }
}

fn drop_sys_suffix_exec(s: &Vec<char>) -> (r: Vec<char>)
    ensures
        r@ == drop_sys_suffix(s@),
{
    if ends_with_lit(s, "-sys-v0") {
        let n = chars_of("-sys-v0").len();
        let r = slice_of(s, 0, s.len() - n);
        assert(r@ =~= s@.take(s.len() - n));
        r
    } else {
        s.clone()
    }
}

/// The namespace name for a `types-` file: prefix and `-sys-v0` suffix
/// removed, PascalCase.
pub open spec fn types_app_name(f: Seq<char>) -> Seq<char> {
    let n = if has_prefix(f, "types-"@) {
        f.skip("types-"@.len() as int)
    } else {
        f
    };
    pascal(drop_sys_suffix(n))
}

/// The hyperapp a WIT file belongs to, from its stem: `-sys-v0` removed,
/// then `types-` files named by what follows the prefix, PascalCase.
pub open spec fn app_name(stem: Seq<char>) -> Seq<char> {
    let n = drop_sys_suffix(stem);
    if has_prefix(n, "types-"@) {
        types_app_name(n)
    } else {
        pascal(n)
    }
}

/// The namespace name a `types-` prefixed file name gives.
pub fn extract_hyperapp_name_from_types(filename: &Vec<char>) -> (r: Vec<char>)
    ensures
        r@ == types_app_name(filename@),
{
    let n = if starts_with_lit(filename, "types-") {
        let k = chars_of("types-").len();
        let r = slice_of(filename, k, filename.len());
        assert(r@ =~= filename@.skip(k as int));
        r
    } else {
        filename.clone()
    };
    pascal_chars(&drop_sys_suffix_exec(&n))
}

/// The hyperapp (namespace) name of a WIT file, from its file stem.
pub fn extract_hyperapp_name(stem: &Vec<char>) -> (r: Vec<char>)
    ensures
        r@ == app_name(stem@),
{
    let n = drop_sys_suffix_exec(stem);
    if starts_with_lit(&n, "types-") {
        extract_hyperapp_name_from_types(&n)
    } else {
        pascal_chars(&n)
    }
}

/// The error a type name raises, if its PascalCase form ends in a reserved
/// suffix.
pub open spec fn reserved(name: Seq<char>, file: Seq<char>) -> Option<CallerUtilsErrorM> {
    let t = pascal(name);
    if has_suffix(t, "Request"@) || has_suffix(t, "Response"@) {
        Some(CallerUtilsErrorM::ReservedSuffix { name: name, file })
    } else if has_suffix(t, "RequestWrapper"@) || has_suffix(t, "ResponseWrapper"@) {
        Some(CallerUtilsErrorM::ReservedWrapperSuffix { name: name, file })
    } else {
        None
    }
}

/// The error of the first name that raises one.
pub open spec fn first_reserved(names: Seq<Seq<char>>, file: Seq<char>) -> Option<
    CallerUtilsErrorM,
>
    decreases names.len(),
{
    if names.len() == 0 {
        None
    } else {
        match reserved(names[0], file) {
            Some(e) => Some(e),
            None => first_reserved(names.drop_first(), file),
        }
    }
}

pub open spec fn record_names(rs: Seq<RecordM>) -> Seq<Seq<char>> {
    rs.map_values(|r: RecordM| r.name)
}

pub open spec fn variant_names(vs: Seq<VariantM>) -> Seq<Seq<char>> {
    vs.map_values(|v: VariantM| v.name)
}

pub open spec fn enum_names(es: Seq<EnumM>) -> Seq<Seq<char>> {
    es.map_values(|e: EnumM| e.name)
}

/// The names checked in a file, in the order they are checked: records,
/// then variants, then enums.
pub open spec fn checked_names(t: WitTypesM) -> Seq<Seq<char>> {
    record_names(t.records) + variant_names(t.variants) + enum_names(t.enums)
}

/// The first reserved type name of a file, reported against the file's path.
pub open spec fn file_error(t: WitTypesM, file: Seq<char>) -> Option<CallerUtilsErrorM> {
    first_reserved(checked_names(t), file)
}

pub open spec fn err_view(o: Option<CallerUtilsError>) -> Option<CallerUtilsErrorM> {
    match o {
        Some(e) => Some(e@),
        None => None,
    }
}

fn reserved_exec(name: &Vec<char>, file: &Vec<char>) -> (r: Option<CallerUtilsError>)
    ensures
        err_view(r) == reserved(name@, file@),
{
    let t = pascal_chars(name);
    if ends_with_lit(&t, "Request") || ends_with_lit(&t, "Response") {
        Some(
            CallerUtilsError::ReservedSuffix { name: string_of(name), file: string_of(file) },
        )
    } else if ends_with_lit(&t, "RequestWrapper") || ends_with_lit(&t, "ResponseWrapper") {
        Some(
            CallerUtilsError::ReservedWrapperSuffix {
                name: string_of(name),
                file: string_of(file),
            },
        )
    } else {
        None
    }
}

fn check_reserved(t: &WitTypes, file: &Vec<char>) -> (r: Option<CallerUtilsError>)
    ensures
        err_view(r) == file_error(t@, file@),
{
    let ghost names = checked_names(t@);
    let ghost rs = t@.records;
    let ghost vs = t@.variants;
    let ghost es = t@.enums;
    let mut all: Vec<Vec<char>> = Vec::new();
    let mut i: usize = 0;
    while i < t.records.len()
        invariant
            rs == t@.records,
            i <= t.records.len(),
            views(all@) == record_names(rs.take(i as int)),
        decreases t.records.len() - i,
    {
        proof {
            lemma_views_push(all@, t.records[i as int].name);
        }
        all.push(t.records[i].name.clone());
        assert(record_names(rs.take(i + 1)) =~= record_names(rs.take(i as int)).push(
            rs[i as int].name,
        ));
        i = i + 1;
    }
    assert(rs.take(rs.len() as int) =~= rs);
    let mut i: usize = 0;
    while i < t.variants.len()
        invariant
            rs == t@.records,
            vs == t@.variants,
            i <= t.variants.len(),
            views(all@) == record_names(rs) + variant_names(vs.take(i as int)),
        decreases t.variants.len() - i,
    {
        proof {
            lemma_views_push(all@, t.variants[i as int].name);
        }
        all.push(t.variants[i].name.clone());
        assert(record_names(rs) + variant_names(vs.take(i + 1)) =~= (record_names(rs)
            + variant_names(vs.take(i as int))).push(vs[i as int].name));
        i = i + 1;
    }
    assert(vs.take(vs.len() as int) =~= vs);
    let mut i: usize = 0;
    while i < t.enums.len()
        invariant
            rs == t@.records,
            vs == t@.variants,
            es == t@.enums,
            i <= t.enums.len(),
            views(all@) == record_names(rs) + variant_names(vs) + enum_names(es.take(i as int)),
        decreases t.enums.len() - i,
    {
        proof {
            lemma_views_push(all@, t.enums[i as int].name);
        }
        all.push(t.enums[i].name.clone());
        assert(record_names(rs) + variant_names(vs) + enum_names(es.take(i + 1)) =~= (
        record_names(rs) + variant_names(vs) + enum_names(es.take(i as int))).push(
            es[i as int].name,
        ));
        i = i + 1;
    }
    assert(es.take(es.len() as int) =~= es);
    assert(views(all@) == names);
    assert(names.skip(0) =~= names);
    let mut k: usize = 0;
    while k < all.len()
        invariant
            names == checked_names(t@),
            views(all@) == names,
            k <= all.len(),
            first_reserved(names, file@) == first_reserved(names.skip(k as int), file@),
        decreases all.len() - k,
    {
        assert(all[k as int]@ == names[k as int]);
        let r = reserved_exec(&all[k], file);
        assert(names.skip(k as int).drop_first() =~= names.skip(k + 1));
        assert(names.skip(k as int)[0] == names[k as int]);
        assert(names.skip(k as int).len() > 0);
        if r.is_some() {

            return r;
        }
        k = k + 1;
    }
    None
}

/// The HTTP endpoints among the signatures, in order.
pub open spec fn http_sigs(ss: Seq<SignatureM>) -> Seq<SignatureM>
    decreases ss.len(),
{
    if ss.len() == 0 {
        seq![]
    } else if ss.last().attr_type == "http"@ {
        http_sigs(ss.drop_last()).push(ss.last())
    } else {
        http_sigs(ss.drop_last())
    }
}

/// A hyperapp's types with one more file's added after them; of the file's
/// endpoints only the HTTP ones are kept.
pub open spec fn merge(a: WitTypesM, b: WitTypesM) -> WitTypesM {
    WitTypesM {
        signatures: a.signatures + http_sigs(b.signatures),
        records: a.records + b.records,
        variants: a.variants + b.variants,
        enums: a.enums + b.enums,
        aliases: a.aliases + b.aliases,
    }
}

/// Why a hyperapp's files stop being read: reading one panics, or one
/// declares a reserved type name.
pub enum StopM {
    Panics,
    Rejected(CallerUtilsErrorM),
}

/// A hyperapp: its namespace name, the types read from its files so far, and
/// the reason reading stopped, if it did.
pub struct GroupM {
    pub name: Seq<char>,
    pub data: WitTypesM,
    pub stop: Option<StopM>,
}

pub open spec fn new_group(name: Seq<char>) -> GroupM {
    GroupM { name, data: empty_types(), stop: None }
}

/// A hyperapp after reading one more of its files.
pub open spec fn add_file(g: GroupM, f: SourceM) -> GroupM {
    if g.stop is Some {
        g
    } else {
        match parse_wit(f.content) {
            None => GroupM { stop: Some(StopM::Panics), ..g },
            Some(t) => match file_error(t, f.display) {
                Some(e) => GroupM { stop: Some(StopM::Rejected(e)), ..g },
                None => GroupM { data: merge(g.data, t), ..g },
            },
        }
    }
}

/// The position of the first hyperapp at or after `j` with the given name.
pub open spec fn group_index_from(gs: Seq<GroupM>, name: Seq<char>, j: int) -> Option<int>
    decreases gs.len() - j,
{
    if j < 0 || j >= gs.len() {
        None
    } else if gs[j].name == name {
        Some(j)
    } else {
        group_index_from(gs, name, j + 1)
    }
}

/// A file other than a world definition: its text holds no `world `.
pub open spec fn kept(f: SourceM) -> bool {
    !contains_sub(f.content, "world "@)
}

/// The hyperapps after one more file: a world definition is skipped; any
/// other file joins the hyperapp its stem names, which is appended the first
/// time that name comes up.
pub open spec fn step(gs: Seq<GroupM>, f: SourceM) -> Seq<GroupM> {
    if !kept(f) {
        gs
    } else {
        let n = app_name(f.stem);
        match group_index_from(gs, n, 0) {
            Some(i) => gs.update(i, add_file(gs[i], f)),
            None => gs.push(add_file(new_group(n), f)),
        }
    }
}

/// The hyperapps of the files, in the order their names first come up.
pub open spec fn grouped(fs: Seq<SourceM>) -> Seq<GroupM>
    decreases fs.len(),
{
    if fs.len() == 0 {
        seq![]
    } else {
        step(grouped(fs.drop_last()), fs.last())
    }
}

enum Stop {
    Panics,
    Rejected(CallerUtilsError),
}

impl View for Stop {
    type V = StopM;

    closed spec fn view(&self) -> StopM {
        match self {
            Stop::Panics => StopM::Panics,
            Stop::Rejected(e) => StopM::Rejected(e@),
        }
    }
}

struct Group {
    name: Vec<char>,
    data: WitTypes,
    stop: Option<Stop>,
}

impl View for Group {
    type V = GroupM;

    closed spec fn view(&self) -> GroupM {
        GroupM {
            name: self.name@,
            data: self.data@,
            stop: match self.stop {
                Some(s) => Some(s@),
                None => None,
            },
        }
    }
}

spec fn groups_view(gs: Seq<Group>) -> Seq<GroupM> {
    gs.map_values(|g: Group| g@)
}

fn merge_into(d: &mut WitTypes, t: WitTypes)
    ensures
        final(d)@ == merge(old(d)@, t@),
{
    let ghost d0 = d@;
    let ghost t0 = t@;
    let ghost ts = t.signatures@;
    let mut t = t;
    d.records.append(&mut t.records);
    d.variants.append(&mut t.variants);
    d.enums.append(&mut t.enums);
    d.aliases.append(&mut t.aliases);
    let n = t.signatures.len();
    let mut i: usize = 0;
    assert(ts.skip(0) =~= ts);
    while i < n
        invariant
            n == ts.len(),
            i <= n,
            t.signatures@ == ts.skip(i as int),
            t0.signatures == ts.map_values(|s: SignatureStruct| s@),
            d.signatures@.map_values(|s: SignatureStruct| s@) == d0.signatures + http_sigs(
                t0.signatures.take(i as int),
            ),
            d.records@.map_values(|r: crate::wit_parse::WitRecord| r@) == d0.records + t0.records,
            d.variants@.map_values(|v: crate::wit_parse::WitVariant| v@) == d0.variants
                + t0.variants,
            d.enums@.map_values(|e: crate::wit_parse::WitEnum| e@) == d0.enums + t0.enums,
            crate::wit_parse::pairs_view(d.aliases@) == d0.aliases + t0.aliases,
        decreases n - i,
    {
        let sig = t.signatures.remove(0);
        assert(sig == ts[i as int]);
        assert(ts.skip(i as int).remove(0) =~= ts.skip(i + 1));
        assert(t0.signatures.take(i + 1).drop_last() =~= t0.signatures.take(i as int));
        if eq_lit(&sig.attr_type, "http") {
            let ghost before = d.signatures@;
            d.signatures.push(sig);
            assert(d.signatures@.map_values(|s: SignatureStruct| s@) =~= before.map_values(
                |s: SignatureStruct| s@,
            ).push(t0.signatures[i as int]));
        }
        i = i + 1;
    }
    assert(t0.signatures.take(n as int) =~= t0.signatures);
    assert(d@ =~= merge(d0, t0));
}

fn add_file_exec(g: &mut Group, src: &WitSource)
    ensures
        final(g)@ == add_file(old(g)@, src@),
{
    if g.stop.is_some() {
        return;
    }
    let content = chars_of(src.content.as_str());
    match read_wit(&content) {
        None => {
            g.stop = Some(Stop::Panics);
        },
        Some(t) => {
            let disp = chars_of(src.display.as_str());
            match check_reserved(&t, &disp) {
                Some(e) => {
                    g.stop = Some(Stop::Rejected(e));
                },
                None => {
                    merge_into(&mut g.data, t);
                },
            }
        },
    }
}

fn find_group(gs: &Vec<Group>, name: &Vec<char>) -> (r: Option<usize>)
    ensures
        r matches Some(j) ==> group_index_from(groups_view(gs@), name@, 0) == Some(j as int)
            && j < gs.len(),
        r is None ==> group_index_from(groups_view(gs@), name@, 0) is None,
{
    let ghost v = groups_view(gs@);
    let mut j: usize = 0;
    while j < gs.len()
        invariant
            v == groups_view(gs@),
            j <= gs.len(),
            group_index_from(v, name@, 0) == group_index_from(v, name@, j as int),
        decreases gs.len() - j,
    {
        assert(v[j as int] == gs[j as int]@);
        if eq_chars(&gs[j].name, name) {
            return Some(j);
        }
        j = j + 1;
    }
    None
}

fn empty_wit_types() -> (r: WitTypes)
    ensures
        r@ == empty_types(),
{
    let r = WitTypes {
        signatures: Vec::new(),
        records: Vec::new(),
        variants: Vec::new(),
        enums: Vec::new(),
        aliases: Vec::new(),
    };
    assert(r@ =~= empty_types());
    r
}

fn build_groups(srcs: &Vec<WitSource>) -> (gs: Vec<Group>)
    ensures
        groups_view(gs@) == grouped(sources_view(srcs@)),
{
    let ghost fs = sources_view(srcs@);
    let mut gs: Vec<Group> = Vec::new();
    let mut i: usize = 0;
    proof {
        reveal_strlit("world ");
    }
    while i < srcs.len()
        invariant
            fs == sources_view(srcs@),
            i <= srcs.len(),
            groups_view(gs@) == grouped(fs.take(i as int)),
        decreases srcs.len() - i,
    {
        let src = &srcs[i];
        assert(src@ == fs[i as int]);
        assert(fs.take(i + 1).drop_last() =~= fs.take(i as int));
        let content = chars_of(src.content.as_str());
        if !contains_exec(&content, &chars_of("world ")) {
            let name = extract_hyperapp_name(&chars_of(src.stem.as_str()));
            let ghost old_v = groups_view(gs@);
            match find_group(&gs, &name) {
                Some(j) => {
                    let mut g = gs.remove(j);
                    add_file_exec(&mut g, src);
                    gs.insert(j, g);
                    assert(groups_view(gs@) =~= old_v.update(j as int, add_file(old_v[j as int], src@)));
                },
                None => {
                    let mut g = Group { name, data: empty_wit_types(), stop: None };
                    add_file_exec(&mut g, src);
                    gs.push(g);
                    assert(groups_view(gs@) =~= old_v.push(add_file(new_group(name@), src@)));
                },
            }
        }
        i = i + 1;
    }
    assert(fs.take(srcs.len() as int) =~= fs);
    gs
}

/// The helpers every generated client file starts with: the error class,
/// the response parser and the request function.
pub open spec fn header_ts() -> Seq<char> {
    "// Define a custom error type for API errors\nexport class ApiError extends Error {\n  constructor(message: string, public readonly details?: unknown) {\n    super(message);\n    this.name = 'ApiError';\n  }\n}\n\n// Parser for the Result-style responses\n// eslint-disable-next-line @typescript-eslint/no-explicit-any\nexport function parseResponse<T>(response: any): T {\n  try {\n    if ('Ok' in response && response.Ok !== undefined && response.Ok !== null) {\n      return response.Ok as T;\n    }\n\n    if ('Err' in response && response.Err !== undefined) {\n      throw new ApiError(`API returned an error`, response.Err);\n    }\n  } catch (e) {\n    return response as T;\n  }\n  return response as T;\n}\n\n/**\n * Generic API request function\n * @param path - API endpoint path\n * @param method - HTTP method (GET, POST, PUT, DELETE, etc.)\n * @param data - Request data\n * @returns Promise with parsed response data\n * @throws ApiError if the request fails or response contains an error\n */\nasync function apiRequest<T, R>(path: string, method: string, data: T): Promise<R> {\n  const BASE_URL = import.meta.env.BASE_URL || window.location.origin;\n\n  const requestOptions: RequestInit = {\n    method: method,\n    headers: {\n      \"Content-Type\": \"application/json\",\n    },\n  };\n\n  // Only add body for methods that support it\n  if (method !== 'GET' && method !== 'HEAD') {\n    requestOptions.body = JSON.stringify(data);\n  }\n\n  const url = path.startsWith('/') ? `${BASE_URL}${path}` : `${BASE_URL}/${path}`;\n  const result = await fetch(url, requestOptions);\n\n  if (!result.ok) {\n    throw new ApiError(`HTTP request failed with status: ${result.status}`);\n  }\n\n  const jsonResponse = await result.json();\n  return parseResponse<R>(jsonResponse);\n}\n\n"@
}

fn push_header(out: &mut Vec<char>)
    ensures
        final(out)@ == old(out)@ + header_ts(),
{
    push_str(out, "// Define a custom error type for API errors\nexport class ApiError extends Error {\n  constructor(message: string, public readonly details?: unknown) {\n    super(message);\n    this.name = 'ApiError';\n  }\n}\n\n// Parser for the Result-style responses\n// eslint-disable-next-line @typescript-eslint/no-explicit-any\nexport function parseResponse<T>(response: any): T {\n  try {\n    if ('Ok' in response && response.Ok !== undefined && response.Ok !== null) {\n      return response.Ok as T;\n    }\n\n    if ('Err' in response && response.Err !== undefined) {\n      throw new ApiError(`API returned an error`, response.Err);\n    }\n  } catch (e) {\n    return response as T;\n  }\n  return response as T;\n}\n\n/**\n * Generic API request function\n * @param path - API endpoint path\n * @param method - HTTP method (GET, POST, PUT, DELETE, etc.)\n * @param data - Request data\n * @returns Promise with parsed response data\n * @throws ApiError if the request fails or response contains an error\n */\nasync function apiRequest<T, R>(path: string, method: string, data: T): Promise<R> {\n  const BASE_URL = import.meta.env.BASE_URL || window.location.origin;\n\n  const requestOptions: RequestInit = {\n    method: method,\n    headers: {\n      \"Content-Type\": \"application/json\",\n    },\n  };\n\n  // Only add body for methods that support it\n  if (method !== 'GET' && method !== 'HEAD') {\n    requestOptions.body = JSON.stringify(data);\n  }\n\n  const url = path.startsWith('/') ? `${BASE_URL}${path}` : `${BASE_URL}/${path}`;\n  const result = await fetch(url, requestOptions);\n\n  if (!result.ok) {\n    throw new ApiError(`HTTP request failed with status: ${result.status}`);\n  }\n\n  const jsonResponse = await result.json();\n  return parseResponse<R>(jsonResponse);\n}\n\n");
}

/// Every non-empty line indented by two spaces, as inside a namespace.
pub open spec fn indent_line(l: Seq<char>) -> Seq<char> {
    if l.len() == 0 {
        l
    } else {
        "  "@ + l
    }
}

pub open spec fn indent_lines(ls: Seq<Seq<char>>) -> Seq<Seq<char>> {
    ls.map_values(|l: Seq<char>| indent_line(l))
}

/// The lines of `s`, each non-empty one indented by two spaces.
pub open spec fn indent(s: Seq<char>) -> Seq<char> {
    join(indent_lines(lines(s)), "\n"@)
}

/// `  export type Name = Type`, one alias of a namespace; the alias `value`
/// becomes `unknown`.
pub open spec fn alias_line(a: (Seq<char>, Seq<char>)) -> Seq<char> {
    "  export type "@ + pascal(a.0) + " = "@ + (if a.0 == "value"@ {
        "unknown"@
    } else {
        ts_type(a.1)
    }) + "\n"@
}

pub open spec fn alias_lines(als: Seq<(Seq<char>, Seq<char>)>) -> Seq<char>
    decreases als.len(),
{
    if als.len() == 0 {
        seq![]
    } else {
        alias_lines(als.drop_last()) + alias_line(als.last())
    }
}

pub open spec fn enum_blocks(es: Seq<EnumM>) -> Seq<char>
    decreases es.len(),
{
    if es.len() == 0 {
        seq![]
    } else {
        enum_blocks(es.drop_last()) + indent(enum_ts(es.last())) + "\n\n"@
    }
}

pub open spec fn record_blocks(rs: Seq<RecordM>) -> Seq<char>
    decreases rs.len(),
{
    if rs.len() == 0 {
        seq![]
    } else {
        record_blocks(rs.drop_last()) + indent(interface_ts(rs.last())) + "\n\n"@
    }
}

pub open spec fn variant_blocks(vs: Seq<VariantM>) -> Seq<char>
    decreases vs.len(),
{
    if vs.len() == 0 {
        seq![]
    } else {
        variant_blocks(vs.drop_last()) + indent(variant_ts(vs.last())) + "\n\n"@
    }
}

/// The request interface and response type of one endpoint, indented.
pub open spec fn sig_type_block(s: SignatureM) -> Seq<char> {
    let p = function_parts_ts(s);
    if p.0.len() == 0 {
        seq![]
    } else {
        indent(p.0) + "\n\n"@ + indent(p.1) + "\n\n"@
    }
}

pub open spec fn sig_type_blocks(ss: Seq<SignatureM>) -> Seq<char>
    decreases ss.len(),
{
    if ss.len() == 0 {
        seq![]
    } else {
        sig_type_blocks(ss.drop_last()) + sig_type_block(ss.last())
    }
}

/// The client function of one endpoint, indented.
pub open spec fn sig_fn_block(s: SignatureM) -> Seq<char> {
    let f = function_parts_ts(s).2;
    if f.len() == 0 {
        seq![]
    } else {
        indent(f) + "\n\n"@
    }
}

pub open spec fn sig_fn_blocks(ss: Seq<SignatureM>) -> Seq<char>
    decreases ss.len(),
{
    if ss.len() == 0 {
        seq![]
    } else {
        sig_fn_blocks(ss.drop_last()) + sig_fn_block(ss.last())
    }
}

pub open spec fn has_custom_types(d: WitTypesM) -> bool {
    d.aliases.len() > 0 || d.records.len() > 0 || d.variants.len() > 0 || d.enums.len() > 0
}

/// The aliases, enums, records and variants of a namespace.
pub open spec fn custom_types_ts(d: WitTypesM) -> Seq<char> {
    if has_custom_types(d) {
        "\n  // Custom Types\n"@ + alias_lines(d.aliases) + (if d.aliases.len() > 0 {
            "\n"@
        } else {
            seq![]
        }) + enum_blocks(d.enums) + record_blocks(d.records) + variant_blocks(d.variants)
    } else {
        seq![]
    }
}

/// The endpoint types, then the client functions, of a namespace.
pub open spec fn api_ts(d: WitTypesM) -> Seq<char> {
    if d.signatures.len() > 0 {
        "\n  // API Request/Response Types\n"@ + sig_type_blocks(d.signatures)
            + "\n  // API Functions\n"@ + sig_fn_blocks(d.signatures)
    } else {
        seq![]
    }
}

/// The namespace generated for one hyperapp.
pub open spec fn namespace_ts(name: Seq<char>, d: WitTypesM) -> Seq<char> {
    "\n// ============= "@ + name + " Hyperapp =============\n"@ + "export namespace "@ + name
        + " {\n"@ + custom_types_ts(d) + api_ts(d) + "}\n"@
}

/// The namespaces of the hyperapps that have any types or endpoints, in
/// order.
pub open spec fn render_groups(gs: Seq<GroupM>) -> Seq<char>
    decreases gs.len(),
{
    if gs.len() == 0 {
        seq![]
    } else {
        render_groups(gs.drop_last()) + if has_custom_types(gs.last().data)
            || gs.last().data.signatures.len() > 0 {
            namespace_ts(gs.last().name, gs.last().data)
        } else {
            seq![]
        }
    }
}

/// Every type a namespace renders converts to TypeScript without a panic.
pub open spec fn data_ok(d: WitTypesM) -> bool {
    &&& forall|i: int|
        0 <= i < d.aliases.len() ==> (#[trigger] d.aliases[i]).0 != "value"@ ==> ts_ok(
            d.aliases[i].1,
        )
    &&& forall|i: int| 0 <= i < d.records.len() ==> fields_ts_ok(#[trigger] d.records[i].fields)
    &&& forall|i: int| 0 <= i < d.variants.len() ==> variant_ok(#[trigger] d.variants[i])
    &&& forall|i: int|
        0 <= i < d.signatures.len() ==> fields_ts_ok(#[trigger] d.signatures[i].fields)
}

pub open spec fn groups_ok(gs: Seq<GroupM>) -> bool {
    forall|i: int| 0 <= i < gs.len() ==> data_ok(#[trigger] gs[i].data)
}

/// Some hyperapp has an HTTP endpoint.
pub open spec fn any_functions(gs: Seq<GroupM>) -> bool {
    exists|i: int| 0 <= i < gs.len() && (#[trigger] gs[i]).data.signatures.len() > 0
}

/// Why the first hyperapp, from `j` on, that stopped reading stopped.
pub open spec fn first_stop_from(gs: Seq<GroupM>, j: int) -> Option<StopM>
    decreases gs.len() - j,
{
    if j < 0 || j >= gs.len() {
        None
    } else if gs[j].stop is Some {
        gs[j].stop
    } else {
        first_stop_from(gs, j + 1)
    }
}

/// What generating the client file from the API directory's WIT files
/// gives: `None` where it cannot be done (a file whose reading would slice
/// out of order, or a type that cannot be converted), the first reserved type
/// name in hyperapp order as the error, no file when no hyperapp has an HTTP
/// endpoint, and otherwise the file's text.
pub open spec fn caller_utils_outcome(fs: Seq<SourceM>) -> Option<
    Result<Option<Seq<char>>, CallerUtilsErrorM>,
> {
    let gs = grouped(fs);
    match first_stop_from(gs, 0) {
        Some(StopM::Panics) => None,
        Some(StopM::Rejected(e)) => Some(Err(e)),
        None => if !any_functions(gs) {
            Some(Ok(None))
        } else if groups_ok(gs) {
            Some(Ok(Some(header_ts() + render_groups(gs) + "\n"@)))
        } else {
            None
        },
    }
}

fn indent_exec(s: &Vec<char>) -> (r: Vec<char>)
    ensures
        r@ == indent(s@),
{
    let ls = lines_exec(s);
    let ghost l = views(ls@);
    let mut out_lines: Vec<Vec<char>> = Vec::new();
    let mut i: usize = 0;
    while i < ls.len()
        invariant
            l == views(ls@),
            i <= ls.len(),
            views(out_lines@) == indent_lines(l.take(i as int)),
        decreases ls.len() - i,
    {
        let line = &ls[i];
        assert(line@ == l[i as int]);
        let x = if line.len() == 0 {
            line.clone()
        } else {
            let mut y = chars_of("  ");
            push_all(&mut y, line);
            y
        };
        proof {
            lemma_views_push(out_lines@, x);
        }
        out_lines.push(x);
        assert(indent_lines(l.take(i + 1)) =~= indent_lines(l.take(i as int)).push(
            indent_line(l[i as int]),
        ));
        i = i + 1;
    }
    assert(l.take(ls.len() as int) =~= l);
    join_exec(&out_lines, &chars_of("\n"))
}

fn data_convertible(d: &WitTypes) -> (b: bool)
    ensures
        b == data_ok(d@),
{
    let ghost v = d@;
    let mut i: usize = 0;
    while i < d.aliases.len()
        invariant
            v == d@,
            i <= d.aliases.len(),
            forall|j: int|
                0 <= j < i ==> (#[trigger] v.aliases[j]).0 != "value"@ ==> ts_ok(v.aliases[j].1),
        decreases d.aliases.len() - i,
    {
        assert(v.aliases[i as int] == (d.aliases[i as int].0@, d.aliases[i as int].1@));
        if !eq_lit(&d.aliases[i].0, "value") && !ts_convertible(&d.aliases[i].1) {
            assert(!(v.aliases[i as int].0 != "value"@ ==> ts_ok(v.aliases[i as int].1)));
            return false;
        }
        i = i + 1;
    }
    let mut i: usize = 0;
    while i < d.records.len()
        invariant
            v == d@,
            i <= d.records.len(),
            forall|j: int| 0 <= j < i ==> fields_ts_ok(#[trigger] v.records[j].fields),
        decreases d.records.len() - i,
    {
        assert(v.records[i as int] == d.records[i as int]@);
        if !fields_convertible(&d.records[i].fields) {
            assert(!fields_ts_ok(v.records[i as int].fields));
            return false;
        }
        i = i + 1;
    }
    let mut i: usize = 0;
    while i < d.variants.len()
        invariant
            v == d@,
            i <= d.variants.len(),
            forall|j: int| 0 <= j < i ==> variant_ok(#[trigger] v.variants[j]),
        decreases d.variants.len() - i,
    {
        assert(v.variants[i as int] == d.variants[i as int]@);
        if !variant_convertible(&d.variants[i]) {
            assert(!variant_ok(v.variants[i as int]));
            return false;
        }
        i = i + 1;
    }
    let mut i: usize = 0;
    while i < d.signatures.len()
        invariant
            v == d@,
            i <= d.signatures.len(),
            forall|j: int| 0 <= j < i ==> fields_ts_ok(#[trigger] v.signatures[j].fields),
        decreases d.signatures.len() - i,
    {
        assert(v.signatures[i as int] == d.signatures[i as int]@);
        if !fields_convertible(&d.signatures[i].fields) {
            assert(!fields_ts_ok(v.signatures[i as int].fields));
            return false;
        }
        i = i + 1;
    }
    true
}

fn custom_types_exec(d: &WitTypes) -> (r: Vec<char>)
    requires
        data_ok(d@),
    ensures
        r@ == custom_types_ts(d@),
{
    let ghost v = d@;
    if !(d.aliases.len() > 0 || d.records.len() > 0 || d.variants.len() > 0 || d.enums.len() > 0) {
        return Vec::new();
    }
    let mut out = chars_of("\n  // Custom Types\n");
    let ghost head = out@;
    let mut i: usize = 0;
    while i < d.aliases.len()
        invariant
            v == d@,
            data_ok(v),
            i <= d.aliases.len(),
            out@ == head + alias_lines(v.aliases.take(i as int)),
        decreases d.aliases.len() - i,
    {
        let a = &d.aliases[i];
        assert(v.aliases[i as int] == (a.0@, a.1@));
        let ghost before = out@;
        push_str(&mut out, "  export type ");
        push_all(&mut out, &pascal_chars(&a.0));
        push_str(&mut out, " = ");
        if eq_lit(&a.0, "value") {
            push_str(&mut out, "unknown");
        } else {
            assert(ts_ok(v.aliases[i as int].1));
            push_all(&mut out, &wit_type_to_typescript(&a.1));
        }
        push_str(&mut out, "\n");
        assert(out@ =~= before + alias_line(v.aliases[i as int]));
        assert(v.aliases.take(i + 1).drop_last() =~= v.aliases.take(i as int));
        i = i + 1;
    }
    assert(v.aliases.take(d.aliases.len() as int) =~= v.aliases);
    if d.aliases.len() > 0 {
        push_str(&mut out, "\n");
    }
    let ghost head = out@;
    let mut i: usize = 0;
    while i < d.enums.len()
        invariant
            v == d@,
            i <= d.enums.len(),
            out@ == head + enum_blocks(v.enums.take(i as int)),
        decreases d.enums.len() - i,
    {
        assert(v.enums[i as int] == d.enums[i as int]@);
        push_all(&mut out, &indent_exec(&generate_typescript_enum(&d.enums[i])));
        push_str(&mut out, "\n\n");
        assert(v.enums.take(i + 1).drop_last() =~= v.enums.take(i as int));
        i = i + 1;
    }
    assert(v.enums.take(d.enums.len() as int) =~= v.enums);
    let ghost head = out@;
    let mut i: usize = 0;
    while i < d.records.len()
        invariant
            v == d@,
            data_ok(v),
            i <= d.records.len(),
            out@ == head + record_blocks(v.records.take(i as int)),
        decreases d.records.len() - i,
    {
        assert(v.records[i as int] == d.records[i as int]@);
        assert(fields_ts_ok(v.records[i as int].fields));
        push_all(&mut out, &indent_exec(&generate_typescript_interface(&d.records[i])));
        push_str(&mut out, "\n\n");
        assert(v.records.take(i + 1).drop_last() =~= v.records.take(i as int));
        i = i + 1;
    }
    assert(v.records.take(d.records.len() as int) =~= v.records);
    let ghost head = out@;
    let mut i: usize = 0;
    while i < d.variants.len()
        invariant
            v == d@,
            data_ok(v),
            i <= d.variants.len(),
            out@ == head + variant_blocks(v.variants.take(i as int)),
        decreases d.variants.len() - i,
    {
        assert(v.variants[i as int] == d.variants[i as int]@);
        assert(variant_ok(v.variants[i as int]));
        push_all(&mut out, &indent_exec(&generate_typescript_variant(&d.variants[i])));
        push_str(&mut out, "\n\n");
        assert(v.variants.take(i + 1).drop_last() =~= v.variants.take(i as int));
        i = i + 1;
    }
    assert(v.variants.take(d.variants.len() as int) =~= v.variants);
    out
}

fn api_exec(d: &WitTypes) -> (r: Vec<char>)
    requires
        data_ok(d@),
    ensures
        r@ == api_ts(d@),
{
    let ghost v = d@;
    if d.signatures.len() == 0 {
        return Vec::new();
    }
    let mut out = chars_of("\n  // API Request/Response Types\n");
    let ghost head = out@;
    let mut i: usize = 0;
    while i < d.signatures.len()
        invariant
            v == d@,
            data_ok(v),
            i <= d.signatures.len(),
            out@ == head + sig_type_blocks(v.signatures.take(i as int)),
        decreases d.signatures.len() - i,
    {
        assert(v.signatures[i as int] == d.signatures[i as int]@);
        assert(fields_ts_ok(v.signatures[i as int].fields));
        let p = generate_typescript_function(&d.signatures[i]);
        let ghost before = out@;
        if p.0.len() != 0 {
            push_all(&mut out, &indent_exec(&p.0));
            push_str(&mut out, "\n\n");
            push_all(&mut out, &indent_exec(&p.1));
            push_str(&mut out, "\n\n");
        }
        assert(out@ =~= before + sig_type_block(v.signatures[i as int]));
        assert(v.signatures.take(i + 1).drop_last() =~= v.signatures.take(i as int));
        i = i + 1;
    }
    assert(v.signatures.take(d.signatures.len() as int) =~= v.signatures);
    push_str(&mut out, "\n  // API Functions\n");
    let ghost head = out@;
    let mut i: usize = 0;
    while i < d.signatures.len()
        invariant
            v == d@,
            data_ok(v),
            i <= d.signatures.len(),
            out@ == head + sig_fn_blocks(v.signatures.take(i as int)),
        decreases d.signatures.len() - i,
    {
        assert(v.signatures[i as int] == d.signatures[i as int]@);
        assert(fields_ts_ok(v.signatures[i as int].fields));
        let p = generate_typescript_function(&d.signatures[i]);
        let ghost before = out@;
        if p.2.len() != 0 {
            push_all(&mut out, &indent_exec(&p.2));
            push_str(&mut out, "\n\n");
        }
        assert(out@ =~= before + sig_fn_block(v.signatures[i as int]));
        assert(v.signatures.take(i + 1).drop_last() =~= v.signatures.take(i as int));
        i = i + 1;
    }
    assert(v.signatures.take(d.signatures.len() as int) =~= v.signatures);
    out
}

fn render_namespace(g: &Group) -> (r: Vec<char>)
    requires
        data_ok(g@.data),
    ensures
        r@ == namespace_ts(g@.name, g@.data),
{
    let mut out = chars_of("\n// ============= ");
    push_all(&mut out, &g.name);
    push_str(&mut out, " Hyperapp =============\n");
    push_str(&mut out, "export namespace ");
    push_all(&mut out, &g.name);
    push_str(&mut out, " {\n");
    push_all(&mut out, &custom_types_exec(&g.data));
    push_all(&mut out, &api_exec(&g.data));
    push_str(&mut out, "}\n");
    out
}

fn first_stopped(gs: &Vec<Group>) -> (r: Option<usize>)
    ensures
        r matches Some(j) ==> j < gs.len() && groups_view(gs@)[j as int].stop is Some
            && first_stop_from(groups_view(gs@), 0) == groups_view(gs@)[j as int].stop,
        r is None ==> first_stop_from(groups_view(gs@), 0) is None,
{
    let ghost v = groups_view(gs@);
    let mut j: usize = 0;
    while j < gs.len()
        invariant
            v == groups_view(gs@),
            j <= gs.len(),
            first_stop_from(v, 0) == first_stop_from(v, j as int),
        decreases gs.len() - j,
    {
        assert(v[j as int] == gs[j as int]@);
        if gs[j].stop.is_some() {
            return Some(j);
        }
        j = j + 1;
    }
    None
}

pub open spec fn outcome_view(r: Option<Result<Option<String>, CallerUtilsError>>) -> Option<
    Result<Option<Seq<char>>, CallerUtilsErrorM>,
> {
    match r {
        None => None,
        Some(Ok(None)) => Some(Ok(None)),
        Some(Ok(Some(s))) => Some(Ok(Some(s@))),
        Some(Err(e)) => Some(Err(e@)),
    }
}

/// Generates the TypeScript client file from the API directory's WIT files,
/// or `None` on the inputs where generating it panics (see
/// `caller_utils_outcome`).
pub fn try_create_typescript_caller_utils(sources: &Vec<WitSource>) -> (r: Option<
    Result<Option<String>, CallerUtilsError>,
>)
    ensures
        outcome_view(r) == caller_utils_outcome(sources_view(sources@)),
{
    let mut gs = build_groups(sources);
    let ghost v = groups_view(gs@);
    match first_stopped(&gs) {
        Some(j) => {
            let grp = gs.remove(j);
            assert(grp@ == v[j as int]);
            match grp.stop {
                Some(Stop::Rejected(e)) => Some(Err(e)),
                _ => None,
            }
        },
        None => {
            let mut any = false;
            let mut k: usize = 0;
            while k < gs.len()
                invariant
                    v == groups_view(gs@),
                    k <= gs.len(),
                    any == exists|i: int|
                        0 <= i < k && (#[trigger] v[i]).data.signatures.len() > 0,
                decreases gs.len() - k,
            {
                assert(v[k as int] == gs[k as int]@);
                if gs[k].data.signatures.len() > 0 {
                    any = true;
                }
                k = k + 1;
            }
            if !any {
                return Some(Ok(None));
            }
            assert(any_functions(v));
            let mut k: usize = 0;
            while k < gs.len()
                invariant
                    v == groups_view(gs@),
                    v == grouped(sources_view(sources@)),
                    any_functions(v),
                    first_stop_from(v, 0) is None,
                    k <= gs.len(),
                    forall|i: int| 0 <= i < k ==> data_ok(#[trigger] v[i].data),
                decreases gs.len() - k,
            {
                assert(v[k as int] == gs[k as int]@);
                if !data_convertible(&gs[k].data) {
                    assert(!data_ok(v[k as int].data));
                    assert(!groups_ok(v));
                    return None;
                }
                k = k + 1;
            }
            assert(groups_ok(v));
            let mut body: Vec<char> = Vec::new();
            let mut k: usize = 0;
            while k < gs.len()
                invariant
                    v == groups_view(gs@),
                    groups_ok(v),
                    k <= gs.len(),
                    body@ == render_groups(v.take(k as int)),
                decreases gs.len() - k,
            {
                let g = &gs[k];
                assert(v[k as int] == g@);
                assert(data_ok(v[k as int].data));
                if g.data.aliases.len() > 0 || g.data.records.len() > 0 || g.data.variants.len() > 0
                    || g.data.enums.len() > 0 || g.data.signatures.len() > 0 {
                    push_all(&mut body, &render_namespace(g));
                }
                assert(v.take(k + 1).drop_last() =~= v.take(k as int));
                k = k + 1;
            }
            assert(v.take(gs.len() as int) =~= v);
            let mut out: Vec<char> = Vec::new();
            push_header(&mut out);
            push_all(&mut out, &body);
            push_str(&mut out, "\n");
            Some(Ok(Some(string_of(&out))))
        },
    }
}

/// Generates the TypeScript client file from the API directory's WIT files:
/// the first reserved type name as the error, `None` when no hyperapp has an
/// HTTP endpoint, else the file's text.
pub fn create_typescript_caller_utils(sources: &Vec<WitSource>) -> (r: Result<
    Option<String>,
    CallerUtilsError,
>)
    requires
        caller_utils_outcome(sources_view(sources@)) is Some,
    ensures
        outcome_view(Some(r)) == caller_utils_outcome(sources_view(sources@)),
{
    try_create_typescript_caller_utils(sources).unwrap()
}

} // verus!
