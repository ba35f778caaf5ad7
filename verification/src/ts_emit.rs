//! TypeScript declarations generated from WIT types: interfaces for records,
//! enums, unions for variants, and the request wrapper, response type and
//! client function of each HTTP endpoint.
use vstd::prelude::*;
use crate::naming::{eq_lit, pascal, pascal_chars, snake, snake_chars, starts_with_lit, strip_escape, strip_wit_escape};
use crate::text::{
    chars_of, find_char, find_char_exec, has_prefix, join, join_exec, lemma_find_char_from,
    lemma_views_push, opt_view, push_all, push_str, slice_of, split_char, split_char_exec, strip_prefixes,
    strip_suffixes, trim, trim_chars, trim_end_matches, trim_start_matches, views,
};
use crate::ts_types::{
    extract_result_ok_type, result_ok_ts, ts_convertible, ts_ok, ts_type, wit_type_to_typescript,
};
use crate::wit_parse::{
    cases_view, fields_view, pairs_view, CaseM, EnumM, FieldM, RecordM, SignatureM, SignatureStruct,
    VariantM, WitEnum, WitRecord, WitVariant,
};

verus! {

/// `  name: Type;`, one field of a generated interface.
pub open spec fn field_line(f: FieldM) -> Seq<char> {
    "  "@ + snake(f.name) + ": "@ + ts_type(f.wit_type) + ";"@
}

pub open spec fn field_lines(fs: Seq<FieldM>) -> Seq<Seq<char>> {
    fs.map_values(|f: FieldM| field_line(f))
}

/// Every field type converts to TypeScript without a panic.
pub open spec fn fields_ts_ok(fs: Seq<FieldM>) -> bool {
    forall|i: int| 0 <= i < fs.len() ==> ts_ok(#[trigger] fs[i].wit_type)
}

/// The interface generated for a record.
pub open spec fn interface_ts(r: RecordM) -> Seq<char> {
    "export interface "@ + pascal(r.name) + " {\n"@ + join(field_lines(r.fields), "\n"@) + "\n}"@
}

/// Generates the TypeScript interface for a WIT record.
pub fn generate_typescript_interface(record: &WitRecord) -> (r: Vec<char>)
    requires
        fields_ts_ok(record@.fields),
    ensures
        r@ == interface_ts(record@),
{
    let ghost fs = record@.fields;
    let mut lines_v: Vec<Vec<char>> = Vec::new();
    let mut i: usize = 0;
    while i < record.fields.len()
        invariant
            fs == fields_view(record.fields@),
            fields_ts_ok(fs),
            i <= record.fields.len(),
            views(lines_v@) == field_lines(fs.take(i as int)),
        decreases record.fields.len() - i,
    {
        let f = &record.fields[i];
        assert(f@ == fs[i as int]);
        assert(ts_ok(fs[i as int].wit_type));
        let mut line = chars_of("  ");
        push_all(&mut line, &snake_chars(&f.name));
        push_str(&mut line, ": ");
        push_all(&mut line, &wit_type_to_typescript(&f.wit_type));
        push_str(&mut line, ";");
        proof {
            lemma_views_push(lines_v@, line);
        }
        lines_v.push(line);
        assert(field_lines(fs.take(i + 1)) =~= field_lines(fs.take(i as int)).push(
            field_line(fs[i as int]),
        ));
        i = i + 1;
    }
    assert(fs.take(record.fields.len() as int) =~= fs);
    let mut out = chars_of("export interface ");
    push_all(&mut out, &pascal_chars(&record.name));
    push_str(&mut out, " {\n");
    push_all(&mut out, &join_exec(&lines_v, &chars_of("\n")));
    push_str(&mut out, "\n}");
    out
}

/// `  Case = "case",` for one enum case: the PascalCase member holds the
/// case's WIT name.
pub open spec fn enum_case_line(c: Seq<char>) -> Seq<char> {
    "  "@ + pascal(c) + " = \""@ + c + "\",\n"@
}

pub open spec fn enum_case_lines(cs: Seq<Seq<char>>) -> Seq<char>
    decreases cs.len(),
{
    if cs.len() == 0 {
        seq![]
    } else {
        enum_case_lines(cs.drop_last()) + enum_case_line(cs.last())
    }
}

/// The TypeScript enum generated for a WIT enum.
pub open spec fn enum_ts(e: EnumM) -> Seq<char> {
    "export enum "@ + pascal(e.name) + " {\n"@ + enum_case_lines(e.cases) + "}"@
}

/// Generates the TypeScript enum for a WIT enum.
pub fn generate_typescript_enum(enum_def: &WitEnum) -> (r: Vec<char>)
    ensures
        r@ == enum_ts(enum_def@),
{
    let ghost cs = enum_def@.cases;
    let mut out = chars_of("export enum ");
    push_all(&mut out, &pascal_chars(&enum_def.name));
    push_str(&mut out, " {\n");
    let ghost head = out@;
    let mut i: usize = 0;
    while i < enum_def.cases.len()
        invariant
            cs == views(enum_def.cases@),
            i <= enum_def.cases.len(),
            out@ == head + enum_case_lines(cs.take(i as int)),
        decreases enum_def.cases.len() - i,
    {
        let c = &enum_def.cases[i];
        assert(c@ == cs[i as int]);
        push_str(&mut out, "  ");
        push_all(&mut out, &pascal_chars(c));
        push_str(&mut out, " = \"");
        push_all(&mut out, c);
        push_str(&mut out, "\",\n");
        assert(cs.take(i + 1).drop_last() =~= cs.take(i as int));
        assert(out@ =~= head + enum_case_lines(cs.take(i + 1)));
        i = i + 1;
    }
    assert(cs.take(enum_def.cases.len() as int) =~= cs);
    push_str(&mut out, "}");
    out
}

/// One `name: type` entry of an inline record, as `snake_name: TsType`;
/// `None` for a blank entry or one without a `:`.
pub open spec fn inline_field(f: Seq<char>) -> Option<Seq<char>> {
    let t = trim(f);
    if t.len() == 0 {
        None
    } else {
        match find_char(t, ':') {
            Some(k) => Some(
                snake(strip_escape(trim(t.take(k)))) + ": "@ + ts_type(trim(t.skip(k + 1))),
            ),
            None => None,
        }
    }
}

/// The type of an inline record entry converts without a panic.
pub open spec fn inline_field_ok(f: Seq<char>) -> bool {
    let t = trim(f);
    t.len() > 0 ==> match find_char(t, ':') {
        Some(k) => ts_ok(trim(t.skip(k + 1))),
        None => true,
    }
}

pub open spec fn inline_fields(parts: Seq<Seq<char>>) -> Seq<Seq<char>>
    decreases parts.len(),
{
    if parts.len() == 0 {
        seq![]
    } else {
        let rest = inline_fields(parts.drop_last());
        match inline_field(parts.last()) {
            Some(x) => rest.push(x),
            None => rest,
        }
    }
}

/// The text between an inline record's braces.
pub open spec fn inline_content(s: Seq<char>) -> Seq<char> {
    trim(strip_suffixes(strip_prefixes(s, "{"@), "}"@))
}

/// The TypeScript object type for an inline `{ a: t, ... }` record body.
pub open spec fn inline_record_ts(s: Seq<char>) -> Seq<char> {
    "{ "@ + join(inline_fields(split_char(inline_content(s), ',')), ", "@) + " }"@
}

pub open spec fn inline_record_ok(s: Seq<char>) -> bool {
    let parts = split_char(inline_content(s), ',');
    forall|i: int| 0 <= i < parts.len() ==> inline_field_ok(#[trigger] parts[i])
}

fn inline_field_exec(f: &Vec<char>) -> (r: Option<Vec<char>>)
    requires
        inline_field_ok(f@),
    ensures
        opt_view(r) == inline_field(f@),
{
    let t = trim_chars(f);
    if t.len() == 0 {
        return None;
    }
    match find_char_exec(&t, ':') {
        Some(k) => {
            proof {
                lemma_find_char_from(t@, ':', 0);
            }
            let name = trim_chars(&slice_of(&t, 0, k));
            let ty = trim_chars(&slice_of(&t, k + 1, t.len()));
            assert(t@.subrange(0, k as int) == t@.take(k as int));
            assert(t@.subrange(k + 1, t@.len() as int) == t@.skip(k + 1));
            let mut out = snake_chars(&strip_wit_escape(&name));
            push_str(&mut out, ": ");
            push_all(&mut out, &wit_type_to_typescript(&ty));
            Some(out)
        },
        None => None,
    }
}

/// Renders the body of an inline record type as a TypeScript object type.
pub fn parse_inline_record_fields(record_str: &Vec<char>) -> (r: Vec<char>)
    requires
        inline_record_ok(record_str@),
    ensures
        r@ == inline_record_ts(record_str@),
{
    let content = trim_chars(
        &trim_end_matches(&trim_start_matches(record_str, &chars_of("{")), &chars_of("}")),
    );
    let parts = split_char_exec(&content, ',');
    let ghost ps = views(parts@);
    let mut items: Vec<Vec<char>> = Vec::new();
    let mut i: usize = 0;
    while i < parts.len()
        invariant
            ps == views(parts@),
            ps == split_char(inline_content(record_str@), ','),
            inline_record_ok(record_str@),
            i <= parts.len(),
            views(items@) == inline_fields(ps.take(i as int)),
        decreases parts.len() - i,
    {
        assert(parts[i as int]@ == ps[i as int]);
        assert(inline_field_ok(ps[i as int]));
        let item = inline_field_exec(&parts[i]);
        assert(ps.take(i + 1).drop_last() =~= ps.take(i as int));
        match item {
            Some(x) => {
                proof {
                    lemma_views_push(items@, x);
                }
                items.push(x);
            },
            None => {},
        }
        i = i + 1;
    }
    assert(ps.take(parts.len() as int) =~= ps);
    let mut out = chars_of("{ ");
    push_all(&mut out, &join_exec(&items, &chars_of(", ")));
    push_str(&mut out, " }");
    out
}

/// Some case of the variant carries a payload.
pub open spec fn has_data(cs: Seq<CaseM>) -> bool {
    exists|i: int| 0 <= i < cs.len() && (#[trigger] cs[i]).data_type is Some
}

/// A payload written as an inline `record { ... }`.
pub open spec fn record_payload(d: Seq<char>) -> bool {
    has_prefix(trim(d), "record {"@)
}

/// `"Case"`, one member of a payload-free variant's string union.
pub open spec fn quoted_case(c: CaseM) -> Seq<char> {
    "\""@ + pascal(c.name) + "\""@
}

/// `{ Case: Payload }`, one member of a variant's discriminated union.
pub open spec fn case_ts(c: CaseM) -> Seq<char> {
    match c.data_type {
        Some(d) => if record_payload(d) {
            "{ "@ + pascal(c.name) + ": "@ + inline_record_ts(trim(strip_prefixes(d, "record"@)))
                + " }"@
        } else {
            "{ "@ + pascal(c.name) + ": "@ + ts_type(d) + " }"@
        },
        None => "{ "@ + pascal(c.name) + ": null }"@,
    }
}

/// A case's payload converts without a panic.
pub open spec fn case_ok(c: CaseM) -> bool {
    match c.data_type {
        Some(d) => if record_payload(d) {
            inline_record_ok(trim(strip_prefixes(d, "record"@)))
        } else {
            ts_ok(d)
        },
        None => true,
    }
}

pub open spec fn variant_ok(v: VariantM) -> bool {
    forall|i: int| 0 <= i < v.cases.len() ==> case_ok(#[trigger] v.cases[i])
}

pub open spec fn variant_items(cs: Seq<CaseM>, with_data: bool) -> Seq<Seq<char>> {
    if with_data {
        cs.map_values(|c: CaseM| case_ts(c))
    } else {
        cs.map_values(|c: CaseM| quoted_case(c))
    }
}

/// The TypeScript type generated for a WIT variant: a union of the case
/// names when no case has a payload, else a discriminated union of objects.
pub open spec fn variant_ts(v: VariantM) -> Seq<char> {
    "export type "@ + pascal(v.name) + " = "@ + join(variant_items(v.cases, has_data(v.cases)), " | "@) + ";"@
}

fn case_exec(c: &crate::wit_parse::WitVariantCase, with_data: bool) -> (r: Vec<char>)
    requires
        case_ok(c@),
    ensures
        with_data ==> r@ == case_ts(c@),
        !with_data ==> r@ == quoted_case(c@),
{
    let name = pascal_chars(&c.name);
    if !with_data {
        let mut out = chars_of("\"");
        push_all(&mut out, &name);
        push_str(&mut out, "\"");
        return out;
    }
    let mut out = chars_of("{ ");
    push_all(&mut out, &name);
    match &c.data_type {
        Some(d) => {
            if starts_with_lit(&trim_chars(d), "record {") {
                let body = trim_chars(&trim_start_matches(d, &chars_of("record")));
                push_str(&mut out, ": ");
                push_all(&mut out, &parse_inline_record_fields(&body));
                push_str(&mut out, " }");
            } else {
                push_str(&mut out, ": ");
                push_all(&mut out, &wit_type_to_typescript(d));
                push_str(&mut out, " }");
            }
        },
        None => {
            push_str(&mut out, ": null }");
        },
    }
    out
}

/// Generates the TypeScript type for a WIT variant.
pub fn generate_typescript_variant(variant: &WitVariant) -> (r: Vec<char>)
    requires
        variant_ok(variant@),
    ensures
        r@ == variant_ts(variant@),
{
    let ghost cs = variant@.cases;
    let mut with_data = false;
    let mut k: usize = 0;
    while k < variant.cases.len()
        invariant
            cs == cases_view(variant.cases@),
            k <= variant.cases.len(),
            with_data == exists|j: int| 0 <= j < k && (#[trigger] cs[j]).data_type is Some,
        decreases variant.cases.len() - k,
    {
        assert(variant.cases[k as int]@ == cs[k as int]);
        if variant.cases[k].data_type.is_some() {
            with_data = true;
        }
        k = k + 1;
    }
    assert(with_data == has_data(cs));
    let mut items: Vec<Vec<char>> = Vec::new();
    let mut i: usize = 0;
    while i < variant.cases.len()
        invariant
            cs == cases_view(variant.cases@),
            variant_ok(variant@),
            cs == variant@.cases,
            with_data == has_data(cs),
            i <= variant.cases.len(),
            views(items@) == variant_items(cs.take(i as int), with_data),
        decreases variant.cases.len() - i,
    {
        assert(variant.cases[i as int]@ == cs[i as int]);
        assert(case_ok(cs[i as int]));
        let item = case_exec(&variant.cases[i], with_data);
        proof {
            lemma_views_push(items@, item);
            assert(variant_items(cs.take(i + 1), with_data) =~= variant_items(cs.take(i as int), with_data).push(
                if with_data {
                    case_ts(cs[i as int])
                } else {
                    quoted_case(cs[i as int])
                },
            ));
        }
        items.push(item);
        i = i + 1;
    }
    assert(cs.take(variant.cases.len() as int) =~= cs);
    let mut out = chars_of("export type ");
    push_all(&mut out, &pascal_chars(&variant.name));
    push_str(&mut out, " = ");
    push_all(&mut out, &join_exec(&items, &chars_of(" | ")));
    push_str(&mut out, ";");
    out
}

/// What the fields of a signature record give the generated function: its
/// parameters (snake_case name, TypeScript type) in order, the declared
/// return type, and that type with a `result`'s `Ok` part unwrapped. The
/// `target` field is skipped; a later `returning` field overrides an
/// earlier one.
pub open spec fn fn_parts(fs: Seq<FieldM>) -> (Seq<(Seq<char>, Seq<char>)>, Seq<char>, Seq<char>)
    decreases fs.len(),
{
    if fs.len() == 0 {
        (seq![], "void"@, "void"@)
    } else {
        let p = fn_parts(fs.drop_last());
        let f = fs.last();
        if f.name == "target"@ {
            p
        } else if f.name == "returning"@ {
            (
                p.0,
                ts_type(f.wit_type),
                match result_ok_ts(f.wit_type) {
                    Some(u) => u,
                    None => ts_type(f.wit_type),
                },
            )
        } else {
            (p.0.push((snake(f.name), ts_type(f.wit_type))), p.1, p.2)
        }
    }
}

pub open spec fn param_decls(ps: Seq<(Seq<char>, Seq<char>)>) -> Seq<Seq<char>> {
    ps.map_values(|p: (Seq<char>, Seq<char>)| p.0 + ": "@ + p.1)
}

pub open spec fn param_docs(ps: Seq<(Seq<char>, Seq<char>)>) -> Seq<Seq<char>> {
    ps.map_values(|p: (Seq<char>, Seq<char>)| " * @param "@ + p.0 + ": "@ + p.1)
}

pub open spec fn param_names(ps: Seq<(Seq<char>, Seq<char>)>) -> Seq<Seq<char>> {
    ps.map_values(|p: (Seq<char>, Seq<char>)| p.0)
}

pub open spec fn param_types(ps: Seq<(Seq<char>, Seq<char>)>) -> Seq<Seq<char>> {
    ps.map_values(|p: (Seq<char>, Seq<char>)| p.1)
}

/// The payload type of the request wrapper: `null`, the single parameter's
/// type, or a tuple of the parameter types.
pub open spec fn actual_param_type(ps: Seq<(Seq<char>, Seq<char>)>) -> Seq<char> {
    if ps.len() == 0 {
        "null"@
    } else if ps.len() == 1 {
        ps[0].1
    } else {
        "["@ + join(param_types(ps), ", "@) + "]"@
    }
}

pub open spec fn request_name(sig: SignatureM) -> Seq<char> {
    pascal(sig.function_name) + "RequestWrapper"@
}

/// The interface wrapping the request payload under the function's name.
pub open spec fn request_interface_ts(sig: SignatureM) -> Seq<char> {
    "export interface "@ + request_name(sig) + " {\n  "@ + pascal(sig.function_name) + ": "@
        + actual_param_type(fn_parts(sig.fields).0) + "\n}"@
}

/// The alias for the endpoint's full response type.
pub open spec fn response_type_ts(sig: SignatureM) -> Seq<char> {
    "export type "@ + pascal(sig.function_name) + "Response = "@ + fn_parts(sig.fields).1 + ";"@
}

/// The statement building the request wrapper from the parameters.
pub open spec fn data_construction(sig: SignatureM) -> Seq<char> {
    let ps = fn_parts(sig.fields).0;
    let head = "  const data: "@ + request_name(sig) + " = {\n    "@ + pascal(sig.function_name);
    if ps.len() == 0 {
        head + ": null,\n  };"@
    } else if ps.len() == 1 {
        head + ": "@ + ps[0].0 + ",\n  };"@
    } else {
        head + ": ["@ + join(param_names(ps), ", "@) + "],\n  };"@
    }
}

pub open spec fn http_path_or_default(sig: SignatureM) -> Seq<char> {
    match sig.http_path {
        Some(p) => p,
        None => "/api"@,
    }
}

pub open spec fn http_method_or_default(sig: SignatureM) -> Seq<char> {
    match sig.http_method {
        Some(m) => m,
        None => "POST"@,
    }
}

/// The documented async client function calling the endpoint.
pub open spec fn function_ts(sig: SignatureM) -> Seq<char> {
    let ps = fn_parts(sig.fields).0;
    let ret = fn_parts(sig.fields).2;
    let camel = snake(sig.function_name);
    "/**\n * "@ + camel + "\n"@ + join(param_docs(ps), "\n"@)
        + " * @returns Promise with result\n * @throws ApiError if the request fails\n */\nexport async function "@
        + camel + "("@ + join(param_decls(ps), ", "@) + "): Promise<"@ + ret + "> {\n"@
        + data_construction(sig) + "\n\n  return await apiRequest<"@ + request_name(sig) + ", "@ + ret
        + ">('"@ + http_path_or_default(sig) + "', '"@ + http_method_or_default(sig)
        + "', data);\n}"@
}

/// The request interface, response type and client function of an HTTP
/// endpoint; three empty texts for any other endpoint.
pub open spec fn function_parts_ts(sig: SignatureM) -> (Seq<char>, Seq<char>, Seq<char>) {
    if sig.attr_type == "http"@ {
        (request_interface_ts(sig), response_type_ts(sig), function_ts(sig))
    } else {
        (seq![], seq![], seq![])
    }
}

fn collect_fn_parts(sig: &SignatureStruct) -> (r: (Vec<(Vec<char>, Vec<char>)>, Vec<char>, Vec<char>))
    requires
        fields_ts_ok(sig@.fields),
    ensures
        (pairs_view(r.0@), r.1@, r.2@) == fn_parts(sig@.fields),
{
    let ghost fs = sig@.fields;
    let mut ps: Vec<(Vec<char>, Vec<char>)> = Vec::new();
    let mut full = chars_of("void");
    let mut unwrapped = chars_of("void");
    let mut i: usize = 0;
    while i < sig.fields.len()
        invariant
            fs == fields_view(sig.fields@),
            fields_ts_ok(fs),
            i <= sig.fields.len(),
            (pairs_view(ps@), full@, unwrapped@) == fn_parts(fs.take(i as int)),
        decreases sig.fields.len() - i,
    {
        let f = &sig.fields[i];
        assert(f@ == fs[i as int]);
        assert(ts_ok(fs[i as int].wit_type));
        assert(fs.take(i + 1).drop_last() =~= fs.take(i as int));
        let ts = wit_type_to_typescript(&f.wit_type);
        if eq_lit(&f.name, "target") {
        } else if eq_lit(&f.name, "returning") {
            unwrapped = match extract_result_ok_type(&f.wit_type) {
                Some(u) => u,
                None => ts.clone(),
            };
            full = ts;
        } else {
            let ghost old_ps = ps@;
            ps.push((snake_chars(&f.name), ts));
            assert(pairs_view(ps@) =~= pairs_view(old_ps).push(
                (snake(fs[i as int].name), ts_type(fs[i as int].wit_type)),
            ));
        }
        i = i + 1;
    }
    assert(fs.take(sig.fields.len() as int) =~= fs);
    (ps, full, unwrapped)
}

fn param_lists(ps: &Vec<(Vec<char>, Vec<char>)>) -> (r: (
    Vec<Vec<char>>,
    Vec<Vec<char>>,
    Vec<Vec<char>>,
    Vec<Vec<char>>,
))
    ensures
        views(r.0@) == param_decls(pairs_view(ps@)),
        views(r.1@) == param_docs(pairs_view(ps@)),
        views(r.2@) == param_names(pairs_view(ps@)),
        views(r.3@) == param_types(pairs_view(ps@)),
{
    let ghost pv = pairs_view(ps@);
    let mut decls: Vec<Vec<char>> = Vec::new();
    let mut docs: Vec<Vec<char>> = Vec::new();
    let mut names: Vec<Vec<char>> = Vec::new();
    let mut types: Vec<Vec<char>> = Vec::new();
    let mut i: usize = 0;
    while i < ps.len()
        invariant
            pv == pairs_view(ps@),
            i <= ps.len(),
            views(decls@) == param_decls(pv.take(i as int)),
            views(docs@) == param_docs(pv.take(i as int)),
            views(names@) == param_names(pv.take(i as int)),
            views(types@) == param_types(pv.take(i as int)),
        decreases ps.len() - i,
    {
        let p = &ps[i];
        assert(pv[i as int] == (p.0@, p.1@));
        let mut decl = p.0.clone();
        push_str(&mut decl, ": ");
        push_all(&mut decl, &p.1);
        let mut doc = chars_of(" * @param ");
        push_all(&mut doc, &p.0);
        push_str(&mut doc, ": ");
        push_all(&mut doc, &p.1);
        proof {
            lemma_views_push(decls@, decl);
            lemma_views_push(docs@, doc);
            lemma_views_push(names@, p.0);
            lemma_views_push(types@, p.1);
            assert(param_decls(pv.take(i + 1)) =~= param_decls(pv.take(i as int)).push(decl@));
            assert(param_docs(pv.take(i + 1)) =~= param_docs(pv.take(i as int)).push(doc@));
            assert(param_names(pv.take(i + 1)) =~= param_names(pv.take(i as int)).push(p.0@));
            assert(param_types(pv.take(i + 1)) =~= param_types(pv.take(i as int)).push(p.1@));
        }
        decls.push(decl);
        docs.push(doc);
        names.push(p.0.clone());
        types.push(p.1.clone());
        i = i + 1;
    }
    assert(pv.take(ps.len() as int) =~= pv);
    (decls, docs, names, types)
}

/// Generates the request wrapper interface, the response type alias and the
/// client function for an endpoint's signature record; all three are empty
/// unless the endpoint is an HTTP one.
pub fn generate_typescript_function(signature: &SignatureStruct) -> (r: (Vec<char>, Vec<char>, Vec<char>))
    requires
        fields_ts_ok(signature@.fields),
    ensures
        (r.0@, r.1@, r.2@) == function_parts_ts(signature@),
{
    let ghost sig = signature@;
    if !eq_lit(&signature.attr_type, "http") {
        return (Vec::new(), Vec::new(), Vec::new());
    }
    let parts = collect_fn_parts(signature);
    let ghost ps = pairs_view(parts.0@);
    let lists = param_lists(&parts.0);
    let pascal_name = pascal_chars(&signature.function_name);
    let camel = snake_chars(&signature.function_name);
    let mut req_name = pascal_name.clone();
    push_str(&mut req_name, "RequestWrapper");
    let n = parts.0.len();

    let mut actual: Vec<char>;
    if n == 0 {
        actual = chars_of("null");
    } else if n == 1 {
        assert(ps[0] == (parts.0[0].0@, parts.0[0].1@));
        actual = parts.0[0].1.clone();
    } else {
        actual = chars_of("[");
        push_all(&mut actual, &join_exec(&lists.3, &chars_of(", ")));
        push_str(&mut actual, "]");
    }
    assert(actual@ == actual_param_type(ps));

    let mut iface = chars_of("export interface ");
    push_all(&mut iface, &req_name);
    push_str(&mut iface, " {\n  ");
    push_all(&mut iface, &pascal_name);
    push_str(&mut iface, ": ");
    push_all(&mut iface, &actual);
    push_str(&mut iface, "\n}");

    let mut resp = chars_of("export type ");
    push_all(&mut resp, &pascal_name);
    push_str(&mut resp, "Response = ");
    push_all(&mut resp, &parts.1);
    push_str(&mut resp, ";");

    let mut data = chars_of("  const data: ");
    push_all(&mut data, &req_name);
    push_str(&mut data, " = {\n    ");
    push_all(&mut data, &pascal_name);
    if n == 0 {
        push_str(&mut data, ": null,\n  };");
    } else if n == 1 {
        push_str(&mut data, ": ");
        push_all(&mut data, &parts.0[0].0);
        push_str(&mut data, ",\n  };");
    } else {
        push_str(&mut data, ": [");
        push_all(&mut data, &join_exec(&lists.2, &chars_of(", ")));
        push_str(&mut data, "],\n  };");
    }
    assert(data@ == data_construction(sig));

    let path = match &signature.http_path {
        Some(p) => p.clone(),
        None => chars_of("/api"),
    };
    let method = match &signature.http_method {
        Some(m) => m.clone(),
        None => chars_of("POST"),
    };

    let mut func = chars_of("/**\n * ");
    push_all(&mut func, &camel);
    push_str(&mut func, "\n");
    push_all(&mut func, &join_exec(&lists.1, &chars_of("\n")));
    push_str(
        &mut func,
        " * @returns Promise with result\n * @throws ApiError if the request fails\n */\nexport async function ",
    );
    push_all(&mut func, &camel);
    push_str(&mut func, "(");
    push_all(&mut func, &join_exec(&lists.0, &chars_of(", ")));
    push_str(&mut func, "): Promise<");
    push_all(&mut func, &parts.2);
    push_str(&mut func, "> {\n");
    push_all(&mut func, &data);
    push_str(&mut func, "\n\n  return await apiRequest<");
    push_all(&mut func, &req_name);
    push_str(&mut func, ", ");
    push_all(&mut func, &parts.2);
    push_str(&mut func, ">('");
    push_all(&mut func, &path);
    push_str(&mut func, "', '");
    push_all(&mut func, &method);
    push_str(&mut func, "', data);\n}");
    (iface, resp, func)
}

/// Tells whether every field type converts without a panic.
pub fn fields_convertible(fs: &Vec<crate::wit_parse::SignatureField>) -> (b: bool)
    ensures
        b == fields_ts_ok(fields_view(fs@)),
{
    let ghost v = fields_view(fs@);
    let mut i: usize = 0;
    while i < fs.len()
        invariant
            v == fields_view(fs@),
            i <= fs.len(),
            forall|j: int| 0 <= j < i ==> ts_ok(#[trigger] v[j].wit_type),
        decreases fs.len() - i,
    {
        assert(v[i as int] == fs[i as int]@);
        if !ts_convertible(&fs[i].wit_type) {
            assert(!ts_ok(v[i as int].wit_type));
            return false;
        }
        i = i + 1;
    }
    true
}

fn inline_field_convertible(f: &Vec<char>) -> (b: bool)
    ensures
        b == inline_field_ok(f@),
{
    let t = trim_chars(f);
    if t.len() == 0 {
        return true;
    }
    match find_char_exec(&t, ':') {
        Some(k) => {
            proof {
                lemma_find_char_from(t@, ':', 0);
            }
            let ty = trim_chars(&slice_of(&t, k + 1, t.len()));
            assert(t@.subrange(k + 1, t@.len() as int) == t@.skip(k + 1));
            ts_convertible(&ty)
        },
        None => true,
    }
}

/// Tells whether every entry type of an inline record converts without a
/// panic.
pub fn inline_record_convertible(record_str: &Vec<char>) -> (b: bool)
    ensures
        b == inline_record_ok(record_str@),
{
    let content = trim_chars(
        &trim_end_matches(&trim_start_matches(record_str, &chars_of("{")), &chars_of("}")),
    );
    let parts = split_char_exec(&content, ',');
    let ghost ps = views(parts@);
    let mut i: usize = 0;
    while i < parts.len()
        invariant
            ps == views(parts@),
            ps == split_char(inline_content(record_str@), ','),
            i <= parts.len(),
            forall|j: int| 0 <= j < i ==> inline_field_ok(#[trigger] ps[j]),
        decreases parts.len() - i,
    {
        assert(parts[i as int]@ == ps[i as int]);
        if !inline_field_convertible(&parts[i]) {
            return false;
        }
        i = i + 1;
    }
    true
}

fn case_convertible(c: &crate::wit_parse::WitVariantCase) -> (b: bool)
    ensures
        b == case_ok(c@),
{
    match &c.data_type {
        Some(d) => {
            if starts_with_lit(&trim_chars(d), "record {") {
                inline_record_convertible(&trim_chars(&trim_start_matches(d, &chars_of("record"))))
            } else {
                ts_convertible(d)
            }
        },
        None => true,
    }
}

/// Tells whether every payload of a variant converts without a panic.
pub fn variant_convertible(v: &WitVariant) -> (b: bool)
    ensures
        b == variant_ok(v@),
{
    let ghost cs = v@.cases;
    let mut i: usize = 0;
    while i < v.cases.len()
        invariant
            cs == cases_view(v.cases@),
            cs == v@.cases,
            i <= v.cases.len(),
            forall|j: int| 0 <= j < i ==> case_ok(#[trigger] cs[j]),
        decreases v.cases.len() - i,
    {
        assert(cs[i as int] == v.cases[i as int]@);
        if !case_convertible(&v.cases[i]) {
            return false;
        }
        i = i + 1;
    }
    true
}

} // verus!

verus! {

/// An HTTP endpoint with two or more parameters sends all of them: the
/// request wrapper's payload type is the tuple of the parameter types, and
/// the payload the client function builds is the tuple of the parameter
/// names, in the same order, so that every parameter reaches the endpoint.
pub proof fn lemma_payload_sends_every_parameter(sig: SignatureM)
    requires
        sig.attr_type == "http"@,
        fn_parts(sig.fields).0.len() >= 2,
    ensures
        ({
            let ps = fn_parts(sig.fields).0;
            &&& function_parts_ts(sig).0 == "export interface "@ + request_name(sig) + " {\n  "@
                + pascal(sig.function_name) + ": "@ + ("["@ + join(param_types(ps), ", "@) + "]"@)
                + "\n}"@
            &&& data_construction(sig) == "  const data: "@ + request_name(sig) + " = {\n    "@
                + pascal(sig.function_name) + ": ["@ + join(param_names(ps), ", "@) + "],\n  };"@
            &&& function_parts_ts(sig).2 == function_ts(sig)
            &&& param_names(ps).len() == ps.len() && param_types(ps).len() == ps.len()
            &&& forall|k: int| 0 <= k < ps.len() ==> #[trigger] param_names(ps)[k] == ps[k].0
            &&& forall|k: int| 0 <= k < ps.len() ==> #[trigger] param_types(ps)[k] == ps[k].1
        }),
{
}

} // verus!

verus! {

/// The payload of an HTTP endpoint matches its parameters for any count:
/// without parameters the payload and its type are `null`; with one, the
/// payload is that parameter and its type the parameter's type.
pub proof fn lemma_payload_matches_parameters(sig: SignatureM)
    requires
        sig.attr_type == "http"@,
        fn_parts(sig.fields).0.len() <= 1,
    ensures
        ({
            let ps = fn_parts(sig.fields).0;
            let head = "  const data: "@ + request_name(sig) + " = {\n    "@ + pascal(sig.function_name);
            &&& ps.len() == 0 ==> actual_param_type(ps) == "null"@ && data_construction(sig) == head
                + ": null,\n  };"@
            &&& ps.len() == 1 ==> actual_param_type(ps) == ps[0].1 && data_construction(sig) == head + ": "@
                + ps[0].0 + ",\n  };"@
            &&& function_parts_ts(sig).0 == "export interface "@ + request_name(sig) + " {\n  "@ + pascal(
                sig.function_name,
            ) + ": "@ + actual_param_type(ps) + "\n}"@
        }),
{
}

} // verus!
