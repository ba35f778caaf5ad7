//! The WIT interface generated for a hyperprocess: attribute arguments read
//! from their debug text, the signature record of each endpoint, the record
//! and variant definitions of the project's types, and the interface that
//! gathers the definitions the endpoints need.
use vstd::prelude::*;
use crate::naming::{eq_lit, kebab, kebab_chars, to_wit_ident, wit_ident};
use crate::rust_model::{FnInput, RustAttr, RustMethod};
use crate::rust_source::{parse_items, syn_items};
use crate::sorting::{sort_strings, sorted_strings};
use crate::text::{
    chars_of, find_char_at, find_char_from, find_sub_at, find_sub_from, join, join_exec,
    lemma_views_push, opt_view, push_all, push_str, slice_of, string_of, views,
};
use crate::wit_types::{
    add_all, add_name, check_and_strip_leading_underscore, contains_name, lemma_add_all_concat,
    lemma_add_all_no_dups, name_problem, no_dups, pushed_of, rust_type_to_wit, strip_underscore, used_of,
    validate_name, wit_of, wit_ok, NameError, NameErrorM,
};

verus! {

broadcast use vstd::seq_lib::group_to_multiset_ensures;

/// The attribute's path is the single identifier `name`.
pub open spec fn attr_named(a: RustAttr, name: Seq<char>) -> bool {
    match a.ident {
        Some(i) => i@ == name,
        None => false,
    }
}

fn attr_is(a: &RustAttr, name: &str) -> (b: bool)
    ensures
        b == attr_named(*a, name@),
{
    match &a.ident {
        Some(i) => eq_lit(&chars_of(i.as_str()), name),
        None => false,
    }
}

/// Some attribute's path is the single identifier `name`.
pub open spec fn has_attr(attrs: Seq<RustAttr>, name: Seq<char>) -> bool {
    exists|i: int| 0 <= i < attrs.len() && attr_named(#[trigger] attrs[i], name)
}

fn has_attr_exec(attrs: &Vec<RustAttr>, name: &str) -> (b: bool)
    ensures
        b == has_attr(attrs@, name@),
{
    let mut i: usize = 0;
    while i < attrs.len()
        invariant
            i <= attrs.len(),
            forall|j: int| 0 <= j < i ==> !attr_named(#[trigger] attrs@[j], name@),
        decreases attrs.len() - i,
    {
        if attr_is(&attrs[i], name) {
            assert(attr_named(attrs@[i as int], name@));
            return true;
        }
        i = i + 1;
    }
    false
}

/// The world named in a `hyperprocess` attribute's debug text: the quoted
/// literal after `lit: "` that follows `wit_world`.
pub open spec fn world_in(d: Seq<char>) -> Option<Seq<char>> {
    match find_sub_from(d, "wit_world"@, 0) {
        Some(p) => match find_sub_from(d, "lit: \""@, p) {
            Some(l) => match find_char_from(d, '"', l + "lit: \""@.len()) {
                Some(q) => Some(d.subrange(l + "lit: \""@.len(), q)),
                None => None,
            },
            None => None,
        },
        None => None,
    }
}

/// The world of the first `hyperprocess` attribute, from the `i`-th on, that
/// names one.
pub open spec fn world_from(attrs: Seq<RustAttr>, i: int) -> Option<Seq<char>>
    decreases attrs.len() - i,
{
    if i < 0 || i >= attrs.len() {
        None
    } else if attr_named(attrs[i], "hyperprocess"@) && world_in(attrs[i].debug@) is Some {
        world_in(attrs[i].debug@)
    } else {
        world_from(attrs, i + 1)
    }
}

fn world_in_exec(d: &Vec<char>) -> (r: Option<Vec<char>>)
    ensures
        opt_view(r) == world_in(d@),
{
    let key = chars_of("wit_world");
    let lit = chars_of("lit: \"");
    match find_sub_at(d, &key, 0) {
        Some(p) => match find_sub_at(d, &lit, p) {
            Some(l) => {
                let start = l + lit.len();
                match find_char_at(d, '"', start) {
                    Some(q) => {
                        proof {
                            crate::text::lemma_find_char_from(d@, '"', start as int);
                        }
                        Some(slice_of(d, start, q))
                    },
                    None => None,
                }
            },
            None => None,
        },
        None => None,
    }
}

/// The world named by the `wit_world` argument of a `hyperprocess`
/// attribute, or `None` when no such attribute names one.
pub fn extract_wit_world(attrs: &Vec<RustAttr>) -> (r: Option<Vec<char>>)
    ensures
        opt_view(r) == world_from(attrs@, 0),
{
    let mut i: usize = 0;
    while i < attrs.len()
        invariant
            i <= attrs.len(),
            world_from(attrs@, 0) == world_from(attrs@, i as int),
        decreases attrs.len() - i,
    {
        if attr_is(&attrs[i], "hyperprocess") {
            let w = world_in_exec(&chars_of(attrs[i].debug.as_str()));
            if w.is_some() {
                return w;
            }
        }
        i = i + 1;
    }
    None
}

/// The quoted value after `key` and the `=` that follows it in an
/// attribute's debug text.
pub open spec fn quoted_value(d: Seq<char>, key: Seq<char>) -> Option<Seq<char>> {
    match find_sub_from(d, key, 0) {
        Some(k) => match find_char_from(d, '=', k) {
            Some(e) => match find_char_from(d, '"', e + 1) {
                Some(qs) => match find_char_from(d, '"', qs + 1) {
                    Some(qe) => Some(d.subrange(qs + 1, qe)),
                    None => None,
                },
                None => None,
            },
            None => None,
        },
        None => None,
    }
}

fn quoted_value_exec(d: &Vec<char>, key: &str) -> (r: Option<Vec<char>>)
    ensures
        opt_view(r) == quoted_value(d@, key@),
{
    match find_sub_at(d, &chars_of(key), 0) {
        Some(k) => match find_char_at(d, '=', k) {
            Some(e) => match find_char_at(d, '"', e + 1) {
                Some(qs) => match find_char_at(d, '"', qs + 1) {
                    Some(qe) => {
                        proof {
                            crate::text::lemma_find_char_from(d@, '"', qs + 1);
                        }
                        Some(slice_of(d, qs + 1, qe))
                    },
                    None => None,
                },
                None => None,
            },
            None => None,
        },
        None => None,
    }
}

/// The HTTP method and path of the first `http` attribute, from the `i`-th
/// on, that gives either; the missing one defaults to `POST` or `/api`.
pub open spec fn http_from(attrs: Seq<RustAttr>, i: int) -> Option<(Seq<char>, Seq<char>)>
    decreases attrs.len() - i,
{
    if i < 0 || i >= attrs.len() {
        None
    } else {
        let d = attrs[i].debug@;
        let m = quoted_value(d, "method"@);
        let p = quoted_value(d, "path"@);
        if attr_named(attrs[i], "http"@) && (m is Some || p is Some) {
            Some(
                (
                    match m {
                        Some(x) => x,
                        None => "POST"@,
                    },
                    match p {
                        Some(x) => x,
                        None => "/api"@,
                    },
                ),
            )
        } else {
            http_from(attrs, i + 1)
        }
    }
}

/// The HTTP method and path an `http` attribute gives, if any.
pub fn extract_http_info(attrs: &Vec<RustAttr>) -> (r: Option<(Vec<char>, Vec<char>)>)
    ensures
        r matches Some(x) ==> http_from(attrs@, 0) == Some((x.0@, x.1@)),
        r is None ==> http_from(attrs@, 0) is None,
{
    let mut i: usize = 0;
    while i < attrs.len()
        invariant
            i <= attrs.len(),
            http_from(attrs@, 0) == http_from(attrs@, i as int),
        decreases attrs.len() - i,
    {
        if attr_is(&attrs[i], "http") {
            let d = chars_of(attrs[i].debug.as_str());
            let m = quoted_value_exec(&d, "method");
            let p = quoted_value_exec(&d, "path");
            if m.is_some() || p.is_some() {
                let method = match m {
                    Some(x) => x,
                    None => chars_of("POST"),
                };
                let path = match p {
                    Some(x) => x,
                    None => chars_of("/api"),
                };
                return Some((method, path));
            }
        }
        i = i + 1;
    }
    None
}

/// Why a hyperprocess project's WIT interface cannot be generated.
pub enum ProjectError {
    /// The `hyperprocess` attribute names no world.
    WorldMissing,
    /// The type the hyperprocess is implemented for has a refused name.
    InterfaceName { name: String },
    /// The hyperprocess is implemented for a type that is not a named path.
    NoInterfaceName { debug: String },
    /// An endpoint or parameter name is refused.
    InvalidName { error: NameError },
    /// A parameter's type has no WIT form.
    ParamType { param: String, function: String },
    /// An endpoint returns `()`.
    UnitReturn { function: String },
    /// An endpoint's return type has no WIT form.
    ReturnType { function: String },
    /// An endpoint declares no return type.
    ImplicitReturn { function: String },
    /// A method of the hyperprocess has none of the endpoint attributes.
    MissingAttribute { method: String },
    /// Types the endpoints use have no definition in the project; sorted.
    UndefinedTypes { types: Vec<String> },
    /// The project's `lib.rs` is not Rust that syn can parse.
    LibUnparsable,
}

pub enum ProjectErrorM {
    WorldMissing,
    InterfaceName { name: Seq<char> },
    NoInterfaceName { debug: Seq<char> },
    InvalidName { error: NameErrorM },
    ParamType { param: Seq<char>, function: Seq<char> },
    UnitReturn { function: Seq<char> },
    ReturnType { function: Seq<char> },
    ImplicitReturn { function: Seq<char> },
    MissingAttribute { method: Seq<char> },
    UndefinedTypes { types: Seq<Seq<char>> },
    LibUnparsable,
}

pub open spec fn strings_view(v: Seq<String>) -> Seq<Seq<char>> {
    v.map_values(|s: String| s@)
}

impl View for ProjectError {
    type V = ProjectErrorM;

    open spec fn view(&self) -> ProjectErrorM {
        match self {
            ProjectError::WorldMissing => ProjectErrorM::WorldMissing,
            ProjectError::InterfaceName { name } => ProjectErrorM::InterfaceName { name: name@ },
            ProjectError::NoInterfaceName { debug } => ProjectErrorM::NoInterfaceName {
                debug: debug@,
            },
            ProjectError::InvalidName { error } => ProjectErrorM::InvalidName { error: error@ },
            ProjectError::ParamType { param, function } => ProjectErrorM::ParamType {
                param: param@,
                function: function@,
            },
            ProjectError::UnitReturn { function } => ProjectErrorM::UnitReturn {
                function: function@,
            },
            ProjectError::ReturnType { function } => ProjectErrorM::ReturnType {
                function: function@,
            },
            ProjectError::ImplicitReturn { function } => ProjectErrorM::ImplicitReturn {
                function: function@,
            },
            ProjectError::MissingAttribute { method } => ProjectErrorM::MissingAttribute {
                method: method@,
            },
            ProjectError::UndefinedTypes { types } => ProjectErrorM::UndefinedTypes {
                types: strings_view(types@),
            },
            ProjectError::LibUnparsable => ProjectErrorM::LibUnparsable,
        }
    }
}

/// The comment above an endpoint's signature record; an HTTP endpoint's
/// also gives its method and path (by default `POST /api/<name>`).
pub open spec fn sig_comment(kebab_name: Seq<char>, attr: Seq<char>, method: RustMethod) -> Seq<
    char,
> {
    let base = "    // Function signature for: "@ + kebab_name + " ("@ + attr + ")"@;
    if attr == "http"@ {
        match http_from(method.attrs@, 0) {
            Some(mp) => base + "\n    // HTTP: "@ + mp.0 + " "@ + mp.1,
            None => base + "\n    // HTTP: POST /api/"@ + kebab_name,
        }
    } else {
        base
    }
}

/// The record field for one input of an endpoint: `None` for the receiver,
/// for a pattern that is no identifier and for `self`.
pub open spec fn param_field(input: FnInput, function: Seq<char>) -> Option<
    Result<Seq<char>, ProjectErrorM>,
> {
    match input {
        FnInput::Typed { ident, ty } => match ident {
            Some(id) => if id@ == "self"@ {
                None
            } else {
                Some(
                    match name_problem(id@) {
                        Some(p) => Err(
                            ProjectErrorM::InvalidName {
                                error: NameErrorM { kind: "Parameter"@, name: id@, problem: p },
                            },
                        ),
                        None => match wit_of(ty) {
                            Ok(t) => Ok(
                                "        "@ + wit_ident(kebab(strip_underscore(id@))) + ": "@ + t,
                            ),
                            Err(_) => Err(
                                ProjectErrorM::ParamType { param: id@, function: function },
                            ),
                        },
                    },
                )
            },
            None => None,
        },
        FnInput::Receiver => None,
    }
}

/// The record fields for the first `n` inputs, or the first input's error.
pub open spec fn param_fields(inputs: Seq<FnInput>, n: int, function: Seq<char>) -> Result<
    Seq<Seq<char>>,
    ProjectErrorM,
>
    decreases n,
{
    if n <= 0 || n > inputs.len() {
        Ok(seq![])
    } else {
        match param_fields(inputs, n - 1, function) {
            Err(e) => Err(e),
            Ok(fs) => match param_field(inputs[n - 1], function) {
                None => Ok(fs),
                Some(Ok(f)) => Ok(fs.push(f)),
                Some(Err(e)) => Err(e),
            },
        }
    }
}

/// The custom types the first `n` inputs' types use.
pub open spec fn param_used(inputs: Seq<FnInput>, n: int) -> Seq<Seq<char>>
    decreases n,
{
    if n <= 0 || n > inputs.len() {
        seq![]
    } else {
        param_used(inputs, n - 1) + match inputs[n - 1] {
            FnInput::Typed { ident, ty } => match ident {
                Some(id) => if id@ == "self"@ {
                    seq![]
                } else {
                    used_of(ty)
                },
                None => seq![],
            },
            FnInput::Receiver => seq![],
        }
    }
}

/// The `returning` field of an endpoint's record.
pub open spec fn return_field(method: RustMethod) -> Result<Seq<char>, ProjectErrorM> {
    match method.output {
        Some(ty) => match wit_of(ty) {
            Ok(t) => if t == "_"@ {
                Err(ProjectErrorM::UnitReturn { function: method.ident@ })
            } else {
                Ok("        returning: "@ + t)
            },
            Err(_) => Err(ProjectErrorM::ReturnType { function: method.ident@ }),
        },
        None => Err(ProjectErrorM::ImplicitReturn { function: method.ident@ }),
    }
}

/// The signature record of an endpoint: its comment, then the record
/// `<name>-signature-<attr>` with the `target` field, one field per
/// parameter and the `returning` field.
pub open spec fn signature_record(kebab_name: Seq<char>, attr: Seq<char>, method: RustMethod) -> Result<
    Seq<char>,
    ProjectErrorM,
> {
    let target = if attr == "http"@ {
        "        target: string"@
    } else {
        "        target: address"@
    };
    match param_fields(method.inputs@, method.inputs.len() as int, method.ident@) {
        Err(e) => Err(e),
        Ok(ps) => match return_field(method) {
            Err(e) => Err(e),
            Ok(rf) => Ok(
                sig_comment(kebab_name, attr, method) + "\n    record "@ + kebab_name
                    + "-signature-"@ + attr + " {\n"@ + join(seq![target] + ps + seq![rf], ",\n"@)
                    + "\n    }"@,
            ),
        },
    }
}

/// The custom types an endpoint's signature uses.
pub open spec fn signature_used(method: RustMethod) -> Seq<Seq<char>> {
    param_used(method.inputs@, method.inputs.len() as int) + match method.output {
        Some(ty) => used_of(ty),
        None => seq![],
    }
}

/// What the input at hand records when its field fails: what its type met
/// before the conversion failed, or nothing when its name is refused.
pub open spec fn param_pushed_at(input: FnInput) -> Seq<Seq<char>> {
    match input {
        FnInput::Typed { ident, ty } => match ident {
            Some(id) => if id@ != "self"@ && name_problem(id@) is None {
                pushed_of(ty)
            } else {
                seq![]
            },
            None => seq![],
        },
        FnInput::Receiver => seq![],
    }
}

/// What the first `n` inputs record when one of their fields fails: the
/// types of the inputs before the first failing one, then what that one
/// recorded.
pub open spec fn param_pushed(inputs: Seq<FnInput>, n: int, function: Seq<char>) -> Seq<Seq<char>>
    decreases n,
{
    if n <= 0 || n > inputs.len() {
        seq![]
    } else if param_fields(inputs, n - 1, function) is Err {
        param_pushed(inputs, n - 1, function)
    } else {
        param_used(inputs, n - 1) + param_pushed_at(inputs[n - 1])
    }
}

/// The custom types an endpoint's signature records when the record cannot
/// be made: those of the parameters up to the failing one, or, when the
/// return type fails, those of all parameters and what the return type met
/// (all of its own when it is `()`).
pub open spec fn signature_pushed(method: RustMethod) -> Seq<Seq<char>> {
    let inputs = method.inputs@;
    if param_fields(inputs, inputs.len() as int, method.ident@) is Err {
        param_pushed(inputs, inputs.len() as int, method.ident@)
    } else {
        param_used(inputs, inputs.len() as int) + match method.output {
            Some(ty) => if wit_of(ty) is Err {
                pushed_of(ty)
            } else {
                used_of(ty)
            },
            None => seq![],
        }
    }
}

pub proof fn lemma_param_pushed_err(inputs: Seq<FnInput>, n: int, m: int, function: Seq<char>)
    requires
        0 <= n <= m <= inputs.len(),
        param_fields(inputs, n, function) is Err,
    ensures
        param_pushed(inputs, m, function) == param_pushed(inputs, n, function),
    decreases m - n,
{
    if m > n {
        lemma_param_pushed_err(inputs, n, m - 1, function);
        lemma_param_fields_err(inputs, n, m - 1, function);
    }
}

pub proof fn lemma_param_fields_err(inputs: Seq<FnInput>, n: int, m: int, function: Seq<char>)
    requires
        0 <= n <= m <= inputs.len(),
        param_fields(inputs, n, function) is Err,
    ensures
        param_fields(inputs, m, function) == param_fields(inputs, n, function),
    decreases m - n,
{
    if m > n {
        lemma_param_fields_err(inputs, n, m - 1, function);
    }
}

pub open spec fn project_result(r: Result<Vec<char>, ProjectError>) -> Result<Seq<char>, ProjectErrorM> {
    match r {
        Ok(s) => Ok(s@),
        Err(e) => Err(e@),
    }
}

fn sig_comment_exec(kebab_name: &Vec<char>, attr: &str, method: &RustMethod) -> (r: Vec<char>)
    ensures
        r@ == sig_comment(kebab_name@, attr@, *method),
{
    let mut out = chars_of("    // Function signature for: ");
    push_all(&mut out, kebab_name);
    push_str(&mut out, " (");
    push_str(&mut out, attr);
    push_str(&mut out, ")");
    if eq_lit(&chars_of(attr), "http") {
        match extract_http_info(&method.attrs) {
            Some(mp) => {
                push_str(&mut out, "\n    // HTTP: ");
                push_all(&mut out, &mp.0);
                push_str(&mut out, " ");
                push_all(&mut out, &mp.1);
            },
            None => {
                push_str(&mut out, "\n    // HTTP: POST /api/");
                push_all(&mut out, kebab_name);
            },
        }
    }
    out
}

/// Generates the signature record of an endpoint for one of its attributes
/// (`remote`, `local` or `http`), adding to the set `used` the custom types
/// its parameters and return type use (a name already there is not added
/// again).
pub fn generate_signature_struct(
    kebab_name: &Vec<char>,
    attr_type: &str,
    method: &RustMethod,
    used: &mut Vec<Vec<char>>,
) -> (r: Result<Vec<char>, ProjectError>)
    ensures
        project_result(r) == signature_record(kebab_name@, attr_type@, *method),
        r is Ok ==> views(final(used)@) == add_all(views(old(used)@), signature_used(*method)),
        r is Err ==> views(final(used)@) == add_all(views(old(used)@), signature_pushed(*method)),
        no_dups(views(old(used)@)) ==> no_dups(views(final(used)@)),
{
    let ghost u0 = views(used@);
    let r = signature_struct(kebab_name, attr_type, method, used);
    proof {
        if no_dups(u0) {
            lemma_add_all_no_dups(u0, signature_used(*method));
            lemma_add_all_no_dups(u0, signature_pushed(*method));
        }
    }
    r
}

fn signature_struct(
    kebab_name: &Vec<char>,
    attr_type: &str,
    method: &RustMethod,
    used: &mut Vec<Vec<char>>,
) -> (r: Result<Vec<char>, ProjectError>)
    ensures
        project_result(r) == signature_record(kebab_name@, attr_type@, *method),
        r is Ok ==> views(final(used)@) == add_all(views(old(used)@), signature_used(*method)),
        r is Err ==> views(final(used)@) == add_all(views(old(used)@), signature_pushed(*method)),
{
    let ghost used0 = views(used@);
    let ghost inputs = method.inputs@;
    let ghost fname = method.ident@;
    let comment = sig_comment_exec(kebab_name, attr_type, method);
    let mut fields: Vec<Vec<char>> = Vec::new();
    if eq_lit(&chars_of(attr_type), "http") {
        fields.push(chars_of("        target: string"));
    } else {
        fields.push(chars_of("        target: address"));
    }
    let ghost target = fields@[0]@;
    let mut i: usize = 0;
    assert(views(fields@) =~= seq![target] + seq![]);
    assert(param_used(inputs, 0) =~= Seq::<Seq<char>>::empty());
    while i < method.inputs.len()
        invariant
            inputs == method.inputs@,
            fname == method.ident@,
            i <= method.inputs.len(),
            param_fields(inputs, i as int, fname) matches Ok(ps) && views(fields@) == seq![target]
                + ps,
            views(used@) == add_all(used0, param_used(inputs, i as int)),
            used0 == views(old(used)@),
        decreases method.inputs.len() - i,
    {
        let ghost before = views(used@);
        match &method.inputs[i] {
            FnInput::Typed { ident: Some(id), ty } => {
                let idc = chars_of(id.as_str());
                if !eq_lit(&idc, "self") {
                    match validate_name(&idc, "Parameter") {
                        Err(e) => {
                            proof {
                                lemma_param_fields_err(inputs, i + 1, inputs.len() as int, fname);
                                lemma_param_pushed_err(inputs, i + 1, inputs.len() as int, fname);
                                assert(param_pushed(inputs, i + 1, fname) =~= param_used(inputs, i as int));
                                assert(signature_pushed(*method) == param_used(inputs, i as int));
                            }
                            return Err(ProjectError::InvalidName { error: e });
                        },
                        Ok(()) => {},
                    }
                    let name = to_wit_ident(&kebab_chars(&check_and_strip_leading_underscore(idc.clone())));
                    match rust_type_to_wit(ty, used) {
                        Ok(t) => {
                            let mut line = chars_of("        ");
                            push_all(&mut line, &name);
                            push_str(&mut line, ": ");
                            push_all(&mut line, &t);
                            let ghost old_f = fields@;
                            fields.push(line);
                            proof {
                                lemma_views_push(old_f, line);
                                lemma_add_all_concat(used0, param_used(inputs, i as int), used_of(*ty));
                                assert(param_used(inputs, i + 1) == param_used(inputs, i as int) + used_of(*ty));
                            }
                        },
                        Err(_) => {
                            proof {
                                lemma_param_fields_err(inputs, i + 1, inputs.len() as int, fname);
                                lemma_param_pushed_err(inputs, i + 1, inputs.len() as int, fname);
                                assert(param_pushed(inputs, i + 1, fname) == param_used(inputs, i as int)
                                    + pushed_of(*ty));
                                lemma_add_all_concat(used0, param_used(inputs, i as int), pushed_of(*ty));
                            }
                            return Err(
                                ProjectError::ParamType {
                                    param: id.clone(),
                                    function: method.ident.clone(),
                                },
                            );
                        },
                    }
                } else {
                    assert(param_used(inputs, i + 1) =~= param_used(inputs, i as int) + Seq::<Seq<char>>::empty());
                }
            },
            _ => {
                assert(param_used(inputs, i + 1) =~= param_used(inputs, i as int) + Seq::<Seq<char>>::empty());
            },
        }
        i = i + 1;
    }
    let ret = match &method.output {
        Some(ty) => match rust_type_to_wit(ty, used) {
            Ok(t) => {
                proof {
                    lemma_add_all_concat(used0, param_used(inputs, inputs.len() as int), used_of(*ty));
                }
                if eq_lit(&t, "_") {
                    return Err(ProjectError::UnitReturn { function: method.ident.clone() });
                }
                let mut line = chars_of("        returning: ");
                push_all(&mut line, &t);
                line
            },
            Err(_) => {
                proof {
                    lemma_add_all_concat(used0, param_used(inputs, inputs.len() as int), pushed_of(*ty));
                }
                return Err(ProjectError::ReturnType { function: method.ident.clone() });
            },
        },
        None => {
            proof {
                assert(param_used(inputs, inputs.len() as int) + Seq::<Seq<char>>::empty() =~= param_used(
                    inputs,
                    inputs.len() as int,
                ));
            }
            return Err(ProjectError::ImplicitReturn { function: method.ident.clone() });
        },
    };
    let ghost ps = param_fields(inputs, inputs.len() as int, fname)->Ok_0;
    let ghost old_f = fields@;
    fields.push(ret);
    proof {
        lemma_views_push(old_f, ret);
        assert(views(fields@) =~= seq![target] + ps + seq![ret@]);
        assert(return_field(*method) == Ok::<Seq<char>, ProjectErrorM>(ret@));
        assert(target == (if attr_type@ == "http"@ {
            "        target: string"@
        } else {
            "        target: address"@
        }));
    }
    let mut out = comment;
    push_str(&mut out, "\n    record ");
    push_all(&mut out, kebab_name);
    push_str(&mut out, "-signature-");
    push_str(&mut out, attr_type);
    push_str(&mut out, " {\n");
    push_all(&mut out, &join_exec(&fields, &chars_of(",\n")));
    push_str(&mut out, "\n    }");
    proof {
        assert(views(used@) == add_all(used0, signature_used(*method)));
    }
    Ok(out)
}

/// A type definition: the kebab-case name and its WIT text.
pub open spec fn defs_view(v: Seq<(Vec<char>, Vec<char>)>) -> Seq<(Seq<char>, Seq<char>)> {
    v.map_values(|p: (Vec<char>, Vec<char>)| (p.0@, p.1@))
}

/// The position of the definition named `k`, if any.
pub open spec fn def_index(ds: Seq<(Seq<char>, Seq<char>)>, k: Seq<char>, j: int) -> Option<int>
    decreases ds.len() - j,
{
    if j < 0 || j >= ds.len() {
        None
    } else if ds[j].0 == k {
        Some(j)
    } else {
        def_index(ds, k, j + 1)
    }
}

/// The definitions after defining `k` as `v`: an earlier definition of `k`
/// is replaced in place, a new name is appended.
pub open spec fn def_insert(ds: Seq<(Seq<char>, Seq<char>)>, k: Seq<char>, v: Seq<char>) -> Seq<
    (Seq<char>, Seq<char>),
> {
    match def_index(ds, k, 0) {
        Some(i) => ds.update(i, (k, v)),
        None => ds.push((k, v)),
    }
}

/// What reading one item does to the definitions: nothing, define a type,
/// or stop reading the file (a struct field whose type has no WIT form).
pub enum ItemEffect {
    Skip,
    Define(Seq<char>, Seq<char>),
    Abort,
}

/// A record definition with the given field lines.
pub open spec fn record_def(ident: Seq<char>, lines: Seq<Seq<char>>) -> Seq<char> {
    if lines.len() == 0 {
        "    record "@ + ident + " {}"@
    } else {
        "    record "@ + ident + " {\n"@ + join(lines, ",\n"@) + "\n    }"@
    }
}

/// The field lines of the first `n` named fields of a struct: a field with
/// an underscore-stripped name that is refused or empty is left out; `None`
/// when a kept field's type has no WIT form.
pub open spec fn struct_lines(fs: Seq<crate::rust_model::NamedField>, n: int) -> Option<
    Seq<Seq<char>>,
>
    decreases n,
{
    if n <= 0 || n > fs.len() {
        Some(seq![])
    } else {
        match struct_lines(fs, n - 1) {
            None => None,
            Some(ls) => match fs[n - 1].ident {
                None => Some(ls),
                Some(id) => {
                    let stripped = strip_underscore(id@);
                    if name_problem(stripped) is Some || kebab(stripped).len() == 0 {
                        Some(ls)
                    } else {
                        match wit_of(fs[n - 1].ty) {
                            Ok(t) => Some(
                                ls.push("        "@ + wit_ident(kebab(stripped)) + ": "@ + t),
                            ),
                            Err(_) => None,
                        }
                    }
                },
            },
        }
    }
}

/// The case lines of the first `n` variants of an enum, or `None` when one
/// is refused: a refused name, a type without WIT form, or fields other
/// than none or exactly one unnamed.
pub open spec fn variant_lines(vs: Seq<crate::rust_model::RustVariant>, n: int) -> Option<
    Seq<Seq<char>>,
>
    decreases n,
{
    if n <= 0 || n > vs.len() {
        Some(seq![])
    } else {
        match variant_lines(vs, n - 1) {
            None => None,
            Some(ls) => {
                let v = vs[n - 1];
                if name_problem(v.ident@) is Some {
                    None
                } else {
                    let id = wit_ident(kebab(v.ident@));
                    match v.fields {
                        crate::rust_model::RustFields::Unnamed { types } => if types.len() == 1 {
                            match wit_of(types@[0]) {
                                Ok(t) => Some(ls.push("        "@ + id + "("@ + t + ")"@)),
                                Err(_) => None,
                            }
                        } else {
                            None
                        },
                        crate::rust_model::RustFields::Unit => Some(ls.push("        "@ + id)),
                        _ => None,
                    }
                }
            },
        }
    }
}

/// What one item of a source file contributes to the type definitions.
pub open spec fn item_effect(item: crate::rust_model::RustItem) -> ItemEffect {
    match item {
        crate::rust_model::RustItem::Struct { ident, fields } => {
            let name = ident@;
            if crate::text::contains_sub(name, "__"@) || name_problem(name) is Some {
                ItemEffect::Skip
            } else {
                let k = kebab(name);
                match fields {
                    crate::rust_model::RustFields::Named { fields: fs } => match struct_lines(
                        fs@,
                        fs.len() as int,
                    ) {
                        Some(ls) => ItemEffect::Define(k, record_def(wit_ident(k), ls)),
                        None => ItemEffect::Abort,
                    },
                    crate::rust_model::RustFields::Unit => ItemEffect::Define(
                        k,
                        record_def(wit_ident(k), seq![]),
                    ),
                    crate::rust_model::RustFields::Unnamed { types } => ItemEffect::Skip,
                }
            }
        },
        crate::rust_model::RustItem::Enum { ident, variants } => {
            let name = ident@;
            if crate::text::contains_sub(name, "__"@) || name_problem(name) is Some {
                ItemEffect::Skip
            } else {
                match variant_lines(variants@, variants.len() as int) {
                    Some(ls) => if ls.len() > 0 {
                        ItemEffect::Define(
                            kebab(name),
                            "    variant "@ + wit_ident(kebab(name)) + " {\n"@ + join(ls, ",\n"@)
                                + "\n    }"@,
                        )
                    } else {
                        ItemEffect::Skip
                    },
                    None => ItemEffect::Skip,
                }
            }
        },
        _ => ItemEffect::Skip,
    }
}

/// The definitions after reading a file's items from the `i`-th on.
pub open spec fn collect_from(items: Seq<crate::rust_model::RustItem>, i: int, ds: Seq<
    (Seq<char>, Seq<char>),
>) -> Seq<(Seq<char>, Seq<char>)>
    decreases items.len() - i,
{
    if i < 0 || i >= items.len() {
        ds
    } else {
        match item_effect(items[i]) {
            ItemEffect::Skip => collect_from(items, i + 1, ds),
            ItemEffect::Define(k, v) => collect_from(items, i + 1, def_insert(ds, k, v)),
            ItemEffect::Abort => ds,
        }
    }
}

/// Type definitions by kebab-case name, in the order the names were first
/// defined; each name once.
pub struct TypeDefs {
    pub entries: Vec<(Vec<char>, Vec<char>)>,
}

impl View for TypeDefs {
    type V = Seq<(Seq<char>, Seq<char>)>;

    open spec fn view(&self) -> Seq<(Seq<char>, Seq<char>)> {
        defs_view(self.entries@)
    }
}

fn find_def(entries: &Vec<(Vec<char>, Vec<char>)>, k: &Vec<char>) -> (r: Option<usize>)
    ensures
        r matches Some(i) ==> def_index(defs_view(entries@), k@, 0) == Some(i as int) && i
            < entries.len(),
        r is None ==> def_index(defs_view(entries@), k@, 0) is None,
{
    let ghost ds = defs_view(entries@);
    let mut j: usize = 0;
    while j < entries.len()
        invariant
            ds == defs_view(entries@),
            j <= entries.len(),
            def_index(ds, k@, 0) == def_index(ds, k@, j as int),
        decreases entries.len() - j,
    {
        assert(ds[j as int].0 == entries[j as int].0@);
        if crate::text::eq_chars(&entries[j].0, k) {
            return Some(j);
        }
        j = j + 1;
    }
    None
}

impl TypeDefs {
    pub fn new() -> (r: TypeDefs)
        ensures
            r@ == Seq::<(Seq<char>, Seq<char>)>::empty(),
    {
        let r = TypeDefs { entries: Vec::new() };
        assert(r@ =~= Seq::<(Seq<char>, Seq<char>)>::empty());
        r
    }

    /// Defines `k` as `v`, replacing an earlier definition of `k`.
    pub fn insert(&mut self, k: Vec<char>, v: Vec<char>)
        ensures
            final(self)@ == def_insert(old(self)@, k@, v@),
    {
        let ghost ds = self@;
        match find_def(&self.entries, &k) {
            Some(i) => {
                self.entries.set(i, (k, v));
                assert(self@ =~= ds.update(i as int, (k@, v@)));
            },
            None => {
                self.entries.push((k, v));
                assert(self@ =~= ds.push((k@, v@)));
            },
        }
    }
}

fn struct_lines_exec(fs: &Vec<crate::rust_model::NamedField>) -> (r: Option<Vec<Vec<char>>>)
    ensures
        r matches Some(ls) ==> struct_lines(fs@, fs.len() as int) == Some(views(ls@)),
        r is None ==> struct_lines(fs@, fs.len() as int) is None,
{
    let mut ls: Vec<Vec<char>> = Vec::new();
    let mut scratch: Vec<Vec<char>> = Vec::new();
    let mut i: usize = 0;
    assert(views(ls@) =~= seq![]);
    while i < fs.len()
        invariant
            i <= fs.len(),
            struct_lines(fs@, i as int) == Some(views(ls@)),
        decreases fs.len() - i,
    {
        let f = &fs[i];
        match &f.ident {
            None => {},
            Some(id) => {
                let stripped = check_and_strip_leading_underscore(chars_of(id.as_str()));
                let k = kebab_chars(&stripped);
                if validate_name(&stripped, "Field").is_ok() && k.len() > 0 {
                    match rust_type_to_wit(&f.ty, &mut scratch) {
                        Ok(t) => {
                            let mut line = chars_of("        ");
                            push_all(&mut line, &to_wit_ident(&k));
                            push_str(&mut line, ": ");
                            push_all(&mut line, &t);
                            proof {
                                lemma_views_push(ls@, line);
                            }
                            ls.push(line);
                        },
                        Err(_) => {
                            proof {
                                lemma_struct_lines_none(fs@, i + 1, fs.len() as int);
                            }
                            return None;
                        },
                    }
                }
            },
        }
        i = i + 1;
    }
    Some(ls)
}

pub proof fn lemma_struct_lines_none(fs: Seq<crate::rust_model::NamedField>, n: int, m: int)
    requires
        0 <= n <= m <= fs.len(),
        struct_lines(fs, n) is None,
    ensures
        struct_lines(fs, m) is None,
    decreases m - n,
{
    if m > n {
        lemma_struct_lines_none(fs, n, m - 1);
    }
}

pub proof fn lemma_variant_lines_none(vs: Seq<crate::rust_model::RustVariant>, n: int, m: int)
    requires
        0 <= n <= m <= vs.len(),
        variant_lines(vs, n) is None,
    ensures
        variant_lines(vs, m) is None,
    decreases m - n,
{
    if m > n {
        lemma_variant_lines_none(vs, n, m - 1);
    }
}

fn variant_lines_exec(vs: &Vec<crate::rust_model::RustVariant>) -> (r: Option<Vec<Vec<char>>>)
    ensures
        r matches Some(ls) ==> variant_lines(vs@, vs.len() as int) == Some(views(ls@)),
        r is None ==> variant_lines(vs@, vs.len() as int) is None,
{
    let mut ls: Vec<Vec<char>> = Vec::new();
    let mut scratch: Vec<Vec<char>> = Vec::new();
    let mut i: usize = 0;
    assert(views(ls@) =~= seq![]);
    while i < vs.len()
        invariant
            i <= vs.len(),
            variant_lines(vs@, i as int) == Some(views(ls@)),
        decreases vs.len() - i,
    {
        let v = &vs[i];
        let name = chars_of(v.ident.as_str());
        if validate_name(&name, "Enum variant").is_err() {
            proof {
                lemma_variant_lines_none(vs@, i + 1, vs.len() as int);
            }
            return None;
        }
        let id = to_wit_ident(&kebab_chars(&name));
        let line = match &v.fields {
            crate::rust_model::RustFields::Unnamed { types } => {
                if types.len() == 1 {
                    match rust_type_to_wit(&types[0], &mut scratch) {
                        Ok(t) => {
                            let mut line = chars_of("        ");
                            push_all(&mut line, &id);
                            push_str(&mut line, "(");
                            push_all(&mut line, &t);
                            push_str(&mut line, ")");
                            line
                        },
                        Err(_) => {
                            proof {
                                lemma_variant_lines_none(vs@, i + 1, vs.len() as int);
                            }
                            return None;
                        },
                    }
                } else {
                    proof {
                        lemma_variant_lines_none(vs@, i + 1, vs.len() as int);
                    }
                    return None;
                }
            },
            crate::rust_model::RustFields::Unit => {
                let mut line = chars_of("        ");
                push_all(&mut line, &id);
                line
            },
            _ => {
                proof {
                    lemma_variant_lines_none(vs@, i + 1, vs.len() as int);
                }
                return None;
            },
        };
        proof {
            lemma_views_push(ls@, line);
        }
        ls.push(line);
        i = i + 1;
    }
    Some(ls)
}

fn record_def_exec(ident: &Vec<char>, lines: &Vec<Vec<char>>) -> (r: Vec<char>)
    ensures
        r@ == record_def(ident@, views(lines@)),
{
    let mut out = chars_of("    record ");
    push_all(&mut out, ident);
    if lines.len() == 0 {
        push_str(&mut out, " {}");
    } else {
        push_str(&mut out, " {\n");
        push_all(&mut out, &join_exec(lines, &chars_of(",\n")));
        push_str(&mut out, "\n    }");
    }
    out
}

fn item_effect_exec(item: &crate::rust_model::RustItem) -> (r: Option<Option<(Vec<char>, Vec<char>)>>)
    ensures
        match r {
            None => item_effect(*item) == ItemEffect::Abort,
            Some(None) => item_effect(*item) == ItemEffect::Skip,
            Some(Some(d)) => item_effect(*item) == ItemEffect::Define(d.0@, d.1@),
        },
{
    proof {
        reveal_strlit("__");
    }
    match item {
        crate::rust_model::RustItem::Struct { ident, fields } => {
            let name = chars_of(ident.as_str());
            if crate::text::contains_exec(&name, &chars_of("__")) || validate_name(
                &name,
                "Struct",
            ).is_err() {
                return Some(None);
            }
            let k = kebab_chars(&name);
            match fields {
                crate::rust_model::RustFields::Named { fields: fs } => match struct_lines_exec(fs) {
                    Some(ls) => {
                        let d = record_def_exec(&to_wit_ident(&k), &ls);
                        Some(Some((k, d)))
                    },
                    None => None,
                },
                crate::rust_model::RustFields::Unit => {
                    let empty: Vec<Vec<char>> = Vec::new();
                    let d = record_def_exec(&to_wit_ident(&k), &empty);
                    assert(views(empty@) =~= seq![]);
                    Some(Some((k, d)))
                },
                crate::rust_model::RustFields::Unnamed { types } => Some(None),
            }
        },
        crate::rust_model::RustItem::Enum { ident, variants } => {
            let name = chars_of(ident.as_str());
            if crate::text::contains_exec(&name, &chars_of("__")) || validate_name(
                &name,
                "Enum",
            ).is_err() {
                return Some(None);
            }
            match variant_lines_exec(variants) {
                Some(ls) => {
                    if ls.len() > 0 {
                        let k = kebab_chars(&name);
                        let mut d = chars_of("    variant ");
                        push_all(&mut d, &to_wit_ident(&k));
                        push_str(&mut d, " {\n");
                        push_all(&mut d, &join_exec(&ls, &chars_of(",\n")));
                        push_str(&mut d, "\n    }");
                        Some(Some((k, d)))
                    } else {
                        Some(None)
                    }
                },
                None => Some(None),
            }
        },
        _ => Some(None),
    }
}

/// Adds the record and variant definitions of one source file's structs and
/// enums to `defs`, keyed by kebab-case name; reading stops at a struct
/// with a field whose type has no WIT form.
pub fn collect_type_definitions_from_file(
    items: &Vec<crate::rust_model::RustItem>,
    defs: &mut TypeDefs,
)
    ensures
        final(defs)@ == collect_from(items@, 0, old(defs)@),
{
    let mut i: usize = 0;
    while i < items.len()
        invariant
            i <= items.len(),
            collect_from(items@, 0, old(defs)@) == collect_from(items@, i as int, defs@),
        decreases items.len() - i,
    {
        match item_effect_exec(&items[i]) {
            None => {
                return;
            },
            Some(None) => {},
            Some(Some(d)) => {
                defs.insert(d.0, d.1);
            },
        }
        i = i + 1;
    }
}

/// Parses one Rust source file with syn and adds the definitions of its
/// structs and enums to `defs`, as `collect_type_definitions_from_file`
/// does with its items; `false`, with `defs` unchanged, when syn cannot
/// parse the text.
pub fn collect_type_definitions_from_source(source: &str, defs: &mut TypeDefs) -> (parsed: bool)
    ensures
        match syn_items(source@) {
            Some(items) => parsed && final(defs)@ == collect_from(items, 0, old(defs)@),
            None => !parsed && final(defs)@ == old(defs)@,
        },
{
    match parse_items(source) {
        Some(items) => {
            collect_type_definitions_from_file(&items, defs);
            true
        },
        None => false,
    }
}

/// The definition at `i` mentions the type defined at `j`: another
/// definition's name occurs in its text.
pub open spec fn mentions(ds: Seq<(Seq<char>, Seq<char>)>, i: int, j: int) -> bool {
    i != j && crate::text::contains_sub(ds[i].1, ds[j].0)
}

/// No name is defined twice.
pub open spec fn defs_unique(ds: Seq<(Seq<char>, Seq<char>)>) -> bool {
    forall|i: int, j: int| 0 <= i < j < ds.len() ==> ds[i].0 != ds[j].0
}

/// A sequence of definition positions without repeats, all in range.
pub open spec fn index_set(v: Seq<usize>, n: int) -> bool {
    &&& forall|k: int| 0 <= k < v.len() ==> #[trigger] v[k] < n
    &&& forall|k: int, l: int| 0 <= k < l < v.len() ==> v[k] != v[l]
}

/// The definition at `i` is one of the roots.
pub open spec fn is_root(ds: Seq<(Seq<char>, Seq<char>)>, roots: Seq<Seq<char>>, i: int) -> bool {
    roots.contains(ds[i].0)
}

/// `needed` is the set of definitions reachable from the roots through
/// mentions: it holds every defined root, is closed under mentions, and
/// each element is a root or mentioned by an element before it.
pub open spec fn closure_of(ds: Seq<(Seq<char>, Seq<char>)>, roots: Seq<Seq<char>>, needed: Seq<usize>) -> bool {
    &&& index_set(needed, ds.len() as int)
    &&& forall|i: int| 0 <= i < ds.len() && is_root(ds, roots, i) ==> needed.contains(i as usize)
    &&& forall|k: int, j: int|
        0 <= k < needed.len() && 0 <= j < ds.len() && mentions(ds, needed[k] as int, j)
            ==> needed.contains(j as usize)
    &&& forall|k: int|
        0 <= k < needed.len() ==> is_root(ds, roots, needed[k] as int) || exists|l: int|
            0 <= l < k && mentions(ds, needed[l] as int, needed[k] as int)
}

/// `order` is `needed` rearranged so that definitions come before their
/// uses: up to some point, every definition comes after all needed
/// definitions it mentions, and each one past that point mentions another
/// past that point (a cycle keeps them from being ordered).
pub open spec fn definitions_first(ds: Seq<(Seq<char>, Seq<char>)>, needed: Seq<usize>, order: Seq<usize>) -> bool {
    &&& index_set(order, ds.len() as int)
    &&& order.len() == needed.len()
    &&& forall|k: int| 0 <= k < order.len() ==> needed.contains(#[trigger] order[k])
    &&& forall|k: int| 0 <= k < needed.len() ==> order.contains(#[trigger] needed[k])
    &&& exists|p: int| #[trigger] ordered_upto(ds, order, p)
}

/// The first `p` definitions of `order` each come after the definitions they
/// mention, and each one from `p` on mentions another from `p` on.
pub open spec fn ordered_upto(ds: Seq<(Seq<char>, Seq<char>)>, order: Seq<usize>, p: int) -> bool {
    &&& 0 <= p <= order.len()
    &&& forall|k: int| 0 <= k < p ==> #[trigger] placed_after_uses(ds, order, k)
    &&& forall|k: int| p <= k < order.len() ==> #[trigger] mentions_within(ds, order, p, k)
}

/// Every definition of `order` that the one at `k` mentions comes before it.
pub open spec fn placed_after_uses(ds: Seq<(Seq<char>, Seq<char>)>, order: Seq<usize>, k: int) -> bool {
    forall|j: int| 0 <= j < order.len() && mentions(ds, order[k] as int, order[j] as int) ==> j < k
}

/// The definition at `k` mentions one at `p` or later.
pub open spec fn mentions_within(ds: Seq<(Seq<char>, Seq<char>)>, order: Seq<usize>, p: int, k: int) -> bool {
    exists|j: int| p <= j < order.len() && mentions(ds, order[k] as int, order[j] as int)
}

fn mentions_exec(defs: &TypeDefs, i: usize, j: usize) -> (b: bool)
    requires
        i < defs@.len(),
        j < defs@.len(),
    ensures
        b == mentions(defs@, i as int, j as int),
{
    assert(defs@[i as int].1 == defs.entries[i as int].1@);
    assert(defs@[j as int].0 == defs.entries[j as int].0@);
    i != j && crate::text::contains_exec(&defs.entries[i].1, &defs.entries[j].0)
}

fn contains_index(v: &Vec<usize>, x: usize) -> (b: bool)
    ensures
        b == v@.contains(x),
{
    let mut k: usize = 0;
    while k < v.len()
        invariant
            k <= v.len(),
            forall|l: int| 0 <= l < k ==> v@[l] != x,
        decreases v.len() - k,
    {
        if v[k] == x {
            assert(v@[k as int] == x);
            return true;
        }
        k = k + 1;
    }
    false
}

fn name_is_root(defs: &TypeDefs, roots: &Vec<Vec<char>>, i: usize) -> (b: bool)
    requires
        i < defs@.len(),
    ensures
        b == is_root(defs@, views(roots@), i as int),
{
    let ghost rv = views(roots@);
    assert(defs@[i as int].0 == defs.entries[i as int].0@);
    let mut k: usize = 0;
    while k < roots.len()
        invariant
            rv == views(roots@),
            i < defs@.len(),
            k <= roots.len(),
            forall|l: int| 0 <= l < k ==> rv[l] != defs@[i as int].0,
        decreases roots.len() - k,
    {
        assert(rv[k as int] == roots[k as int]@);
        if crate::text::eq_chars(&roots[k], &defs.entries[i].0) {
            assert(rv[k as int] == defs@[i as int].0);
            return true;
        }
        k = k + 1;
    }
    false
}

pub proof fn lemma_index_set_bound(v: Seq<usize>, n: int)
    requires
        index_set(v, n),
        0 <= n <= usize::MAX,
    ensures
        v.len() <= n,
    decreases n,
{
    if n <= 0 {
        if v.len() > 0 {
            assert(v[0] < n);
        }
    } else if v.contains((n - 1) as usize) {
        let k = choose|k: int| 0 <= k < v.len() && v[k] == (n - 1) as usize;
        let w = v.remove(k);
        assert forall|a: int| 0 <= a < w.len() implies #[trigger] w[a] < n - 1 by {
            let b = if a < k {
                a
            } else {
                a + 1
            };
            assert(w[a] == v[b]);
            assert(v[b] != v[k]);
        }
        assert forall|a: int, c: int| 0 <= a < c < w.len() implies w[a] != w[c] by {
            let a2 = if a < k {
                a
            } else {
                a + 1
            };
            let c2 = if c < k {
                c
            } else {
                c + 1
            };
            assert(w[a] == v[a2]);
            assert(w[c] == v[c2]);
        }
        assert(index_set(w, n - 1));
        lemma_index_set_bound(w, n - 1);
        assert(w.len() == v.len() - 1);
    } else {
        assert forall|a: int| 0 <= a < v.len() implies #[trigger] v[a] < n - 1 by {
            if v[a] == (n - 1) as usize {
                assert(v.contains((n - 1) as usize));
            }
        }
        assert(index_set(v, n - 1));
        lemma_index_set_bound(v, n - 1);
    }
}

/// The definitions the roots need: each defined root and, transitively,
/// every definition a needed one mentions; as positions in `defs`.
pub fn needed_definitions(defs: &TypeDefs, roots: &Vec<Vec<char>>) -> (needed: Vec<usize>)
    ensures
        closure_of(defs@, views(roots@), needed@),
{
    let ghost ds = defs@;
    let ghost rv = views(roots@);
    let n = defs.entries.len();
    let mut to_process: Vec<usize> = Vec::new();
    let mut i: usize = 0;
    while i < n
        invariant
            n == ds.len(),
            ds == defs@,
            rv == views(roots@),
            i <= n,
            forall|k: int|
                0 <= k < to_process.len() ==> #[trigger] to_process@[k] < n && is_root(
                    ds,
                    rv,
                    to_process@[k] as int,
                ),
            forall|j: int| 0 <= j < i && is_root(ds, rv, j) ==> to_process@.contains(j as usize),
        decreases n - i,
    {
        if name_is_root(defs, roots, i) {
            let ghost before = to_process@;
            to_process.push(i);
            proof {
                assert(to_process@[to_process.len() - 1] == i);
                assert forall|x: usize| before.contains(x) implies to_process@.contains(x) by {
                    let w = choose|w: int| 0 <= w < before.len() && before[w] == x;
                    assert(to_process@[w] == x);
                }
            }
        }
        i = i + 1;
    }
    let mut needed: Vec<usize> = Vec::new();
    while to_process.len() > 0
        invariant
            n == ds.len(),
            ds == defs@,
            rv == views(roots@),
            index_set(needed@, n as int),
            forall|k: int|
                0 <= k < to_process.len() ==> #[trigger] to_process@[k] < n && (is_root(
                    ds,
                    rv,
                    to_process@[k] as int,
                ) || exists|l: int|
                    0 <= l < needed.len() && mentions(ds, needed@[l] as int, to_process@[k] as int)),
            forall|j: int|
                0 <= j < n && is_root(ds, rv, j) ==> needed@.contains(j as usize)
                    || to_process@.contains(j as usize),
            forall|k: int, j: int|
                0 <= k < needed.len() && 0 <= j < n && mentions(ds, needed@[k] as int, j)
                    ==> needed@.contains(j as usize) || to_process@.contains(j as usize),
            forall|k: int|
                0 <= k < needed.len() ==> is_root(ds, rv, needed@[k] as int) || exists|l: int|
                    0 <= l < k && mentions(ds, needed@[l] as int, needed@[k] as int),
        decreases n - needed.len(), to_process.len(),
    {
        let ghost tp0 = to_process@;
        let t = to_process.pop().unwrap();
        proof {
            assert(tp0 == to_process@.push(t));
            assert forall|x: usize| tp0.contains(x) && x != t implies to_process@.contains(x) by {
                let w = choose|w: int| 0 <= w < tp0.len() && tp0[w] == x;
                assert(w < to_process.len());
                assert(to_process@[w] == x);
            }
            assert(t == tp0[tp0.len() - 1]);
        }
        if contains_index(&needed, t) {
            continue;
        }
        let ghost nd0 = needed@;
        proof {
            assert(index_set(nd0.push(t), n as int)) by {
                assert forall|a: int, c: int| 0 <= a < c < nd0.push(t).len() implies nd0.push(t)[a]
                    != nd0.push(t)[c] by {
                    if c == nd0.len() {
                        assert(nd0.contains(nd0[a]));
                    }
                }
            }
            lemma_index_set_bound(nd0.push(t), n as int);
        }
        needed.push(t);
        proof {
            assert(needed@ == nd0.push(t));
            assert forall|x: usize| nd0.contains(x) implies needed@.contains(x) by {
                let w = choose|w: int| 0 <= w < nd0.len() && nd0[w] == x;
                assert(needed@[w] == x);
            }
            assert(needed@.contains(t)) by {
                assert(needed@[nd0.len() as int] == t);
            }
            assert forall|k: int|
                0 <= k < needed.len() implies is_root(ds, rv, needed@[k] as int) || exists|l: int|
                0 <= l < k && mentions(ds, needed@[l] as int, needed@[k] as int) by {
                if k < nd0.len() {
                    assert(needed@[k] == nd0[k]);
                    if !is_root(ds, rv, nd0[k] as int) {
                        let l = choose|l: int|
                            0 <= l < k && mentions(ds, nd0[l] as int, nd0[k] as int);
                        assert(needed@[l] == nd0[l]);
                    }
                } else {
                    assert(needed@[k] == t);
                    if !is_root(ds, rv, t as int) {
                        let l = choose|l: int|
                            0 <= l < nd0.len() && mentions(ds, nd0[l] as int, t as int);
                        assert(needed@[l] == nd0[l]);
                    }
                }
            }
        }
        let mut j: usize = 0;
        while j < n
            invariant
                n == ds.len(),
                ds == defs@,
                rv == views(roots@),
                t < n,
                needed.len() > 0,
                needed@[needed.len() - 1] == t,
                index_set(needed@, n as int),
                forall|k: int|
                    0 <= k < to_process.len() ==> #[trigger] to_process@[k] < n && (is_root(
                        ds,
                        rv,
                        to_process@[k] as int,
                    ) || exists|l: int|
                        0 <= l < needed.len() && mentions(
                            ds,
                            needed@[l] as int,
                            to_process@[k] as int,
                        )),
                forall|x: int|
                    0 <= x < n && is_root(ds, rv, x) ==> needed@.contains(x as usize)
                        || to_process@.contains(x as usize),
                forall|k: int, x: int|
                    0 <= k < needed.len() - 1 && 0 <= x < n && mentions(ds, needed@[k] as int, x)
                        ==> needed@.contains(x as usize) || to_process@.contains(x as usize),
                forall|x: int|
                    0 <= x < j && mentions(ds, t as int, x) ==> needed@.contains(x as usize)
                        || to_process@.contains(x as usize),
                forall|k: int|
                    0 <= k < needed.len() ==> is_root(ds, rv, needed@[k] as int) || exists|l: int|
                        0 <= l < k && mentions(ds, needed@[l] as int, needed@[k] as int),
            decreases n - j,
        {
            if mentions_exec(defs, t, j) && !contains_index(&needed, j) && !contains_index(
                &to_process,
                j,
            ) {
                let ghost before = to_process@;
                to_process.push(j);
                proof {
                    assert(to_process@[to_process.len() - 1] == j);
                    assert(mentions(ds, needed@[needed.len() - 1] as int, j as int));
                    assert forall|x: usize| before.contains(x) implies to_process@.contains(x) by {
                        let w = choose|w: int| 0 <= w < before.len() && before[w] == x;
                        assert(to_process@[w] == x);
                    }
                    assert forall|k: int|
                        0 <= k < to_process.len() implies #[trigger] to_process@[k] < n && (is_root(
                            ds,
                            rv,
                            to_process@[k] as int,
                        ) || exists|l: int|
                            0 <= l < needed.len() && mentions(
                                ds,
                                needed@[l] as int,
                                to_process@[k] as int,
                            )) by {
                        if k < before.len() {
                            assert(to_process@[k] == before[k]);
                        } else {
                            assert(to_process@[k] == j);
                            assert(mentions(ds, needed@[needed.len() - 1] as int, j as int));
                        }
                    }
                }
            }
            j = j + 1;
        }
    }
    needed
}

fn has_dependency(defs: &TypeDefs, rem: &Vec<usize>, a: usize) -> (b: bool)
    requires
        index_set(rem@, defs@.len() as int),
        a < rem.len(),
    ensures
        b == mentions_within(defs@, rem@, 0, a as int),
{
    let mut j: usize = 0;
    while j < rem.len()
        invariant
            index_set(rem@, defs@.len() as int),
            a < rem.len(),
            j <= rem.len(),
            forall|l: int| 0 <= l < j ==> !mentions(defs@, rem@[a as int] as int, rem@[l] as int),
        decreases rem.len() - j,
    {
        assert(rem@[j as int] < defs@.len() && rem@[a as int] < defs@.len());
        if mentions_exec(defs, rem[a], rem[j]) {
            return true;
        }
        j = j + 1;
    }
    false
}

fn find_ready(defs: &TypeDefs, rem: &Vec<usize>) -> (r: Option<usize>)
    requires
        index_set(rem@, defs@.len() as int),
    ensures
        r matches Some(a) ==> a < rem.len() && forall|j: int|
            0 <= j < rem.len() ==> !mentions(defs@, rem@[a as int] as int, rem@[j] as int),
        r is None ==> forall|a: int|
            0 <= a < rem.len() ==> #[trigger] mentions_within(defs@, rem@, 0, a),
{
    let mut a: usize = 0;
    while a < rem.len()
        invariant
            index_set(rem@, defs@.len() as int),
            a <= rem.len(),
            forall|c: int| 0 <= c < a ==> #[trigger] mentions_within(defs@, rem@, 0, c),
        decreases rem.len() - a,
    {
        if !has_dependency(defs, rem, a) {
            return Some(a);
        }
        a = a + 1;
    }
    None
}

/// Orders the needed definitions so that each comes after every needed
/// definition it mentions (definitions before uses), as far as cycles
/// allow: repeatedly the first remaining definition that mentions no
/// remaining one is placed next, and the ones a cycle holds back follow in
/// the order they were given.
pub fn order_definitions_first(defs: &TypeDefs, needed: &Vec<usize>) -> (order: Vec<usize>)
    requires
        index_set(needed@, defs@.len() as int),
    ensures
        definitions_first(defs@, needed@, order@),
{
    let ghost ds = defs@;
    let ghost n = ds.len() as int;
    let mut remaining: Vec<usize> = Vec::new();
    let mut c: usize = 0;
    while c < needed.len()
        invariant
            c <= needed.len(),
            remaining@ == needed@.take(c as int),
        decreases needed.len() - c,
    {
        remaining.push(needed[c]);
        assert(needed@.take(c + 1) == needed@.take(c as int).push(needed@[c as int]));
        c = c + 1;
    }
    assert(needed@.take(needed.len() as int) == needed@);
    let mut order: Vec<usize> = Vec::new();
    loop
        invariant_except_break
            ds == defs@,
            n == ds.len(),
            index_set(needed@, n),
            index_set(remaining@, n),
            index_set(order@, n),
            forall|k: int, l: int|
                0 <= k < order.len() && 0 <= l < remaining.len() ==> order@[k] != remaining@[l],
            order.len() + remaining.len() == needed.len(),
            forall|x: usize| needed@.contains(x) <==> (order@.contains(x) || remaining@.contains(x)),
            forall|k: int, x: usize|
                0 <= k < order.len() && needed@.contains(x) && mentions(
                    ds,
                    order@[k] as int,
                    x as int,
                ) ==> exists|j: int| 0 <= j < k && order@[j] == x,
        ensures
            ds == defs@,
            n == ds.len(),
            index_set(needed@, n),
            index_set(remaining@, n),
            index_set(order@, n),
            forall|k: int, l: int|
                0 <= k < order.len() && 0 <= l < remaining.len() ==> order@[k] != remaining@[l],
            order.len() + remaining.len() == needed.len(),
            forall|x: usize| needed@.contains(x) <==> (order@.contains(x) || remaining@.contains(x)),
            forall|k: int, x: usize|
                0 <= k < order.len() && needed@.contains(x) && mentions(
                    ds,
                    order@[k] as int,
                    x as int,
                ) ==> exists|j: int| 0 <= j < k && order@[j] == x,
            forall|a: int| 0 <= a < remaining.len() ==> #[trigger] mentions_within(ds, remaining@, 0, a),
        decreases remaining.len(),
    {
        match find_ready(defs, &remaining) {
            None => {
                break;
            },
            Some(a) => {
                let ghost rem0 = remaining@;
                let ghost ord0 = order@;
                let r = remaining.remove(a);
                order.push(r);
                proof {
                    assert(r == rem0[a as int]);
                    assert(remaining@ == rem0.remove(a as int));
                    assert(order@ == ord0.push(r));
                    assert forall|l: int| 0 <= l < remaining.len() implies #[trigger] remaining@[l]
                        == rem0[if l < a {
                        l
                    } else {
                        l + 1
                    }] by {}
                    assert forall|k: int| 0 <= k < remaining.len() implies #[trigger] remaining@[k] < n by {
                        assert(remaining@[k] == rem0[if k < a { k } else { k + 1 }]);
                    }
                    assert forall|k: int, l: int| 0 <= k < l < remaining.len() implies remaining@[k]
                        != remaining@[l] by {
                        assert(remaining@[k] == rem0[if k < a { k } else { k + 1 }]);
                        assert(remaining@[l] == rem0[if l < a { l } else { l + 1 }]);
                    }
                    assert forall|k: int| 0 <= k < order.len() implies #[trigger] order@[k] < n by {
                        if k < ord0.len() {
                            assert(order@[k] == ord0[k]);
                        }
                    }
                    assert forall|k: int, l: int| 0 <= k < l < order.len() implies order@[k]
                        != order@[l] by {
                        assert(order@[k] == ord0[k]);
                        if l < ord0.len() {
                            assert(order@[l] == ord0[l]);
                        } else {
                            assert(order@[l] == rem0[a as int]);
                        }
                    }
                    assert forall|k: int, l: int|
                        0 <= k < order.len() && 0 <= l < remaining.len() implies order@[k]
                        != remaining@[l] by {
                        assert(remaining@[l] == rem0[if l < a { l } else { l + 1 }]);
                        if k < ord0.len() {
                            assert(order@[k] == ord0[k]);
                        } else {
                            assert(order@[k] == rem0[a as int]);
                        }
                    }
                    assert forall|x: usize|
                        needed@.contains(x) <==> (order@.contains(x) || remaining@.contains(x)) by {
                        if ord0.contains(x) {
                            let w = choose|w: int| 0 <= w < ord0.len() && ord0[w] == x;
                            assert(order@[w] == x);
                        }
                        if rem0.contains(x) {
                            let w = choose|w: int| 0 <= w < rem0.len() && rem0[w] == x;
                            if w < a {
                                assert(remaining@[w] == x);
                            } else if w > a {
                                assert(remaining@[w - 1] == x);
                            } else {
                                assert(order@[ord0.len() as int] == x);
                            }
                        }
                        if order@.contains(x) {
                            let w = choose|w: int| 0 <= w < order.len() && order@[w] == x;
                            if w < ord0.len() {
                                assert(ord0[w] == x);
                            } else {
                                assert(rem0[a as int] == x);
                            }
                        }
                        if remaining@.contains(x) {
                            let w = choose|w: int| 0 <= w < remaining.len() && remaining@[w] == x;
                            assert(rem0[if w < a { w } else { w + 1 }] == x);
                        }
                    }
                    assert forall|k: int, x: usize|
                        0 <= k < order.len() && needed@.contains(x) && mentions(
                            ds,
                            order@[k] as int,
                            x as int,
                        ) implies exists|j: int| 0 <= j < k && order@[j] == x by {
                        if k < ord0.len() {
                            assert(order@[k] == ord0[k]);
                            let j = choose|j: int| 0 <= j < k && ord0[j] == x;
                            assert(order@[j] == x);
                        } else {
                            assert(order@[k] == r);
                            if rem0.contains(x) {
                                let w = choose|w: int| 0 <= w < rem0.len() && rem0[w] == x;
                                assert(!mentions(ds, rem0[a as int] as int, rem0[w] as int));
                                assert(false);
                            }
                            assert(ord0.contains(x));
                            let j = choose|j: int| 0 <= j < ord0.len() && ord0[j] == x;
                            assert(order@[j] == x);
                        }
                    }
                }
            },
        }
    }
    let ghost p = order.len() as int;
    let ghost ord0 = order@;
    let ghost rem0 = remaining@;
    let mut k: usize = 0;
    while k < remaining.len()
        invariant
            k <= remaining.len(),
            remaining@ == rem0,
            order@ == ord0 + rem0.take(k as int),
        decreases remaining.len() - k,
    {
        order.push(remaining[k]);
        assert(ord0 + rem0.take(k + 1) == (ord0 + rem0.take(k as int)).push(rem0[k as int]));
        k = k + 1;
    }
    assert(rem0.take(rem0.len() as int) == rem0);
    proof {
        let fin = order@;
        assert(fin == ord0 + rem0);
        assert forall|a: int| 0 <= a < fin.len() implies #[trigger] fin[a] < n by {
            if a < p {
                assert(fin[a] == ord0[a]);
            } else {
                assert(fin[a] == rem0[a - p]);
            }
        }
        assert forall|a: int, b: int| 0 <= a < b < fin.len() implies fin[a] != fin[b] by {
            if b < p {
                assert(fin[a] == ord0[a] && fin[b] == ord0[b]);
            } else if a >= p {
                assert(fin[a] == rem0[a - p] && fin[b] == rem0[b - p]);
            } else {
                assert(fin[a] == ord0[a] && fin[b] == rem0[b - p]);
            }
        }
        assert forall|a: int| 0 <= a < fin.len() implies needed@.contains(#[trigger] fin[a]) by {
            if a < p {
                assert(fin[a] == ord0[a]);
                assert(ord0.contains(ord0[a]));
            } else {
                assert(fin[a] == rem0[a - p]);
                assert(rem0.contains(rem0[a - p]));
            }
        }
        assert forall|a: int| 0 <= a < needed.len() implies fin.contains(#[trigger] needed@[a]) by {
            let x = needed@[a];
            assert(needed@.contains(x));
            if ord0.contains(x) {
                let w = choose|w: int| 0 <= w < ord0.len() && ord0[w] == x;
                assert(fin[w] == x);
            } else {
                let w = choose|w: int| 0 <= w < rem0.len() && rem0[w] == x;
                assert(fin[p + w] == x);
            }
        }
        assert forall|k: int| 0 <= k < p implies #[trigger] placed_after_uses(ds, fin, k) by {
            assert forall|j: int|
                0 <= j < fin.len() && mentions(ds, fin[k] as int, fin[j] as int) implies j < k by {
                assert(fin[k] == ord0[k]);
                let x = fin[j];
                assert(needed@.contains(x));
                let jj = choose|jj: int| 0 <= jj < k && ord0[jj] == x;
                assert(fin[jj] == x);
                if j != jj {
                    assert(fin[j] != fin[jj]);
                }
            }
        }
        assert forall|k: int| p <= k < fin.len() implies #[trigger] mentions_within(ds, fin, p, k) by {
            assert(fin[k] == rem0[k - p]);
            assert(mentions_within(ds, rem0, 0, k - p));
            let j = choose|j: int|
                0 <= j < rem0.len() && mentions(ds, rem0[k - p] as int, #[trigger] rem0[j] as int);
            assert(fin[p + j] == rem0[j]);
        }
        assert(ordered_upto(ds, fin, p));
    }
    order
}

/// The signature records of a method of the hyperprocess and the custom
/// types they use: one record per `remote`, `local` and `http` attribute;
/// none for `init`, `ws`, `ws_client` and `terminal` handlers.
pub open spec fn method_sigs(m: RustMethod) -> Result<(Seq<Seq<char>>, Seq<Seq<char>>), ProjectErrorM> {
    let a = m.attrs@;
    let remote = has_attr(a, "remote"@);
    let local = has_attr(a, "local"@);
    let http = has_attr(a, "http"@);
    let skip = has_attr(a, "init"@) || has_attr(a, "ws"@) || has_attr(a, "ws_client"@) || has_attr(
        a,
        "terminal"@,
    );
    if !(remote || local || http || skip) {
        Err(ProjectErrorM::MissingAttribute { method: m.ident@ })
    } else {
        match name_problem(m.ident@) {
            Some(p) => Err(
                ProjectErrorM::InvalidName {
                    error: NameErrorM { kind: "Function"@, name: m.ident@, problem: p },
                },
            ),
            None => if skip {
                Ok((seq![], seq![]))
            } else {
                let k = kebab(m.ident@);
                let r1 = add_sig(Ok((seq![], seq![])), remote, k, "remote"@, m);
                let r2 = add_sig(r1, local, k, "local"@, m);
                add_sig(r2, http, k, "http"@, m)
            },
        }
    }
}

pub open spec fn add_sig(
    r: Result<(Seq<Seq<char>>, Seq<Seq<char>>), ProjectErrorM>,
    on: bool,
    k: Seq<char>,
    attr: Seq<char>,
    m: RustMethod,
) -> Result<(Seq<Seq<char>>, Seq<Seq<char>>), ProjectErrorM> {
    match r {
        Err(e) => Err(e),
        Ok(acc) => if !on {
            Ok(acc)
        } else {
            match signature_record(k, attr, m) {
                Ok(s) => Ok((acc.0.push(s), add_all(acc.1, signature_used(m)))),
                Err(e) => Err(e),
            }
        },
    }
}

/// The signature records and used types of the first `n` members of the
/// hyperprocess impl block, or the first error.
pub open spec fn members_sigs(ms: Seq<crate::rust_model::ImplMember>, n: int) -> Result<
    (Seq<Seq<char>>, Seq<Seq<char>>),
    ProjectErrorM,
>
    decreases n,
{
    if n <= 0 || n > ms.len() {
        Ok((seq![], seq![]))
    } else {
        match members_sigs(ms, n - 1) {
            Err(e) => Err(e),
            Ok(acc) => match ms[n - 1] {
                crate::rust_model::ImplMember::Method { method } => match method_sigs(method) {
                    Ok(x) => Ok((acc.0 + x.0, add_all(acc.1, x.1))),
                    Err(e) => Err(e),
                },
                crate::rust_model::ImplMember::Other => Ok(acc),
            },
        }
    }
}

pub proof fn lemma_members_sigs_err(ms: Seq<crate::rust_model::ImplMember>, n: int, m: int)
    requires
        0 <= n <= m <= ms.len(),
        members_sigs(ms, n) is Err,
    ensures
        members_sigs(ms, m) == members_sigs(ms, n),
    decreases m - n,
{
    if m > n {
        lemma_members_sigs_err(ms, n, m - 1);
    }
}

fn add_sig_exec(
    sigs: &mut Vec<Vec<char>>,
    used: &mut Vec<Vec<char>>,
    on: bool,
    k: &Vec<char>,
    attr: &str,
    m: &RustMethod,
) -> (r: Result<(), ProjectError>)
    ensures
        match add_sig(Ok((views(old(sigs)@), views(old(used)@))), on, k@, attr@, *m) {
            Ok(acc) => r is Ok && views(final(sigs)@) == acc.0 && views(final(used)@) == acc.1,
            Err(e) => r matches Err(x) && x@ == e,
        },
{
    if !on {
        return Ok(());
    }
    match generate_signature_struct(k, attr, m, used) {
        Ok(s) => {
            proof {
                lemma_views_push(sigs@, s);
            }
            sigs.push(s);
            Ok(())
        },
        Err(e) => Err(e),
    }
}

/// The signature records of one method of the hyperprocess, appended to
/// `sigs`, with the custom types they use added to the set `used`.
pub fn method_signatures(m: &RustMethod, sigs: &mut Vec<Vec<char>>, used: &mut Vec<Vec<char>>) -> (r:
    Result<(), ProjectError>)
    ensures
        match method_sigs(*m) {
            Ok(x) => r is Ok && views(final(sigs)@) == views(old(sigs)@) + x.0 && views(
                final(used)@,
            ) == add_all(views(old(used)@), x.1),
            Err(e) => r matches Err(y) && y@ == e,
        },
{
    let remote = has_attr_exec(&m.attrs, "remote");
    let local = has_attr_exec(&m.attrs, "local");
    let http = has_attr_exec(&m.attrs, "http");
    let skip = has_attr_exec(&m.attrs, "init") || has_attr_exec(&m.attrs, "ws") || has_attr_exec(
        &m.attrs,
        "ws_client",
    ) || has_attr_exec(&m.attrs, "terminal");
    if !(remote || local || http || skip) {
        return Err(ProjectError::MissingAttribute { method: m.ident.clone() });
    }
    let name = chars_of(m.ident.as_str());
    match validate_name(&name, "Function") {
        Err(e) => {
            return Err(ProjectError::InvalidName { error: e });
        },
        Ok(()) => {},
    }
    if skip {
        assert(views(sigs@) =~= views(sigs@) + seq![]);
        assert(views(used@) == add_all(views(used@), seq![]));
        return Ok(());
    }
    let k = kebab_chars(&name);
    let ghost s0 = views(sigs@);
    let ghost u0 = views(used@);
    let mut ss: Vec<Vec<char>> = Vec::new();
    let mut us: Vec<Vec<char>> = Vec::new();
    assert(views(ss@) =~= seq![] && views(us@) =~= seq![]);
    add_sig_exec(&mut ss, &mut us, remote, &k, "remote", m)?;
    add_sig_exec(&mut ss, &mut us, local, &k, "local", m)?;
    add_sig_exec(&mut ss, &mut us, http, &k, "http", m)?;
    let mut i: usize = 0;
    while i < ss.len()
        invariant
            i <= ss.len(),
            views(sigs@) == s0 + views(ss@).take(i as int),
        decreases ss.len() - i,
    {
        proof {
            lemma_views_push(sigs@, ss[i as int]);
        }
        sigs.push(ss[i].clone());
        assert(views(ss@).take(i + 1) =~= views(ss@).take(i as int).push(ss[i as int]@));
        i = i + 1;
    }
    assert(views(ss@).take(ss.len() as int) =~= views(ss@));
    let mut i: usize = 0;
    while i < us.len()
        invariant
            i <= us.len(),
            views(used@) == add_all(u0, views(us@).take(i as int)),
        decreases us.len() - i,
    {
        proof {
            lemma_add_all_concat(u0, views(us@).take(i as int), seq![us[i as int]@]);
            assert(views(us@).take(i + 1) =~= views(us@).take(i as int) + seq![us[i as int]@]);
        }
        add_name(used, us[i].clone());
        i = i + 1;
    }
    assert(views(us@).take(us.len() as int) =~= views(us@));
    Ok(())
}

/// The signature records of all the methods of the hyperprocess impl
/// block, and the custom types they use.
pub fn members_signatures(ms: &Vec<crate::rust_model::ImplMember>) -> (r: Result<
    (Vec<Vec<char>>, Vec<Vec<char>>),
    ProjectError,
>)
    ensures
        match members_sigs(ms@, ms.len() as int) {
            Ok(x) => r matches Ok(y) && views(y.0@) == x.0 && views(y.1@) == x.1 && no_dups(x.1),
            Err(e) => r matches Err(y) && y@ == e,
        },
{
    let mut sigs: Vec<Vec<char>> = Vec::new();
    let mut used: Vec<Vec<char>> = Vec::new();
    assert(views(sigs@) =~= seq![] && views(used@) =~= seq![]);
    let mut i: usize = 0;
    while i < ms.len()
        invariant
            i <= ms.len(),
            members_sigs(ms@, i as int) == Ok::<(Seq<Seq<char>>, Seq<Seq<char>>), ProjectErrorM>(
                (views(sigs@), views(used@)),
            ),
            no_dups(views(used@)),
        decreases ms.len() - i,
    {
        match &ms[i] {
            crate::rust_model::ImplMember::Method { method } => {
                let ghost u_before = views(used@);
                match method_signatures(method, &mut sigs, &mut used) {
                    Ok(()) => {
                        proof {
                            lemma_add_all_no_dups(u_before, method_sigs(*method)->Ok_0.1);
                        }
                    },
                    Err(e) => {
                        proof {
                            lemma_members_sigs_err(ms@, i + 1, ms.len() as int);
                        }
                        return Err(e);
                    },
                }
            },
            crate::rust_model::ImplMember::Other => {},
        }
        i = i + 1;
    }
    Ok((sigs, used))
}

/// The position of the first attribute, from the `i`-th on, named `name`.
pub open spec fn first_attr_from(attrs: Seq<RustAttr>, name: Seq<char>, i: int) -> Option<int>
    decreases attrs.len() - i,
{
    if i < 0 || i >= attrs.len() {
        None
    } else if attr_named(attrs[i], name) {
        Some(i)
    } else {
        first_attr_from(attrs, name, i + 1)
    }
}

/// The item is an impl block with a `hyperprocess` attribute.
pub open spec fn is_hyperprocess_impl(item: crate::rust_model::RustItem) -> bool {
    match item {
        crate::rust_model::RustItem::Impl { attrs, .. } => has_attr(attrs@, "hyperprocess"@),
        _ => false,
    }
}

/// The position of the first hyperprocess impl block from the `i`-th item on.
pub open spec fn hyperprocess_from(items: Seq<crate::rust_model::RustItem>, i: int) -> Option<int>
    decreases items.len() - i,
{
    if i < 0 || i >= items.len() {
        None
    } else if is_hyperprocess_impl(items[i]) {
        Some(i)
    } else {
        hyperprocess_from(items, i + 1)
    }
}

/// The name of the type an impl block is for, when it is a named path.
pub open spec fn interface_of(t: crate::rust_model::RustType) -> Option<Seq<char>> {
    match t {
        crate::rust_model::RustType::Path { last, .. } => match last {
            Some(seg) => Some(seg.ident@),
            None => None,
        },
        _ => None,
    }
}

/// What the hyperprocess impl block of `lib.rs` gives: the kebab-case
/// interface name (its type's name without `State`), the world its first
/// `hyperprocess` attribute names, and its members; `None` without such a
/// block.
pub open spec fn project_head(items: Seq<crate::rust_model::RustItem>) -> Result<
    Option<(Seq<char>, Seq<char>, Seq<crate::rust_model::ImplMember>)>,
    ProjectErrorM,
> {
    match hyperprocess_from(items, 0) {
        None => Ok(None),
        Some(i) => match items[i] {
            crate::rust_model::RustItem::Impl { attrs, self_ty, self_debug, members } => {
                let a = attrs@[first_attr_from(attrs@, "hyperprocess"@, 0).unwrap()];
                match world_in(a.debug@) {
                    None => Err(ProjectErrorM::WorldMissing),
                    Some(w) => match interface_of(self_ty) {
                        None => Err(ProjectErrorM::NoInterfaceName { debug: self_debug@ }),
                        Some(name) => if name_problem(name) is Some {
                            Err(ProjectErrorM::InterfaceName { name })
                        } else {
                            Ok(Some((kebab(crate::wit_types::without_state(name)), w, members@)))
                        },
                    },
                }
            },
            _ => Ok(None),
        },
    }
}

/// The definitions collected from the first `n` source files, in order.
pub open spec fn defs_of(files: Seq<Vec<crate::rust_model::RustItem>>, n: int) -> Seq<
    (Seq<char>, Seq<char>),
>
    decreases n,
{
    if n <= 0 || n > files.len() {
        seq![]
    } else {
        collect_from(files[n - 1]@, 0, defs_of(files, n - 1))
    }
}

/// The custom (non-built-in) names among the first `n` used types.
pub open spec fn custom_names(used: Seq<Seq<char>>, n: int) -> Seq<Seq<char>>
    decreases n,
{
    if n <= 0 || n > used.len() {
        seq![]
    } else if crate::wit_types::wit_builtin(used[n - 1]) {
        custom_names(used, n - 1)
    } else {
        custom_names(used, n - 1).push(used[n - 1])
    }
}

/// The used custom names without a definition, each once, in order of first
/// use.
pub open spec fn undefined_list(used: Seq<Seq<char>>, ds: Seq<(Seq<char>, Seq<char>)>, n: int) -> Seq<
    Seq<char>,
>
    decreases n,
{
    if n <= 0 || n > used.len() {
        seq![]
    } else {
        let rest = undefined_list(used, ds, n - 1);
        let x = used[n - 1];
        if !crate::wit_types::wit_builtin(x) && def_index(ds, x, 0) is None && !rest.contains(x) {
            rest.push(x)
        } else {
            rest
        }
    }
}

/// The definition texts in the given order.
pub open spec fn defs_text(ds: Seq<(Seq<char>, Seq<char>)>, order: Seq<usize>) -> Seq<Seq<char>> {
    order.map_values(|i: usize| ds[i as int].1)
}

/// The body of the interface: the `address` import, then the type
/// definitions, then the signature records.
pub open spec fn interface_body(defs_txt: Seq<Seq<char>>, sigs: Seq<Seq<char>>) -> Seq<char> {
    "    use standard.{address};\n"@ + (if defs_txt.len() > 0 {
        "\n"@ + join(defs_txt, "\n\n"@) + "\n"@
    } else {
        seq![]
    }) + (if sigs.len() > 0 {
        "\n"@ + join(sigs, "\n\n"@)
    } else {
        seq![]
    })
}

/// The WIT interface file of a hyperprocess.
pub open spec fn interface_text(k: Seq<char>, defs_txt: Seq<Seq<char>>, sigs: Seq<Seq<char>>) -> Seq<
    char,
> {
    "interface "@ + wit_ident(k) + " {\n"@ + crate::text::trim(interface_body(defs_txt, sigs))
        + "\n}\n"@
}

/// What processing a hyperprocess project gives.
pub struct ProjectWit {
    /// The interface's kebab-case name; empty when there is nothing to put
    /// in it.
    pub interface: Vec<char>,
    /// The world the hyperprocess belongs to.
    pub world: Vec<char>,
    /// Every type definition the project's files give.
    pub defs: TypeDefs,
    /// The definitions the endpoints need, as positions in `defs`.
    pub needed: Vec<usize>,
    /// The needed definitions in the order they are written.
    pub order: Vec<usize>,
    /// The signature records, sorted.
    pub signatures: Vec<Vec<char>>,
    /// The interface file's text, when there is an interface.
    pub content: Option<Vec<char>>,
}

/// `r` is what processing a project with the given `lib.rs` items and
/// source files' items gives: the first error; no result without a
/// hyperprocess; the sorted undefined type names when an endpoint uses a
/// type without definition; otherwise the needed definitions (the closure
/// of the used custom types under mentions), ordered definitions before uses as
/// far as cycles allow, and the interface text.
pub open spec fn project_outcome(
    lib: Seq<crate::rust_model::RustItem>,
    files: Seq<Vec<crate::rust_model::RustItem>>,
    r: Result<Option<ProjectWit>, ProjectError>,
) -> bool {
    match project_head(lib) {
        Err(e) => r matches Err(x) && x@ == e,
        Ok(None) => r matches Ok(None),
        Ok(Some(h)) => match members_sigs(h.2, h.2.len() as int) {
            Err(e) => r matches Err(x) && x@ == e,
            Ok(sx) => {
                let ds = defs_of(files, files.len() as int);
                let missing = undefined_list(sx.1, ds, sx.1.len() as int);
                if missing.len() > 0 {
                    &&& r matches Err(x)
                    &&& r->Err_0@ matches ProjectErrorM::UndefinedTypes { types } && sorted_strings(
                        types,
                    ) && types.to_multiset() == missing.to_multiset()
                } else {
                    r matches Ok(Some(p)) && {
                        &&& p.world@ == h.1
                        &&& p.defs@ == ds
                        &&& closure_of(ds, custom_names(sx.1, sx.1.len() as int), p.needed@)
                        &&& definitions_first(ds, p.needed@, p.order@)
                        &&& sorted_strings(views(p.signatures@))
                        &&& views(p.signatures@).to_multiset() == sx.0.to_multiset()
                        &&& if sx.0.len() == 0 && p.order.len() == 0 {
                            p.interface@ == Seq::<char>::empty() && p.content is None
                        } else {
                            &&& p.interface@ == h.0
                            &&& p.content matches Some(c) && c@ == interface_text(
                                h.0,
                                defs_text(ds, p.order@),
                                views(p.signatures@),
                            )
                        }
                    }
                }
            },
        },
    }
}

fn first_attr_exec(attrs: &Vec<RustAttr>, name: &str) -> (r: Option<usize>)
    ensures
        r matches Some(i) ==> first_attr_from(attrs@, name@, 0) == Some(i as int) && i < attrs.len(),
        r is None ==> first_attr_from(attrs@, name@, 0) is None,
{
    let mut i: usize = 0;
    while i < attrs.len()
        invariant
            i <= attrs.len(),
            first_attr_from(attrs@, name@, 0) == first_attr_from(attrs@, name@, i as int),
        decreases attrs.len() - i,
    {
        if attr_is(&attrs[i], name) {
            return Some(i);
        }
        i = i + 1;
    }
    None
}

pub proof fn lemma_first_attr_some(attrs: Seq<RustAttr>, name: Seq<char>, i: int)
    requires
        0 <= i <= attrs.len(),
        exists|j: int| i <= j < attrs.len() && attr_named(#[trigger] attrs[j], name),
    ensures
        first_attr_from(attrs, name, i) matches Some(k) && i <= k < attrs.len() && attr_named(
            attrs[k],
            name,
        ),
    decreases attrs.len() - i,
{
    if !attr_named(attrs[i], name) {
        let j = choose|j: int| i <= j < attrs.len() && attr_named(#[trigger] attrs[j], name);
        assert(j != i);
        lemma_first_attr_some(attrs, name, i + 1);
    }
}

/// Finds the hyperprocess impl block of `lib.rs` and reads its world and
/// interface name; gives the block's position too.
fn find_hyperprocess(items: &Vec<crate::rust_model::RustItem>) -> (r: Result<
    Option<(usize, Vec<char>, Vec<char>)>,
    ProjectError,
>)
    ensures
        match project_head(items@) {
            Err(e) => r matches Err(x) && x@ == e,
            Ok(None) => r matches Ok(None),
            Ok(Some(h)) => r matches Ok(Some(y)) && y.0 < items.len() && hyperprocess_from(
                items@,
                0,
            ) == Some(y.0 as int) && y.1@ == h.0 && y.2@ == h.1,
        },
{
    let mut i: usize = 0;
    while i < items.len()
        invariant
            i <= items.len(),
            hyperprocess_from(items@, 0) == hyperprocess_from(items@, i as int),
        decreases items.len() - i,
    {
        match &items[i] {
            crate::rust_model::RustItem::Impl { attrs, self_ty, self_debug, members } => {
                match first_attr_exec(attrs, "hyperprocess") {
                    Some(a) => {
                        proof {
                            assert(has_attr(attrs@, "hyperprocess"@)) by {
                                assert(attr_named(attrs@[a as int], "hyperprocess"@)) by {
                                    lemma_first_attr_some_inv(attrs@, "hyperprocess"@, 0, a as int);
                                }
                            }
                            assert(hyperprocess_from(items@, i as int) == Some(i as int));
                        }
                        let w = match world_in_exec(&chars_of(attrs[a].debug.as_str())) {
                            Some(w) => w,
                            None => {
                                return Err(ProjectError::WorldMissing);
                            },
                        };
                        let name = match self_ty {
                            crate::rust_model::RustType::Path { last, .. } => match last {
                                Some(seg) => chars_of(seg.ident.as_str()),
                                None => {
                                    return Err(
                                        ProjectError::NoInterfaceName { debug: self_debug.clone() },
                                    );
                                },
                            },
                            _ => {
                                return Err(ProjectError::NoInterfaceName { debug: self_debug.clone() });
                            },
                        };
                        if validate_name(&name, "Interface").is_err() {
                            return Err(ProjectError::InterfaceName { name: string_of(&name) });
                        }
                        let k = kebab_chars(&crate::wit_types::remove_state_suffix(&name));
                        return Ok(Some((i, k, w)));
                    },
                    None => {
                        proof {
                            if has_attr(attrs@, "hyperprocess"@) {
                                lemma_first_attr_some(attrs@, "hyperprocess"@, 0);
                            }
                        }
                    },
                }
            },
            _ => {},
        }
        i = i + 1;
    }
    Ok(None)
}

pub proof fn lemma_first_attr_some_inv(attrs: Seq<RustAttr>, name: Seq<char>, i: int, k: int)
    requires
        0 <= i,
        first_attr_from(attrs, name, i) == Some(k),
    ensures
        0 <= k < attrs.len() && attr_named(attrs[k], name),
    decreases attrs.len() - i,
{
    if i < attrs.len() && !attr_named(attrs[i], name) {
        lemma_first_attr_some_inv(attrs, name, i + 1, k);
    }
}

fn custom_names_exec(used: &Vec<Vec<char>>) -> (r: Vec<Vec<char>>)
    ensures
        views(r@) == custom_names(views(used@), used.len() as int),
{
    let ghost u = views(used@);
    let mut r: Vec<Vec<char>> = Vec::new();
    let mut i: usize = 0;
    assert(views(r@) =~= seq![]);
    while i < used.len()
        invariant
            u == views(used@),
            i <= used.len(),
            views(r@) == custom_names(u, i as int),
        decreases used.len() - i,
    {
        assert(u[i as int] == used[i as int]@);
        if !crate::wit_types::is_wit_primitive_or_builtin(&used[i]) {
            proof {
                lemma_views_push(r@, used[i as int]);
            }
            r.push(used[i].clone());
        }
        i = i + 1;
    }
    r
}

fn undefined_names(used: &Vec<Vec<char>>, defs: &TypeDefs) -> (r: Vec<Vec<char>>)
    ensures
        views(r@) == undefined_list(views(used@), defs@, used.len() as int),
{
    let ghost u = views(used@);
    let mut r: Vec<Vec<char>> = Vec::new();
    let mut i: usize = 0;
    assert(views(r@) =~= seq![]);
    while i < used.len()
        invariant
            u == views(used@),
            i <= used.len(),
            views(r@) == undefined_list(u, defs@, i as int),
        decreases used.len() - i,
    {
        assert(u[i as int] == used[i as int]@);
        if !crate::wit_types::is_wit_primitive_or_builtin(&used[i]) && find_def(
            &defs.entries,
            &used[i],
        ).is_none() && !contains_name(&r, &used[i]) {
            proof {
                lemma_views_push(r@, used[i as int]);
            }
            r.push(used[i].clone());
        }
        i = i + 1;
    }
    r
}

fn strings_of(v: &Vec<Vec<char>>) -> (r: Vec<String>)
    ensures
        strings_view(r@) == views(v@),
{
    let mut r: Vec<String> = Vec::new();
    let mut i: usize = 0;
    while i < v.len()
        invariant
            i <= v.len(),
            strings_view(r@) == views(v@).take(i as int),
        decreases v.len() - i,
    {
        let ghost before = r@;
        r.push(string_of(&v[i]));
        assert(strings_view(r@) =~= strings_view(before).push(v[i as int]@));
        assert(views(v@).take(i + 1) =~= views(v@).take(i as int).push(v[i as int]@));
        i = i + 1;
    }
    assert(views(v@).take(v.len() as int) =~= views(v@));
    r
}

/// Processes a hyperprocess project: collects the type definitions of its
/// source files (`file_items`, in order), finds the hyperprocess impl block
/// in `lib.rs` (`lib_items`), builds the signature records of its endpoints,
/// and gathers the definitions they need into the WIT interface.
pub fn process_rust_project(
    lib_items: &Vec<crate::rust_model::RustItem>,
    file_items: &Vec<Vec<crate::rust_model::RustItem>>,
) -> (r: Result<Option<ProjectWit>, ProjectError>)
    ensures
        project_outcome(lib_items@, file_items@, r),
{
    let mut defs = TypeDefs::new();
    let mut f: usize = 0;
    while f < file_items.len()
        invariant
            f <= file_items.len(),
            defs@ == defs_of(file_items@, f as int),
        decreases file_items.len() - f,
    {
        collect_type_definitions_from_file(&file_items[f], &mut defs);
        f = f + 1;
    }
    let head = find_hyperprocess(lib_items)?;
    let (idx, k, w) = match head {
        None => {
            return Ok(None);
        },
        Some(h) => h,
    };
    let members = match &lib_items[idx] {
        crate::rust_model::RustItem::Impl { members, .. } => members,
        _ => {
            proof {
                lemma_hyperprocess_from(lib_items@, 0);
            }
            return Ok(None);
        },
    };
    let (sigs, used) = members_signatures(members)?;
    let roots = custom_names_exec(&used);
    let needed = needed_definitions(&defs, &roots);
    let order = order_definitions_first(&defs, &needed);
    let missing = undefined_names(&used, &defs);
    if missing.len() > 0 {
        let sorted = sort_strings(&missing);
        return Err(ProjectError::UndefinedTypes { types: strings_of(&sorted) });
    }
    let signatures = sort_strings(&sigs);
    let ghost ds = defs@;
    let mut relevant: Vec<Vec<char>> = Vec::new();
    let mut j: usize = 0;
    while j < order.len()
        invariant
            ds == defs@,
            index_set(order@, ds.len() as int),
            j <= order.len(),
            views(relevant@) == defs_text(ds, order@.take(j as int)),
        decreases order.len() - j,
    {
        let e = order[j];
        assert(order@[j as int] < ds.len());
        assert(ds[e as int].1 == defs.entries[e as int].1@);
        proof {
            lemma_views_push(relevant@, defs.entries[e as int].1);
        }
        relevant.push(defs.entries[e].1.clone());
        assert(defs_text(ds, order@.take(j + 1)) =~= defs_text(ds, order@.take(j as int)).push(
            ds[e as int].1,
        ));
        j = j + 1;
    }
    assert(order@.take(order.len() as int) =~= order@);
    assert(views(relevant@) == defs_text(ds, order@));
    proof {
        let h = project_head(lib_items@)->Ok_0->Some_0;
        assert(project_head(lib_items@) is Ok);
        assert(h.2 == members@);
        let sx = members_sigs(h.2, h.2.len() as int)->Ok_0;
        assert(members_sigs(h.2, h.2.len() as int) is Ok);
        assert(sx.0 == views(sigs@));
        assert(sx.1 == views(used@));
        assert(ds == defs_of(file_items@, file_items.len() as int));
        assert(undefined_list(sx.1, ds, sx.1.len() as int).len() == 0);
        assert(closure_of(ds, custom_names(sx.1, sx.1.len() as int), needed@));
        assert(views(signatures@).to_multiset().len() == sx.0.to_multiset().len());
        assert(views(signatures@).len() == sx.0.len());
    }
    if signatures.len() == 0 && relevant.len() == 0 {
        let empty: Vec<char> = Vec::new();
        assert(empty@ =~= Seq::<char>::empty());
        return Ok(
            Some(
                ProjectWit {
                    interface: empty,
                    world: w,
                    defs,
                    needed,
                    order,
                    signatures,
                    content: None,
                },
            ),
        );
    }
    let mut body = chars_of("    use standard.{address};\n");
    if relevant.len() > 0 {
        push_str(&mut body, "\n");
        push_all(&mut body, &join_exec(&relevant, &chars_of("\n\n")));
        push_str(&mut body, "\n");
    }
    if signatures.len() > 0 {
        push_str(&mut body, "\n");
        push_all(&mut body, &join_exec(&signatures, &chars_of("\n\n")));
    }
    assert(body@ =~= interface_body(views(relevant@), views(signatures@)));
    let mut content = chars_of("interface ");
    push_all(&mut content, &to_wit_ident(&k));
    push_str(&mut content, " {\n");
    push_all(&mut content, &crate::text::trim_chars(&body));
    push_str(&mut content, "\n}\n");
    Ok(
        Some(
            ProjectWit {
                interface: k,
                world: w,
                defs,
                needed,
                order,
                signatures,
                content: Some(content),
            },
        ),
    )
}

/// The item lists of the sources syn can parse, in order; the others are
/// left out.
pub open spec fn parsed_sources(sources: Seq<Seq<char>>) -> Seq<Seq<crate::rust_model::RustItem>>
    decreases sources.len(),
{
    if sources.len() == 0 {
        seq![]
    } else {
        let rest = parsed_sources(sources.drop_last());
        match syn_items(sources.last()) {
            Some(items) => rest.push(items),
            None => rest,
        }
    }
}

pub open spec fn item_lists(fs: Seq<Vec<crate::rust_model::RustItem>>) -> Seq<Seq<crate::rust_model::RustItem>> {
    fs.map_values(|v: Vec<crate::rust_model::RustItem>| v@)
}

/// `process_rust_project` on source texts: `lib_source` is the project's
/// `lib.rs` and `file_sources` its Rust files. When syn cannot parse
/// `lib.rs` the project fails with `LibUnparsable`; a file syn cannot parse
/// contributes no definitions; otherwise the outcome is that of
/// `process_rust_project` on the parsed items.
pub fn process_rust_sources(lib_source: &str, file_sources: &Vec<String>) -> (r: Result<Option<ProjectWit>, ProjectError>)
    ensures
        match syn_items(lib_source@) {
            None => r matches Err(e) && e@ == ProjectErrorM::LibUnparsable,
            Some(lib) => exists|fs: Seq<Vec<crate::rust_model::RustItem>>|
                #[trigger] item_lists(fs) == parsed_sources(strings_view(file_sources@))
                    && project_outcome(lib, fs, r),
        },
{
    let lib_items = match parse_items(lib_source) {
        Some(items) => items,
        None => {
            return Err(ProjectError::LibUnparsable);
        },
    };
    let ghost sv = strings_view(file_sources@);
    let mut file_items: Vec<Vec<crate::rust_model::RustItem>> = Vec::new();
    let mut i: usize = 0;
    while i < file_sources.len()
        invariant
            sv == strings_view(file_sources@),
            i <= file_sources.len(),
            item_lists(file_items@) == parsed_sources(sv.take(i as int)),
        decreases file_sources.len() - i,
    {
        assert(sv.take(i + 1).drop_last() =~= sv.take(i as int));
        assert(sv.take(i + 1).last() == file_sources@[i as int]@);
        match parse_items(file_sources[i].as_str()) {
            Some(items) => {
                let ghost before = file_items@;
                file_items.push(items);
                assert(item_lists(file_items@) =~= item_lists(before).push(file_items@.last()@));
            },
            None => {},
        }
        i = i + 1;
    }
    assert(sv.take(file_sources.len() as int) =~= sv);
    let r = process_rust_project(&lib_items, &file_items);
    assert(item_lists(file_items@) == parsed_sources(sv));
    r
}

pub proof fn lemma_hyperprocess_from(items: Seq<crate::rust_model::RustItem>, i: int)
    requires
        0 <= i,
    ensures
        hyperprocess_from(items, i) matches Some(k) ==> i <= k < items.len()
            && is_hyperprocess_impl(items[k]),
    decreases items.len() - i,
{
    if i < items.len() && !is_hyperprocess_impl(items[i]) {
        lemma_hyperprocess_from(items, i + 1);
    }
}

} // verus!

verus! {

/// A list of names as `Debug` writes it: `["a", "b"]`.
pub open spec fn quoted_list(v: Seq<Seq<char>>) -> Seq<char> {
    "["@ + join(v.map_values(|t: Seq<char>| "\""@ + t + "\""@), ", "@) + "]"@
}

/// The text of a project error; `project` is how the project is shown.
pub open spec fn project_error_message(e: ProjectErrorM, project: Seq<char>) -> Seq<char> {
    match e {
        ProjectErrorM::WorldMissing => "Failed to extract wit_world from #[hyperprocess] attribute"@,
        ProjectErrorM::InterfaceName { name } => "Invalid interface name '"@ + name + "' in hyperprocess impl block"@,
        ProjectErrorM::NoInterfaceName { debug } => "Could not extract interface name from #[hyperprocess] impl block type: "@ + debug,
        ProjectErrorM::InvalidName { error } => crate::wit_types::name_error_message(error),
        ProjectErrorM::ParamType { param, function } => "Failed to convert type for parameter '"@ + param + "' in function '"@ + function + "'"@,
        ProjectErrorM::UnitReturn { function } => "Function '"@ + function
            + "' returns '()', which is not directly supported in WIT signatures. Consider returning a Result<(), YourErrorType> or another meaningful type."@,
        ProjectErrorM::ReturnType { function } => "Failed to convert return type for function '"@ + function + "'"@,
        ProjectErrorM::ImplicitReturn { function } => "Function '"@ + function
            + "' must have an explicit return type (e.g., '-> MyType' or '-> Result<(), YourErrorType>') to be exposed via WIT. Implicit return types are not allowed."@,
        ProjectErrorM::MissingAttribute { method } => "Method '"@ + method
            + "' in the #[hyperprocess] impl block is missing a required attribute ([remote], [local], [http], [init], [ws], [ws_client], or [terminal]). Only methods with these attributes should be included."@,
        ProjectErrorM::UndefinedTypes { types } => "WIT Generation Error in project '"@ + project
            + "': Found types used (directly or indirectly) in function signatures that are neither WIT built-ins nor defined locally within the scanned project files: "@
            + quoted_list(types)
            + ". Ensure definitions for these types (structs/enums) are present in the project's source code (and not skipped due to errors/complexity), or adjust the function/type definitions."@,
        ProjectErrorM::LibUnparsable => "Failed to parse lib.rs for project: "@ + project,
    }
}

fn quoted_list_exec(v: &Vec<String>) -> (r: Vec<char>)
    ensures
        r@ == quoted_list(strings_view(v@)),
{
    let ghost sv = strings_view(v@);
    let ghost q = sv.map_values(|t: Seq<char>| "\""@ + t + "\""@);
    let mut parts: Vec<Vec<char>> = Vec::new();
    let mut i: usize = 0;
    while i < v.len()
        invariant
            sv == strings_view(v@),
            q == sv.map_values(|t: Seq<char>| "\""@ + t + "\""@),
            i <= v.len(),
            views(parts@) == q.take(i as int),
        decreases v.len() - i,
    {
        let mut p = chars_of("\"");
        push_str(&mut p, v[i].as_str());
        push_str(&mut p, "\"");
        proof {
            lemma_views_push(parts@, p);
            assert(q.take(i + 1) =~= q.take(i as int).push(q[i as int]));
        }
        parts.push(p);
        i = i + 1;
    }
    assert(q.take(v.len() as int) =~= q);
    let mut r = chars_of("[");
    push_all(&mut r, &join_exec(&parts, &chars_of(", ")));
    push_str(&mut r, "]");
    r
}

impl ProjectError {
    /// The error's text, `project` showing which project it is about.
    pub fn message(&self, project: &str) -> (r: String)
        ensures
            r@ == project_error_message(self@, project@),
    {
        let mut m: Vec<char> = Vec::new();
        match self {
            ProjectError::WorldMissing => push_str(&mut m, "Failed to extract wit_world from #[hyperprocess] attribute"),
            ProjectError::InterfaceName { name } => {
                push_str(&mut m, "Invalid interface name '");
                push_str(&mut m, name.as_str());
                push_str(&mut m, "' in hyperprocess impl block");
            },
            ProjectError::NoInterfaceName { debug } => {
                push_str(&mut m, "Could not extract interface name from #[hyperprocess] impl block type: ");
                push_str(&mut m, debug.as_str());
            },
            ProjectError::InvalidName { error } => push_str(&mut m, error.message().as_str()),
            ProjectError::ParamType { param, function } => {
                push_str(&mut m, "Failed to convert type for parameter '");
                push_str(&mut m, param.as_str());
                push_str(&mut m, "' in function '");
                push_str(&mut m, function.as_str());
                push_str(&mut m, "'");
            },
            ProjectError::UnitReturn { function } => {
                push_str(&mut m, "Function '");
                push_str(&mut m, function.as_str());
                push_str(&mut m, "' returns '()', which is not directly supported in WIT signatures. Consider returning a Result<(), YourErrorType> or another meaningful type.");
            },
            ProjectError::ReturnType { function } => {
                push_str(&mut m, "Failed to convert return type for function '");
                push_str(&mut m, function.as_str());
                push_str(&mut m, "'");
            },
            ProjectError::ImplicitReturn { function } => {
                push_str(&mut m, "Function '");
                push_str(&mut m, function.as_str());
                push_str(&mut m, "' must have an explicit return type (e.g., '-> MyType' or '-> Result<(), YourErrorType>') to be exposed via WIT. Implicit return types are not allowed.");
            },
            ProjectError::MissingAttribute { method } => {
                push_str(&mut m, "Method '");
                push_str(&mut m, method.as_str());
                push_str(&mut m, "' in the #[hyperprocess] impl block is missing a required attribute ([remote], [local], [http], [init], [ws], [ws_client], or [terminal]). Only methods with these attributes should be included.");
            },
            ProjectError::UndefinedTypes { types } => {
                push_str(&mut m, "WIT Generation Error in project '");
                push_str(&mut m, project);
                push_str(&mut m, "': Found types used (directly or indirectly) in function signatures that are neither WIT built-ins nor defined locally within the scanned project files: ");
                push_all(&mut m, &quoted_list_exec(types));
                push_str(&mut m, ". Ensure definitions for these types (structs/enums) are present in the project's source code (and not skipped due to errors/complexity), or adjust the function/type definitions.");
            },
            ProjectError::LibUnparsable => {
                push_str(&mut m, "Failed to parse lib.rs for project: ");
                push_str(&mut m, project);
            },
        }
        string_of(&m)
    }
}

} // verus!

verus! {

/// An `http` attribute that gives a method or a path.
pub open spec fn gives_http_info(a: RustAttr) -> bool {
    &&& attr_named(a, "http"@)
    &&& (quoted_value(a.debug@, "method"@) is Some || quoted_value(a.debug@, "path"@) is Some)
}

proof fn lemma_http_from_skips(attrs: Seq<RustAttr>, k: int, j: int)
    requires
        0 <= k <= j < attrs.len(),
        forall|l: int| 0 <= l < j ==> !gives_http_info(#[trigger] attrs[l]),
    ensures
        http_from(attrs, k) == http_from(attrs, j),
    decreases j - k,
{
    if k < j {
        assert(!gives_http_info(attrs[k]));
        lemma_http_from_skips(attrs, k + 1, j);
    }
}

/// The HTTP method and path of an endpoint are those its first `http`
/// attribute with either gives: a method `M` given there (`method = "M"`)
/// is the method, whatever it is; `POST` only when that attribute gives no
/// method; likewise the path, `/api` only when none is given.
pub proof fn lemma_http_info_read_from_attribute(attrs: Seq<RustAttr>, j: int)
    requires
        0 <= j < attrs.len(),
        gives_http_info(attrs[j]),
        forall|l: int| 0 <= l < j ==> !gives_http_info(#[trigger] attrs[l]),
    ensures
        http_from(attrs, 0) is Some,
        quoted_value(attrs[j].debug@, "method"@) matches Some(m) ==> http_from(attrs, 0).unwrap().0 == m,
        quoted_value(attrs[j].debug@, "method"@) is None ==> http_from(attrs, 0).unwrap().0 == "POST"@,
        quoted_value(attrs[j].debug@, "path"@) matches Some(p) ==> http_from(attrs, 0).unwrap().1 == p,
        quoted_value(attrs[j].debug@, "path"@) is None ==> http_from(attrs, 0).unwrap().1 == "/api"@,
{
    lemma_http_from_skips(attrs, 0, j);
}

} // verus!
