//! WIT type expressions for Rust types, and the rules Rust names must
//! follow to appear in a WIT interface.
use vstd::prelude::*;
use crate::casing::{lower_text, str_lower};
use crate::naming::{eq_lit, kebab, kebab_chars, starts_with_lit};
use crate::rust_model::{GenericArg, TypeSegment, RustType};
use crate::text::{
    chars_of, contains_exec, contains_sub, has_prefix, has_suffix, join, join_exec, lemma_views_push,
    push_all, push_str, slice_of, string_of, views,
};

verus! {

broadcast use vstd::std_specs::vec::axiom_vec_decreases_to_view;

/// Why a name cannot appear in a WIT interface.
#[derive(Clone, Copy, PartialEq, Eq, Structural)]
pub enum NameProblem {
    /// It contains an ASCII digit.
    Digits,
    /// Its lowercase form contains `stream`.
    Stream,
}

pub open spec fn has_digit(s: Seq<char>) -> bool {
    exists|i: int| 0 <= i < s.len() && '0' <= #[trigger] s[i] && s[i] <= '9'
}

/// The problem a name has, digits checked first.
pub open spec fn name_problem(name: Seq<char>) -> Option<NameProblem> {
    if has_digit(name) {
        Some(NameProblem::Digits)
    } else if contains_sub(lower_text(name), "stream"@) {
        Some(NameProblem::Stream)
    } else {
        None
    }
}

/// A name refused by `validate_name`, with the kind of thing it names.
pub struct NameError {
    pub kind: String,
    pub name: String,
    pub problem: NameProblem,
}

pub struct NameErrorM {
    pub kind: Seq<char>,
    pub name: Seq<char>,
    pub problem: NameProblem,
}

impl View for NameError {
    type V = NameErrorM;

    open spec fn view(&self) -> NameErrorM {
        NameErrorM { kind: self.kind@, name: self.name@, problem: self.problem }
    }
}

pub open spec fn name_error_message(e: NameErrorM) -> Seq<char> {
    "Error: "@ + e.kind + " name '"@ + e.name + (match e.problem {
        NameProblem::Digits => "' contains numbers, which is not allowed"@,
        NameProblem::Stream => "' contains 'stream', which is not allowed"@,
    })
}

impl NameError {
    /// The error's text.
    pub fn message(&self) -> (r: String)
        ensures
            r@ == name_error_message(self@),
    {
        let mut out = chars_of("Error: ");
        push_str(&mut out, self.kind.as_str());
        push_str(&mut out, " name '");
        push_str(&mut out, self.name.as_str());
        let tail = match self.problem {
            NameProblem::Digits => chars_of("' contains numbers, which is not allowed"),
            NameProblem::Stream => chars_of("' contains 'stream', which is not allowed"),
        };
        push_all(&mut out, &tail);
        string_of(&out)
    }
}

fn has_digit_exec(s: &Vec<char>) -> (b: bool)
    ensures
        b == has_digit(s@),
{
    let mut i: usize = 0;
    while i < s.len()
        invariant
            i <= s.len(),
            forall|j: int| 0 <= j < i ==> !('0' <= #[trigger] s@[j] && s@[j] <= '9'),
        decreases s.len() - i,
    {
        if '0' <= s[i] && s[i] <= '9' {
            assert('0' <= s@[i as int] && s@[i as int] <= '9');
            return true;
        }
        i = i + 1;
    }
    false
}

/// Checks that a name has no digits and no `stream` in its lowercase form;
/// `kind` says what the name names, for the error.
pub fn validate_name(name: &Vec<char>, kind: &str) -> (r: Result<(), NameError>)
    ensures
        r is Ok <==> name_problem(name@) is None,
        r matches Err(e) ==> e@ == (NameErrorM {
            kind: kind@,
            name: name@,
            problem: name_problem(name@).unwrap(),
        }),
{
    if has_digit_exec(name) {
        return Err(
            NameError { kind: kind.to_owned(), name: string_of(name), problem: NameProblem::Digits },
        );
    }
    let lower = str_lower(string_of(name).as_str());
    proof {
        reveal_strlit("stream");
    }
    if contains_exec(&chars_of(lower.as_str()), &chars_of("stream")) {
        return Err(
            NameError { kind: kind.to_owned(), name: string_of(name), problem: NameProblem::Stream },
        );
    }
    Ok(())
}

/// A field or parameter name without its leading `_`, which WIT does not
/// allow.
pub open spec fn strip_underscore(s: Seq<char>) -> Seq<char> {
    if s.len() > 0 && s[0] == '_' {
        s.drop_first()
    } else {
        s
    }
}

/// Removes one leading `_` from a field or parameter name.
pub fn check_and_strip_leading_underscore(field_name: Vec<char>) -> (r: Vec<char>)
    ensures
        r@ == strip_underscore(field_name@),
{
    if field_name.len() > 0 && field_name[0] == '_' {
        let r = slice_of(&field_name, 1, field_name.len());
        assert(r@ =~= field_name@.drop_first());
        r
    } else {
        field_name
    }
}

/// A process state type's name without its `State` suffix.
pub open spec fn without_state(name: Seq<char>) -> Seq<char> {
    if has_suffix(name, "State"@) {
        name.take(name.len() - "State"@.len())
    } else {
        name
    }
}

/// Removes a trailing `State` from a name.
pub fn remove_state_suffix(name: &Vec<char>) -> (r: Vec<char>)
    ensures
        r@ == without_state(name@),
{
    if crate::naming::ends_with_lit(name, "State") {
        let n = chars_of("State").len();
        let r = slice_of(name, 0, name.len() - n);
        assert(r@ =~= name@.take(name.len() - n));
        r
    } else {
        name.clone()
    }
}

/// WIT's primitive types, `address`, and the built-in generic types.
pub open spec fn wit_builtin(t: Seq<char>) -> bool {
    ||| t == "s8"@
    ||| t == "u8"@
    ||| t == "s16"@
    ||| t == "u16"@
    ||| t == "s32"@
    ||| t == "u32"@
    ||| t == "s64"@
    ||| t == "u64"@
    ||| t == "f32"@
    ||| t == "f64"@
    ||| t == "bool"@
    ||| t == "char"@
    ||| t == "string"@
    ||| t == "address"@
    ||| has_prefix(t, "list<"@)
    ||| has_prefix(t, "option<"@)
    ||| has_prefix(t, "result<"@)
    ||| has_prefix(t, "tuple<"@)
}

/// Tells whether a WIT type name needs no definition of its own.
pub fn is_wit_primitive_or_builtin(t: &Vec<char>) -> (b: bool)
    ensures
        b == wit_builtin(t@),
{
    eq_lit(t, "s8") || eq_lit(t, "u8") || eq_lit(t, "s16") || eq_lit(t, "u16") || eq_lit(t, "s32")
        || eq_lit(t, "u32") || eq_lit(t, "s64") || eq_lit(t, "u64") || eq_lit(t, "f32") || eq_lit(
        t,
        "f64",
    ) || eq_lit(t, "bool") || eq_lit(t, "char") || eq_lit(t, "string") || eq_lit(t, "address")
        || starts_with_lit(t, "list<") || starts_with_lit(t, "option<") || starts_with_lit(
        t,
        "result<",
    ) || starts_with_lit(t, "tuple<")
}

/// Why a Rust type has no WIT form.
pub enum TypeError {
    /// A path type without segments.
    EmptyPath { debug: String },
    /// `Vec<..>` whose first argument is not a type.
    VecInner,
    /// `Vec` without angle-bracketed arguments.
    VecArgs,
    /// `Option<..>` whose first argument is not a type.
    OptionInner,
    /// `Option` without angle-bracketed arguments.
    OptionArgs,
    /// `Result<A, B>` where an argument is not a type.
    ResultGenericArgs,
    /// `Result<..>` with other than two arguments.
    ResultArity { found: usize },
    /// `Result` without angle-bracketed arguments.
    ResultArgs,
    /// A custom type whose name is refused.
    InvalidName { error: NameError },
    /// A kind of type WIT has no form for.
    Unsupported { debug: String },
}

pub enum TypeErrorM {
    EmptyPath { debug: Seq<char> },
    VecInner,
    VecArgs,
    OptionInner,
    OptionArgs,
    ResultGenericArgs,
    ResultArity { found: nat },
    ResultArgs,
    InvalidName { error: NameErrorM },
    Unsupported { debug: Seq<char> },
}

impl View for TypeError {
    type V = TypeErrorM;

    open spec fn view(&self) -> TypeErrorM {
        match self {
            TypeError::EmptyPath { debug } => TypeErrorM::EmptyPath { debug: debug@ },
            TypeError::VecInner => TypeErrorM::VecInner,
            TypeError::VecArgs => TypeErrorM::VecArgs,
            TypeError::OptionInner => TypeErrorM::OptionInner,
            TypeError::OptionArgs => TypeErrorM::OptionArgs,
            TypeError::ResultGenericArgs => TypeErrorM::ResultGenericArgs,
            TypeError::ResultArity { found } => TypeErrorM::ResultArity { found: *found as nat },
            TypeError::ResultArgs => TypeErrorM::ResultArgs,
            TypeError::InvalidName { error } => TypeErrorM::InvalidName { error: error@ },
            TypeError::Unsupported { debug } => TypeErrorM::Unsupported { debug: debug@ },
        }
    }
}

/// The WIT form of a primitive Rust type name.
pub open spec fn prim_wit(n: Seq<char>) -> Option<Seq<char>> {
    if n == "i8"@ {
        Some("s8"@)
    } else if n == "u8"@ {
        Some("u8"@)
    } else if n == "i16"@ {
        Some("s16"@)
    } else if n == "u16"@ {
        Some("u16"@)
    } else if n == "i32"@ {
        Some("s32"@)
    } else if n == "u32"@ {
        Some("u32"@)
    } else if n == "i64"@ {
        Some("s64"@)
    } else if n == "u64"@ {
        Some("u64"@)
    } else if n == "f32"@ {
        Some("f32"@)
    } else if n == "f64"@ {
        Some("f64"@)
    } else if n == "String"@ {
        Some("string"@)
    } else if n == "bool"@ {
        Some("bool"@)
    } else {
        None
    }
}

/// `result` in its shortest WIT form, `_` standing for `()`.
pub open spec fn result_wit(ok: Seq<char>, err: Seq<char>) -> Seq<char> {
    if ok == "_"@ && err == "_"@ {
        "result"@
    } else if err == "_"@ {
        "result<"@ + ok + ">"@
    } else if ok == "_"@ {
        "result<_, "@ + err + ">"@
    } else {
        "result<"@ + ok + ", "@ + err + ">"@
    }
}

/// The WIT form of a Rust type: primitives mapped, `Vec`, `Option` and
/// `Result` as `list`, `option` and `result`, references as what they refer
/// to, `()` as `_`, tuples as `tuple`, and any other named type as its
/// kebab-case name once the name is checked.
pub open spec fn wit_of(t: RustType) -> Result<Seq<char>, TypeErrorM>
    decreases t, 0int,
{
    match t {
        RustType::Path { last, debug } => match last {
            None => Err(TypeErrorM::EmptyPath { debug: debug@ }),
            Some(seg) => {
                let n = seg.ident@;
                if prim_wit(n) is Some {
                    Ok(prim_wit(n).unwrap())
                } else if n == "Vec"@ || n == "Option"@ {
                    match seg.args {
                        Some(args) => if args.len() > 0 && args@[0] is Type {
                            match wit_of(args@[0]->ty) {
                                Ok(inner) => Ok(
                                    (if n == "Vec"@ {
                                        "list<"@
                                    } else {
                                        "option<"@
                                    }) + inner + ">"@,
                                ),
                                Err(e) => Err(e),
                            }
                        } else if n == "Vec"@ {
                            Err(TypeErrorM::VecInner)
                        } else {
                            Err(TypeErrorM::OptionInner)
                        },
                        None => if n == "Vec"@ {
                            Err(TypeErrorM::VecArgs)
                        } else {
                            Err(TypeErrorM::OptionArgs)
                        },
                    }
                } else if n == "Result"@ {
                    match seg.args {
                        Some(args) => if args.len() == 2 {
                            if args@[0] is Type && args@[1] is Type {
                                match wit_of(args@[0]->ty) {
                                    Err(e) => Err(e),
                                    Ok(ok) => match wit_of(args@[1]->ty) {
                                        Err(e) => Err(e),
                                        Ok(er) => Ok(result_wit(ok, er)),
                                    },
                                }
                            } else {
                                Err(TypeErrorM::ResultGenericArgs)
                            }
                        } else {
                            Err(TypeErrorM::ResultArity { found: args.len() as nat })
                        },
                        None => Err(TypeErrorM::ResultArgs),
                    }
                } else {
                    match name_problem(n) {
                        Some(p) => Err(
                            TypeErrorM::InvalidName {
                                error: NameErrorM { kind: "Type"@, name: n, problem: p },
                            },
                        ),
                        None => Ok(kebab(n)),
                    }
                }
            },
        },
        RustType::Reference { elem } => wit_of(*elem),
        RustType::Tuple { elems } => if elems.len() == 0 {
            Ok("_"@)
        } else {
            match wit_upto(elems, elems.len() as int) {
                Ok(ts) => Ok("tuple<"@ + join(ts, ", "@) + ">"@),
                Err(e) => Err(e),
            }
        },
        RustType::Unsupported { debug } => Err(TypeErrorM::Unsupported { debug: debug@ }),
    }
}

/// The WIT forms of the first `n` tuple elements, or the first error.
pub open spec fn wit_upto(elems: Vec<RustType>, n: int) -> Result<Seq<Seq<char>>, TypeErrorM>
    decreases elems, n,
{
    if n <= 0 || n > elems.len() {
        Ok(seq![])
    } else {
        match wit_upto(elems, n - 1) {
            Err(e) => Err(e),
            Ok(ts) => match wit_of(elems@[n - 1]) {
                Ok(w) => Ok(ts.push(w)),
                Err(e) => Err(e),
            },
        }
    }
}

/// The custom type names a successful conversion records, in order.
pub open spec fn used_of(t: RustType) -> Seq<Seq<char>>
    decreases t, 0int,
{
    match t {
        RustType::Path { last, debug } => match last {
            None => seq![],
            Some(seg) => {
                let n = seg.ident@;
                if prim_wit(n) is Some {
                    seq![]
                } else if n == "Vec"@ || n == "Option"@ {
                    match seg.args {
                        Some(args) => if args.len() > 0 && args@[0] is Type {
                            used_of(args@[0]->ty)
                        } else {
                            seq![]
                        },
                        None => seq![],
                    }
                } else if n == "Result"@ {
                    match seg.args {
                        Some(args) => if args.len() == 2 && args@[0] is Type && args@[1] is Type {
                            used_of(args@[0]->ty) + used_of(args@[1]->ty)
                        } else {
                            seq![]
                        },
                        None => seq![],
                    }
                } else {
                    seq![kebab(n)]
                }
            },
        },
        RustType::Reference { elem } => used_of(*elem),
        RustType::Tuple { elems } => used_upto(elems, elems.len() as int),
        RustType::Unsupported { debug } => seq![],
    }
}

pub open spec fn used_upto(elems: Vec<RustType>, n: int) -> Seq<Seq<char>>
    decreases elems, n,
{
    if n <= 0 || n > elems.len() {
        seq![]
    } else {
        used_upto(elems, n - 1) + used_of(elems@[n - 1])
    }
}

/// The custom type names a failing conversion has recorded before it
/// stopped: the names of the parts converted before the failing one, and
/// what the failing part itself recorded.
pub open spec fn pushed_of(t: RustType) -> Seq<Seq<char>>
    decreases t, 0int,
{
    match t {
        RustType::Path { last, debug } => match last {
            None => seq![],
            Some(seg) => {
                let n = seg.ident@;
                if prim_wit(n) is Some {
                    seq![]
                } else if n == "Vec"@ || n == "Option"@ {
                    match seg.args {
                        Some(args) => if args.len() > 0 && args@[0] is Type {
                            pushed_of(args@[0]->ty)
                        } else {
                            seq![]
                        },
                        None => seq![],
                    }
                } else if n == "Result"@ {
                    match seg.args {
                        Some(args) => if args.len() == 2 && args@[0] is Type && args@[1] is Type {
                            if wit_of(args@[0]->ty) is Err {
                                pushed_of(args@[0]->ty)
                            } else {
                                used_of(args@[0]->ty) + pushed_of(args@[1]->ty)
                            }
                        } else {
                            seq![]
                        },
                        None => seq![],
                    }
                } else {
                    seq![]
                }
            },
        },
        RustType::Reference { elem } => pushed_of(*elem),
        RustType::Tuple { elems } => pushed_upto(elems, elems.len() as int),
        RustType::Unsupported { debug } => seq![],
    }
}

/// What converting the first `n` tuple elements records when one of them
/// fails: the names of the elements before the first failing one, then
/// what that one recorded.
pub open spec fn pushed_upto(elems: Vec<RustType>, n: int) -> Seq<Seq<char>>
    decreases elems, n,
{
    if n <= 0 || n > elems.len() {
        seq![]
    } else if wit_upto(elems, n - 1) is Err {
        pushed_upto(elems, n - 1)
    } else {
        used_upto(elems, n - 1) + pushed_of(elems@[n - 1])
    }
}

pub proof fn lemma_pushed_upto_err(elems: Vec<RustType>, n: int, m: int)
    requires
        0 <= n <= m <= elems.len(),
        wit_upto(elems, n) is Err,
    ensures
        pushed_upto(elems, m) == pushed_upto(elems, n),
    decreases m - n,
{
    if m > n {
        lemma_pushed_upto_err(elems, n, m - 1);
        lemma_wit_upto_err(elems, n, m - 1);
    }
}

pub proof fn lemma_wit_upto_err(elems: Vec<RustType>, n: int, m: int)
    requires
        0 <= n <= m <= elems.len(),
        wit_upto(elems, n) is Err,
    ensures
        wit_upto(elems, m) == wit_upto(elems, n),
    decreases m - n,
{
    if m > n {
        lemma_wit_upto_err(elems, n, m - 1);
    }
}

pub open spec fn wit_ok(r: Result<Vec<char>, TypeError>) -> Result<Seq<char>, TypeErrorM> {
    match r {
        Ok(s) => Ok(s@),
        Err(e) => Err(e@),
    }
}

fn prim_wit_exec(n: &Vec<char>) -> (r: Option<Vec<char>>)
    ensures
        crate::text::opt_view(r) == prim_wit(n@),
{
    if eq_lit(n, "i8") {
        Some(chars_of("s8"))
    } else if eq_lit(n, "u8") {
        Some(chars_of("u8"))
    } else if eq_lit(n, "i16") {
        Some(chars_of("s16"))
    } else if eq_lit(n, "u16") {
        Some(chars_of("u16"))
    } else if eq_lit(n, "i32") {
        Some(chars_of("s32"))
    } else if eq_lit(n, "u32") {
        Some(chars_of("u32"))
    } else if eq_lit(n, "i64") {
        Some(chars_of("s64"))
    } else if eq_lit(n, "u64") {
        Some(chars_of("u64"))
    } else if eq_lit(n, "f32") {
        Some(chars_of("f32"))
    } else if eq_lit(n, "f64") {
        Some(chars_of("f64"))
    } else if eq_lit(n, "String") {
        Some(chars_of("string"))
    } else if eq_lit(n, "bool") {
        Some(chars_of("bool"))
    } else {
        None
    }
}

fn result_wit_exec(ok: &Vec<char>, err: &Vec<char>) -> (r: Vec<char>)
    ensures
        r@ == result_wit(ok@, err@),
{
    let ok_unit = eq_lit(ok, "_");
    let err_unit = eq_lit(err, "_");
    if ok_unit && err_unit {
        chars_of("result")
    } else if err_unit {
        let mut r = chars_of("result<");
        push_all(&mut r, ok);
        push_str(&mut r, ">");
        r
    } else if ok_unit {
        let mut r = chars_of("result<_, ");
        push_all(&mut r, err);
        push_str(&mut r, ">");
        r
    } else {
        let mut r = chars_of("result<");
        push_all(&mut r, ok);
        push_str(&mut r, ", ");
        push_all(&mut r, err);
        push_str(&mut r, ">");
        r
    }
}

/// No name occurs twice.
pub open spec fn no_dups(u: Seq<Seq<char>>) -> bool {
    forall|i: int, j: int| 0 <= i < j < u.len() ==> u[i] != u[j]
}

/// `u` with each of `xs` added in turn, unless it is already there: what
/// inserting them into a set gives, the first insertion order kept.
pub open spec fn add_all(u: Seq<Seq<char>>, xs: Seq<Seq<char>>) -> Seq<Seq<char>>
    decreases xs.len(),
{
    if xs.len() == 0 {
        u
    } else {
        let v = add_all(u, xs.drop_last());
        if v.contains(xs.last()) {
            v
        } else {
            v.push(xs.last())
        }
    }
}

pub proof fn lemma_add_all_concat(u: Seq<Seq<char>>, a: Seq<Seq<char>>, b: Seq<Seq<char>>)
    ensures
        add_all(add_all(u, a), b) == add_all(u, a + b),
    decreases b.len(),
{
    if b.len() == 0 {
        assert(a + b =~= a);
    } else {
        lemma_add_all_concat(u, a, b.drop_last());
        assert((a + b).drop_last() =~= a + b.drop_last());
        assert((a + b).last() == b.last());
    }
}

pub proof fn lemma_add_all_no_dups(u: Seq<Seq<char>>, xs: Seq<Seq<char>>)
    requires
        no_dups(u),
    ensures
        no_dups(add_all(u, xs)),
    decreases xs.len(),
{
    if xs.len() > 0 {
        lemma_add_all_no_dups(u, xs.drop_last());
        let v = add_all(u, xs.drop_last());
        if !v.contains(xs.last()) {
            assert forall|i: int, j: int| 0 <= i < j < v.push(xs.last()).len() implies v.push(
                xs.last(),
            )[i] != v.push(xs.last())[j] by {
                if j == v.len() {
                    assert(v.contains(v[i]));
                }
            }
        }
    }
}

pub(crate) fn contains_name(v: &Vec<Vec<char>>, x: &Vec<char>) -> (b: bool)
    ensures
        b == views(v@).contains(x@),
{
    let ghost vv = views(v@);
    let mut k: usize = 0;
    while k < v.len()
        invariant
            vv == views(v@),
            k <= v.len(),
            forall|l: int| 0 <= l < k ==> vv[l] != x@,
        decreases v.len() - k,
    {
        assert(vv[k as int] == v[k as int]@);
        if crate::text::eq_chars(&v[k], x) {
            return true;
        }
        k = k + 1;
    }
    false
}

/// Adds `x` to `used` unless it is already there.
pub(crate) fn add_name(used: &mut Vec<Vec<char>>, x: Vec<char>)
    ensures
        views(final(used)@) == add_all(views(old(used)@), seq![x@]),
{
    let ghost u0 = views(used@);
    assert(seq![x@].drop_last() =~= Seq::<Seq<char>>::empty());
    assert(add_all(u0, Seq::<Seq<char>>::empty()) == u0);
    assert(add_all(u0, seq![x@]) == (if u0.contains(x@) { u0 } else { u0.push(x@) }));
    if !contains_name(used, &x) {
        proof {
            lemma_views_push(used@, x);
        }
        used.push(x);
    }
}

/// Converts a Rust type to its WIT form, adding to the set `used` the custom
/// type names it meets (a name already there is not added again); a failing
/// conversion leaves there the names it met before it failed.
pub fn rust_type_to_wit(ty: &RustType, used: &mut Vec<Vec<char>>) -> (r: Result<Vec<char>, TypeError>)
    ensures
        wit_ok(r) == wit_of(*ty),
        r is Ok ==> views(final(used)@) == add_all(views(old(used)@), used_of(*ty)),
        r is Err ==> views(final(used)@) == add_all(views(old(used)@), pushed_of(*ty)),
        no_dups(views(old(used)@)) ==> no_dups(views(final(used)@)),
{
    let ghost u0 = views(used@);
    let r = type_to_wit(ty, used);
    proof {
        if no_dups(u0) {
            lemma_add_all_no_dups(u0, used_of(*ty));
            lemma_add_all_no_dups(u0, pushed_of(*ty));
        }
    }
    r
}

fn type_to_wit(ty: &RustType, used: &mut Vec<Vec<char>>) -> (r: Result<Vec<char>, TypeError>)
    ensures
        wit_ok(r) == wit_of(*ty),
        r is Ok ==> views(final(used)@) == add_all(views(old(used)@), used_of(*ty)),
        r is Err ==> views(final(used)@) == add_all(views(old(used)@), pushed_of(*ty)),
    decreases ty,
{
    match ty {
        RustType::Path { last, debug } => match last {
            None => Err(TypeError::EmptyPath { debug: debug.clone() }),
            Some(seg) => {
                let n = chars_of(seg.ident.as_str());
                match prim_wit_exec(&n) {
                    Some(w) => {
                        return Ok(w);
                    },
                    None => {},
                }
                let is_vec = eq_lit(&n, "Vec");
                if is_vec || eq_lit(&n, "Option") {
                    match &seg.args {
                        Some(args) => {
                            if args.len() > 0 {
                                match &args[0] {
                                    GenericArg::Type { ty: inner_ty } => {
                                        let inner = type_to_wit(inner_ty, used)?;
                                        let mut out = if is_vec {
                                            chars_of("list<")
                                        } else {
                                            chars_of("option<")
                                        };
                                        push_all(&mut out, &inner);
                                        push_str(&mut out, ">");
                                        return Ok(out);
                                    },
                                    GenericArg::Other => {},
                                }
                            }
                            if is_vec {
                                Err(TypeError::VecInner)
                            } else {
                                Err(TypeError::OptionInner)
                            }
                        },
                        None => if is_vec {
                            Err(TypeError::VecArgs)
                        } else {
                            Err(TypeError::OptionArgs)
                        },
                    }
                } else if eq_lit(&n, "Result") {
                    match &seg.args {
                        Some(args) => {
                            if args.len() == 2 {
                                match (&args[0], &args[1]) {
                                    (GenericArg::Type { ty: ok_ty }, GenericArg::Type { ty: err_ty }) => {
                                        let ghost used0 = views(used@);
                                        let ok = type_to_wit(ok_ty, used)?;
                                        let err = match type_to_wit(err_ty, used) {
                                            Ok(x) => x,
                                            Err(e) => {
                                                proof {
                                                    lemma_add_all_concat(used0, used_of(*ok_ty), pushed_of(*err_ty));
                                                }
                                                return Err(e);
                                            },
                                        };
                                        proof {
                                            lemma_add_all_concat(used0, used_of(*ok_ty), used_of(*err_ty));
                                        }
                                        Ok(result_wit_exec(&ok, &err))
                                    },
                                    _ => Err(TypeError::ResultGenericArgs),
                                }
                            } else {
                                Err(TypeError::ResultArity { found: args.len() })
                            }
                        },
                        None => Err(TypeError::ResultArgs),
                    }
                } else {
                    match validate_name(&n, "Type") {
                        Err(e) => Err(TypeError::InvalidName { error: e }),
                        Ok(()) => {
                            let k = kebab_chars(&n);
                            add_name(used, k.clone());
                            Ok(k)
                        },
                    }
                }
            },
        },
        RustType::Reference { elem } => type_to_wit(elem, used),
        RustType::Tuple { elems } => {
            assert(wit_of(*ty) == (if elems.len() == 0 {
                Ok("_"@)
            } else {
                match wit_upto(*elems, elems.len() as int) {
                    Ok(ts) => Ok("tuple<"@ + join(ts, ", "@) + ">"@),
                    Err(e) => Err(e),
                }
            }));
            assert(used_of(*ty) == used_upto(*elems, elems.len() as int));
            if elems.len() == 0 {
                assert(used_of(*ty) =~= Seq::<Seq<char>>::empty());
                return Ok(chars_of("_"));
            }
            let ghost used0 = views(used@);
            let mut parts: Vec<Vec<char>> = Vec::new();
            assert(views(parts@) =~= seq![]);
            assert(used_upto(*elems, 0) =~= Seq::<Seq<char>>::empty());
            let mut i: usize = 0;
            while i < elems.len()
                invariant
                    *ty == (RustType::Tuple { elems: *elems }),
                    elems.len() > 0,
                    i <= elems.len(),
                    wit_upto(*elems, i as int) == Ok::<Seq<Seq<char>>, TypeErrorM>(views(parts@)),
                    views(used@) == add_all(used0, used_upto(*elems, i as int)),
                    used0 == views(old(used)@),
                decreases elems.len() - i,
            {
                proof {
                    assert(decreases_to!(*ty => elems@[i as int]));
                }
                match type_to_wit(&elems[i], used) {
                    Ok(w) => {
                        proof {
                            lemma_views_push(parts@, w);
                            lemma_add_all_concat(used0, used_upto(*elems, i as int), used_of(elems@[i as int]));
                        }
                        parts.push(w);
                    },
                    Err(e) => {
                        proof {
                            assert(wit_upto(*elems, i + 1) == Err::<Seq<Seq<char>>, TypeErrorM>(e@));
                            lemma_wit_upto_err(*elems, i + 1, elems.len() as int);
                            lemma_pushed_upto_err(*elems, i + 1, elems.len() as int);
                            assert(pushed_upto(*elems, i + 1) == used_upto(*elems, i as int) + pushed_of(
                                elems@[i as int],
                            ));
                            assert(pushed_of(*ty) == pushed_upto(*elems, elems.len() as int));
                            lemma_add_all_concat(used0, used_upto(*elems, i as int), pushed_of(elems@[i as int]));
                        }
                        return Err(e);
                    },
                }
                i = i + 1;
            }
            let mut out = chars_of("tuple<");
            push_all(&mut out, &join_exec(&parts, &chars_of(", ")));
            push_str(&mut out, ">");
            Ok(out)
        },
        RustType::Unsupported { debug } => Err(TypeError::Unsupported { debug: debug.clone() }),
    }
}

} // verus!

verus! {

/// The text of a type conversion error.
pub open spec fn type_error_message(e: TypeErrorM) -> Seq<char> {
    match e {
        TypeErrorM::EmptyPath { debug } => "Failed to parse path type: "@ + debug,
        TypeErrorM::VecInner => "Failed to parse Vec inner type"@,
        TypeErrorM::VecArgs => "Failed to parse Vec inner type!"@,
        TypeErrorM::OptionInner => "Failed to parse Option inner type"@,
        TypeErrorM::OptionArgs => "Failed to parse Option inner type!"@,
        TypeErrorM::ResultGenericArgs => "Failed to parse Result generic arguments"@,
        TypeErrorM::ResultArity { found } => "Result requires exactly two type arguments (e.g., Result<T, E>), found "@
            + crate::text::decimal(found),
        TypeErrorM::ResultArgs => "Failed to parse Result type arguments"@,
        TypeErrorM::InvalidName { error } => name_error_message(error),
        TypeErrorM::Unsupported { debug } => "Failed to parse type: "@ + debug,
    }
}

impl TypeError {
    /// The error's text.
    pub fn message(&self) -> (r: String)
        ensures
            r@ == type_error_message(self@),
    {
        match self {
            TypeError::EmptyPath { debug } => {
                let mut m = chars_of("Failed to parse path type: ");
                push_str(&mut m, debug.as_str());
                string_of(&m)
            },
            TypeError::VecInner => "Failed to parse Vec inner type".to_owned(),
            TypeError::VecArgs => "Failed to parse Vec inner type!".to_owned(),
            TypeError::OptionInner => "Failed to parse Option inner type".to_owned(),
            TypeError::OptionArgs => "Failed to parse Option inner type!".to_owned(),
            TypeError::ResultGenericArgs => "Failed to parse Result generic arguments".to_owned(),
            TypeError::ResultArity { found } => {
                let mut m = chars_of("Result requires exactly two type arguments (e.g., Result<T, E>), found ");
                push_all(&mut m, &crate::text::decimal_exec(*found as u64));
                string_of(&m)
            },
            TypeError::ResultArgs => "Failed to parse Result type arguments".to_owned(),
            TypeError::InvalidName { error } => error.message(),
            TypeError::Unsupported { debug } => {
                let mut m = chars_of("Failed to parse type: ");
                push_str(&mut m, debug.as_str());
                string_of(&m)
            },
        }
    }
}

} // verus!

verus! {

/// The bit widths of Rust's and WIT's fixed-size integers up to 64 bits.
pub open spec fn int_width(w: Seq<char>) -> bool {
    w == "8"@ || w == "16"@ || w == "32"@ || w == "64"@
}

/// Each Rust integer primitive maps to the WIT integer of the same width
/// and signedness: `iN` to `sN`, `uN` to `uN`; so does a path type naming
/// it.
pub proof fn lemma_int_primitives_keep_width_and_sign(n: Seq<char>)
    requires
        n.len() >= 2,
        n[0] == 'i' || n[0] == 'u',
        int_width(n.drop_first()),
    ensures
        prim_wit(n) == Some(seq![if n[0] == 'i' { 's' } else { 'u' }] + n.drop_first()),
        forall|t: RustType|
            #![trigger wit_of(t)]
            t matches RustType::Path { last: Some(seg), .. } && seg.ident@ == n ==> wit_of(t) == Ok::<
                Seq<char>,
                TypeErrorM,
            >(seq![if n[0] == 'i' { 's' } else { 'u' }] + n.drop_first()),
{
    reveal_strlit("8");
    reveal_strlit("16");
    reveal_strlit("32");
    reveal_strlit("64");
    reveal_strlit("i8");
    reveal_strlit("u8");
    reveal_strlit("i16");
    reveal_strlit("u16");
    reveal_strlit("i32");
    reveal_strlit("u32");
    reveal_strlit("i64");
    reveal_strlit("u64");
    reveal_strlit("s8");
    reveal_strlit("s16");
    reveal_strlit("s32");
    reveal_strlit("s64");
    let w = n.drop_first();
    assert(n =~= seq![n[0]] + w);
    let sign = if n[0] == 'i' { 's' } else { 'u' };
    if w == "8"@ {
        if n[0] == 'i' {
            assert(n =~= "i8"@);
        } else {
            assert(n =~= "u8"@);
        }
    } else if w == "16"@ {
        if n[0] == 'i' {
            assert(n =~= "i16"@);
        } else {
            assert(n =~= "u16"@);
        }
    } else if w == "32"@ {
        if n[0] == 'i' {
            assert(n =~= "i32"@);
        } else {
            assert(n =~= "u32"@);
        }
    } else {
        if n[0] == 'i' {
            assert(n =~= "i64"@);
        } else {
            assert(n =~= "u64"@);
        }
    }
    assert(seq![sign] + w =~= prim_wit(n).unwrap());
}

} // verus!

verus! {

/// The other primitives keep their meaning: floats keep their width, a
/// `String` is a WIT `string`, a `bool` a WIT `bool`; no other name is a
/// primitive unless it is an integer of a WIT width.
pub proof fn lemma_other_primitives(n: Seq<char>)
    ensures
        prim_wit("f32"@) == Some("f32"@),
        prim_wit("f64"@) == Some("f64"@),
        prim_wit("String"@) == Some("string"@),
        prim_wit("bool"@) == Some("bool"@),
        prim_wit(n) is Some ==> n == "f32"@ || n == "f64"@ || n == "String"@ || n == "bool"@ || (n.len()
            >= 2 && (n[0] == 'i' || n[0] == 'u') && int_width(n.drop_first())),
{
    reveal_strlit("8");
    reveal_strlit("16");
    reveal_strlit("32");
    reveal_strlit("64");
    reveal_strlit("i8");
    reveal_strlit("u8");
    reveal_strlit("i16");
    reveal_strlit("u16");
    reveal_strlit("i32");
    reveal_strlit("u32");
    reveal_strlit("i64");
    reveal_strlit("u64");
    reveal_strlit("f32");
    reveal_strlit("f64");
    reveal_strlit("String");
    reveal_strlit("bool");
    assert("f32"@[0] == 'f' && "f64"@[0] == 'f' && "String"@[0] == 'S' && "bool"@[0] == 'b');
    assert("i32"@[0] == 'i' && "u32"@[0] == 'u' && "i64"@[0] == 'i' && "u64"@[0] == 'u');
    assert("f32"@[1] == '3' && "f64"@[1] == '6');
    assert("f32"@ != "i32"@ && "f32"@ != "u32"@ && "f32"@ != "i64"@ && "f32"@ != "u64"@);
    assert("f64"@ != "i32"@ && "f64"@ != "u32"@ && "f64"@ != "i64"@ && "f64"@ != "u64"@ && "f64"@ != "f32"@);
    assert("bool"@ != "i8"@ && "bool"@ != "String"@);
    if prim_wit(n) is Some {
        if n == "i8"@ || n == "u8"@ {
            assert(n.drop_first() =~= "8"@);
        } else if n == "i16"@ || n == "u16"@ {
            assert(n.drop_first() =~= "16"@);
        } else if n == "i32"@ || n == "u32"@ {
            assert(n.drop_first() =~= "32"@);
        } else if n == "i64"@ || n == "u64"@ {
            assert(n.drop_first() =~= "64"@);
        }
    }
}

} // verus!
