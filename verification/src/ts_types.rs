//! The mapping from WIT type expressions to TypeScript type expressions.
use vstd::prelude::*;
use crate::naming::{eq_lit, pascal, pascal_chars, starts_with_lit};
use crate::text::{
    chars_of, opt_view,
    has_prefix, join, join_exec, lemma_views_push, push_all, slice_of, trim, trim_chars,
    trim_end, trim_start, views, is_ws,
};

verus! {

/// The number of bytes `c` takes in UTF-8.
pub open spec fn utf8_len(c: char) -> int {
    if (c as u32) < 0x80 {
        1
    } else if (c as u32) < 0x800 {
        2
    } else if (c as u32) < 0x10000 {
        3
    } else {
        4
    }
}

fn utf8_len_exec(c: char) -> (n: u128)
    ensures
        n == utf8_len(c),
{
    let x = c as u32;
    if x < 0x80 {
        1
    } else if x < 0x800 {
        2
    } else if x < 0x10000 {
        3
    } else {
        4
    }
}

/// Scanning from character `j`, where `acc` bytes precede it: the character
/// position at which byte offset `b` starts, if `b` falls on a boundary.
pub open spec fn char_pos_from(s: Seq<char>, b: int, j: int, acc: int) -> Option<int>
    decreases s.len() - j,
{
    if acc == b {
        Some(j)
    } else if acc > b || j < 0 || j >= s.len() {
        None
    } else {
        char_pos_from(s, b, j + 1, acc + utf8_len(s[j]))
    }
}

/// The character position of byte offset `b` in the UTF-8 form of `s`, or
/// `None` when `b` is not a character boundary (slicing there panics).
pub open spec fn char_pos(s: Seq<char>, b: int) -> Option<int> {
    char_pos_from(s, b, 0, 0)
}

pub proof fn lemma_char_pos_from_bound(s: Seq<char>, b: int, j: int, acc: int)
    requires
        0 <= j,
    ensures
        char_pos_from(s, b, j, acc) matches Some(k) ==> j <= k && (k <= s.len() || k == j),
    decreases s.len() - j,
{
    if acc != b && !(acc > b || j >= s.len()) {
        lemma_char_pos_from_bound(s, b, j + 1, acc + utf8_len(s[j]));
    }
}

pub fn char_pos_exec(s: &Vec<char>, b: usize) -> (r: Option<usize>)
    ensures
        r matches Some(k) ==> char_pos(s@, b as int) == Some(k as int) && k <= s.len(),
        r is None ==> char_pos(s@, b as int) is None,
{
    let mut j: usize = 0;
    let mut acc: u128 = 0;
    proof {
        lemma_char_pos_from_bound(s@, b as int, 0, 0);
    }
    loop
        invariant
            j <= s.len(),
            acc <= b,
            char_pos(s@, b as int) == char_pos_from(s@, b as int, j as int, acc as int),
        decreases s.len() - j,
    {
        if acc == b as u128 {
            return Some(j);
        }
        if j >= s.len() {
            return None;
        }
        acc = acc + utf8_len_exec(s[j]);
        j = j + 1;
        if acc > b as u128 {
            return None;
        }
    }
}

/// Scanning from `i` at nesting depth `d`: the position of the first `,`
/// outside any `<...>`.
pub open spec fn top_comma_from(s: Seq<char>, i: int, d: int) -> Option<int>
    decreases s.len() - i,
{
    if i < 0 || i >= s.len() {
        None
    } else if s[i] == '<' {
        top_comma_from(s, i + 1, d + 1)
    } else if s[i] == '>' {
        top_comma_from(s, i + 1, d - 1)
    } else if s[i] == ',' && d == 0 {
        Some(i)
    } else {
        top_comma_from(s, i + 1, d)
    }
}

pub open spec fn top_comma(s: Seq<char>) -> Option<int> {
    top_comma_from(s, 0, 0)
}

pub proof fn lemma_top_comma_from(s: Seq<char>, i: int, d: int)
    requires
        0 <= i,
    ensures
        top_comma_from(s, i, d) matches Some(k) ==> i <= k < s.len(),
    decreases s.len() - i,
{
    if i < s.len() {
        if s[i] == '<' {
            lemma_top_comma_from(s, i + 1, d + 1);
        } else if s[i] == '>' {
            lemma_top_comma_from(s, i + 1, d - 1);
        } else if !(s[i] == ',' && d == 0) {
            lemma_top_comma_from(s, i + 1, d);
        }
    }
}

fn top_comma_exec(s: &Vec<char>) -> (r: Option<usize>)
    ensures
        r matches Some(k) ==> top_comma(s@) == Some(k as int) && k < s.len(),
        r is None ==> top_comma(s@) is None,
{
    let mut opens: usize = 0;
    let mut closes: usize = 0;
    let mut i: usize = 0;
    while i < s.len()
        invariant
            i <= s.len(),
            opens + closes <= i,
            top_comma(s@) == top_comma_from(s@, i as int, opens - closes),
        decreases s.len() - i,
    {
        let c = s[i];
        if c == '<' {
            opens = opens + 1;
        } else if c == '>' {
            closes = closes + 1;
        } else if c == ',' && opens == closes {
            return Some(i);
        }
        i = i + 1;
    }
    None
}

/// The fields of `s` split at `,` outside any `<...>`, scanning from `i` at
/// depth `d` with the current field starting at `start`.
pub open spec fn top_fields_from(s: Seq<char>, i: int, d: int, start: int) -> Seq<Seq<char>>
    decreases s.len() - i,
{
    if i < 0 || i >= s.len() {
        seq![s.subrange(start, s.len() as int)]
    } else if s[i] == '<' {
        top_fields_from(s, i + 1, d + 1, start)
    } else if s[i] == '>' {
        top_fields_from(s, i + 1, d - 1, start)
    } else if s[i] == ',' && d == 0 {
        seq![s.subrange(start, i)] + top_fields_from(s, i + 1, d, i + 1)
    } else {
        top_fields_from(s, i + 1, d, start)
    }
}

/// The trimmed elements of a tuple's inner text: its top-level fields, the
/// last one dropped when it is blank.
pub open spec fn tuple_elems(s: Seq<char>) -> Seq<Seq<char>> {
    let f = top_fields_from(s, 0, 0, 0);
    let n = f.len() as int;
    let k: int = if n > 0 && trim(f[n - 1]).len() == 0 {
        n - 1
    } else {
        n
    };
    Seq::new(k as nat, |j: int| trim(f[j]))
}

pub proof fn lemma_trim_start_len(s: Seq<char>)
    ensures
        trim_start(s).len() <= s.len(),
    decreases s.len(),
{
    if s.len() > 0 && is_ws(s[0]) {
        lemma_trim_start_len(s.drop_first());
    }
}

pub proof fn lemma_trim_end_len(s: Seq<char>)
    ensures
        trim_end(s).len() <= s.len(),
    decreases s.len(),
{
    if s.len() > 0 && is_ws(s.last()) {
        lemma_trim_end_len(s.drop_last());
    }
}

pub proof fn lemma_trim_len(s: Seq<char>)
    ensures
        trim(s).len() <= s.len(),
{
    lemma_trim_start_len(s);
    lemma_trim_end_len(trim_start(s));
}

pub proof fn lemma_top_fields_from(s: Seq<char>, i: int, d: int, start: int)
    requires
        0 <= start <= i <= s.len(),
    ensures
        top_fields_from(s, i, d, start).len() >= 1,
        forall|j: int|
            0 <= j < top_fields_from(s, i, d, start).len() ==> #[trigger] top_fields_from(
                s,
                i,
                d,
                start,
            )[j].len() <= s.len(),
    decreases s.len() - i,
{
    if !(i < 0 || i >= s.len()) {
        if s[i] == '<' {
            lemma_top_fields_from(s, i + 1, d + 1, start);
        } else if s[i] == '>' {
            lemma_top_fields_from(s, i + 1, d - 1, start);
        } else if s[i] == ',' && d == 0 {
            lemma_top_fields_from(s, i + 1, d, i + 1);
            let rest = top_fields_from(s, i + 1, d, i + 1);
            assert forall|j: int|
                0 <= j < top_fields_from(s, i, d, start).len() implies #[trigger] top_fields_from(
                s,
                i,
                d,
                start,
            )[j].len() <= s.len() by {
                if j > 0 {
                    assert(top_fields_from(s, i, d, start)[j] == rest[j - 1]);
                }
            }
        } else {
            lemma_top_fields_from(s, i + 1, d, start);
        }
    }
}

pub proof fn lemma_tuple_elems_len(s: Seq<char>)
    ensures
        forall|j: int| 0 <= j < tuple_elems(s).len() ==> #[trigger] tuple_elems(s)[j].len() <= s.len(),
{
    lemma_top_fields_from(s, 0, 0, 0);
    let f = top_fields_from(s, 0, 0, 0);
    assert forall|j: int| 0 <= j < tuple_elems(s).len() implies #[trigger] tuple_elems(
        s,
    )[j].len() <= s.len() by {
        lemma_trim_len(f[j]);
    }
}

/// The WIT integer and float types, which all become `number`.
pub open spec fn wit_number(t: Seq<char>) -> bool {
    ||| t == "s8"@
    ||| t == "u8"@
    ||| t == "s16"@
    ||| t == "u16"@
    ||| t == "s32"@
    ||| t == "u32"@
    ||| t == "s64"@
    ||| t == "u64"@
    ||| t == "f32"@
    ||| t == "f64"@
}

/// `t` is `pre` + some text + one closing ASCII character, so that the text
/// between them is `t[pre.len()..t.len()-1]` at byte and character level alike.
pub open spec fn wrapped(t: Seq<char>, pre: Seq<char>) -> bool {
    has_prefix(t, pre) && t.len() > pre.len() && t.last() <= '\x7f'
}

/// The text between a generic's `<` prefix of length `n` and its last character.
pub open spec fn inner(t: Seq<char>, n: int) -> Seq<char> {
    t.subrange(n, t.len() - 1)
}

/// The `Ok` and `Err` parts of the inner text of `result<...>`: split at the
/// first top-level comma, whose character index counts as a byte offset;
/// `None` when there is no such comma.
pub open spec fn result_parts(s: Seq<char>) -> Option<(Seq<char>, Seq<char>)> {
    match top_comma(s) {
        Some(k) => match (char_pos(s, k), char_pos(s, k + 1)) {
            (Some(a), Some(b)) => Some((trim(s.take(a)), trim(s.skip(b)))),
            _ => None,
        },
        None => None,
    }
}

/// Splitting `result<...>` at its top-level comma does not slice inside a
/// character.
pub open spec fn result_split_ok(s: Seq<char>) -> bool {
    match top_comma(s) {
        Some(k) => char_pos(s, k) is Some && char_pos(s, k + 1) is Some,
        None => true,
    }
}

/// The TypeScript type for a WIT type expression.
pub open spec fn ts_type(t: Seq<char>) -> Seq<char>
    decreases t.len(), 1int, 0int,
{
    if wit_number(t) {
        "number"@
    } else if t == "string"@ {
        "string"@
    } else if t == "bool"@ {
        "boolean"@
    } else if t == "_"@ {
        "void"@
    } else if t == "address"@ {
        "string"@
    } else if wrapped(t, "list<"@) {
        if inner(t, "list<"@.len() as int) == "u8"@ {
            "number[]"@
        } else {
            ts_type(inner(t, "list<"@.len() as int)) + "[]"@
        }
    } else if wrapped(t, "option<"@) {
        ts_type(inner(t, "option<"@.len() as int)) + " | null"@
    } else if wrapped(t, "result<"@) {
        let s = inner(t, "result<"@.len() as int);
        match top_comma(s) {
            Some(k) => match (char_pos(s, k), char_pos(s, k + 1)) {
                (Some(a), Some(b)) => {
                    proof {
                        lemma_char_pos_from_bound(s, k, 0, 0);
                        lemma_char_pos_from_bound(s, k + 1, 0, 0);
                        lemma_trim_len(s.take(a));
                        lemma_trim_len(s.skip(b));
                    }
                    "{ Ok: "@ + ts_type(trim(s.take(a))) + " } | { Err: "@ + ts_type(
                        trim(s.skip(b)),
                    ) + " }"@
                },
                _ => seq![],
            },
            None => "{ Ok: "@ + ts_type(s) + " } | { Err: void }"@,
        }
    } else if wrapped(t, "tuple<"@) {
        proof {
            lemma_tuple_elems_len(inner(t, "tuple<"@.len() as int));
        }
        "["@ + join(ts_types(tuple_elems(inner(t, "tuple<"@.len() as int)), t.len() as int), ", "@) + "]"@
    } else {
        pascal(t)
    }
}

/// The TypeScript types of `elems`, each shorter than `bound`.
pub open spec fn ts_types(elems: Seq<Seq<char>>, bound: int) -> Seq<Seq<char>>
    decreases bound, 0int, elems.len(),
    when forall|j: int| 0 <= j < elems.len() ==> #[trigger] elems[j].len() < bound
{
    if elems.len() == 0 {
        seq![]
    } else {
        ts_types(elems.drop_last(), bound).push(ts_type(elems.last()))
    }
}


/// Converting `t` does not slice a string inside a character or out of
/// range, which would panic: each generic has its closing character, and
/// a `result`'s comma split falls on character boundaries.
pub open spec fn ts_ok(t: Seq<char>) -> bool
    decreases t.len(), 1int, 0int,
{
    if wit_number(t) || t == "string"@ || t == "bool"@ || t == "_"@ || t == "address"@ {
        true
    } else if has_prefix(t, "list<"@) {
        wrapped(t, "list<"@) && (inner(t, "list<"@.len() as int) == "u8"@ || ts_ok(
            inner(t, "list<"@.len() as int),
        ))
    } else if has_prefix(t, "option<"@) {
        wrapped(t, "option<"@) && ts_ok(inner(t, "option<"@.len() as int))
    } else if has_prefix(t, "result<"@) {
        wrapped(t, "result<"@) && {
            let s = inner(t, "result<"@.len() as int);
            match top_comma(s) {
                Some(k) => match (char_pos(s, k), char_pos(s, k + 1)) {
                    (Some(a), Some(b)) => {
                        proof {
                            lemma_char_pos_from_bound(s, k, 0, 0);
                            lemma_char_pos_from_bound(s, k + 1, 0, 0);
                            lemma_trim_len(s.take(a));
                            lemma_trim_len(s.skip(b));
                        }
                        ts_ok(trim(s.take(a))) && ts_ok(trim(s.skip(b)))
                    },
                    _ => false,
                },
                None => ts_ok(s),
            }
        }
    } else if has_prefix(t, "tuple<"@) {
        wrapped(t, "tuple<"@) && {
            proof {
                lemma_tuple_elems_len(inner(t, "tuple<"@.len() as int));
            }
            ts_oks(tuple_elems(inner(t, "tuple<"@.len() as int)), t.len() as int)
        }
    } else {
        true
    }
}

/// Every one of `elems`, each shorter than `bound`, converts without panic.
pub open spec fn ts_oks(elems: Seq<Seq<char>>, bound: int) -> bool
    decreases bound, 0int, elems.len(),
    when forall|j: int| 0 <= j < elems.len() ==> #[trigger] elems[j].len() < bound
{
    if elems.len() == 0 {
        true
    } else {
        ts_oks(elems.drop_last(), bound) && ts_ok(elems.last())
    }
}

fn is_wit_number(t: &Vec<char>) -> (b: bool)
    ensures
        b == wit_number(t@),
{
    eq_lit(t, "s8") || eq_lit(t, "u8") || eq_lit(t, "s16") || eq_lit(t, "u16") || eq_lit(t, "s32")
        || eq_lit(t, "u32") || eq_lit(t, "s64") || eq_lit(t, "u64") || eq_lit(t, "f32") || eq_lit(
        t,
        "f64",
    )
}

fn top_fields_exec(s: &Vec<char>) -> (r: Vec<Vec<char>>)
    ensures
        views(r@) == top_fields_from(s@, 0, 0, 0),
{
    let mut out: Vec<Vec<char>> = Vec::new();
    let mut opens: usize = 0;
    let mut closes: usize = 0;
    let mut start: usize = 0;
    let mut i: usize = 0;
    while i < s.len()
        invariant
            start <= i <= s.len(),
            opens + closes <= i,
            views(out@) + top_fields_from(s@, i as int, opens - closes, start as int)
                == top_fields_from(s@, 0, 0, 0),
        decreases s.len() - i,
    {
        let c = s[i];
        if c == '<' {
            opens = opens + 1;
        } else if c == '>' {
            closes = closes + 1;
        } else if c == ',' && opens == closes {
            let field = slice_of(s, start, i);
            proof {
                lemma_views_push(out@, field);
                assert(views(out@.push(field)) + top_fields_from(
                    s@,
                    i + 1,
                    opens - closes,
                    i + 1,
                ) =~= views(out@) + top_fields_from(s@, i as int, opens - closes, start as int));
            }
            out.push(field);
            start = i + 1;
        }
        i = i + 1;
    }
    let field = slice_of(s, start, s.len());
    proof {
        lemma_views_push(out@, field);
        assert(views(out@.push(field)) =~= views(out@) + top_fields_from(
            s@,
            i as int,
            opens - closes,
            start as int,
        ));
    }
    out.push(field);
    out
}

fn tuple_elems_exec(s: &Vec<char>) -> (r: Vec<Vec<char>>)
    ensures
        views(r@) == tuple_elems(s@),
{
    let fields = top_fields_exec(s);
    let ghost f = views(fields@);
    proof {
        lemma_top_fields_from(s@, 0, 0, 0);
    }
    let n = fields.len();
    let last = trim_chars(&fields[n - 1]);
    let k = if last.len() == 0 {
        n - 1
    } else {
        n
    };
    let mut out: Vec<Vec<char>> = Vec::new();
    let mut j: usize = 0;
    while j < k
        invariant
            f == views(fields@),
            f == top_fields_from(s@, 0, 0, 0),
            n == fields.len(),
            n >= 1,
            k <= n,
            k == (if trim(f[n - 1]).len() == 0 {
                n - 1
            } else {
                n as int
            }),
            j <= k,
            views(out@) == tuple_elems(s@).take(j as int),
        decreases k - j,
    {
        let e = trim_chars(&fields[j]);
        proof {
            lemma_views_push(out@, e);
            assert(tuple_elems(s@).take(j + 1) =~= tuple_elems(s@).take(j as int).push(e@));
        }
        out.push(e);
        j = j + 1;
    }
    assert(tuple_elems(s@).take(k as int) =~= tuple_elems(s@));
    out
}

proof fn lemma_ts_types_take(elems: Seq<Seq<char>>, bound: int, j: int)
    requires
        0 <= j < elems.len(),
        forall|i: int| 0 <= i < elems.len() ==> #[trigger] elems[i].len() < bound,
    ensures
        ts_types(elems.take(j + 1), bound) == ts_types(elems.take(j), bound).push(
            ts_type(elems[j]),
        ),
        ts_oks(elems.take(j + 1), bound) == (ts_oks(elems.take(j), bound) && ts_ok(elems[j])),
{
    assert(elems.take(j + 1).drop_last() =~= elems.take(j));
}

proof fn lemma_ts_oks_each(elems: Seq<Seq<char>>, bound: int, j: int)
    requires
        0 <= j < elems.len(),
        forall|i: int| 0 <= i < elems.len() ==> #[trigger] elems[i].len() < bound,
        ts_oks(elems, bound),
    ensures
        ts_ok(elems[j]),
    decreases elems.len(),
{
    if j < elems.len() - 1 {
        assert forall|i: int| 0 <= i < elems.drop_last().len() implies #[trigger] elems.drop_last()[i].len() < bound by {
            assert(elems.drop_last()[i] == elems[i]);
        }
        lemma_ts_oks_each(elems.drop_last(), bound, j);
    }
}

/// Converts a WIT type expression to the TypeScript type expression the
/// generated client uses for it.
pub fn wit_type_to_typescript(t: &Vec<char>) -> (r: Vec<char>)
    requires
        ts_ok(t@),
    ensures
        r@ == ts_type(t@),
    decreases t.len(),
{
    if is_wit_number(t) {
        return chars_of("number");
    }
    if eq_lit(t, "string") {
        return chars_of("string");
    }
    if eq_lit(t, "bool") {
        return chars_of("boolean");
    }
    if eq_lit(t, "_") {
        return chars_of("void");
    }
    if eq_lit(t, "address") {
        return chars_of("string");
    }
    if starts_with_lit(t, "list<") {
        let n = chars_of("list<").len();
        let inner_t = slice_of(t, n, t.len() - 1);
        if eq_lit(&inner_t, "u8") {
            return chars_of("number[]");
        }
        let mut r = wit_type_to_typescript(&inner_t);
        push_all(&mut r, &chars_of("[]"));
        return r;
    }
    if starts_with_lit(t, "option<") {
        let n = chars_of("option<").len();
        let inner_t = slice_of(t, n, t.len() - 1);
        let mut r = wit_type_to_typescript(&inner_t);
        push_all(&mut r, &chars_of(" | null"));
        return r;
    }
    if starts_with_lit(t, "result<") {
        let n = chars_of("result<").len();
        let s = slice_of(t, n, t.len() - 1);
        match top_comma_exec(&s) {
            Some(k) => {
                let a = char_pos_exec(&s, k).unwrap();
                let b = char_pos_exec(&s, k + 1).unwrap();
                let ok_t = trim_chars(&slice_of(&s, 0, a));
                let err_t = trim_chars(&slice_of(&s, b, s.len()));
                proof {
                    assert(s@.subrange(0, a as int) == s@.take(a as int));
                    assert(s@.subrange(b as int, s.len() as int) == s@.skip(b as int));
                    lemma_trim_len(s@.take(a as int));
                    lemma_trim_len(s@.skip(b as int));
                }
                let mut r = chars_of("{ Ok: ");
                push_all(&mut r, &wit_type_to_typescript(&ok_t));
                push_all(&mut r, &chars_of(" } | { Err: "));
                push_all(&mut r, &wit_type_to_typescript(&err_t));
                push_all(&mut r, &chars_of(" }"));
                return r;
            },
            None => {
                let mut r = chars_of("{ Ok: ");
                push_all(&mut r, &wit_type_to_typescript(&s));
                push_all(&mut r, &chars_of(" } | { Err: void }"));
                return r;
            },
        }
    }
    if starts_with_lit(t, "tuple<") {
        let n = chars_of("tuple<").len();
        let s = slice_of(t, n, t.len() - 1);
        let elems = tuple_elems_exec(&s);
        let ghost es = views(elems@);
        let ghost bound = t@.len() as int;
        proof {
            lemma_tuple_elems_len(s@);
        }
        let mut conv: Vec<Vec<char>> = Vec::new();
        let mut j: usize = 0;
        while j < elems.len()
            invariant
                es == views(elems@),
                es == tuple_elems(s@),
                bound == t@.len(),
                s@.len() < bound,
                forall|i: int| 0 <= i < es.len() ==> #[trigger] es[i].len() <= s@.len(),
                ts_oks(es, bound),
                j <= elems.len(),
                views(conv@) == ts_types(es.take(j as int), bound),
            decreases elems.len() - j,
        {
            proof {
                lemma_ts_types_take(es, bound, j as int);
                lemma_ts_oks_each(es, bound, j as int);
            }
            assert(elems[j as int]@ == es[j as int]);
            let c = wit_type_to_typescript(&elems[j]);
            proof {
                lemma_views_push(conv@, c);
            }
            conv.push(c);
            j = j + 1;
        }
        assert(es.take(elems.len() as int) =~= es);
        let mut r = chars_of("[");
        push_all(&mut r, &join_exec(&conv, &chars_of(", ")));
        push_all(&mut r, &chars_of("]"));
        return r;
    }
    pascal_chars(t)
}


proof fn lemma_result_prefix(t: Seq<char>)
    requires
        has_prefix(t, "result<"@),
    ensures
        !wit_number(t),
        t != "string"@,
        t != "bool"@,
        t != "_"@,
        t != "address"@,
        !has_prefix(t, "list<"@),
        !has_prefix(t, "option<"@),
{
    reveal_strlit("result<");
    reveal_strlit("list<");
    reveal_strlit("option<");
    reveal_strlit("s8");
    reveal_strlit("u8");
    reveal_strlit("s16");
    reveal_strlit("u16");
    reveal_strlit("s32");
    reveal_strlit("u32");
    reveal_strlit("s64");
    reveal_strlit("u64");
    reveal_strlit("f32");
    reveal_strlit("f64");
    reveal_strlit("string");
    reveal_strlit("bool");
    reveal_strlit("_");
    reveal_strlit("address");
    assert(t[0] == "result<"@[0]);
    assert(t[1] == "result<"@[1]);
}

/// The TypeScript type of the `Ok` part of a `result<...>` WIT type, or
/// `None` when `t` is not a result type.
pub open spec fn result_ok_ts(t: Seq<char>) -> Option<Seq<char>> {
    if has_prefix(t, "result<"@) {
        let s = inner(t, "result<"@.len() as int);
        match top_comma(s) {
            Some(k) => match char_pos(s, k) {
                Some(a) => Some(ts_type(trim(s.take(a)))),
                None => None,
            },
            None => Some(ts_type(s)),
        }
    } else {
        None
    }
}

/// Extracts the TypeScript type of the `Ok` part of a result type.
pub fn extract_result_ok_type(t: &Vec<char>) -> (r: Option<Vec<char>>)
    requires
        ts_ok(t@),
    ensures
        opt_view(r) == result_ok_ts(t@),
{
    if starts_with_lit(t, "result<") {
        proof {
            lemma_result_prefix(t@);
        }
        let n = chars_of("result<").len();
        let s = slice_of(t, n, t.len() - 1);
        match top_comma_exec(&s) {
            Some(k) => {
                let a = char_pos_exec(&s, k).unwrap();
                let ok_t = trim_chars(&slice_of(&s, 0, a));
                proof {
                    assert(s@.subrange(0, a as int) == s@.take(a as int));
                }
                Some(wit_type_to_typescript(&ok_t))
            },
            None => Some(wit_type_to_typescript(&s)),
        }
    } else {
        None
    }
}

/// Tells whether converting `t` stays clear of the panics `ts_ok` excludes.
pub fn ts_convertible(t: &Vec<char>) -> (b: bool)
    ensures
        b == ts_ok(t@),
    decreases t.len(),
{
    if is_wit_number(t) || eq_lit(t, "string") || eq_lit(t, "bool") || eq_lit(t, "_") || eq_lit(
        t,
        "address",
    ) {
        return true;
    }
    if starts_with_lit(t, "list<") {
        let n = chars_of("list<").len();
        if t.len() <= n || t[t.len() - 1] > '\x7f' {
            return false;
        }
        let inner_t = slice_of(t, n, t.len() - 1);
        return eq_lit(&inner_t, "u8") || ts_convertible(&inner_t);
    }
    if starts_with_lit(t, "option<") {
        let n = chars_of("option<").len();
        if t.len() <= n || t[t.len() - 1] > '\x7f' {
            return false;
        }
        let inner_t = slice_of(t, n, t.len() - 1);
        return ts_convertible(&inner_t);
    }
    if starts_with_lit(t, "result<") {
        let n = chars_of("result<").len();
        if t.len() <= n || t[t.len() - 1] > '\x7f' {
            return false;
        }
        let s = slice_of(t, n, t.len() - 1);
        match top_comma_exec(&s) {
            Some(k) => {
                let a = char_pos_exec(&s, k);
                let b = char_pos_exec(&s, k + 1);
                match (a, b) {
                    (Some(a), Some(b)) => {
                        let ok_t = trim_chars(&slice_of(&s, 0, a));
                        let err_t = trim_chars(&slice_of(&s, b, s.len()));
                        proof {
                            assert(s@.subrange(0, a as int) == s@.take(a as int));
                            assert(s@.subrange(b as int, s.len() as int) == s@.skip(b as int));
                            lemma_trim_len(s@.take(a as int));
                            lemma_trim_len(s@.skip(b as int));
                        }
                        return ts_convertible(&ok_t) && ts_convertible(&err_t);
                    },
                    _ => {
                        return false;
                    },
                }
            },
            None => {
                return ts_convertible(&s);
            },
        }
    }
    if starts_with_lit(t, "tuple<") {
        let n = chars_of("tuple<").len();
        if t.len() <= n || t[t.len() - 1] > '\x7f' {
            return false;
        }
        let s = slice_of(t, n, t.len() - 1);
        let elems = tuple_elems_exec(&s);
        let ghost es = views(elems@);
        let ghost bound = t@.len() as int;
        proof {
            lemma_tuple_elems_len(s@);
        }
        let mut j: usize = 0;
        let mut ok = true;
        assert(es.take(es.len() as int) =~= es);
        while j < elems.len()
            invariant
                es == views(elems@),
                es == tuple_elems(s@),
                bound == t@.len(),
                s@.len() < bound,
                forall|i: int| 0 <= i < es.len() ==> #[trigger] es[i].len() <= s@.len(),
                j <= elems.len(),
                ok ==> ts_oks(es.take(j as int), bound),
                !ok ==> !ts_oks(es, bound),
                es.take(es.len() as int) == es,
            ensures
                ok ==> ts_oks(es, bound),
                !ok ==> !ts_oks(es, bound),
            decreases elems.len() - j,
        {
            proof {
                lemma_ts_types_take(es, bound, j as int);
            }
            assert(elems[j as int]@ == es[j as int]);
            if !ts_convertible(&elems[j]) {
                proof {
                    if ts_oks(es, bound) {
                        lemma_ts_oks_each(es, bound, j as int);
                    }
                }
                ok = false;
                break;
            }
            j = j + 1;
        }
        return ok;
    }
    true
}

} // verus!
