//! Identifier conventions shared by the WIT and TypeScript generators:
//! kebab-case WIT names, snake_case and PascalCase TypeScript names, WIT
//! keyword escaping and name validation.
use vstd::prelude::*;
use crate::casing::{
    char_is_lower, char_is_upper, char_lower_first, char_upper_first, is_ascii_lower, lower_case, lowered,
    upper_case, uppered,
};
use crate::text::{
    chars_of, concat, eq_chars, ends_with, find_char_exec, find_char_from, has_prefix, has_suffix,
    lemma_find_char_from, push_all, replace_char, replace_char_exec, slice_of, split_char,
    split_char_exec, starts_with, string_of, views,
};

verus! {

/// `s` is exactly the literal `lit`.
pub fn eq_lit(s: &Vec<char>, lit: &str) -> (b: bool)
    ensures
        b == (s@ == lit@),
{
    let l = chars_of(lit);
    eq_chars(s, &l)
}

/// `s` begins with the literal `lit`.
pub fn starts_with_lit(s: &Vec<char>, lit: &str) -> (b: bool)
    ensures
        b == has_prefix(s@, lit@),
{
    let l = chars_of(lit);
    starts_with(s, &l)
}

/// `s` ends with the literal `lit`.
pub fn ends_with_lit(s: &Vec<char>, lit: &str) -> (b: bool)
    ensures
        b == has_suffix(s@, lit@),
{
    let l = chars_of(lit);
    ends_with(s, &l)
}

/// `s` contains the character `c` somewhere.
pub fn has_char(s: &Vec<char>, c: char) -> (b: bool)
    ensures
        b == s@.contains(c),
{
    let r = find_char_exec(s, c);
    proof {
        lemma_find_char_from(s@, c, 0);
        if let Some(k) = r {
            assert(s@[k as int] == c);
        }
    }
    r.is_some()
}

/// `s` without one leading `%`, the WIT keyword escape.
pub open spec fn strip_escape(s: Seq<char>) -> Seq<char> {
    if s.len() > 0 && s[0] == '%' {
        s.drop_first()
    } else {
        s
    }
}

pub fn strip_wit_escape(s: &Vec<char>) -> (r: Vec<char>)
    ensures
        r@ == strip_escape(s@),
{
    if s.len() > 0 && s[0] == '%' {
        slice_of(s, 1, s.len())
    } else {
        s.clone()
    }
}

/// The snake_case form of a kebab-case WIT name: escape removed, every `-`
/// turned into `_`.
pub open spec fn snake(s: Seq<char>) -> Seq<char> {
    replace_char(strip_escape(s), '-', seq!['_'])
}

pub fn snake_chars(s: &Vec<char>) -> (r: Vec<char>)
    ensures
        r@ == snake(s@),
{
    let t = strip_wit_escape(s);
    let mut u: Vec<char> = Vec::new();
    u.push('_');
    assert(u@ == seq!['_']);
    replace_char_exec(&t, '-', &u)
}

/// Converts a kebab-case WIT name to snake_case.
pub fn to_snake_case(s: &str) -> (r: String)
    ensures
        r@ == snake(s@),
{
    let v = chars_of(s);
    string_of(&snake_chars(&v))
}

/// `p` with its first character uppercased (empty stays empty).
pub open spec fn capitalize(p: Seq<char>) -> Seq<char> {
    if p.len() == 0 {
        seq![]
    } else {
        seq![uppered(p[0])] + p.drop_first()
    }
}

/// The concatenation of the capitalized parts.
pub open spec fn capitalize_all(parts: Seq<Seq<char>>) -> Seq<char>
    decreases parts.len(),
{
    if parts.len() == 0 {
        seq![]
    } else {
        capitalize_all(parts.drop_last()) + capitalize(parts.last())
    }
}

/// The PascalCase form of a kebab-case WIT name: escape removed, split at
/// `-`, each non-empty part with its first character uppercased, joined.
pub open spec fn pascal(s: Seq<char>) -> Seq<char> {
    capitalize_all(split_char(strip_escape(s), '-'))
}

pub fn pascal_chars(s: &Vec<char>) -> (r: Vec<char>)
    ensures
        r@ == pascal(s@),
{
    let t = strip_wit_escape(s);
    let parts = split_char_exec(&t, '-');
    let ghost ps = views(parts@);
    let mut out: Vec<char> = Vec::new();
    let mut i: usize = 0;
    while i < parts.len()
        invariant
            ps == views(parts@),
            ps == split_char(strip_escape(s@), '-'),
            i <= parts.len(),
            out@ == capitalize_all(ps.take(i as int)),
        decreases parts.len() - i,
    {
        let part = &parts[i];
        assert(part@ == ps[i as int]);
        if part.len() > 0 {
            let c = char_upper_first(part[0]);
            out.push(c);
            let rest = slice_of(part, 1, part.len());
            push_all(&mut out, &rest);
            assert(rest@ == part@.drop_first());
        }
        assert(ps.take(i + 1).drop_last() =~= ps.take(i as int));
        assert(out@ =~= capitalize_all(ps.take(i as int)) + capitalize(part@));
        i = i + 1;
    }
    assert(ps.take(parts.len() as int) =~= ps);
    out
}

/// Converts a kebab-case WIT name to PascalCase.
pub fn to_pascal_case(s: &str) -> (r: String)
    ensures
        r@ == pascal(s@),
{
    let v = chars_of(s);
    string_of(&pascal_chars(&v))
}

/// What the character at `i` contributes to the kebab-case form: an
/// uppercase letter becomes its lowercase, preceded by `-` when it is not the
/// first character and follows a lowercase one or precedes one.
pub open spec fn kebab_piece(s: Seq<char>, i: int) -> Seq<char> {
    if upper_case(s[i]) {
        (if i > 0 && (lower_case(s[i - 1]) || (i + 1 < s.len() && lower_case(s[i + 1]))) {
            seq!['-']
        } else {
            seq![]
        }) + seq![lowered(s[i])]
    } else {
        seq![s[i]]
    }
}

/// The kebab-case pieces of the first `n` characters of `s`.
pub open spec fn kebab_prefix(s: Seq<char>, n: int) -> Seq<char>
    decreases n,
{
    if n <= 0 {
        seq![]
    } else {
        kebab_prefix(s, n - 1) + kebab_piece(s, n - 1)
    }
}

/// The kebab-case form of a Rust name: a name with `_` has each `_` turned
/// into `-`; otherwise camel-case humps are split with `-` and lowercased.
pub open spec fn kebab(s: Seq<char>) -> Seq<char> {
    if s.contains('_') {
        replace_char(s, '_', seq!['-'])
    } else {
        kebab_prefix(s, s.len() as int)
    }
}

pub fn kebab_chars(s: &Vec<char>) -> (r: Vec<char>)
    ensures
        r@ == kebab(s@),
{
    if has_char(s, '_') {
        let mut d: Vec<char> = Vec::new();
        d.push('-');
        assert(d@ == seq!['-']);
        return replace_char_exec(s, '_', &d);
    }
    let mut out: Vec<char> = Vec::new();
    let mut i: usize = 0;
    while i < s.len()
        invariant
            i <= s.len(),
            out@ == kebab_prefix(s@, i as int),
        decreases s.len() - i,
    {
        let c = s[i];
        let ghost before = out@;
        if char_is_upper(c) {
            if i > 0 && (char_is_lower(s[i - 1]) || (i + 1 < s.len() && char_is_lower(s[i + 1]))) {
                out.push('-');
            }
            out.push(char_lower_first(c));
            assert(out@ =~= before + kebab_piece(s@, i as int));
        } else {
            out.push(c);
            assert(out@ =~= before + kebab_piece(s@, i as int));
        }
        i = i + 1;
    }
    out
}

/// Converts a Rust identifier to kebab-case.
pub fn to_kebab_case(s: &str) -> (r: String)
    ensures
        r@ == kebab(s@),
{
    let v = chars_of(s);
    string_of(&kebab_chars(&v))
}

/// The words that WIT reserves, which an identifier must escape with `%`.
pub open spec fn wit_keyword(s: Seq<char>) -> bool {
    ||| s == "use"@
    ||| s == "type"@
    ||| s == "resource"@
    ||| s == "func"@
    ||| s == "record"@
    ||| s == "enum"@
    ||| s == "flags"@
    ||| s == "variant"@
    ||| s == "static"@
    ||| s == "interface"@
    ||| s == "world"@
    ||| s == "import"@
    ||| s == "export"@
    ||| s == "package"@
    ||| s == "constructor"@
    ||| s == "include"@
    ||| s == "with"@
    ||| s == "as"@
    ||| s == "from"@
    ||| s == "list"@
    ||| s == "option"@
    ||| s == "result"@
    ||| s == "tuple"@
    ||| s == "future"@
    ||| s == "stream"@
    ||| s == "own"@
    ||| s == "borrow"@
    ||| s == "u8"@
    ||| s == "u16"@
    ||| s == "u32"@
    ||| s == "u64"@
    ||| s == "s8"@
    ||| s == "s16"@
    ||| s == "s32"@
    ||| s == "s64"@
    ||| s == "f32"@
    ||| s == "f64"@
    ||| s == "char"@
    ||| s == "bool"@
    ||| s == "string"@
}

pub fn is_wit_keyword(s: &Vec<char>) -> (b: bool)
    ensures
        b == wit_keyword(s@),
{
    eq_lit(s, "use") || eq_lit(s, "type") || eq_lit(s, "resource") || eq_lit(s, "func")
        || eq_lit(s, "record") || eq_lit(s, "enum") || eq_lit(s, "flags") || eq_lit(s, "variant")
        || eq_lit(s, "static") || eq_lit(s, "interface") || eq_lit(s, "world") || eq_lit(
        s,
        "import",
    ) || eq_lit(s, "export") || eq_lit(s, "package") || eq_lit(s, "constructor") || eq_lit(
        s,
        "include",
    ) || eq_lit(s, "with") || eq_lit(s, "as") || eq_lit(s, "from") || eq_lit(s, "list")
        || eq_lit(s, "option") || eq_lit(s, "result") || eq_lit(s, "tuple") || eq_lit(s, "future")
        || eq_lit(s, "stream") || eq_lit(s, "own") || eq_lit(s, "borrow") || eq_lit(s, "u8")
        || eq_lit(s, "u16") || eq_lit(s, "u32") || eq_lit(s, "u64") || eq_lit(s, "s8") || eq_lit(
        s,
        "s16",
    ) || eq_lit(s, "s32") || eq_lit(s, "s64") || eq_lit(s, "f32") || eq_lit(s, "f64") || eq_lit(
        s,
        "char",
    ) || eq_lit(s, "bool") || eq_lit(s, "string")
}

/// A kebab-case name as a WIT identifier: keywords get a `%` prefix.
pub open spec fn wit_ident(s: Seq<char>) -> Seq<char> {
    if wit_keyword(s) {
        seq!['%'] + s
    } else {
        s
    }
}

pub fn to_wit_ident(s: &Vec<char>) -> (r: Vec<char>)
    ensures
        r@ == wit_ident(s@),
{
    if is_wit_keyword(s) {
        let mut r: Vec<char> = Vec::new();
        r.push('%');
        push_all(&mut r, s);
        r
    } else {
        s.clone()
    }
}

} // verus!

verus! {

/// A snake_case Rust field name: ASCII lowercase letters and `_`, starting
/// with a letter.
pub open spec fn snake_field_name(f: Seq<char>) -> bool {
    &&& f.len() > 0
    &&& is_ascii_lower(f[0])
    &&& forall|i: int| 0 <= i < f.len() ==> is_ascii_lower(#[trigger] f[i]) || f[i] == '_'
}

/// Replacing a character by a single character maps the text character by
/// character.
pub proof fn lemma_replace_single(s: Seq<char>, c: char, d: char)
    ensures
        replace_char(s, c, seq![d]) == s.map_values(|x: char| if x == c { d } else { x }),
    decreases s.len(),
{
    if s.len() > 0 {
        lemma_replace_single(s.drop_last(), c, d);
        assert(s.map_values(|x: char| if x == c { d } else { x }) =~= s.drop_last().map_values(
            |x: char| if x == c { d } else { x },
        ).push(if s.last() == c { d } else { s.last() }));
        assert(replace_char(s, c, seq![d]) =~= s.map_values(|x: char| if x == c { d } else { x }));
    }
}

/// A name with no uppercase letter keeps its characters in kebab-case
/// pieces.
pub proof fn lemma_kebab_prefix_lower(f: Seq<char>, n: int)
    requires
        0 <= n <= f.len(),
        forall|i: int| 0 <= i < f.len() ==> is_ascii_lower(#[trigger] f[i]) || f[i] == '_',
    ensures
        kebab_prefix(f, n) == f.take(n),
    decreases n,
{
    if n > 0 {
        lemma_kebab_prefix_lower(f, n - 1);
        assert(!upper_case(f[n - 1]));
        assert(kebab_piece(f, n - 1) == seq![f[n - 1]]);
        assert(f.take(n) =~= f.take(n - 1) + seq![f[n - 1]]);
    }
}

/// A snake_case field name comes back unchanged from its WIT identifier:
/// turned to kebab-case, escaped with `%` when it is a WIT keyword, then
/// turned back to snake_case. So the keys a frontend sees are the Rust
/// field names.
pub proof fn lemma_field_name_round_trip(f: Seq<char>)
    requires
        snake_field_name(f),
    ensures
        snake(wit_ident(kebab(f))) == f,
{
    let k = kebab(f);
    if f.contains('_') {
        lemma_replace_single(f, '_', '-');
        assert(k == f.map_values(|x: char| if x == '_' { '-' } else { x }));
    } else {
        lemma_kebab_prefix_lower(f, f.len() as int);
        assert(f.take(f.len() as int) =~= f);
        assert(k == f);
        assert(k =~= f.map_values(|x: char| if x == '_' { '-' } else { x })) by {
            assert forall|i: int| 0 <= i < f.len() implies f[i] != '_' by {
                if f[i] == '_' {
                    assert(f.contains('_'));
                }
            }
        }
    }
    assert(k.len() == f.len() && k[0] == f[0]);
    assert(strip_escape(wit_ident(k)) == k) by {
        if wit_keyword(k) {
            assert((seq!['%'] + k).drop_first() =~= k);
        }
    }
    lemma_replace_single(k, '-', '_');
    assert(replace_char(k, '-', seq!['_']) =~= f);
}

} // verus!
