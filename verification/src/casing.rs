//! Unicode case mapping and classification of single characters and strings,
//! as std's `char` and `str` methods compute them.
use vstd::prelude::*;

verus! {

/// `c` is an ASCII lowercase letter.
pub open spec fn is_ascii_lower(c: char) -> bool {
    'a' <= c && c <= 'z'
}

/// `c` is an ASCII uppercase letter.
pub open spec fn is_ascii_upper(c: char) -> bool {
    'A' <= c && c <= 'Z'
}

/// The ASCII uppercase of `c` (other characters unchanged).
pub open spec fn ascii_upper(c: char) -> char {
    if is_ascii_lower(c) {
        ((c as u32) - 32) as char
    } else {
        c
    }
}

/// The ASCII lowercase of `c` (other characters unchanged).
pub open spec fn ascii_lower(c: char) -> char {
    if is_ascii_upper(c) {
        ((c as u32) + 32) as char
    } else {
        c
    }
}

/// The first character of the Unicode uppercase mapping of `c`.
pub uninterp spec fn upper_first(c: char) -> char;

/// The first character of the Unicode lowercase mapping of `c`.
pub uninterp spec fn lower_first(c: char) -> char;

/// `c` has the Unicode `Uppercase` property.
pub uninterp spec fn is_upper(c: char) -> bool;

/// `c` has the Unicode `Lowercase` property.
pub uninterp spec fn is_lower(c: char) -> bool;

/// The Unicode uppercase mapping of a whole string.
pub uninterp spec fn upper_str(s: Seq<char>) -> Seq<char>;

/// The Unicode lowercase mapping of a whole string.
pub uninterp spec fn lower_str(s: Seq<char>) -> Seq<char>;

/// `char::is_uppercase` of `c`: on ASCII exactly the letters `A`..`Z`.
pub open spec fn upper_case(c: char) -> bool {
    if c <= '\x7f' {
        is_ascii_upper(c)
    } else {
        is_upper(c)
    }
}

/// `char::is_lowercase` of `c`: on ASCII exactly the letters `a`..`z`.
pub open spec fn lower_case(c: char) -> bool {
    if c <= '\x7f' {
        is_ascii_lower(c)
    } else {
        is_lower(c)
    }
}

/// The first character of `char::to_lowercase` of `c`: on ASCII its ASCII
/// lowercase.
pub open spec fn lowered(c: char) -> char {
    if c <= '\x7f' {
        ascii_lower(c)
    } else {
        lower_first(c)
    }
}

/// The first character of `char::to_uppercase` of `c`: on ASCII its ASCII
/// uppercase.
pub open spec fn uppered(c: char) -> char {
    if c <= '\x7f' {
        ascii_upper(c)
    } else {
        upper_first(c)
    }
}

/// `str::to_uppercase` of `s`: an ASCII text maps character by character.
pub open spec fn upper_text(s: Seq<char>) -> Seq<char> {
    if all_ascii(s) {
        s.map_values(|c: char| ascii_upper(c))
    } else {
        upper_str(s)
    }
}

/// `str::to_lowercase` of `s`: an ASCII text maps character by character.
pub open spec fn lower_text(s: Seq<char>) -> Seq<char> {
    if all_ascii(s) {
        s.map_values(|c: char| ascii_lower(c))
    } else {
        lower_str(s)
    }
}

/// `s` consists of ASCII characters only.
pub open spec fn all_ascii(s: Seq<char>) -> bool {
    forall|i: int| 0 <= i < s.len() ==> #[trigger] s[i] <= '\x7f'
}

/// The first character yielded by `char::to_uppercase`. For ASCII input this
/// is the ASCII uppercase letter, as the Unicode tables give it.
#[verifier::external_body]
pub(crate) fn char_upper_first(c: char) -> (r: char)
    ensures
        r == upper_first(c),
        c <= '\x7f' ==> r == ascii_upper(c),
{
    c.to_uppercase().next().unwrap()
}

/// The first character yielded by `char::to_lowercase`. For ASCII input this
/// is the ASCII lowercase letter.
#[verifier::external_body]
pub(crate) fn char_lower_first(c: char) -> (r: char)
    ensures
        r == lower_first(c),
        c <= '\x7f' ==> r == ascii_lower(c),
{
    c.to_lowercase().next().unwrap()
}

/// `char::is_uppercase`; on ASCII exactly the letters `A`..`Z`.
#[verifier::external_body]
pub(crate) fn char_is_upper(c: char) -> (b: bool)
    ensures
        b == is_upper(c),
        c <= '\x7f' ==> (b <==> is_ascii_upper(c)),
{
    c.is_uppercase()
}

/// `char::is_lowercase`; on ASCII exactly the letters `a`..`z`.
#[verifier::external_body]
pub(crate) fn char_is_lower(c: char) -> (b: bool)
    ensures
        b == is_lower(c),
        c <= '\x7f' ==> (b <==> is_ascii_lower(c)),
{
    c.is_lowercase()
}

/// `str::to_uppercase`; an ASCII string maps character by character.
#[verifier::external_body]
pub(crate) fn str_upper(s: &str) -> (r: String)
    ensures
        r@ == upper_str(s@),
        all_ascii(s@) ==> r@ == s@.map_values(|c: char| ascii_upper(c)),
{
    s.to_uppercase()
}

/// `str::to_lowercase`; an ASCII string maps character by character.
#[verifier::external_body]
pub(crate) fn str_lower(s: &str) -> (r: String)
    ensures
        r@ == lower_str(s@),
        all_ascii(s@) ==> r@ == s@.map_values(|c: char| ascii_lower(c)),
{
    s.to_lowercase()
}

} // verus!
