//! Character-sequence primitives: the string operations the generators are
//! built from, each with a specification over `Seq<char>`.
use vstd::prelude::*;

verus! {

/// The characters of a string slice, in order.
pub fn chars_of(s: &str) -> (v: Vec<char>)
    ensures
        v@ == s@,
{
    let mut v: Vec<char> = Vec::new();
    for c in it: s.chars()
        invariant
            v@ == it.seq().take(it.index() as int),
    {
        v.push(c);
    }
    v
}

/// Appends one character to a `String` (std's `String::push`).
#[verifier::external_body]
pub(crate) fn push_char(s: &mut String, c: char)
    ensures
        final(s)@ == old(s)@.push(c),
{
    s.push(c);
}

/// The `String` holding exactly the given characters.
pub fn string_of(v: &Vec<char>) -> (s: String)
    ensures
        s@ == v@,
{
    let mut s = String::new();
    let mut i: usize = 0;
    while i < v.len()
        invariant
            i <= v.len(),
            s@ == v@.take(i as int),
        decreases v.len() - i,
    {
        push_char(&mut s, v[i]);
        assert(v@.take(i + 1) == v@.take(i as int).push(v@[i as int]));
        i = i + 1;
    }
    assert(v@.take(v.len() as int) == v@);
    s
}

/// Unicode `White_Space`, the set `char::is_whitespace` tests for.
pub open spec fn is_ws(c: char) -> bool {
    ||| c == ' '
    ||| ('\t' <= c && c <= '\r')
    ||| c == '\u{85}'
    ||| c == '\u{a0}'
    ||| c == '\u{1680}'
    ||| ('\u{2000}' <= c && c <= '\u{200a}')
    ||| c == '\u{2028}'
    ||| c == '\u{2029}'
    ||| c == '\u{202f}'
    ||| c == '\u{205f}'
    ||| c == '\u{3000}'
}

pub fn is_whitespace(c: char) -> (b: bool)
    ensures
        b == is_ws(c),
{
    c == ' ' || ('\t' <= c && c <= '\r') || c == '\u{85}' || c == '\u{a0}' || c == '\u{1680}'
        || ('\u{2000}' <= c && c <= '\u{200a}') || c == '\u{2028}' || c == '\u{2029}'
        || c == '\u{202f}' || c == '\u{205f}' || c == '\u{3000}'
}

/// `s` without its leading whitespace.
pub open spec fn trim_start(s: Seq<char>) -> Seq<char>
    decreases s.len(),
{
    if s.len() > 0 && is_ws(s[0]) {
        trim_start(s.drop_first())
    } else {
        s
    }
}

/// `s` without its trailing whitespace.
pub open spec fn trim_end(s: Seq<char>) -> Seq<char>
    decreases s.len(),
{
    if s.len() > 0 && is_ws(s.last()) {
        trim_end(s.drop_last())
    } else {
        s
    }
}

/// `s` without leading and trailing whitespace (`str::trim`).
pub open spec fn trim(s: Seq<char>) -> Seq<char> {
    trim_end(trim_start(s))
}

proof fn lemma_trim_start_skip(s: Seq<char>, k: int)
    requires
        0 <= k <= s.len(),
        forall|j: int| 0 <= j < k ==> is_ws(#[trigger] s[j]),
    ensures
        trim_start(s) == trim_start(s.skip(k)),
    decreases k,
{
    if k == 0 {
        assert(s.skip(0) == s);
    } else {
        assert(is_ws(s[0]));
        assert(s.drop_first().skip(k - 1) == s.skip(k));
        assert forall|j: int| 0 <= j < k - 1 implies is_ws(#[trigger] s.drop_first()[j]) by {
            assert(s.drop_first()[j] == s[j + 1]);
        }
        lemma_trim_start_skip(s.drop_first(), k - 1);
    }
}

proof fn lemma_trim_end_take(s: Seq<char>, k: int)
    requires
        0 <= k <= s.len(),
        forall|j: int| k <= j < s.len() ==> is_ws(#[trigger] s[j]),
    ensures
        trim_end(s) == trim_end(s.take(k)),
    decreases s.len() - k,
{
    if k < s.len() {
        assert(s.drop_last().take(k) == s.take(k));
        assert forall|j: int| k <= j < s.drop_last().len() implies is_ws(
            #[trigger] s.drop_last()[j],
        ) by {
            assert(s.drop_last()[j] == s[j]);
        }
        lemma_trim_end_take(s.drop_last(), k);
    } else {
        assert(s.take(k) == s);
    }
}

/// The characters `v[a..b]`.
pub fn slice_of(v: &Vec<char>, a: usize, b: usize) -> (r: Vec<char>)
    requires
        a <= b <= v.len(),
    ensures
        r@ == v@.subrange(a as int, b as int),
{
    let mut r: Vec<char> = Vec::new();
    let mut i = a;
    while i < b
        invariant
            a <= i <= b <= v.len(),
            r@ == v@.subrange(a as int, i as int),
        decreases b - i,
    {
        r.push(v[i]);
        assert(v@.subrange(a as int, i + 1) == v@.subrange(a as int, i as int).push(v@[i as int]));
        i = i + 1;
    }
    r
}

/// `str::trim` on a character sequence.
pub fn trim_chars(v: &Vec<char>) -> (r: Vec<char>)
    ensures
        r@ == trim(v@),
{
    let mut a: usize = 0;
    while a < v.len() && is_whitespace(v[a])
        invariant
            a <= v.len(),
            forall|j: int| 0 <= j < a ==> is_ws(#[trigger] v@[j]),
        decreases v.len() - a,
    {
        a = a + 1;
    }
    proof {
        lemma_trim_start_skip(v@, a as int);
    }
    let ghost t = v@.skip(a as int);
    assert(trim_start(t) == t);
    let mut b: usize = v.len();
    while b > a && is_whitespace(v[b - 1])
        invariant
            a <= b <= v.len(),
            forall|j: int| b <= j < v.len() ==> is_ws(#[trigger] v@[j]),
        decreases b,
    {
        b = b - 1;
    }
    proof {
        assert forall|j: int| b - a <= j < t.len() implies is_ws(#[trigger] t[j]) by {
            assert(t[j] == v@[j + a]);
        }
        lemma_trim_end_take(t, b - a);
        assert(t.take(b - a) == v@.subrange(a as int, b as int));
    }
    slice_of(v, a, b)
}

/// `p` is a prefix of `s`.
pub open spec fn has_prefix(s: Seq<char>, p: Seq<char>) -> bool {
    p.len() <= s.len() && s.take(p.len() as int) == p
}

/// `p` is a suffix of `s`.
pub open spec fn has_suffix(s: Seq<char>, p: Seq<char>) -> bool {
    p.len() <= s.len() && s.skip(s.len() - p.len()) == p
}

pub fn starts_with(s: &Vec<char>, p: &Vec<char>) -> (b: bool)
    ensures
        b == has_prefix(s@, p@),
{
    if p.len() > s.len() {
        return false;
    }
    let mut i: usize = 0;
    while i < p.len()
        invariant
            p.len() <= s.len(),
            i <= p.len(),
            forall|j: int| 0 <= j < i ==> s@[j] == p@[j],
        decreases p.len() - i,
    {
        if s[i] != p[i] {
            assert(s@.take(p.len() as int)[i as int] != p@[i as int]);
            return false;
        }
        i = i + 1;
    }
    assert(s@.take(p.len() as int) =~= p@);
    true
}

pub fn ends_with(s: &Vec<char>, p: &Vec<char>) -> (b: bool)
    ensures
        b == has_suffix(s@, p@),
{
    if p.len() > s.len() {
        return false;
    }
    let off = s.len() - p.len();
    let mut i: usize = 0;
    while i < p.len()
        invariant
            p.len() <= s.len(),
            off == s.len() - p.len(),
            i <= p.len(),
            forall|j: int| 0 <= j < i ==> s@[j + off] == p@[j],
        decreases p.len() - i,
    {
        if s[off + i] != p[i] {
            assert(s@.skip(off as int)[i as int] != p@[i as int]);
            return false;
        }
        i = i + 1;
    }
    assert(s@.skip(off as int) =~= p@);
    true
}

/// Equality of two character sequences.
pub fn eq_chars(a: &Vec<char>, b: &Vec<char>) -> (r: bool)
    ensures
        r == (a@ == b@),
{
    if a.len() != b.len() {
        return false;
    }
    let r = starts_with(a, b);
    proof {
        assert(a@.take(b.len() as int) == a@);
    }
    r
}


/// Appends the characters of `w` to `v`.
pub fn push_all(v: &mut Vec<char>, w: &Vec<char>)
    ensures
        final(v)@ == old(v)@ + w@,
{
    let mut i: usize = 0;
    while i < w.len()
        invariant
            i <= w.len(),
            v@ == old(v)@ + w@.take(i as int),
        decreases w.len() - i,
    {
        v.push(w[i]);
        assert(w@.take(i + 1) == w@.take(i as int).push(w@[i as int]));
        i = i + 1;
    }
    assert(w@.take(w.len() as int) == w@);
}

/// Appends the characters of the string slice `s` to `v`.
pub fn push_str(v: &mut Vec<char>, s: &str)
    ensures
        final(v)@ == old(v)@ + s@,
{
    let w = chars_of(s);
    push_all(v, &w);
}

/// The concatenation of all the parts, in order.
pub open spec fn concat_all(parts: Seq<Seq<char>>) -> Seq<char>
    decreases parts.len(),
{
    if parts.len() == 0 {
        seq![]
    } else {
        concat_all(parts.drop_last()) + parts.last()
    }
}

/// `a` followed by `b`, as a new sequence.
pub fn concat(a: &Vec<char>, b: &Vec<char>) -> (r: Vec<char>)
    ensures
        r@ == a@ + b@,
{
    let mut r = a.clone();
    assert(r@ == a@);
    push_all(&mut r, b);
    r
}

/// `p` occurs in `s` starting at position `i`.
pub open spec fn occurs_at(s: Seq<char>, p: Seq<char>, i: int) -> bool {
    0 <= i && i + p.len() <= s.len() && s.subrange(i, i + p.len()) == p
}

pub fn matches_at(s: &Vec<char>, p: &Vec<char>, i: usize) -> (b: bool)
    ensures
        b == occurs_at(s@, p@, i as int),
{
    if i > s.len() || p.len() > s.len() - i {
        return false;
    }
    let mut j: usize = 0;
    while j < p.len()
        invariant
            i + p.len() <= s.len(),
            j <= p.len(),
            forall|k: int| 0 <= k < j ==> s@[i + k] == p@[k],
        decreases p.len() - j,
    {
        if s[i + j] != p[j] {
            assert(s@.subrange(i as int, i + p.len())[j as int] != p@[j as int]);
            return false;
        }
        j = j + 1;
    }
    assert(s@.subrange(i as int, i + p.len()) =~= p@);
    true
}

/// Repeatedly removes the non-empty pattern `p` from the front of `s`
/// (`str::trim_start_matches` with a string pattern).
pub open spec fn strip_prefixes(s: Seq<char>, p: Seq<char>) -> Seq<char>
    decreases s.len(),
{
    if p.len() > 0 && has_prefix(s, p) {
        strip_prefixes(s.skip(p.len() as int), p)
    } else {
        s
    }
}

/// Repeatedly removes the non-empty pattern `p` from the end of `s`
/// (`str::trim_end_matches` with a string pattern).
pub open spec fn strip_suffixes(s: Seq<char>, p: Seq<char>) -> Seq<char>
    decreases s.len(),
{
    if p.len() > 0 && has_suffix(s, p) {
        strip_suffixes(s.take(s.len() - p.len()), p)
    } else {
        s
    }
}

pub fn trim_start_matches(s: &Vec<char>, p: &Vec<char>) -> (r: Vec<char>)
    ensures
        r@ == strip_prefixes(s@, p@),
{
    if p.len() == 0 {
        return s.clone();
    }
    let mut i: usize = 0;
    assert(s@.skip(0) == s@);
    while matches_at(s, p, i)
        invariant
            p.len() > 0,
            i <= s.len(),
            strip_prefixes(s@, p@) == strip_prefixes(s@.skip(i as int), p@),
        decreases s.len() - i,
    {
        proof {
            let t = s@.skip(i as int);
            assert(t.take(p.len() as int) == s@.subrange(i as int, i + p.len()));
            assert(t.skip(p.len() as int) == s@.skip(i + p.len()));
        }
        i = i + p.len();
    }
    proof {
        let t = s@.skip(i as int);
        if has_prefix(t, p@) {
            assert(t.take(p.len() as int) == s@.subrange(i as int, i + p.len()));
        }
    }
    slice_of(s, i, s.len())
}

pub fn trim_end_matches(s: &Vec<char>, p: &Vec<char>) -> (r: Vec<char>)
    ensures
        r@ == strip_suffixes(s@, p@),
{
    if p.len() == 0 {
        return s.clone();
    }
    let mut e: usize = s.len();
    assert(s@.take(s.len() as int) == s@);
    while e >= p.len() && matches_at(s, p, e - p.len())
        invariant
            p.len() > 0,
            e <= s.len(),
            strip_suffixes(s@, p@) == strip_suffixes(s@.take(e as int), p@),
        decreases e,
    {
        proof {
            let t = s@.take(e as int);
            assert(t.skip(t.len() - p.len()) == s@.subrange(e - p.len(), e as int));
            assert(t.take(t.len() - p.len()) == s@.take(e - p.len()));
        }
        e = e - p.len();
    }
    proof {
        let t = s@.take(e as int);
        if has_suffix(t, p@) {
            assert(t.skip(t.len() - p.len()) == s@.subrange(e - p.len(), e as int));
        }
        assert(s@.take(e as int) == s@.subrange(0, e as int));
    }
    slice_of(s, 0, e)
}


/// Position of the first `c` in `s` at or after `i`.
pub open spec fn find_char_from(s: Seq<char>, c: char, i: int) -> Option<int>
    decreases s.len() - i,
{
    if i < 0 || i >= s.len() {
        None
    } else if s[i] == c {
        Some(i)
    } else {
        find_char_from(s, c, i + 1)
    }
}

/// Position of the first `c` in `s` (`str::find` with a `char`).
pub open spec fn find_char(s: Seq<char>, c: char) -> Option<int> {
    find_char_from(s, c, 0)
}

/// Position of the last `c` in `s[..e]`.
pub open spec fn rfind_char_before(s: Seq<char>, c: char, e: int) -> Option<int>
    decreases e,
{
    if e <= 0 || e > s.len() {
        None
    } else if s[e - 1] == c {
        Some(e - 1)
    } else {
        rfind_char_before(s, c, e - 1)
    }
}

/// Position of the last `c` in `s` (`str::rfind` with a `char`).
pub open spec fn rfind_char(s: Seq<char>, c: char) -> Option<int> {
    rfind_char_before(s, c, s.len() as int)
}

pub proof fn lemma_find_char_from(s: Seq<char>, c: char, i: int)
    requires
        0 <= i <= s.len(),
    ensures
        find_char_from(s, c, i) matches Some(k) ==> i <= k < s.len() && s[k] == c && forall|
            j: int,
        |
            i <= j < k ==> s[j] != c,
        find_char_from(s, c, i) is None ==> forall|j: int| i <= j < s.len() ==> s[j] != c,
    decreases s.len() - i,
{
    if i < s.len() && s[i] != c {
        lemma_find_char_from(s, c, i + 1);
    }
}

pub fn find_char_exec(s: &Vec<char>, c: char) -> (r: Option<usize>)
    ensures
        r matches Some(k) ==> find_char(s@, c) == Some(k as int),
        r is None ==> find_char(s@, c) is None,
{
    let mut i: usize = 0;
    while i < s.len()
        invariant
            i <= s.len(),
            find_char(s@, c) == find_char_from(s@, c, i as int),
        decreases s.len() - i,
    {
        if s[i] == c {
            return Some(i);
        }
        i = i + 1;
    }
    None
}

/// The first `c` in `s` at or after `i`.
pub fn find_char_at(s: &Vec<char>, c: char, i: usize) -> (r: Option<usize>)
    ensures
        r matches Some(k) ==> find_char_from(s@, c, i as int) == Some(k as int) && k < s.len(),
        r is None ==> find_char_from(s@, c, i as int) is None,
{
    let mut j: usize = i;
    while j < s.len()
        invariant
            i <= j || s.len() <= i,
            find_char_from(s@, c, i as int) == find_char_from(s@, c, j as int),
        decreases s.len() - j,
    {
        if s[j] == c {
            return Some(j);
        }
        j = j + 1;
    }
    None
}

pub fn rfind_char_exec(s: &Vec<char>, c: char) -> (r: Option<usize>)
    ensures
        r matches Some(k) ==> rfind_char(s@, c) == Some(k as int),
        r is None ==> rfind_char(s@, c) is None,
{
    let mut e: usize = s.len();
    while e > 0
        invariant
            e <= s.len(),
            rfind_char(s@, c) == rfind_char_before(s@, c, e as int),
        decreases e,
    {
        if s[e - 1] == c {
            return Some(e - 1);
        }
        e = e - 1;
    }
    None
}

/// Position of the first occurrence of `p` in `s` at or after `i`.
pub open spec fn find_sub_from(s: Seq<char>, p: Seq<char>, i: int) -> Option<int>
    decreases s.len() - i + 1,
{
    if i < 0 || i + p.len() > s.len() {
        None
    } else if occurs_at(s, p, i) {
        Some(i)
    } else {
        find_sub_from(s, p, i + 1)
    }
}

/// `p` occurs somewhere in `s` (`str::contains` with a string pattern).
pub open spec fn contains_sub(s: Seq<char>, p: Seq<char>) -> bool {
    find_sub_from(s, p, 0) is Some
}

pub proof fn lemma_find_sub_from(s: Seq<char>, p: Seq<char>, i: int)
    requires
        0 <= i,
    ensures
        find_sub_from(s, p, i) matches Some(k) ==> i <= k && occurs_at(s, p, k) && forall|j: int|
            i <= j < k ==> !occurs_at(s, p, j),
        find_sub_from(s, p, i) is None ==> forall|j: int| i <= j ==> !occurs_at(s, p, j),
    decreases s.len() - i + 1,
{
    if i + p.len() <= s.len() && !occurs_at(s, p, i) {
        lemma_find_sub_from(s, p, i + 1);
    }
}

pub fn find_sub_exec(s: &Vec<char>, p: &Vec<char>) -> (r: Option<usize>)
    ensures
        r matches Some(k) ==> find_sub_from(s@, p@, 0) == Some(k as int),
        r is None ==> find_sub_from(s@, p@, 0) is None,
{
    if p.len() > s.len() {
        return None;
    }
    let last = s.len() - p.len();
    let mut i: usize = 0;
    loop
        invariant
            p.len() <= s.len(),
            last == s.len() - p.len(),
            i <= last,
            find_sub_from(s@, p@, 0) == find_sub_from(s@, p@, i as int),
        decreases last - i,
    {
        if matches_at(s, p, i) {
            return Some(i);
        }
        if i == last {
            assert(find_sub_from(s@, p@, i + 1) is None);
            return None;
        }
        i = i + 1;
    }
}

/// The first occurrence of `p` in `s` at or after `i`.
pub fn find_sub_at(s: &Vec<char>, p: &Vec<char>, i: usize) -> (r: Option<usize>)
    ensures
        r matches Some(k) ==> find_sub_from(s@, p@, i as int) == Some(k as int) && k + p.len()
            <= s.len(),
        r is None ==> find_sub_from(s@, p@, i as int) is None,
{
    if p.len() > s.len() || i > s.len() - p.len() {
        return None;
    }
    let last = s.len() - p.len();
    let mut j: usize = i;
    loop
        invariant
            p.len() <= s.len(),
            last == s.len() - p.len(),
            i <= j <= last,
            find_sub_from(s@, p@, i as int) == find_sub_from(s@, p@, j as int),
        decreases last - j,
    {
        if matches_at(s, p, j) {
            return Some(j);
        }
        if j == last {
            assert(find_sub_from(s@, p@, j + 1) is None);
            return None;
        }
        j = j + 1;
    }
}

pub fn contains_exec(s: &Vec<char>, p: &Vec<char>) -> (b: bool)
    ensures
        b == contains_sub(s@, p@),
{
    find_sub_exec(s, p).is_some()
}


/// The character sequence an optional vector holds.
pub open spec fn opt_view(o: Option<Vec<char>>) -> Option<Seq<char>> {
    match o {
        Some(v) => Some(v@),
        None => None,
    }
}

/// The character sequences held by a sequence of vectors.
pub open spec fn views(v: Seq<Vec<char>>) -> Seq<Seq<char>> {
    v.map_values(|x: Vec<char>| x@)
}

pub proof fn lemma_views_push(v: Seq<Vec<char>>, x: Vec<char>)
    ensures
        views(v.push(x)) == views(v).push(x@),
{
    assert(views(v.push(x)) =~= views(v).push(x@));
}

/// The fields of `s` separated by `c`, scanning from `i` with the current
/// field starting at `start` (`str::split` with a `char`).
pub open spec fn split_char_from(s: Seq<char>, c: char, start: int, i: int) -> Seq<Seq<char>>
    decreases s.len() - i,
{
    if i >= s.len() {
        seq![s.subrange(start, s.len() as int)]
    } else if s[i] == c {
        seq![s.subrange(start, i)] + split_char_from(s, c, i + 1, i + 1)
    } else {
        split_char_from(s, c, start, i + 1)
    }
}

pub open spec fn split_char(s: Seq<char>, c: char) -> Seq<Seq<char>> {
    split_char_from(s, c, 0, 0)
}

pub fn split_char_exec(s: &Vec<char>, c: char) -> (r: Vec<Vec<char>>)
    ensures
        views(r@) == split_char(s@, c),
{
    let mut out: Vec<Vec<char>> = Vec::new();
    let mut start: usize = 0;
    let mut i: usize = 0;
    while i < s.len()
        invariant
            start <= i <= s.len(),
            views(out@) + split_char_from(s@, c, start as int, i as int) == split_char(s@, c),
        decreases s.len() - i,
    {
        if s[i] == c {
            let field = slice_of(s, start, i);
            proof {
                lemma_views_push(out@, field);
                assert(views(out@.push(field)) + split_char_from(s@, c, i + 1, i + 1) =~= views(
                    out@,
                ) + split_char_from(s@, c, start as int, i as int));
            }
            out.push(field);
            start = i + 1;
        }
        i = i + 1;
    }
    let field = slice_of(s, start, s.len());
    proof {
        lemma_views_push(out@, field);
        assert(views(out@.push(field)) =~= views(out@) + split_char_from(
            s@,
            c,
            start as int,
            i as int,
        ));
    }
    out.push(field);
    out
}

/// The fields of `s` separated by the non-empty pattern `p`, scanning from `i`
/// with the current field starting at `start` (`str::split` with a string).
pub open spec fn split_sub_from(s: Seq<char>, p: Seq<char>, start: int, i: int) -> Seq<Seq<char>>
    decreases s.len() - i + 1,
{
    if p.len() == 0 || i + p.len() > s.len() {
        seq![s.subrange(start, s.len() as int)]
    } else if occurs_at(s, p, i) {
        seq![s.subrange(start, i)] + split_sub_from(s, p, i + p.len(), i + p.len())
    } else {
        split_sub_from(s, p, start, i + 1)
    }
}

pub open spec fn split_sub(s: Seq<char>, p: Seq<char>) -> Seq<Seq<char>> {
    split_sub_from(s, p, 0, 0)
}

pub fn split_sub_exec(s: &Vec<char>, p: &Vec<char>) -> (r: Vec<Vec<char>>)
    requires
        p.len() > 0,
    ensures
        views(r@) == split_sub(s@, p@),
{
    let mut out: Vec<Vec<char>> = Vec::new();
    let mut start: usize = 0;
    let mut i: usize = 0;
    while i < s.len() && p.len() <= s.len() - i
        invariant
            p.len() > 0,
            start <= i <= s.len(),
            views(out@) + split_sub_from(s@, p@, start as int, i as int) == split_sub(s@, p@),
        decreases s.len() - i,
    {
        if matches_at(s, p, i) {
            let field = slice_of(s, start, i);
            proof {
                lemma_views_push(out@, field);
                assert(views(out@.push(field)) + split_sub_from(
                    s@,
                    p@,
                    i + p.len(),
                    i + p.len(),
                ) =~= views(out@) + split_sub_from(s@, p@, start as int, i as int));
            }
            out.push(field);
            i = i + p.len();
            start = i;
        } else {
            i = i + 1;
        }
    }
    let field = slice_of(s, start, s.len());
    proof {
        lemma_views_push(out@, field);
        assert(views(out@.push(field)) =~= views(out@) + split_sub_from(
            s@,
            p@,
            start as int,
            i as int,
        ));
    }
    out.push(field);
    out
}

/// The maximal runs of non-whitespace characters of `s`, scanning from `i`;
/// `start` is where the current run began, if one is open
/// (`str::split_whitespace`).
pub open spec fn ws_fields_from(s: Seq<char>, start: Option<int>, i: int) -> Seq<Seq<char>>
    decreases s.len() - i,
{
    if i >= s.len() {
        match start {
            Some(b) => seq![s.subrange(b, s.len() as int)],
            None => seq![],
        }
    } else if is_ws(s[i]) {
        match start {
            Some(b) => seq![s.subrange(b, i)] + ws_fields_from(s, None, i + 1),
            None => ws_fields_from(s, None, i + 1),
        }
    } else {
        match start {
            Some(b) => ws_fields_from(s, start, i + 1),
            None => ws_fields_from(s, Some(i), i + 1),
        }
    }
}

pub open spec fn split_ws(s: Seq<char>) -> Seq<Seq<char>> {
    ws_fields_from(s, None, 0)
}

pub fn split_whitespace(s: &Vec<char>) -> (r: Vec<Vec<char>>)
    ensures
        views(r@) == split_ws(s@),
{
    let mut out: Vec<Vec<char>> = Vec::new();
    let mut open = false;
    let mut start: usize = 0;
    let mut i: usize = 0;
    while i < s.len()
        invariant
            i <= s.len(),
            open ==> start < i,
            views(out@) + ws_fields_from(
                s@,
                if open {
                    Some(start as int)
                } else {
                    None
                },
                i as int,
            ) == split_ws(s@),
        decreases s.len() - i,
    {
        if is_whitespace(s[i]) {
            if open {
                let field = slice_of(s, start, i);
                proof {
                    lemma_views_push(out@, field);
                    assert(views(out@.push(field)) + ws_fields_from(s@, None, i + 1) =~= views(out@)
                        + ws_fields_from(s@, Some(start as int), i as int));
                }
                out.push(field);
                open = false;
            }
        } else if !open {
            open = true;
            start = i;
        }
        i = i + 1;
    }
    if open {
        let field = slice_of(s, start, s.len());
        proof {
            lemma_views_push(out@, field);
            assert(views(out@.push(field)) =~= views(out@) + ws_fields_from(
                s@,
                Some(start as int),
                i as int,
            ));
        }
        out.push(field);
    } else {
        assert(views(out@) =~= views(out@) + ws_fields_from(s@, None, i as int));
    }
    out
}


pub proof fn lemma_split_char_from_len(s: Seq<char>, c: char, start: int, i: int)
    ensures
        split_char_from(s, c, start, i).len() >= 1,
    decreases s.len() - i,
{
    if i < s.len() {
        if s[i] == c {
            lemma_split_char_from_len(s, c, i + 1, i + 1);
        } else {
            lemma_split_char_from_len(s, c, start, i + 1);
        }
    }
}

/// `x` without one trailing carriage return.
pub open spec fn strip_cr(x: Seq<char>) -> Seq<char> {
    if x.len() > 0 && x.last() == '\r' {
        x.drop_last()
    } else {
        x
    }
}

/// The lines of `s` (`str::lines`): split at `\n`, a `\r` just before a `\n`
/// dropped, and no final empty line after a trailing `\n`.
pub open spec fn lines(s: Seq<char>) -> Seq<Seq<char>> {
    let parts = split_char(s, '\n');
    let n = parts.len() as int;
    let k: int = if parts[n - 1].len() == 0 {
        n - 1
    } else {
        n
    };
    Seq::new(
        k as nat,
        |j: int|
            if j < n - 1 {
                strip_cr(parts[j])
            } else {
                parts[j]
            },
    )
}

pub fn lines_exec(s: &Vec<char>) -> (r: Vec<Vec<char>>)
    ensures
        views(r@) == lines(s@),
{
    let parts = split_char_exec(s, '\n');
    proof {
        lemma_split_char_from_len(s@, '\n', 0, 0);
    }
    let n = parts.len();
    let k = if parts[n - 1].len() == 0 {
        n - 1
    } else {
        n
    };
    let ghost ps = views(parts@);
    let mut out: Vec<Vec<char>> = Vec::new();
    let mut j: usize = 0;
    while j < k
        invariant
            n == parts.len(),
            ps == views(parts@),
            ps == split_char(s@, '\n'),
            k <= n,
            j <= k,
            k == (if ps[n - 1].len() == 0 {
                n - 1
            } else {
                n as int
            }),
            views(out@) == lines(s@).take(j as int),
        decreases k - j,
    {
        let x = &parts[j];
        assert(x@ == ps[j as int]);
        let line = if j + 1 < n && x.len() > 0 && x[x.len() - 1] == '\r' {
            slice_of(x, 0, x.len() - 1)
        } else {
            x.clone()
        };
        proof {
            if j + 1 < n && x@.len() > 0 && x@.last() == '\r' {
                assert(line@ == x@.drop_last());
            }
            lemma_views_push(out@, line);
            assert(lines(s@).take(j + 1) =~= lines(s@).take(j as int).push(line@));
        }
        out.push(line);
        j = j + 1;
    }
    assert(lines(s@).take(k as int) =~= lines(s@));
    out
}

/// The elements of `parts` with `sep` between each two.
pub open spec fn join(parts: Seq<Seq<char>>, sep: Seq<char>) -> Seq<char>
    decreases parts.len(),
{
    if parts.len() == 0 {
        seq![]
    } else if parts.len() == 1 {
        parts[0]
    } else {
        join(parts.drop_last(), sep) + sep + parts.last()
    }
}

pub fn join_exec(parts: &Vec<Vec<char>>, sep: &Vec<char>) -> (r: Vec<char>)
    ensures
        r@ == join(views(parts@), sep@),
{
    let ghost ps = views(parts@);
    let mut out: Vec<char> = Vec::new();
    let mut i: usize = 0;
    while i < parts.len()
        invariant
            ps == views(parts@),
            i <= parts.len(),
            out@ == join(ps.take(i as int), sep@),
        decreases parts.len() - i,
    {
        if i > 0 {
            push_all(&mut out, sep);
        }
        push_all(&mut out, &parts[i]);
        proof {
            assert(ps.take(i + 1).drop_last() =~= ps.take(i as int));
            if i == 0 {
                assert(out@ == ps.take(1)[0]);
            }
        }
        i = i + 1;
    }
    assert(ps.take(parts.len() as int) =~= ps);
    out
}

/// `s` with each `c` replaced by `r` (`str::replace` with a `char` pattern).
pub open spec fn replace_char(s: Seq<char>, c: char, r: Seq<char>) -> Seq<char>
    decreases s.len(),
{
    if s.len() == 0 {
        seq![]
    } else {
        replace_char(s.drop_last(), c, r) + if s.last() == c {
            r
        } else {
            seq![s.last()]
        }
    }
}

pub fn replace_char_exec(s: &Vec<char>, c: char, r: &Vec<char>) -> (out: Vec<char>)
    ensures
        out@ == replace_char(s@, c, r@),
{
    let mut out: Vec<char> = Vec::new();
    let mut i: usize = 0;
    while i < s.len()
        invariant
            i <= s.len(),
            out@ == replace_char(s@.take(i as int), c, r@),
        decreases s.len() - i,
    {
        if s[i] == c {
            push_all(&mut out, r);
        } else {
            out.push(s[i]);
        }
        assert(s@.take(i + 1).drop_last() =~= s@.take(i as int));
        i = i + 1;
    }
    assert(s@.take(s.len() as int) =~= s@);
    out
}

/// The character of a decimal digit.
pub open spec fn digit_char(d: nat) -> char {
    if d == 0 {
        '0'
    } else if d == 1 {
        '1'
    } else if d == 2 {
        '2'
    } else if d == 3 {
        '3'
    } else if d == 4 {
        '4'
    } else if d == 5 {
        '5'
    } else if d == 6 {
        '6'
    } else if d == 7 {
        '7'
    } else if d == 8 {
        '8'
    } else {
        '9'
    }
}

/// The decimal digits of `n`, as `Display` writes an integer.
pub open spec fn decimal(n: nat) -> Seq<char>
    decreases n,
{
    if n < 10 {
        seq![digit_char(n)]
    } else {
        decimal(n / 10).push(digit_char(n % 10))
    }
}

fn digit_exec(d: u64) -> (c: char)
    requires
        d < 10,
    ensures
        c == digit_char(d as nat),
{
    if d == 0 {
        '0'
    } else if d == 1 {
        '1'
    } else if d == 2 {
        '2'
    } else if d == 3 {
        '3'
    } else if d == 4 {
        '4'
    } else if d == 5 {
        '5'
    } else if d == 6 {
        '6'
    } else if d == 7 {
        '7'
    } else if d == 8 {
        '8'
    } else {
        '9'
    }
}

/// Writes `n` in decimal.
pub fn decimal_exec(n: u64) -> (r: Vec<char>)
    ensures
        r@ == decimal(n as nat),
    decreases n,
{
    if n < 10 {
        let mut r: Vec<char> = Vec::new();
        r.push(digit_exec(n));
        r
    } else {
        let mut r = decimal_exec(n / 10);
        r.push(digit_exec(n % 10));
        r
    }
}

} // verus!
