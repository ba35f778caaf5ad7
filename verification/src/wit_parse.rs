//! A line-oriented reader for WIT interface files: type aliases, records
//! (function-signature records among them), variants and enums.
use vstd::prelude::*;
use crate::casing::{str_upper, upper_text};
use crate::naming::{eq_lit, starts_with_lit, strip_escape, strip_wit_escape};
use crate::text::{
    chars_of, contains_exec, contains_sub, find_char, find_char_exec, has_prefix,
    lemma_find_char_from, lines, rfind_char_before, lines_exec, opt_view, rfind_char, rfind_char_exec, slice_of,
    split_char, split_char_exec, split_sub, split_sub_exec, split_whitespace, split_ws,
    strip_prefixes, strip_suffixes, string_of, trim, trim_chars, trim_end_matches,
    trim_start_matches, views,
};

verus! {

/// A `name: type` field of a record.
pub struct FieldM {
    pub name: Seq<char>,
    pub wit_type: Seq<char>,
}

/// A record named `<function>-signature-<attr>`, describing one endpoint.
pub struct SignatureM {
    pub function_name: Seq<char>,
    pub attr_type: Seq<char>,
    pub fields: Seq<FieldM>,
    pub http_method: Option<Seq<char>>,
    pub http_path: Option<Seq<char>>,
}

/// A plain record.
pub struct RecordM {
    pub name: Seq<char>,
    pub fields: Seq<FieldM>,
}

/// A variant case with its optional payload type.
pub struct CaseM {
    pub name: Seq<char>,
    pub data_type: Option<Seq<char>>,
}

pub struct VariantM {
    pub name: Seq<char>,
    pub cases: Seq<CaseM>,
}

pub struct EnumM {
    pub name: Seq<char>,
    pub cases: Seq<Seq<char>>,
}

/// Everything read from one WIT file, in file order within each kind.
#[verifier::ext_equal]
pub struct WitTypesM {
    pub signatures: Seq<SignatureM>,
    pub records: Seq<RecordM>,
    pub variants: Seq<VariantM>,
    pub enums: Seq<EnumM>,
    pub aliases: Seq<(Seq<char>, Seq<char>)>,
}

pub struct SignatureField {
    pub name: Vec<char>,
    pub wit_type: Vec<char>,
}

pub struct SignatureStruct {
    pub function_name: Vec<char>,
    pub attr_type: Vec<char>,
    pub fields: Vec<SignatureField>,
    pub http_method: Option<Vec<char>>,
    pub http_path: Option<Vec<char>>,
}

pub struct WitRecord {
    pub name: Vec<char>,
    pub fields: Vec<SignatureField>,
}

pub struct WitVariantCase {
    pub name: Vec<char>,
    pub data_type: Option<Vec<char>>,
}

pub struct WitVariant {
    pub name: Vec<char>,
    pub cases: Vec<WitVariantCase>,
}

pub struct WitEnum {
    pub name: Vec<char>,
    pub cases: Vec<Vec<char>>,
}

pub struct WitTypes {
    pub signatures: Vec<SignatureStruct>,
    pub records: Vec<WitRecord>,
    pub variants: Vec<WitVariant>,
    pub enums: Vec<WitEnum>,
    pub aliases: Vec<(Vec<char>, Vec<char>)>,
}

impl View for SignatureField {
    type V = FieldM;

    open spec fn view(&self) -> FieldM {
        FieldM { name: self.name@, wit_type: self.wit_type@ }
    }
}

pub open spec fn fields_view(v: Seq<SignatureField>) -> Seq<FieldM> {
    v.map_values(|f: SignatureField| f@)
}

impl View for SignatureStruct {
    type V = SignatureM;

    open spec fn view(&self) -> SignatureM {
        SignatureM {
            function_name: self.function_name@,
            attr_type: self.attr_type@,
            fields: fields_view(self.fields@),
            http_method: opt_view(self.http_method),
            http_path: opt_view(self.http_path),
        }
    }
}

impl View for WitRecord {
    type V = RecordM;

    open spec fn view(&self) -> RecordM {
        RecordM { name: self.name@, fields: fields_view(self.fields@) }
    }
}

impl View for WitVariantCase {
    type V = CaseM;

    open spec fn view(&self) -> CaseM {
        CaseM { name: self.name@, data_type: opt_view(self.data_type) }
    }
}

pub open spec fn cases_view(v: Seq<WitVariantCase>) -> Seq<CaseM> {
    v.map_values(|c: WitVariantCase| c@)
}

impl View for WitVariant {
    type V = VariantM;

    open spec fn view(&self) -> VariantM {
        VariantM { name: self.name@, cases: cases_view(self.cases@) }
    }
}

impl View for WitEnum {
    type V = EnumM;

    open spec fn view(&self) -> EnumM {
        EnumM { name: self.name@, cases: views(self.cases@) }
    }
}

pub open spec fn pairs_view(v: Seq<(Vec<char>, Vec<char>)>) -> Seq<(Seq<char>, Seq<char>)> {
    v.map_values(|p: (Vec<char>, Vec<char>)| (p.0@, p.1@))
}

impl View for WitTypes {
    type V = WitTypesM;

    open spec fn view(&self) -> WitTypesM {
        WitTypesM {
            signatures: self.signatures@.map_values(|s: SignatureStruct| s@),
            records: self.records@.map_values(|r: WitRecord| r@),
            variants: self.variants@.map_values(|v: WitVariant| v@),
            enums: self.enums@.map_values(|e: WitEnum| e@),
            aliases: pairs_view(self.aliases@),
        }
    }
}

/// The field a record body line declares: exactly one `:` splits it into a
/// name (escape removed) and a type (trailing commas removed).
pub open spec fn field_of_line(fl: Seq<char>) -> Option<FieldM> {
    let parts = split_char(fl, ':');
    if parts.len() == 2 {
        Some(
            FieldM {
                name: strip_escape(trim(parts[0])),
                wit_type: strip_suffixes(trim(parts[1]), ","@),
            },
        )
    } else {
        None
    }
}

/// A body line that is blank or a `//` comment.
pub open spec fn skippable(l: Seq<char>) -> bool {
    has_prefix(l, "//"@) || l.len() == 0
}

/// The line closing a block: its trimmed form starts with `}`.
pub open spec fn closes(l: Seq<char>) -> bool {
    has_prefix(trim(l), "}"@)
}

/// The fields of a record body from line `i` on, and the index of the line
/// where the body ends (its closing line, or the end of the file).
pub open spec fn fields_from(ls: Seq<Seq<char>>, i: int) -> (Seq<FieldM>, int)
    decreases ls.len() - i,
{
    if i < 0 || i >= ls.len() || closes(ls[i]) {
        (seq![], i)
    } else {
        let fl = trim(ls[i]);
        let rest = fields_from(ls, i + 1);
        if skippable(fl) {
            rest
        } else {
            match field_of_line(fl) {
                Some(f) => (seq![f] + rest.0, rest.1),
                None => rest,
            }
        }
    }
}

/// The case a variant body line declares; `None` where the line
/// has its last `)` before its first `(`, which cannot be read.
pub open spec fn case_of_line(cl: Seq<char>) -> Option<CaseM> {
    let raw = strip_suffixes(cl, ","@);
    match find_char(raw, '(') {
        Some(p) => {
            let e: int = match rfind_char(raw, ')') {
                Some(q) => q,
                None => raw.len() as int,
            };
            if e < p + 1 {
                None
            } else {
                Some(CaseM { name: strip_escape(raw.take(p)), data_type: Some(raw.subrange(p + 1, e)) })
            }
        },
        None => Some(CaseM { name: strip_escape(raw), data_type: None }),
    }
}

/// The cases of a variant body from line `i` on and where the body ends;
/// `None` where reading a case panics.
pub open spec fn cases_from(ls: Seq<Seq<char>>, i: int) -> Option<(Seq<CaseM>, int)>
    decreases ls.len() - i,
{
    if i < 0 || i >= ls.len() || closes(ls[i]) {
        Some((seq![], i))
    } else {
        let cl = trim(ls[i]);
        if skippable(cl) {
            cases_from(ls, i + 1)
        } else {
            match (case_of_line(cl), cases_from(ls, i + 1)) {
                (Some(c), Some(rest)) => Some((seq![c] + rest.0, rest.1)),
                _ => None,
            }
        }
    }
}

/// The cases of an enum body from line `i` on and where the body ends.
pub open spec fn enum_cases_from(ls: Seq<Seq<char>>, i: int) -> (Seq<Seq<char>>, int)
    decreases ls.len() - i,
{
    if i < 0 || i >= ls.len() || closes(ls[i]) {
        (seq![], i)
    } else {
        let cl = trim(ls[i]);
        let rest = enum_cases_from(ls, i + 1);
        if skippable(cl) {
            rest
        } else {
            (seq![strip_escape(strip_suffixes(cl, ","@))] + rest.0, rest.1)
        }
    }
}

/// The HTTP method (uppercased) and path from the nearest `// HTTP:` comment
/// above line `j`, looking past blank lines and other comments.
pub open spec fn http_scan(ls: Seq<Seq<char>>, j: int) -> (Option<Seq<char>>, Option<Seq<char>>)
    decreases j,
{
    if j <= 0 || j > ls.len() {
        (None, None)
    } else {
        let prev = trim(ls[j - 1]);
        if prev.len() == 0 {
            http_scan(ls, j - 1)
        } else if has_prefix(prev, "// HTTP:"@) {
            let toks = split_ws(trim(strip_prefixes(prev, "// HTTP:"@)));
            (
                if toks.len() > 0 {
                    Some(upper_text(toks[0]))
                } else {
                    None
                },
                if toks.len() > 1 {
                    Some(toks[1])
                } else {
                    None
                },
            )
        } else if has_prefix(prev, "//"@) {
            http_scan(ls, j - 1)
        } else {
            (None, None)
        }
    }
}

/// The name in a block header line: keyword and ` {` removed, trimmed,
/// escape removed.
pub open spec fn header_name(line: Seq<char>, keyword: Seq<char>) -> Seq<char> {
    strip_escape(trim(strip_suffixes(strip_prefixes(line, keyword), " {"@)))
}

/// The alias a `type` line declares, if it has an `=`.
pub open spec fn alias_of_line(line: Seq<char>) -> Option<(Seq<char>, Seq<char>)> {
    let rest = trim(strip_suffixes(strip_prefixes(line, "type "@), ";"@));
    match find_char(rest, '=') {
        Some(k) => Some((strip_escape(trim(rest.take(k))), trim(rest.skip(k + 1)))),
        None => None,
    }
}

pub proof fn lemma_fields_from(ls: Seq<Seq<char>>, i: int)
    requires
        0 <= i <= ls.len(),
    ensures
        i <= fields_from(ls, i).1 <= ls.len(),
    decreases ls.len() - i,
{
    if !(i < 0 || i >= ls.len() || closes(ls[i])) {
        lemma_fields_from(ls, i + 1);
    }
}

pub proof fn lemma_cases_from(ls: Seq<Seq<char>>, i: int)
    requires
        0 <= i <= ls.len(),
    ensures
        cases_from(ls, i) matches Some(r) ==> i <= r.1 <= ls.len(),
    decreases ls.len() - i,
{
    if !(i < 0 || i >= ls.len() || closes(ls[i])) {
        lemma_cases_from(ls, i + 1);
    }
}

pub proof fn lemma_enum_cases_from(ls: Seq<Seq<char>>, i: int)
    requires
        0 <= i <= ls.len(),
    ensures
        i <= enum_cases_from(ls, i).1 <= ls.len(),
    decreases ls.len() - i,
{
    if !(i < 0 || i >= ls.len() || closes(ls[i])) {
        lemma_enum_cases_from(ls, i + 1);
    }
}

/// Reads the file's lines from `i` on, adding what it finds to `acc`;
/// `None` where a line cannot be read.
pub open spec fn parse_from(ls: Seq<Seq<char>>, i: int, acc: WitTypesM) -> Option<WitTypesM>
    decreases ls.len() - i + 1,
{
    if i < 0 || i >= ls.len() {
        Some(acc)
    } else {
        let line = trim(ls[i]);
        if has_prefix(line, "type "@) {
            match alias_of_line(line) {
                Some(a) => parse_from(ls, i + 1, WitTypesM { aliases: acc.aliases.push(a), ..acc }),
                None => parse_from(ls, i + 1, acc),
            }
        } else if has_prefix(line, "record "@) {
            let name = header_name(line, "record "@);
            proof {
                lemma_fields_from(ls, i + 1);
            }
            if contains_sub(name, "-signature-"@) {
                let parts = split_sub(name, "-signature-"@);
                if parts.len() != 2 {
                    parse_from(ls, i + 1, acc)
                } else {
                    let http: (Option<Seq<char>>, Option<Seq<char>>) = if parts[1] == "http"@ {
                        http_scan(ls, i)
                    } else {
                        (None, None)
                    };
                    let body = fields_from(ls, i + 1);
                    let sig = SignatureM {
                        function_name: parts[0],
                        attr_type: parts[1],
                        fields: body.0,
                        http_method: http.0,
                        http_path: http.1,
                    };
                    parse_from(ls, body.1 + 1, WitTypesM { signatures: acc.signatures.push(sig), ..acc })
                }
            } else {
                let body = fields_from(ls, i + 1);
                let rec = RecordM { name, fields: body.0 };
                parse_from(ls, body.1 + 1, WitTypesM { records: acc.records.push(rec), ..acc })
            }
        } else if has_prefix(line, "variant "@) {
            proof {
                lemma_cases_from(ls, i + 1);
            }
            match cases_from(ls, i + 1) {
                Some(body) => {
                    let v = VariantM { name: header_name(line, "variant "@), cases: body.0 };
                    parse_from(ls, body.1 + 1, WitTypesM { variants: acc.variants.push(v), ..acc })
                },
                None => None,
            }
        } else if has_prefix(line, "enum "@) {
            proof {
                lemma_enum_cases_from(ls, i + 1);
            }
            let body = enum_cases_from(ls, i + 1);
            let e = EnumM { name: header_name(line, "enum "@), cases: body.0 };
            parse_from(ls, body.1 + 1, WitTypesM { enums: acc.enums.push(e), ..acc })
        } else {
            parse_from(ls, i + 1, acc)
        }
    }
}

pub open spec fn empty_types() -> WitTypesM {
    WitTypesM {
        signatures: seq![],
        records: seq![],
        variants: seq![],
        enums: seq![],
        aliases: seq![],
    }
}

/// What reading a WIT file's text yields; `None` where a line cannot be read.
pub open spec fn parse_wit(content: Seq<char>) -> Option<WitTypesM> {
    parse_from(lines(content), 0, empty_types())
}


fn trimmed_line(ls: &Vec<Vec<char>>, i: usize) -> (r: Vec<char>)
    requires
        i < ls.len(),
    ensures
        r@ == trim(views(ls@)[i as int]),
{
    trim_chars(&ls[i])
}

fn is_skippable(l: &Vec<char>) -> (b: bool)
    ensures
        b == skippable(l@),
{
    starts_with_lit(l, "//") || l.len() == 0
}

fn closes_at(ls: &Vec<Vec<char>>, i: usize) -> (b: bool)
    requires
        i < ls.len(),
    ensures
        b == closes(views(ls@)[i as int]),
{
    let t = trimmed_line(ls, i);
    starts_with_lit(&t, "}")
}

fn parse_field_line(fl: &Vec<char>) -> (r: Option<SignatureField>)
    ensures
        r matches Some(f) ==> field_of_line(fl@) == Some(f@),
        r is None ==> field_of_line(fl@) is None,
{
    let parts = split_char_exec(fl, ':');
    if parts.len() == 2 {
        assert(parts[0]@ == views(parts@)[0]);
        assert(parts[1]@ == views(parts@)[1]);
        let name = strip_wit_escape(&trim_chars(&parts[0]));
        let wit_type = trim_end_matches(&trim_chars(&parts[1]), &chars_of(","));
        Some(SignatureField { name, wit_type })
    } else {
        None
    }
}

fn parse_fields(ls: &Vec<Vec<char>>, i: usize) -> (r: (Vec<SignatureField>, usize))
    requires
        i <= ls.len(),
    ensures
        fields_from(views(ls@), i as int) == (fields_view(r.0@), r.1 as int),
{
    let ghost l = views(ls@);
    let mut acc: Vec<SignatureField> = Vec::new();
    let mut j = i;
    while j < ls.len() && !closes_at(ls, j)
        invariant
            l == views(ls@),
            i <= j <= ls.len(),
            fields_from(l, i as int) == (fields_view(acc@) + fields_from(l, j as int).0, fields_from(
                l,
                j as int,
            ).1),
        decreases ls.len() - j,
    {
        let fl = trimmed_line(ls, j);
        if !is_skippable(&fl) {
            match parse_field_line(&fl) {
                Some(f) => {
                    proof {
                        assert(fields_view(acc@.push(f)) + fields_from(l, j + 1).0 =~= fields_view(
                            acc@,
                        ) + fields_from(l, j as int).0);
                    }
                    acc.push(f);
                },
                None => {},
            }
        }
        j = j + 1;
    }
    assert(fields_view(acc@) + fields_from(l, j as int).0 =~= fields_view(acc@));
    (acc, j)
}

fn parse_case_line(cl: &Vec<char>) -> (r: Option<WitVariantCase>)
    ensures
        r matches Some(c) ==> case_of_line(cl@) == Some(c@),
        r is None ==> case_of_line(cl@) is None,
{
    let raw = trim_end_matches(cl, &chars_of(","));
    match find_char_exec(&raw, '(') {
        Some(p) => {
            proof {
                lemma_find_char_from(raw@, '(', 0);
            }
            let e = match rfind_char_exec(&raw, ')') {
                Some(q) => {
                    proof {
                        lemma_rfind_char_bound(raw@, ')', raw@.len() as int);
                    }
                    q
                },
                None => raw.len(),
            };
            if e < p + 1 {
                None
            } else {
                let name = strip_wit_escape(&slice_of(&raw, 0, p));
                assert(raw@.subrange(0, p as int) == raw@.take(p as int));
                let data = slice_of(&raw, p + 1, e);
                Some(WitVariantCase { name, data_type: Some(data) })
            }
        },
        None => {
            let name = strip_wit_escape(&raw);
            Some(WitVariantCase { name, data_type: None })
        },
    }
}

pub proof fn lemma_rfind_char_bound(s: Seq<char>, c: char, e: int)
    requires
        0 <= e <= s.len(),
    ensures
        rfind_char_before(s, c, e) matches Some(q) ==> 0 <= q < e,
    decreases e,
{
    if e > 0 && s[e - 1] != c {
        lemma_rfind_char_bound(s, c, e - 1);
    }
}

fn parse_cases(ls: &Vec<Vec<char>>, i: usize) -> (r: Option<(Vec<WitVariantCase>, usize)>)
    requires
        i <= ls.len(),
    ensures
        r matches Some(x) ==> cases_from(views(ls@), i as int) == Some(
            (cases_view(x.0@), x.1 as int),
        ),
        r is None ==> cases_from(views(ls@), i as int) is None,
{
    let ghost l = views(ls@);
    let mut acc: Vec<WitVariantCase> = Vec::new();
    let mut j = i;
    while j < ls.len() && !closes_at(ls, j)
        invariant
            l == views(ls@),
            i <= j <= ls.len(),
            cases_from(l, i as int) == match cases_from(l, j as int) {
                Some(rest) => Some((cases_view(acc@) + rest.0, rest.1)),
                None => None,
            },
        decreases ls.len() - j,
    {
        let cl = trimmed_line(ls, j);
        if !is_skippable(&cl) {
            match parse_case_line(&cl) {
                Some(c) => {
                    proof {
                        match cases_from(l, j + 1) {
                            Some(rest) => {
                                assert(cases_view(acc@.push(c)) + rest.0 =~= cases_view(acc@) + (
                                seq![c@] + rest.0));
                            },
                            None => {},
                        }
                    }
                    acc.push(c);
                },
                None => {
                    return None;
                },
            }
        }
        j = j + 1;
    }
    assert(cases_view(acc@) + seq![] =~= cases_view(acc@));
    Some((acc, j))
}

fn parse_enum_cases(ls: &Vec<Vec<char>>, i: usize) -> (r: (Vec<Vec<char>>, usize))
    requires
        i <= ls.len(),
    ensures
        enum_cases_from(views(ls@), i as int) == (views(r.0@), r.1 as int),
{
    let ghost l = views(ls@);
    let mut acc: Vec<Vec<char>> = Vec::new();
    let mut j = i;
    while j < ls.len() && !closes_at(ls, j)
        invariant
            l == views(ls@),
            i <= j <= ls.len(),
            enum_cases_from(l, i as int) == (views(acc@) + enum_cases_from(l, j as int).0,
            enum_cases_from(l, j as int).1),
        decreases ls.len() - j,
    {
        let cl = trimmed_line(ls, j);
        if !is_skippable(&cl) {
            let c = strip_wit_escape(&trim_end_matches(&cl, &chars_of(",")));
            proof {
                assert(views(acc@.push(c)) + enum_cases_from(l, j + 1).0 =~= views(acc@)
                    + enum_cases_from(l, j as int).0);
            }
            acc.push(c);
        }
        j = j + 1;
    }
    assert(views(acc@) + enum_cases_from(l, j as int).0 =~= views(acc@));
    (acc, j)
}

fn scan_http(ls: &Vec<Vec<char>>, i: usize) -> (r: (Option<Vec<char>>, Option<Vec<char>>))
    requires
        i <= ls.len(),
    ensures
        http_scan(views(ls@), i as int) == (opt_view(r.0), opt_view(r.1)),
{
    let ghost l = views(ls@);
    let mut j = i;
    while j > 0
        invariant
            l == views(ls@),
            j <= i <= ls.len(),
            http_scan(l, i as int) == http_scan(l, j as int),
        decreases j,
    {
        let prev = trimmed_line(ls, j - 1);
        if prev.len() == 0 {
            j = j - 1;
        } else if starts_with_lit(&prev, "// HTTP:") {
            let rest = trim_chars(&trim_start_matches(&prev, &chars_of("// HTTP:")));
            let toks = split_whitespace(&rest);
            let method = if toks.len() > 0 {
                assert(toks[0]@ == views(toks@)[0]);
                let up = str_upper(string_of(&toks[0]).as_str());
                Some(chars_of(up.as_str()))
            } else {
                None
            };
            let path = if toks.len() > 1 {
                assert(toks[1]@ == views(toks@)[1]);
                Some(toks[1].clone())
            } else {
                None
            };
            return (method, path);
        } else if starts_with_lit(&prev, "//") {
            j = j - 1;
        } else {
            return (None, None);
        }
    }
    (None, None)
}

/// The alias a `type` line declares, if it has an `=`.
fn parse_alias_line(line: &Vec<char>) -> (r: Option<(Vec<char>, Vec<char>)>)
    ensures
        r matches Some(a) ==> alias_of_line(line@) == Some((a.0@, a.1@)),
        r is None ==> alias_of_line(line@) is None,
{
    let rest = trim_chars(
        &trim_end_matches(&trim_start_matches(line, &chars_of("type ")), &chars_of(";")),
    );
    match find_char_exec(&rest, '=') {
        Some(k) => {
            proof {
                lemma_find_char_from(rest@, '=', 0);
            }
            let name = strip_wit_escape(&trim_chars(&slice_of(&rest, 0, k)));
            let rhs = trim_chars(&slice_of(&rest, k + 1, rest.len()));
            assert(rest@.subrange(0, k as int) == rest@.take(k as int));
            assert(rest@.subrange(k + 1, rest@.len() as int) == rest@.skip(k + 1));
            Some((name, rhs))
        },
        None => None,
    }
}

fn header_name_exec(line: &Vec<char>, keyword: &str) -> (r: Vec<char>)
    ensures
        r@ == header_name(line@, keyword@),
{
    strip_wit_escape(
        &trim_chars(&trim_end_matches(&trim_start_matches(line, &chars_of(keyword)), &chars_of(" {"))),
    )
}

/// The line after a block's closing line, capped at the end of the file.
fn next_line(close: usize, len: usize) -> (r: usize)
    requires
        close <= len,
    ensures
        r <= len,
        close < len ==> r == close + 1,
        close == len ==> r == len,
{
    if close < len {
        close + 1
    } else {
        len
    }
}

fn parse_wit_lines(ls: &Vec<Vec<char>>) -> (r: Option<WitTypes>)
    ensures
        r matches Some(w) ==> parse_from(views(ls@), 0, empty_types()) == Some(w@),
        r is None ==> parse_from(views(ls@), 0, empty_types()) is None,
{
    let ghost l = views(ls@);
    let mut acc = WitTypes {
        signatures: Vec::new(),
        records: Vec::new(),
        variants: Vec::new(),
        enums: Vec::new(),
        aliases: Vec::new(),
    };
    assert(acc@ =~= empty_types());
    let mut i: usize = 0;
    while i < ls.len()
        invariant
            l == views(ls@),
            i <= ls.len(),
            parse_from(l, 0, empty_types()) == parse_from(l, i as int, acc@),
        decreases ls.len() - i,
    {
        let line = trimmed_line(ls, i);
        let ghost i0 = i as int;
        let ghost a0 = acc@;
        if starts_with_lit(&line, "type ") {
            match parse_alias_line(&line) {
                Some(a) => {
                    let ghost old_acc = acc@;
                    acc.aliases.push(a);
                    assert(acc@ =~= WitTypesM { aliases: old_acc.aliases.push((a.0@, a.1@)), ..old_acc });
                },
                None => {},
            }
            i = i + 1;
            assert(parse_from(l, i0, a0) == parse_from(l, i as int, acc@));
        } else if starts_with_lit(&line, "record ") {
            let name = header_name_exec(&line, "record ");
            proof {
                lemma_fields_from(l, i + 1);
            }
            proof {
                reveal_strlit("-signature-");
            }
            if contains_exec(&name, &chars_of("-signature-")) {
                let parts = split_sub_exec(&name, &chars_of("-signature-"));
                if parts.len() != 2 {
                    i = i + 1;
                    assert(parse_from(l, i0, a0) == parse_from(l, i as int, acc@));
                } else {
                    assert(parts[0]@ == views(parts@)[0]);
                    assert(parts[1]@ == views(parts@)[1]);
                    let http = if eq_lit(&parts[1], "http") {
                        scan_http(ls, i)
                    } else {
                        (None, None)
                    };
                    let body = parse_fields(ls, i + 1);
                    let sig = SignatureStruct {
                        function_name: parts[0].clone(),
                        attr_type: parts[1].clone(),
                        fields: body.0,
                        http_method: http.0,
                        http_path: http.1,
                    };
                    let ghost old_acc = acc@;
                    acc.signatures.push(sig);
                    assert(acc@ =~= WitTypesM {
                        signatures: old_acc.signatures.push(sig@),
                        ..old_acc
                    });
                    assert(parse_from(l, i0, a0) == parse_from(l, body.1 + 1, acc@));
                    i = next_line(body.1, ls.len());
                    assert(parse_from(l, i0, a0) == parse_from(l, i as int, acc@));
                }
            } else {
                let body = parse_fields(ls, i + 1);
                let rec = WitRecord { name, fields: body.0 };
                let ghost old_acc = acc@;
                acc.records.push(rec);
                assert(acc@ =~= WitTypesM { records: old_acc.records.push(rec@), ..old_acc });
                i = next_line(body.1, ls.len());
                assert(parse_from(l, i0, a0) == parse_from(l, i as int, acc@));
            }
        } else if starts_with_lit(&line, "variant ") {
            proof {
                lemma_cases_from(l, i + 1);
            }
            match parse_cases(ls, i + 1) {
                Some(body) => {
                    let v = WitVariant { name: header_name_exec(&line, "variant "), cases: body.0 };
                    let ghost old_acc = acc@;
                    acc.variants.push(v);
                    assert(acc@ =~= WitTypesM { variants: old_acc.variants.push(v@), ..old_acc });
                    assert(parse_from(l, i0, a0) == parse_from(l, body.1 + 1, acc@));
                    i = next_line(body.1, ls.len());
                    assert(parse_from(l, i0, a0) == parse_from(l, i as int, acc@));
                },
                None => {
                    return None;
                },
            }
        } else if starts_with_lit(&line, "enum ") {
            proof {
                lemma_enum_cases_from(l, i + 1);
            }
            let body = parse_enum_cases(ls, i + 1);
            let e = WitEnum { name: header_name_exec(&line, "enum "), cases: body.0 };
            let ghost old_acc = acc@;
            acc.enums.push(e);
            assert(acc@ =~= WitTypesM { enums: old_acc.enums.push(e@), ..old_acc });
            assert(parse_from(l, i0, a0) == parse_from(l, body.1 + 1, acc@));
            i = next_line(body.1, ls.len());
            assert(parse_from(l, i0, a0) == parse_from(l, i as int, acc@));
        } else {
            i = i + 1;
        }
    }
    Some(acc)
}

/// Reads a WIT file's text, or `None` on the input where reading it would
/// slice out of order.
pub fn read_wit(content: &Vec<char>) -> (r: Option<WitTypes>)
    ensures
        r matches Some(w) ==> parse_wit(content@) == Some(w@),
        r is None ==> parse_wit(content@) is None,
{
    let ls = lines_exec(content);
    parse_wit_lines(&ls)
}

/// Tells whether reading `content` stays clear of the panic `parse_wit`
/// excludes.
pub fn wit_content_parses(content: &str) -> (b: bool)
    ensures
        b == parse_wit(content@) is Some,
{
    let ls = lines_exec(&chars_of(content));
    parse_wit_lines(&ls).is_some()
}

/// Reads the aliases, records, signature records, variants and enums of a
/// WIT file's text.
pub fn parse_wit_content(content: &str) -> (r: WitTypes)
    requires
        parse_wit(content@) is Some,
    ensures
        parse_wit(content@) == Some(r@),
{
    let ls = lines_exec(&chars_of(content));
    parse_wit_lines(&ls).unwrap()
}

} // verus!
