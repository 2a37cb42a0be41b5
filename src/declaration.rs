//! Property declarations: `name: value [!important]`.
use vstd::prelude::*;
use crate::error::{CustomParseError, ParseError, error_at};
use crate::scan::{
    SourceLocation, ident_starts, is_ws, is_white, location, name_run, read_ident, skip_ws,
    ws_end,
};
use crate::text::{
    chars_of, eq_ignore_case, equals_ignoring_case_str, has_prefix, lower_seq,
    push_str, starts_with, string_of, to_lower,
};

verus! {

/// A vendor prefix such as `-webkit-`, held without its hyphens.
#[derive(Clone, Debug, PartialEq, Eq, PartialOrd, Ord, Hash)]
pub struct VendorPrefix {
    pub name: String,
}

/// The keywords that any property accepts.
#[derive(Clone, Copy, Debug, PartialEq, Eq, Structural, PartialOrd, Ord, Hash)]
pub enum CssWideKeyword {
    Initial,
    Inherit,
    Unset,
}

/// A property value kept as the text that was written.
#[derive(Clone, Debug, PartialEq, Eq, PartialOrd, Ord, Hash)]
pub struct SpecifiedValue {
    pub text: String,
}

/// A property value that has not been parsed further.
#[derive(Clone, Debug, PartialEq, Eq, PartialOrd, Ord, Hash)]
pub enum UnparsedPropertyValue {
    CssWideKeyword(CssWideKeyword),
    SpecifiedValue(SpecifiedValue),
}

/// Whether a declaration carries `!important`.
#[derive(Clone, Copy, Debug, PartialEq, Eq, Structural, PartialOrd, Ord, Hash)]
pub enum Importance {
    Normal,
    Important,
}

impl Importance {
    pub fn isImportant(&self) -> (r: bool)
        ensures
            r == (*self == Importance::Important),
    {
        match self {
            Importance::Normal => false,
            Importance::Important => true,
        }
    }
}

/// One property declaration.
#[derive(Clone, Debug, PartialEq, Eq, PartialOrd, Ord, Hash)]
pub struct PropertyDeclaration {
    pub vendor_prefix: Option<VendorPrefix>,
    pub name: String,
    pub value: UnparsedPropertyValue,
    pub importance: Importance,
}

/// The position of the first hyphen at or after `from`, if any.
pub open spec fn first_hyphen_from(n: Seq<char>, from: int) -> Option<int>
    decreases n.len() - from,
{
    if from < 0 || from >= n.len() {
        None
    } else if n[from] == '-' {
        Some(from)
    } else {
        first_hyphen_from(n, from + 1)
    }
}

/// Splits a lower-case property name into its vendor prefix and the rest. A
/// name that starts with `--` is a custom property name and has no prefix; a
/// name `-p-rest` with `p` and `rest` not empty has prefix `p`.
pub open spec fn vendor_split(n: Seq<char>) -> (Option<Seq<char>>, Seq<char>) {
    if starts_with(n, seq!['-', '-']) || n.len() == 0 || n[0] != '-' {
        (None, n)
    } else {
        match first_hyphen_from(n, 1) {
            Some(k) => if k + 1 < n.len() {
                (Some(n.subrange(1, k)), n.subrange(k + 1, n.len() as int))
            } else {
                (None, n)
            },
            None => (None, n),
        }
    }
}

/// Splits a lower-case property name into its vendor prefix and the rest.
pub fn split_vendor_prefix(n: &Vec<char>) -> (r: (Option<Vec<char>>, Vec<char>))
    ensures
        r.1@ == vendor_split(n@).1,
        r.0 is Some <==> vendor_split(n@).0 is Some,
        r.0 matches Some(p) ==> vendor_split(n@).0 == Some(p@),
{
    if has_prefix(n.as_slice(), "--") || n.len() == 0 || n[0] != '-' {
        proof {
            reveal_strlit("--");
            assert("--"@ =~= seq!['-', '-']);
        }
        return (None, n.clone());
    }
    proof {
        reveal_strlit("--");
        assert("--"@ =~= seq!['-', '-']);
    }
    let mut k: usize = 1;
    while k < n.len() && n[k] != '-'
        invariant
            1 <= k <= n@.len(),
            first_hyphen_from(n@, 1) == first_hyphen_from(n@, k as int),
        decreases n@.len() - k,
    {
        k = k + 1;
    }
    if k < n.len() - 1 {
        let mut p: Vec<char> = Vec::new();
        let mut rest: Vec<char> = Vec::new();
        let mut i: usize = 1;
        while i < k
            invariant
                1 <= i <= k,
                k < n@.len(),
                p@ == n@.subrange(1, i as int),
            decreases k - i,
        {
            p.push(n[i]);
            i = i + 1;
        }
        let mut j: usize = k + 1;
        while j < n.len()
            invariant
                k + 1 <= j <= n@.len(),
                rest@ == n@.subrange(k + 1, j as int),
            decreases n@.len() - j,
        {
            rest.push(n[j]);
            j = j + 1;
        }
        (Some(p), rest)
    } else {
        (None, n.clone())
    }
}

/// The wide keyword that a value's text names, ignoring case.
pub open spec fn wide_keyword_of(t: Seq<char>) -> Option<CssWideKeyword> {
    if eq_ignore_case(t, "initial"@) {
        Some(CssWideKeyword::Initial)
    } else if eq_ignore_case(t, "inherit"@) {
        Some(CssWideKeyword::Inherit)
    } else if eq_ignore_case(t, "unset"@) {
        Some(CssWideKeyword::Unset)
    } else {
        None
    }
}

/// Reads a value's text as a wide keyword where it is one.
pub fn parse_wide_keyword(t: &[char]) -> (r: Option<CssWideKeyword>)
    ensures
        r == wide_keyword_of(t@),
{
    if equals_ignoring_case_str(t, "initial") {
        Some(CssWideKeyword::Initial)
    } else if equals_ignoring_case_str(t, "inherit") {
        Some(CssWideKeyword::Inherit)
    } else if equals_ignoring_case_str(t, "unset") {
        Some(CssWideKeyword::Unset)
    } else {
        None
    }
}

/// Whether `[a, b)` is `[from, to)` with white space trimmed from both ends.
pub open spec fn trimmed(s: Seq<char>, from: int, to: int, a: int, b: int) -> bool {
    &&& from <= a <= b <= to
    &&& forall|k: int| from <= k < a ==> is_ws(#[trigger] s[k])
    &&& forall|k: int| b <= k < to ==> is_ws(#[trigger] s[k])
    &&& a < b ==> !is_ws(s[a]) && !is_ws(s[b - 1])
}

/// The first position in `[i, to)` that is not white space, or `to`.
pub open spec fn trim_lo(s: Seq<char>, i: int, to: int) -> int
    decreases to - i,
{
    if i < to && is_ws(s[i]) {
        trim_lo(s, i + 1, to)
    } else {
        i
    }
}

/// The end of `[a, b)` once white space is taken off its end.
pub open spec fn trim_hi(s: Seq<char>, a: int, b: int) -> int
    decreases b - a,
{
    if b > a && is_ws(s[b - 1]) {
        trim_hi(s, a, b - 1)
    } else {
        b
    }
}

/// Trims white space from both ends of `[from, to)`.
pub fn trim_span(s: &[char], from: usize, to: usize) -> (r: (usize, usize))
    requires
        from <= to <= s@.len(),
    ensures
        trimmed(s@, from as int, to as int, r.0 as int, r.1 as int),
        r.0 == trim_lo(s@, from as int, to as int),
        r.1 == trim_hi(s@, r.0 as int, to as int),
{
    let mut a = from;
    while a < to && is_white(s[a])
        invariant
            from <= a <= to <= s@.len(),
            trim_lo(s@, from as int, to as int) == trim_lo(s@, a as int, to as int),
            forall|k: int| from <= k < a ==> is_ws(#[trigger] s@[k]),
        decreases to - a,
    {
        a = a + 1;
    }
    let mut b = to;
    while b > a && is_white(s[b - 1])
        invariant
            from <= a <= b <= to <= s@.len(),
            a == trim_lo(s@, from as int, to as int),
            trim_hi(s@, a as int, to as int) == trim_hi(s@, a as int, b as int),
            forall|k: int| b <= k < to ==> is_ws(#[trigger] s@[k]),
        decreases b - a,
    {
        b = b - 1;
    }
    (a, b)
}

/// The characters in `[a, b)`.
pub fn span_chars(s: &[char], a: usize, b: usize) -> (r: Vec<char>)
    requires
        a <= b <= s@.len(),
    ensures
        r@ == s@.subrange(a as int, b as int),
{
    let mut r: Vec<char> = Vec::new();
    let mut i = a;
    while i < b
        invariant
            a <= i <= b <= s@.len(),
            r@ == s@.subrange(a as int, i as int),
        decreases b - i,
    {
        r.push(s[i]);
        i = i + 1;
    }
    r
}

/// Where the value that starts at `i` ends in `[i, to)`: at the first `!`
/// outside quoted strings and escapes, or at `to`. `quote` is the quote of
/// the string that `i` is inside, which opened at `qstart`. A bare line break
/// in a string is an error at the string's start.
pub open spec fn value_scan(s: Seq<char>, to: int, i: int, quote: Option<char>, qstart: int) -> Result<
    int,
    int,
>
    decreases to - i,
{
    if i >= to {
        Ok(to)
    } else {
        match quote {
            None => if s[i] == '!' {
                Ok(i)
            } else if s[i] == '"' || s[i] == '\'' {
                value_scan(s, to, i + 1, Some(s[i]), i)
            } else if s[i] == '\\' && i + 1 < to {
                value_scan(s, to, i + 2, None, 0)
            } else {
                value_scan(s, to, i + 1, None, 0)
            },
            Some(q) => if s[i] == q {
                value_scan(s, to, i + 1, None, 0)
            } else if s[i] == '\n' {
                Err(qstart)
            } else if s[i] == '\\' && i + 1 < to {
                value_scan(s, to, i + 2, Some(q), qstart)
            } else {
                value_scan(s, to, i + 1, Some(q), qstart)
            },
        }
    }
}

/// A value's end is `to` or a `!`.
pub proof fn lemma_value_scan_stops_at_bang(
    s: Seq<char>,
    to: int,
    i: int,
    quote: Option<char>,
    qstart: int,
)
    ensures
        value_scan(s, to, i, quote, qstart) matches Ok(e) ==> e == to || (i <= e < to && s[e]
            == '!'),
    decreases to - i,
{
    if i < to {
        let r = value_scan(s, to, i, quote, qstart);
        match quote {
            None => {
                if s[i] == '"' || s[i] == '\'' {
                    lemma_value_scan_stops_at_bang(s, to, i + 1, Some(s[i]), i);
                } else if s[i] == '\\' && i + 1 < to {
                    lemma_value_scan_stops_at_bang(s, to, i + 2, None, 0);
                } else {
                    lemma_value_scan_stops_at_bang(s, to, i + 1, None, 0);
                }
            },
            Some(q) => {
                if s[i] == q {
                    lemma_value_scan_stops_at_bang(s, to, i + 1, None, 0);
                    assert(r == value_scan(s, to, i + 1, None, 0));
                } else if s[i] == '\n' {
                    assert(r is Err);
                } else if s[i] == '\\' && i + 1 < to {
                    lemma_value_scan_stops_at_bang(s, to, i + 2, Some(q), qstart);
                    assert(r == value_scan(s, to, i + 2, Some(q), qstart));
                } else {
                    lemma_value_scan_stops_at_bang(s, to, i + 1, Some(q), qstart);
                    assert(r == value_scan(s, to, i + 1, Some(q), qstart));
                }
            },
        }
    }
}

/// Finds the end of a value in `[from, to)`: the first `!` outside strings and
/// escapes, or `to`.
fn value_end(s: &[char], from: usize, to: usize) -> (r: Result<usize, ParseError>)
    requires
        from <= to <= s@.len(),
        s@.len() < usize::MAX,
    ensures
        match value_scan(s@, to as int, from as int, None, 0) {
            Ok(e) => r == Ok::<usize, ParseError>(e as usize),
            Err(q) => r == Err::<usize, ParseError>(
                ParseError { reason: CustomParseError::BadString, location: location_value(s@, q) },
            ),
        },
{
    let mut i = from;
    let mut quote: Option<char> = None;
    let mut qstart: usize = 0;
    while i < to
        invariant
            from <= i <= to <= s@.len(),
            s@.len() < usize::MAX,
            qstart <= i,
            value_scan(s@, to as int, from as int, None, 0) == value_scan(
                s@,
                to as int,
                i as int,
                quote,
                qstart as int,
            ),
        decreases to - i,
    {
        let c = s[i];
        match quote {
            None => {
                if c == '!' {
                    return Ok(i);
                } else if c == '"' || c == '\'' {
                    quote = Some(c);
                    qstart = i;
                    i = i + 1;
                } else if c == '\\' && i + 1 < to {
                    qstart = 0;
                    i = i + 2;
                } else {
                    qstart = 0;
                    i = i + 1;
                }
            },
            Some(q) => {
                if c == q {
                    quote = None;
                    qstart = 0;
                    i = i + 1;
                } else if c == '\n' {
                    return Err(error_at(s, qstart, CustomParseError::BadString));
                } else if c == '\\' && i + 1 < to {
                    i = i + 2;
                } else {
                    i = i + 1;
                }
            },
        }
    }
    Ok(to)
}

/// Whether `v` is what the trimmed text `t` of a value stands for: the wide
/// keyword it names, or else the text itself.
pub open spec fn value_from_text(v: UnparsedPropertyValue, t: Seq<char>) -> bool {
    match wide_keyword_of(t) {
        Some(k) => v == UnparsedPropertyValue::CssWideKeyword(k),
        None => v matches UnparsedPropertyValue::SpecifiedValue(x) && x.text@ == t,
    }
}

/// Classifies a value's trimmed text: a wide keyword, or kept as written.
pub fn classify_value(t: &Vec<char>) -> (r: UnparsedPropertyValue)
    ensures
        value_from_text(r, t@),
{
    match parse_wide_keyword(t.as_slice()) {
        Some(k) => UnparsedPropertyValue::CssWideKeyword(k),
        None => UnparsedPropertyValue::SpecifiedValue(SpecifiedValue { text: string_of(t) }),
    }
}

/// Where the parts of a declaration in `[from, to)` of `s` lie, or the
/// first error and its position. The parts are the name, the trimmed value,
/// whether `!important` follows, and where the value ends (its `!`, if any).
/// Inside a keyframe an `!important` is refused at its `!`; then anything
/// after the declaration is refused.
pub open spec fn declaration_shape(s: Seq<char>, from: int, to: int, keyframe: bool) -> Result<
    (int, int, int, int, bool, int),
    (CustomParseError, int),
> {
    let n0 = ws_end(s, from);
    if n0 >= to {
        Err((CustomParseError::ExpectedIdentifier, to))
    } else if !ident_starts(s, n0) || name_run(s, n0) > to {
        Err((CustomParseError::ExpectedIdentifier, n0))
    } else {
        let n1 = name_run(s, n0);
        let c = ws_end(s, n1);
        if c >= to || s[c] != ':' {
            Err((CustomParseError::ExpectedColon, if c < to { c } else { to }))
        } else {
            match value_scan(s, to, c + 1, None, 0) {
                Err(q) => Err((CustomParseError::BadString, q)),
                Ok(bang) => {
                    let a = trim_lo(s, c + 1, bang);
                    let b = trim_hi(s, a, bang);
                    if a == b {
                        Err((CustomParseError::EmptyPropertyValue, a))
                    } else if bang < to {
                        let i0 = ws_end(s, bang + 1);
                        if !ident_starts(s, i0) || name_run(s, i0) > to || !eq_ignore_case(
                            s.subrange(i0, name_run(s, i0)),
                            "important"@,
                        ) {
                            Err((CustomParseError::ExpectedImportant, i0))
                        } else if keyframe {
                            Err(
                                (
                                    CustomParseError::ImportantIsNotAllowedInKeyframePropertyDeclarationValues,
                                    bang,
                                ),
                            )
                        } else if ws_end(s, name_run(s, i0)) < to {
                            Err((CustomParseError::TrailingInput, ws_end(s, name_run(s, i0))))
                        } else {
                            Ok((n0, n1, a, b, true, bang))
                        }
                    } else if ws_end(s, bang) < to {
                        Err((CustomParseError::TrailingInput, ws_end(s, bang)))
                    } else {
                        Ok((n0, n1, a, b, false, bang))
                    }
                },
            }
        }
    }
}

/// Whether `d` is the declaration whose parts lie at `sh` in `s`: its name is
/// the lower-cased name with any vendor prefix split off, its value is read
/// from the trimmed value text, and it is important exactly where marked.
pub open spec fn declaration_from(s: Seq<char>, sh: (int, int, int, int, bool, int), d: PropertyDeclaration) -> bool {
    let n = lower_seq(s.subrange(sh.0, sh.1));
    &&& d.name@ == vendor_split(n).1
    &&& match d.vendor_prefix {
        Some(p) => vendor_split(n).0 == Some(p.name@),
        None => vendor_split(n).0 is None,
    }
    &&& value_from_text(d.value, s.subrange(sh.2, sh.3))
    &&& (d.importance == Importance::Important <==> sh.4)
}

/// What parsing `[from, to)` of `s` returns.
pub open spec fn declaration_result(
    s: Seq<char>,
    from: int,
    to: int,
    keyframe: bool,
    r: Result<PropertyDeclaration, ParseError>,
) -> bool {
    match declaration_shape(s, from, to, keyframe) {
        Ok(sh) => r matches Ok(d) && declaration_from(s, sh, d),
        Err((reason, pos)) => r == Err::<PropertyDeclaration, ParseError>(
            ParseError { reason, location: location_value(s, pos) },
        ),
    }
}

/// The location of position `k`, as a value.
pub open spec fn location_value(s: Seq<char>, k: int) -> SourceLocation {
    SourceLocation { line: location(s, k).0 as usize, column: location(s, k).1 as usize }
}

/// A declaration that is accepted outside a keyframe with `!important` is
/// refused inside one, at its `!`; one without `!important` is read the same
/// in both.
pub proof fn lemma_important_only_outside_keyframes(s: Seq<char>, from: int, to: int)
    requires
        0 <= from <= to <= s.len(),
    ensures
        declaration_shape(s, from, to, false) matches Ok(sh) ==> (sh.4 ==> declaration_shape(
            s,
            from,
            to,
            true,
        ) == Err::<(int, int, int, int, bool, int), (CustomParseError, int)>(
            (CustomParseError::ImportantIsNotAllowedInKeyframePropertyDeclarationValues, sh.5),
        ) && s[sh.5] == '!'),
        declaration_shape(s, from, to, false) matches Ok(sh) ==> (!sh.4 ==> declaration_shape(
            s,
            from,
            to,
            true,
        ) == declaration_shape(s, from, to, false)),
{
    let n0 = ws_end(s, from);
    if n0 < to && ident_starts(s, n0) && name_run(s, n0) <= to {
        let c = ws_end(s, name_run(s, n0));
        if c < to && s[c] == ':' {
            lemma_value_scan_stops_at_bang(s, to, c + 1, None, 0);
        }
    }
}

/// Parses the declaration in `[from, to)` of `s`: a name, `:`, a value and an
/// optional `!important`, with nothing after. Where `keyframe` holds, an
/// `!important` is refused, with the location of its `!`.
pub fn parse_declaration(s: &[char], from: usize, to: usize, keyframe: bool) -> (r: Result<
    PropertyDeclaration,
    ParseError,
>)
    requires
        from <= to <= s@.len(),
        s@.len() < usize::MAX,
    ensures
        declaration_result(s@, from as int, to as int, keyframe, r),
{
    let n0 = skip_ws(s, from);
    if n0 >= to {
        return Err(error_at(s, to, CustomParseError::ExpectedIdentifier));
    }
    let n1 = match read_ident(s, n0) {
        Some(e) => e,
        None => {
            return Err(error_at(s, n0, CustomParseError::ExpectedIdentifier));
        },
    };
    if n1 > to {
        return Err(error_at(s, n0, CustomParseError::ExpectedIdentifier));
    }
    let raw = span_chars(s, n0, n1);
    let lowered = to_lower(raw.as_slice());
    let (prefix, unprefixed) = split_vendor_prefix(&lowered);
    let c = skip_ws(s, n1);
    if c >= to || s[c] != ':' {
        return Err(error_at(s, if c < to { c } else { to }, CustomParseError::ExpectedColon));
    }
    let v0 = c + 1;
    proof {
        lemma_value_scan_stops_at_bang(s@, to as int, v0 as int, None, 0);
    }
    let bang = value_end(s, v0, to)?;
    let (a, b) = trim_span(s, v0, bang);
    if a == b {
        return Err(error_at(s, a, CustomParseError::EmptyPropertyValue));
    }
    let text = span_chars(s, a, b);
    let value = classify_value(&text);
    let mut importance = Importance::Normal;
    let mut end = bang;
    if bang < to {
        let i0 = skip_ws(s, bang + 1);
        let i1 = match read_ident(s, i0) {
            Some(e) => e,
            None => {
                return Err(error_at(s, i0, CustomParseError::ExpectedImportant));
            },
        };
        if i1 > to || !equals_ignoring_case_str(&s[i0..i1], "important") {
            return Err(error_at(s, i0, CustomParseError::ExpectedImportant));
        }
        if keyframe {
            return Err(
                error_at(
                    s,
                    bang,
                    CustomParseError::ImportantIsNotAllowedInKeyframePropertyDeclarationValues,
                ),
            );
        }
        importance = Importance::Important;
        end = i1;
    }
    let t = skip_ws(s, end);
    if t < to {
        return Err(error_at(s, t, CustomParseError::TrailingInput));
    }
    let vendor_prefix = match prefix {
        Some(p) => Some(VendorPrefix { name: string_of(&p) }),
        None => None,
    };
    let d = PropertyDeclaration { vendor_prefix, name: string_of(&unprefixed), value, importance };
    proof {
        assert(raw@ == s@.subrange(n0 as int, n1 as int));
        assert(text@ == s@.subrange(a as int, b as int));
    }
    Ok(d)
}

/// The text of a wide keyword.
pub open spec fn wide_keyword_css(k: CssWideKeyword) -> Seq<char> {
    match k {
        CssWideKeyword::Initial => "initial"@,
        CssWideKeyword::Inherit => "inherit"@,
        CssWideKeyword::Unset => "unset"@,
    }
}

/// The text of a value.
pub open spec fn value_css(v: UnparsedPropertyValue) -> Seq<char> {
    match v {
        UnparsedPropertyValue::CssWideKeyword(k) => wide_keyword_css(k),
        UnparsedPropertyValue::SpecifiedValue(t) => t.text@,
    }
}

/// The text of an importance marker: empty where there is none.
pub open spec fn importance_css(i: Importance) -> Seq<char> {
    match i {
        Importance::Normal => Seq::empty(),
        Importance::Important => "!important"@,
    }
}

/// The text of a declaration: prefix, name, `:`, value, importance, `;`.
pub open spec fn declaration_css(d: PropertyDeclaration) -> Seq<char> {
    let p = match d.vendor_prefix {
        Some(v) => seq!['-'] + v.name@ + seq!['-'],
        None => Seq::empty(),
    };
    p + d.name@ + seq![':'] + value_css(d.value) + importance_css(d.importance) + seq![';']
}

/// Appends the text of a value.
pub fn write_value(out: &mut Vec<char>, v: &UnparsedPropertyValue)
    ensures
        final(out)@ == old(out)@ + value_css(*v),
{
    match v {
        UnparsedPropertyValue::CssWideKeyword(CssWideKeyword::Initial) => push_str(out, "initial"),
        UnparsedPropertyValue::CssWideKeyword(CssWideKeyword::Inherit) => push_str(out, "inherit"),
        UnparsedPropertyValue::CssWideKeyword(CssWideKeyword::Unset) => push_str(out, "unset"),
        UnparsedPropertyValue::SpecifiedValue(t) => push_str(out, t.text.as_str()),
    }
}

impl PropertyDeclaration {
    /// Parses one declaration, `name: value [!important]`, with nothing after.
    /// Inside a keyframe's declarations (`keyframe`) `!important` is refused.
    pub fn parse(css: &str, keyframe: bool) -> (r: Result<PropertyDeclaration, ParseError>)
        requires
            css@.len() < usize::MAX,
        ensures
            declaration_result(css@, 0, css@.len() as int, keyframe, r),
    {
        let s = chars_of(css);
        parse_declaration(s.as_slice(), 0, s.len(), keyframe)
    }

    /// The declaration's text, ended by `;`.
    pub fn to_css(&self) -> (r: String)
        ensures
            r@ == declaration_css(*self),
    {
        let mut out: Vec<char> = Vec::new();
        if let Some(p) = &self.vendor_prefix {
            out.push('-');
            push_str(&mut out, p.name.as_str());
            out.push('-');
        }
        push_str(&mut out, self.name.as_str());
        out.push(':');
        write_value(&mut out, &self.value);
        if self.importance.isImportant() {
            push_str(&mut out, "!important");
        }
        out.push(';');
        proof {
            assert(out@ =~= declaration_css(*self));
        }
        string_of(&out)
    }

    /// Whether the name is a custom property name: it starts with `--`.
    pub fn hasACustomPropertyName(&self) -> (r: bool)
        ensures
            r == starts_with(self.name@, seq!['-', '-']),
    {
        let n = chars_of(self.name.as_str());
        proof {
            reveal_strlit("--");
            assert("--"@ =~= seq!['-', '-']);
        }
        has_prefix(n.as_slice(), "--")
    }

    /// Whether the name starts with `-` without being a custom property name.
    pub fn hasAVendorPrefix(&self) -> (r: bool)
        ensures
            r == (!starts_with(self.name@, seq!['-', '-']) && starts_with(self.name@, seq!['-'])),
    {
        if self.hasACustomPropertyName() {
            false
        } else {
            let n = chars_of(self.name.as_str());
            proof {
                reveal_strlit("-");
                assert("-"@ =~= seq!['-']);
            }
            has_prefix(n.as_slice(), "-")
        }
    }

    /// Whether the name equals `name`, ignoring ASCII case.
    pub fn hasAsciiNameIgnoringCase(&self, name: &str) -> (r: bool)
        ensures
            r == eq_ignore_case(self.name@, name@),
    {
        let n = chars_of(self.name.as_str());
        equals_ignoring_case_str(n.as_slice(), name)
    }
}

/// A name written with a leading `--` is a custom property name: in any case
/// of letters, it keeps no vendor prefix and stays whole.
pub proof fn lemma_custom_property_name_has_no_vendor_prefix(raw: Seq<char>)
    requires
        starts_with(raw, seq!['-', '-']),
    ensures
        vendor_split(lower_seq(raw)) == (None::<Seq<char>>, lower_seq(raw)),
        starts_with(lower_seq(raw), seq!['-', '-']),
{
    let l = lower_seq(raw);
    assert(raw[0] == raw.subrange(0, 2)[0]);
    assert(raw[1] == raw.subrange(0, 2)[1]);
    assert(l.subrange(0, 2) =~= seq!['-', '-']);
}

} // verus!
