//! A whole stylesheet: its rules, the namespace table, the source-map
//! directives, parsing and serialisation.
use vstd::prelude::*;
use crate::counter_style::{
    CounterStyleAtRule, CounterStyleIdent, CounterStyleView, valid_counter_style, validation_error,
};
use crate::counter_style_css::counter_style_css;
use crate::counter_style_parser::{body_view, parse_counter_style_body};
use crate::declaration::{
    PropertyDeclaration, declaration_css, declaration_from, declaration_shape, parse_declaration,
    span_chars, trim_hi, trim_lo, trim_span,
};
use crate::error::{CustomParseError, ParseError, error_at};
use crate::media::{ExpressionKind, parse_feature_expression};
use crate::rule_list::{RuleKind, State, next_state, run, step};
use crate::scan::{ident_starts, is_white, is_ws, name_run, read_ident, read_string, skip_ws, string_at, ws_end};
use crate::text::{chars_of, eq_ignore_case, equals_ignoring_case_str, push_str, string_of};
use crate::values::{Failure, failure_error, find_unquoted, unquoted_from};

verus! {

/// A style rule: its selectors, as written, and its declarations.
#[derive(Clone, Debug, PartialEq, Eq)]
pub struct StyleRule {
    pub selectors: String,
    pub declarations: Vec<PropertyDeclaration>,
}

/// An `@media` rule: its query as written, the feature expressions read
/// from it, and the style rules inside.
#[derive(Clone, Debug, PartialEq, Eq)]
pub struct MediaRule {
    pub query: String,
    pub expressions: Vec<ExpressionKind>,
    pub rules: Vec<StyleRule>,
}

/// One rule of a stylesheet.
#[derive(Clone, Debug, PartialEq, Eq)]
pub enum CssRule {
    CounterStyle(CounterStyleAtRule),
    Media(MediaRule),
    Style(StyleRule),
}

/// The rules of a stylesheet, in order.
#[derive(Clone, Debug, PartialEq, Eq)]
pub struct CssRules(pub Vec<CssRule>);

/// The namespace prefixes declared by `@namespace` rules, in order; a later
/// declaration of a prefix hides an earlier one.
#[derive(Clone, Debug, PartialEq, Eq)]
pub struct Namespaces {
    pub entries: Vec<(Option<String>, String)>,
}

/// The views of a prefix and a URL.
pub open spec fn entry_view(e: (Option<String>, String)) -> (Option<Seq<char>>, Seq<char>) {
    (prefix_view(e.0), e.1@)
}

/// The view of a prefix asked for.
pub open spec fn query_view(p: Option<&str>) -> Option<Seq<char>> {
    match p {
        Some(x) => Some(x@),
        None => None,
    }
}

/// The view of an optional prefix.
pub open spec fn prefix_view(p: Option<String>) -> Option<Seq<char>> {
    match p {
        Some(x) => Some(x@),
        None => None,
    }
}

/// The URL bound to `prefix` by the last declaration of it.
pub open spec fn namespace_lookup(es: Seq<(Option<Seq<char>>, Seq<char>)>, prefix: Option<
    Seq<char>,
>) -> Option<Seq<char>>
    decreases es.len(),
{
    if es.len() == 0 {
        None
    } else if es.last().0 == prefix {
        Some(es.last().1)
    } else {
        namespace_lookup(es.drop_last(), prefix)
    }
}

impl Namespaces {
    pub open spec fn view_entries(&self) -> Seq<(Option<Seq<char>>, Seq<char>)> {
        Seq::new(self.entries@.len(), |i: int| entry_view(self.entries@[i]))
    }

    pub fn empty() -> (r: Namespaces)
        ensures
            r.view_entries().len() == 0,
    {
        Namespaces { entries: Vec::new() }
    }

    /// Binds `prefix` (or the default namespace, for `None`) to `url`.
    pub fn insert(&mut self, prefix: Option<String>, url: String)
        ensures
            final(self).view_entries() == old(self).view_entries().push(
                entry_view((prefix, url)),
            ),
    {
        self.entries.push((prefix, url));
        assert(final(self).view_entries() =~= old(self).view_entries().push(
            entry_view((prefix, url)),
        ));
    }

    /// The URL that `prefix` is bound to.
    pub fn lookup(&self, prefix: Option<&str>) -> (r: Option<String>)
        ensures
            match r {
                Some(u) => namespace_lookup(self.view_entries(), query_view(prefix)) == Some(u@),
                None => namespace_lookup(self.view_entries(), query_view(prefix)) is None,
            },
    {
        let ghost want = query_view(prefix);
        let mut i = self.entries.len();
        assert(self.view_entries().subrange(0, i as int) =~= self.view_entries());
        while i > 0
            invariant
                i <= self.entries@.len(),
                want == query_view(prefix),
                namespace_lookup(self.view_entries(), want) == namespace_lookup(
                    self.view_entries().subrange(0, i as int),
                    want,
                ),
            decreases i,
        {
            let ghost sub = self.view_entries().subrange(0, i as int);
            assert(sub.drop_last() =~= self.view_entries().subrange(0, i - 1));
            let e = &self.entries[i - 1];
            assert(sub.last() == entry_view(*e));
            let same = same_prefix(&e.0, prefix);
            assert(same == (prefix_view(e.0) == want));
            assert(sub.last().0 == prefix_view(e.0));
            if same {
                assert(namespace_lookup(sub, want) == Some(sub.last().1));
                let u = e.1.clone();
                return Some(u);
            }
            assert(namespace_lookup(sub, want) == namespace_lookup(sub.drop_last(), want));
            i = i - 1;
        }
        assert(self.view_entries().subrange(0, 0) =~= Seq::<(Option<Seq<char>>, Seq<char>)>::empty());
        None
    }
}

/// Whether a bound prefix is the one asked for.
fn same_prefix(a: &Option<String>, b: Option<&str>) -> (r: bool)
    ensures
        r == (prefix_view(*a) == query_view(b)),
{
    match a {
        Some(x) => match b {
            Some(y) => {
                let av = chars_of(x.as_str());
                let bv = chars_of(y);
                same_chars(&av, &bv)
            },
            None => false,
        },
        None => b.is_none(),
    }
}

/// Whether two vectors hold the same characters.
fn same_chars(a: &Vec<char>, b: &Vec<char>) -> (r: bool)
    ensures
        r == (a@ == b@),
{
    if a.len() != b.len() {
        return false;
    }
    let mut i: usize = 0;
    while i < a.len()
        invariant
            a@.len() == b@.len(),
            i <= a@.len(),
            forall|j: int| 0 <= j < i ==> a@[j] == b@[j],
        decreases a@.len() - i,
    {
        if a[i] != b[i] {
            return false;
        }
        i = i + 1;
    }
    assert(a@ =~= b@);
    true
}

/// A parsed stylesheet.
#[derive(Clone, Debug, PartialEq, Eq)]
pub struct Stylesheet {
    /// The stylesheet's rules.
    pub rules: CssRules,
    /// An optional source map for this stylesheet.
    pub source_map_url: Option<String>,
    /// An optional source URL for this stylesheet.
    pub source_url: Option<String>,
    /// The namespaces that its `@namespace` rules declared.
    pub namespaces: Namespaces,
}

/// Access to a collection of rules.
pub trait HasCssRules {
    /// The rules, in order.
    spec fn rules_view(&self) -> Seq<CssRule>;

    fn css_rules(&self) -> (r: &CssRules)
        ensures
            r.0@ == self.rules_view(),
    ;

    fn css_rules_mut(&mut self) -> (r: &mut CssRules)
        ensures
            r.0@ == old(self).rules_view(),
    ;

    fn css_rules_slice(&self) -> (r: &[CssRule])
        ensures
            r@ == self.rules_view(),
    ;

    fn css_rules_vec(&self) -> (r: &Vec<CssRule>)
        ensures
            r@ == self.rules_view(),
    ;

    fn css_rules_vec_mut(&mut self) -> (r: &mut Vec<CssRule>)
        ensures
            r@ == old(self).rules_view(),
    ;
}

impl HasCssRules for Stylesheet {
    open spec fn rules_view(&self) -> Seq<CssRule> {
        self.rules.0@
    }

    fn css_rules(&self) -> (r: &CssRules) {
        &self.rules
    }

    fn css_rules_mut(&mut self) -> (r: &mut CssRules) {
        &mut self.rules
    }

    fn css_rules_slice(&self) -> (r: &[CssRule]) {
        self.rules.0.as_slice()
    }

    fn css_rules_vec(&self) -> (r: &Vec<CssRule>) {
        &self.rules.0
    }

    fn css_rules_vec_mut(&mut self) -> (r: &mut Vec<CssRule>) {
        &mut self.rules.0
    }
}

/// Every counter-style rule in the list passes its checks.
pub open spec fn rules_valid(rs: Seq<CssRule>) -> bool {
    forall|i: int|
        0 <= i < rs.len() ==> ((#[trigger] rs[i]) matches CssRule::CounterStyle(c)
            ==> valid_counter_style(c@))
}

/// Declarations, each with its `;`, one after the other.
pub open spec fn declarations_css(ds: Seq<PropertyDeclaration>) -> Seq<char>
    decreases ds.len(),
{
    if ds.len() == 0 {
        Seq::empty()
    } else {
        declarations_css(ds.drop_last()) + declaration_css(ds.last())
    }
}

/// The text of a style rule.
pub open spec fn style_rule_css(st: StyleRule) -> Seq<char> {
    st.selectors@ + seq!['{'] + declarations_css(st.declarations@) + seq!['}']
}

/// Style rules one after the other.
pub open spec fn style_rules_css(rs: Seq<StyleRule>) -> Seq<char>
    decreases rs.len(),
{
    if rs.len() == 0 {
        Seq::empty()
    } else {
        style_rules_css(rs.drop_last()) + style_rule_css(rs.last())
    }
}

/// The text of one rule.
pub open spec fn rule_css(r: CssRule) -> Seq<char> {
    match r {
        CssRule::CounterStyle(c) => counter_style_css(c@),
        CssRule::Media(m) => "@media "@ + m.query@ + seq!['{'] + style_rules_css(m.rules@)
            + seq!['}'],
        CssRule::Style(st) => style_rule_css(st),
    }
}

/// Rules one after the other, with nothing between them.
pub open spec fn rules_css(rs: Seq<CssRule>) -> Seq<char>
    decreases rs.len(),
{
    if rs.len() == 0 {
        Seq::empty()
    } else {
        rules_css(rs.drop_last()) + rule_css(rs.last())
    }
}

/// The directive comment line for an optional URL.
pub open spec fn directive_css(name: Seq<char>, url: Option<String>, emit: bool) -> Seq<char> {
    match url {
        Some(u) => if emit {
            "//# "@ + name + "=<"@ + u@ + seq!['>', '\n']
        } else {
            Seq::empty()
        },
        None => Seq::empty(),
    }
}

/// The text of a stylesheet: where asked, the source-map and source-URL
/// lines, then the rules.
pub open spec fn stylesheet_css(ss: Stylesheet, emit: bool) -> Seq<char> {
    directive_css("sourceMappingURL"@, ss.source_map_url, emit) + directive_css(
        "sourceURL"@,
        ss.source_url,
        emit,
    ) + rules_css(ss.rules.0@)
}

fn write_declarations(out: &mut Vec<char>, ds: &Vec<PropertyDeclaration>)
    ensures
        final(out)@ == old(out)@ + declarations_css(ds@),
{
    let ghost start = out@;
    let mut i: usize = 0;
    while i < ds.len()
        invariant
            i <= ds@.len(),
            out@ == start + declarations_css(ds@.subrange(0, i as int)),
        decreases ds@.len() - i,
    {
        let t = ds[i].to_css();
        push_str(out, t.as_str());
        proof {
            let next = ds@.subrange(0, i + 1);
            assert(next.drop_last() =~= ds@.subrange(0, i as int));
            assert(out@ =~= start + declarations_css(next));
        }
        i = i + 1;
    }
    assert(ds@.subrange(0, ds@.len() as int) =~= ds@);
}

fn write_style_rule(out: &mut Vec<char>, st: &StyleRule)
    ensures
        final(out)@ == old(out)@ + style_rule_css(*st),
{
    push_str(out, st.selectors.as_str());
    out.push('{');
    write_declarations(out, &st.declarations);
    out.push('}');
    assert(final(out)@ =~= old(out)@ + style_rule_css(*st));
}

fn write_style_rules(out: &mut Vec<char>, rs: &Vec<StyleRule>)
    ensures
        final(out)@ == old(out)@ + style_rules_css(rs@),
{
    let ghost start = out@;
    let mut i: usize = 0;
    while i < rs.len()
        invariant
            i <= rs@.len(),
            out@ == start + style_rules_css(rs@.subrange(0, i as int)),
        decreases rs@.len() - i,
    {
        write_style_rule(out, &rs[i]);
        proof {
            let next = rs@.subrange(0, i + 1);
            assert(next.drop_last() =~= rs@.subrange(0, i as int));
            assert(out@ =~= start + style_rules_css(next));
        }
        i = i + 1;
    }
    assert(rs@.subrange(0, rs@.len() as int) =~= rs@);
}

fn write_rule(out: &mut Vec<char>, r: &CssRule)
    ensures
        final(out)@ == old(out)@ + rule_css(*r),
{
    match r {
        CssRule::CounterStyle(c) => {
            let t = c.to_css();
            push_str(out, t.as_str());
        },
        CssRule::Media(m) => {
            push_str(out, "@media ");
            push_str(out, m.query.as_str());
            out.push('{');
            write_style_rules(out, &m.rules);
            out.push('}');
            assert(final(out)@ =~= old(out)@ + rule_css(*r));
        },
        CssRule::Style(st) => write_style_rule(out, st),
    }
}

impl CssRules {
    /// Appends the rules' text, one after the other.
    pub fn write_css(&self, out: &mut Vec<char>)
        ensures
            final(out)@ == old(out)@ + rules_css(self.0@),
    {
        let ghost start = out@;
        let mut i: usize = 0;
        while i < self.0.len()
            invariant
                i <= self.0@.len(),
                out@ == start + rules_css(self.0@.subrange(0, i as int)),
            decreases self.0@.len() - i,
        {
            write_rule(out, &self.0[i]);
            proof {
                let next = self.0@.subrange(0, i + 1);
                assert(next.drop_last() =~= self.0@.subrange(0, i as int));
                assert(out@ =~= start + rules_css(next));
            }
            i = i + 1;
        }
        assert(self.0@.subrange(0, self.0@.len() as int) =~= self.0@);
    }
}

fn write_directive(out: &mut Vec<char>, name: &str, url: &Option<String>, emit: bool)
    ensures
        final(out)@ == old(out)@ + directive_css(name@, *url, emit),
{
    if emit {
        if let Some(u) = url {
            push_str(out, "//# ");
            push_str(out, name);
            push_str(out, "=<");
            push_str(out, u.as_str());
            out.push('>');
            out.push('\n');
            assert(final(out)@ =~= old(out)@ + directive_css(name@, *url, emit));
            return;
        }
    }
    assert(final(out)@ =~= old(out)@ + directive_css(name@, *url, emit));
}

/// Whether a `/*# name=` (or `/*@ name=`) directive comment opens at `i`.
pub open spec fn directive_at(s: Seq<char>, name: Seq<char>, i: int) -> bool {
    let n = name.len() as int;
    &&& 0 <= i && i + 4 + n < s.len()
    &&& s[i] == '/' && s[i + 1] == '*' && (s[i + 2] == '#' || s[i + 2] == '@')
    &&& is_ws(s[i + 3])
    &&& eq_ignore_case(s.subrange(i + 4, i + 4 + n), name)
    &&& s[i + 4 + n] == '='
}

/// The end of a directive's value that starts at `p`: the first white space
/// or `*`, or the end.
pub open spec fn directive_value_end(s: Seq<char>, p: int) -> int
    decreases s.len() - p,
{
    if p < 0 || p >= s.len() || is_ws(s[p]) || s[p] == '*' {
        p
    } else {
        directive_value_end(s, p + 1)
    }
}

/// The value of the directive that opens at `i`.
pub open spec fn directive_value(s: Seq<char>, name: Seq<char>, i: int) -> Seq<char> {
    let v0 = i + 5 + name.len();
    s.subrange(v0, directive_value_end(s, v0))
}

/// The value of the last directive named `name` in `s`, if there is one.
pub open spec fn last_directive(s: Seq<char>, name: Seq<char>, r: Option<Seq<char>>) -> bool {
    match r {
        Some(v) => exists|i: int|
            #[trigger] directive_at(s, name, i) && v == directive_value(s, name, i) && forall|
                j: int,
            |
                i < j < s.len() ==> !directive_at(s, name, j),
        None => forall|j: int| 0 <= j < s.len() ==> !directive_at(s, name, j),
    }
}

/// Finds the value of the last `/*# name=value */` (or `/*@ name=value */`)
/// comment: the characters after `=` up to white space or `*`.
fn find_directive(s: &[char], name: &str) -> (r: Option<Vec<char>>)
    ensures
        last_directive(
            s@,
            name@,
            match r {
                Some(v) => Some(v@),
                None => None,
            },
        ),
{
    let n = name.unicode_len();
    let mut found: Option<Vec<char>> = None;
    let ghost mut at: int = 0;
    let mut i: usize = 0;
    while i < s.len()
        invariant
            i <= s@.len(),
            n == name@.len(),
            match found {
                Some(v) => directive_at(s@, name@, at) && v@ == directive_value(s@, name@, at)
                    && at < i && forall|j: int| at < j < i ==> !directive_at(s@, name@, j),
                None => forall|j: int| 0 <= j < i ==> !directive_at(s@, name@, j),
            },
        decreases s@.len() - i,
    {
        if n < s.len() && 4 < s.len() - n && i < s.len() - 4 - n && s[i] == '/' && s[i + 1] == '*'
            && (s[i + 2] == '#' || s[i + 2] == '@') && is_white(s[i + 3])
            && equals_ignoring_case_str(&s[i + 4..i + 4 + n], name) && s[i + 4 + n] == '=' {
            let v0 = i + 5 + n;
            let mut e = v0;
            while e < s.len() && !is_white(s[e]) && s[e] != '*'
                invariant
                    v0 <= e <= s@.len(),
                    directive_value_end(s@, v0 as int) == directive_value_end(s@, e as int),
                decreases s@.len() - e,
            {
                e = e + 1;
            }
            found = Some(span_chars(s, v0, e));
            proof {
                at = i as int;
            }
        } else {
            assert(!directive_at(s@, name@, i as int));
        }
        i = i + 1;
    }
    found
}

/// Where the parts of a declaration lie: see `declaration_shape`.
pub type Shape = (int, int, int, int, bool, int);

/// The declarations of `[i, to)`, separated by `;`, after those in `acc`; or
/// the first failure.
pub open spec fn decls_acc(s: Seq<char>, to: int, i: int, acc: Seq<Shape>) -> Result<Seq<Shape>, Failure>
    decreases to - i,
{
    let a = ws_end(s, i);
    if i >= to || a >= to || a < i {
        Ok(acc)
    } else {
        match unquoted_from(s, a, to, ';') {
            Err(f) => Err(f),
            Ok(e) => if e < a || e > to {
                // positions only move forward
                Ok(acc)
            } else if e > a {
                match declaration_shape(s, a, e, false) {
                    Err(f) => Err(f),
                    Ok(sh) => decls_acc(s, to, if e < to { e + 1 } else { e }, acc.push(sh)),
                }
            } else {
                decls_acc(s, to, if e < to { e + 1 } else { e }, acc)
            },
        }
    }
}

/// Whether the declarations `ds` are those whose parts lie at `shs`.
pub open spec fn decls_from(s: Seq<char>, shs: Seq<Shape>, ds: Seq<PropertyDeclaration>) -> bool {
    &&& ds.len() == shs.len()
    &&& forall|k: int| 0 <= k < ds.len() ==> declaration_from(s, #[trigger] shs[k], ds[k])
}

/// Parses the declarations in `[from, to)`, separated by `;`.
fn parse_declarations(s: &[char], from: usize, to: usize) -> (r: Result<
    Vec<PropertyDeclaration>,
    ParseError,
>)
    requires
        from <= to <= s@.len(),
        s@.len() < usize::MAX,
    ensures
        match decls_acc(s@, to as int, from as int, Seq::empty()) {
            Ok(shs) => r matches Ok(ds) && decls_from(s@, shs, ds@),
            Err(f) => r == Err::<Vec<PropertyDeclaration>, ParseError>(failure_error(s@, f)),
        },
{
    let mut out: Vec<PropertyDeclaration> = Vec::new();
    let ghost mut shs: Seq<Shape> = Seq::empty();
    let mut i = from;
    while i < to
        invariant
            from <= i <= to <= s@.len(),
            s@.len() < usize::MAX,
            decls_acc(s@, to as int, from as int, Seq::empty()) == decls_acc(s@, to as int, i as int, shs),
            decls_from(s@, shs, out@),
        decreases to - i,
    {
        let a = skip_ws(s, i);
        let ghost here = decls_acc(s@, to as int, i as int, shs);
        if a >= to {
            assert(here == Ok::<Seq<Shape>, Failure>(shs));
            assert(decls_acc(s@, to as int, to as int, shs) == Ok::<Seq<Shape>, Failure>(shs));
            i = to;
        } else {
            let e = match find_unquoted(s, a, to, ';') {
                Ok(e) => e,
                Err(x) => {
                    return Err(x);
                },
            };
            let next = if e < to { e + 1 } else { e };
            if e > a {
                match parse_declaration(s, a, e, false) {
                    Ok(d) => {
                        let ghost sh = declaration_shape(s@, a as int, e as int, false)->Ok_0;
                        assert(here == decls_acc(s@, to as int, next as int, shs.push(sh)));
                        out.push(d);
                        proof {
                            let old_shs = shs;
                            shs = shs.push(sh);
                            assert forall|k: int| 0 <= k < out@.len() implies declaration_from(
                                s@,
                                #[trigger] shs[k],
                                out@[k],
                            ) by {
                                if k < out@.len() - 1 {
                                    assert(shs[k] == old_shs[k]);
                                }
                            }
                        }
                    },
                    Err(x) => {
                        return Err(x);
                    },
                }
            } else {
                assert(here == decls_acc(s@, to as int, next as int, shs));
            }
            i = next;
        }
    }
    assert(decls_acc(s@, to as int, i as int, shs) == Ok::<Seq<Shape>, Failure>(shs));
    Ok(out)
}

/// Reads a quoted string at `p` after white space; returns its text and end.
/// The quoted string after white space at `p`: its content and end.
pub open spec fn string_after(s: Seq<char>, p: int) -> Result<(Seq<char>, int), Failure> {
    let q = ws_end(s, p);
    if q >= s.len() {
        Err((CustomParseError::UnexpectedEndOfInput, q))
    } else if s[q] != '"' && s[q] != '\'' {
        Err((CustomParseError::UnexpectedCharacter(s[q]), q))
    } else {
        match string_at(s, q) {
            Some((t, e)) => Ok((t, e)),
            None => Err((CustomParseError::BadString, q)),
        }
    }
}

/// The position after a `;` that follows white space at `p`.
pub open spec fn semicolon_after(s: Seq<char>, p: int) -> Result<int, Failure> {
    let q = ws_end(s, p);
    if q >= s.len() {
        Err((CustomParseError::UnexpectedEndOfInput, q))
    } else if s[q] != ';' {
        Err((CustomParseError::UnexpectedCharacter(s[q]), q))
    } else {
        Ok(q + 1)
    }
}

fn expect_string(s: &[char], p: usize) -> (r: Result<(Vec<char>, usize), ParseError>)
    requires
        p <= s@.len(),
        s@.len() < usize::MAX,
    ensures
        match string_after(s@, p as int) {
            Ok((t, e)) => r matches Ok((v, e2)) && v@ == t && e2 == e,
            Err(f) => r == Err::<(Vec<char>, usize), ParseError>(failure_error(s@, f)),
        },
        r matches Ok((v, e)) ==> p < e <= s@.len(),
{
    let q = skip_ws(s, p);
    if q >= s.len() {
        return Err(error_at(s, q, CustomParseError::UnexpectedEndOfInput));
    }
    if s[q] != '"' && s[q] != '\'' {
        return Err(error_at(s, q, CustomParseError::UnexpectedCharacter(s[q])));
    }
    match read_string(s, q) {
        Some((v, e)) => Ok((v, e)),
        None => Err(error_at(s, q, CustomParseError::BadString)),
    }
}

/// Expects `;` after white space; returns the position after it.
fn expect_semicolon(s: &[char], p: usize) -> (r: Result<usize, ParseError>)
    requires
        p <= s@.len(),
        s@.len() < usize::MAX,
    ensures
        semicolon_after(s@, p as int) matches Ok(e) ==> p < e <= s@.len(),
        match semicolon_after(s@, p as int) {
            Ok(e) => r == Ok::<usize, ParseError>(e as usize),
            Err(f) => r == Err::<usize, ParseError>(failure_error(s@, f)),
        },
        r matches Ok(e) ==> p < e <= s@.len(),
{
    let q = skip_ws(s, p);
    if q >= s.len() {
        return Err(error_at(s, q, CustomParseError::UnexpectedEndOfInput));
    }
    if s[q] != ';' {
        return Err(error_at(s, q, CustomParseError::UnexpectedCharacter(s[q])));
    }
    Ok(q + 1)
}

/// A rule as the specification reads it: a counter-style record, or a
/// style rule's selectors and the parts of its declarations.
pub enum RuleSpec {
    CounterStyle(CounterStyleView),
    Style(Seq<char>, Seq<Shape>),
}

/// Whether `r` is the rule that `rs` describes.
pub open spec fn rule_matches(s: Seq<char>, rs: RuleSpec, r: CssRule) -> bool {
    match (rs, r) {
        (RuleSpec::CounterStyle(v), CssRule::CounterStyle(c)) => c@ == v,
        (RuleSpec::Style(sel, shs), CssRule::Style(st)) => st.selectors@ == sel && decls_from(
            s,
            shs,
            st.declarations@,
        ),
        _ => false,
    }
}

/// A style rule at `p` ending before `to`: selectors up to `{`, then
/// declarations up to `}`.
pub open spec fn style_rule_at(s: Seq<char>, p: int, to: int) -> Result<(RuleSpec, int), Failure> {
    match unquoted_from(s, p, to, '{') {
        Err(f) => Err(f),
        Ok(open) => if open >= to {
            Err((CustomParseError::UnexpectedEndOfInput, open))
        } else {
            match unquoted_from(s, open + 1, to, '}') {
                Err(f) => Err(f),
                Ok(close) => if close >= to {
                    Err((CustomParseError::UnexpectedEndOfInput, close))
                } else {
                    let a = trim_lo(s, p, open);
                    let b = trim_hi(s, a, open);
                    match decls_acc(s, close, open + 1, Seq::empty()) {
                        Err(f) => Err(f),
                        Ok(shs) => Ok((RuleSpec::Style(s.subrange(a, b), shs), close + 1)),
                    }
                },
            }
        },
    }
}

/// A namespace entry as plain values.
pub type NamespaceEntry = (Option<Seq<char>>, Seq<char>);

/// The top-level rule at `p`: its kind, the rule where one is kept, its end,
/// and the namespace it declares; or the failure. `None` for an `@media`
/// rule, which this reading does not describe.
pub open spec fn rule_at(s: Seq<char>, p: int, state: State) -> Option<
    Result<(RuleKind, Option<RuleSpec>, int, Option<NamespaceEntry>), Failure>,
> {
    let len = s.len() as int;
    if s[p] == '@' {
        if !ident_starts(s, p + 1) {
            Some(Err((CustomParseError::ExpectedIdentifier, p + 1)))
        } else {
            let n1 = name_run(s, p + 1);
            let kw = s.subrange(p + 1, n1);
            if eq_ignore_case(kw, "charset"@) {
                match string_after(s, n1) {
                    Err(f) => Some(Err(f)),
                    Ok((_, e)) => match semicolon_after(s, e) {
                        Err(f) => Some(Err(f)),
                        Ok(e2) => Some(Ok((RuleKind::Charset, None, e2, None))),
                    },
                }
            } else if eq_ignore_case(kw, "namespace"@) {
                if state == State::Body {
                    Some(Err((CustomParseError::NamespaceRuleAfterOtherRules, p)))
                } else {
                    let q = ws_end(s, n1);
                    let prefix = if ident_starts(s, q) {
                        Some(s.subrange(q, name_run(s, q)))
                    } else {
                        None
                    };
                    let after = if ident_starts(s, q) {
                        name_run(s, q)
                    } else {
                        n1
                    };
                    match string_after(s, after) {
                        Err(f) => Some(Err(f)),
                        Ok((url, e)) => match semicolon_after(s, e) {
                            Err(f) => Some(Err(f)),
                            Ok(e2) => Some(Ok((RuleKind::Namespace, None, e2, Some((prefix, url))))),
                        },
                    }
                }
            } else if eq_ignore_case(kw, "counter-style"@) {
                let q = ws_end(s, n1);
                if !ident_starts(s, q) {
                    Some(Err((CustomParseError::ExpectedIdentifier, q)))
                } else {
                    let e = name_run(s, q);
                    let open = ws_end(s, e);
                    if open >= len {
                        Some(Err((CustomParseError::UnexpectedEndOfInput, open)))
                    } else if s[open] != '{' {
                        Some(Err((CustomParseError::UnexpectedCharacter(s[open]), open)))
                    } else {
                        match unquoted_from(s, open + 1, len, '}') {
                            Err(f) => Some(Err(f)),
                            Ok(close) => if close >= len {
                                Some(Err((CustomParseError::UnexpectedEndOfInput, close)))
                            } else {
                                match body_view(s, open + 1, close, s.subrange(q, e)) {
                                    Err(f) => Some(Err(f)),
                                    Ok(v) => match validation_error(v) {
                                        Some(er) => Some(Err((er, p))),
                                        None => Some(
                                            Ok(
                                                (
                                                    RuleKind::Other,
                                                    Some(RuleSpec::CounterStyle(v)),
                                                    close + 1,
                                                    None,
                                                ),
                                            ),
                                        ),
                                    },
                                }
                            },
                        }
                    }
                }
            } else if eq_ignore_case(kw, "media"@) {
                None
            } else {
                Some(Err((CustomParseError::UnsupportedAtRule, p)))
            }
        }
    } else {
        match style_rule_at(s, p, len) {
            Err(f) => Some(Err(f)),
            Ok((rs, e)) => Some(Ok((RuleKind::Other, Some(rs), e, None))),
        }
    }
}

/// The rules and namespaces of the document from `i` on, after `rules` and
/// `ns`, with the rule order in `state`; or the first failure. `None` where
/// an `@media` rule is reached first.
pub open spec fn sheet_acc(
    s: Seq<char>,
    i: int,
    state: State,
    rules: Seq<RuleSpec>,
    ns: Seq<NamespaceEntry>,
) -> Option<Result<(Seq<RuleSpec>, Seq<NamespaceEntry>), Failure>>
    decreases s.len() - i,
{
    let p = ws_end(s, i);
    if i >= s.len() || p >= s.len() || p < i {
        Some(Ok((rules, ns)))
    } else {
        match rule_at(s, p, state) {
            None => None,
            Some(Err(f)) => Some(Err(f)),
            Some(Ok((k, rs, e, en))) => if e <= i || e > s.len() {
                // positions only move forward
                Some(Ok((rules, ns)))
            } else {
                match step(state, k) {
                    Err(er) => Some(Err((er, p))),
                    Ok(next) => sheet_acc(
                        s,
                        e,
                        next,
                        match rs {
                            Some(x) => rules.push(x),
                            None => rules,
                        },
                        match en {
                            Some(x) => ns.push(x),
                            None => ns,
                        },
                    ),
                }
            },
        }
    }
}

/// What a document parses to: its kept rules in order and its namespace
/// declarations in order, or the first failure; `None` where it reaches an
/// `@media` rule.
pub open spec fn sheet_view(s: Seq<char>) -> Option<Result<(Seq<RuleSpec>, Seq<NamespaceEntry>), Failure>> {
    sheet_acc(s, 0, State::Start, Seq::empty(), Seq::empty())
}

/// Whether the rules `rs` are those that `specs` describe.
pub open spec fn rules_from(s: Seq<char>, specs: Seq<RuleSpec>, rs: Seq<CssRule>) -> bool {
    &&& rs.len() == specs.len()
    &&& forall|k: int| 0 <= k < rs.len() ==> rule_matches(s, #[trigger] specs[k], rs[k])
}

/// Parses one top-level rule at `p` (after white space); returns its kind, the
/// rule where it is kept, and its end.
fn parse_rule(s: &[char], p: usize, state: State, namespaces: &mut Namespaces) -> (r: Result<
    (RuleKind, Option<CssRule>, usize),
    ParseError,
>)
    requires
        p < s@.len(),
        s@.len() < usize::MAX,
    ensures
        r matches Ok((kind, rule, e)) ==> p < e <= s@.len() && (rule matches Some(
            CssRule::CounterStyle(c),
        ) ==> valid_counter_style(c@)) && (rule is Some <==> kind == RuleKind::Other) && step(
            state,
            kind,
        ) is Ok,
        r is Ok ==> (state == State::Body ==> final(namespaces).view_entries() == old(
            namespaces,
        ).view_entries()),
        match rule_at(s@, p as int, state) {
            None => true,
            Some(Err(f)) => r == Err::<(RuleKind, Option<CssRule>, usize), ParseError>(
                failure_error(s@, f),
            ),
            Some(Ok((k, rs, e, en))) => r matches Ok((k2, ro, e2)) && k2 == k && e2 == e && (
            match (rs, ro) {
                (Some(x), Some(y)) => rule_matches(s@, x, y),
                (None, None) => true,
                _ => false,
            }) && final(namespaces).view_entries() == (match en {
                Some(x) => old(namespaces).view_entries().push(x),
                None => old(namespaces).view_entries(),
            }),
        },
{
    if s[p] == '@' {
        let n1 = match read_ident(s, p + 1) {
            Some(e) => e,
            None => {
                return Err(error_at(s, p + 1, CustomParseError::ExpectedIdentifier));
            },
        };
        let kw = &s[p + 1..n1];
        if equals_ignoring_case_str(kw, "charset") {
            let (_, e) = expect_string(s, n1)?;
            let e = expect_semicolon(s, e)?;
            return Ok((RuleKind::Charset, None, e));
        }
        if equals_ignoring_case_str(kw, "namespace") {
            if let Err(reason) = next_state(state, RuleKind::Namespace) {
                return Err(error_at(s, p, reason));
            }
            let q = skip_ws(s, n1);
            let mut prefix: Option<String> = None;
            let mut after = n1;
            if let Some(e) = read_ident(s, q) {
                prefix = Some(string_of(&span_chars(s, q, e)));
                after = e;
            }
            let (url, e) = expect_string(s, after)?;
            let e = expect_semicolon(s, e)?;
            namespaces.insert(prefix, string_of(&url));
            return Ok((RuleKind::Namespace, None, e));
        }
        if equals_ignoring_case_str(kw, "counter-style") {
            let q = skip_ws(s, n1);
            let e = match read_ident(s, q) {
                Some(e) => e,
                None => {
                    return Err(error_at(s, q, CustomParseError::ExpectedIdentifier));
                },
            };
            let name = CounterStyleIdent { name: string_of(&span_chars(s, q, e)) };
            let open = skip_ws(s, e);
            if open >= s.len() {
                return Err(error_at(s, open, CustomParseError::UnexpectedEndOfInput));
            }
            if s[open] != '{' {
                return Err(error_at(s, open, CustomParseError::UnexpectedCharacter(s[open])));
            }
            let close = find_unquoted(s, open + 1, s.len(), '}')?;
            if close >= s.len() {
                return Err(error_at(s, close, CustomParseError::UnexpectedEndOfInput));
            }
            let rule = parse_counter_style_body(s, name, open + 1, close, p)?;
            return Ok((RuleKind::Other, Some(CssRule::CounterStyle(rule)), close + 1));
        }
        if equals_ignoring_case_str(kw, "media") {
            let (rule, e) = parse_media_rule(s, n1)?;
            return Ok((RuleKind::Other, Some(CssRule::Media(rule)), e));
        }
        return Err(error_at(s, p, CustomParseError::UnsupportedAtRule));
    }
    let (rule, e) = parse_style_rule(s, p, s.len())?;
    Ok((RuleKind::Other, Some(CssRule::Style(rule)), e))
}

/// Parses a style rule at `p` that ends before `to`: selectors, then a
/// declaration block.
fn parse_style_rule(s: &[char], p: usize, to: usize) -> (r: Result<(StyleRule, usize), ParseError>)
    requires
        p <= to <= s@.len(),
        s@.len() < usize::MAX,
    ensures
        match style_rule_at(s@, p as int, to as int) {
            Ok((rs, e)) => r matches Ok((st, e2)) && e2 == e && rule_matches(s@, rs, CssRule::Style(st)),
            Err(f) => r == Err::<(StyleRule, usize), ParseError>(failure_error(s@, f)),
        },
        r matches Ok((rule, e)) ==> p < e <= to,
{
    let open = find_unquoted(s, p, to, '{')?;
    if open >= to {
        return Err(error_at(s, open, CustomParseError::UnexpectedEndOfInput));
    }
    let close = find_unquoted(s, open + 1, to, '}')?;
    if close >= to {
        return Err(error_at(s, close, CustomParseError::UnexpectedEndOfInput));
    }
    let (a, b) = trim_span(s, p, open);
    let selectors = string_of(&span_chars(s, a, b));
    let declarations = parse_declarations(s, open + 1, close)?;
    Ok((StyleRule { selectors, declarations }, close + 1))
}

/// Parses an `@media` rule whose keyword ends at `p`: feature expressions
/// joined by `and`, then a block of style rules.
fn parse_media_rule(s: &[char], p: usize) -> (r: Result<(MediaRule, usize), ParseError>)
    requires
        p <= s@.len(),
        s@.len() < usize::MAX,
    ensures
        r matches Ok((rule, e)) ==> p < e <= s@.len() && rule.expressions@.len() > 0,
{
    let mut expressions: Vec<ExpressionKind> = Vec::new();
    let q0 = skip_ws(s, p);
    let mut i = q0;
    loop
        invariant
            p <= q0 <= i <= s@.len(),
            s@.len() < usize::MAX,
        decreases s@.len() - i,
    {
        let o = skip_ws(s, i);
        if o >= s.len() || s[o] != '(' {
            return Err(error_at(s, o, CustomParseError::ExpectedIdentifier));
        }
        let close = find_unquoted(s, o + 1, s.len(), ')')?;
        if close >= s.len() {
            return Err(error_at(s, close, CustomParseError::UnexpectedEndOfInput));
        }
        expressions.push(parse_feature_expression(s, o, close + 1)?);
        let n = skip_ws(s, close + 1);
        match read_ident(s, n) {
            Some(e) => {
                if !equals_ignoring_case_str(&s[n..e], "and") {
                    return Err(error_at(s, n, CustomParseError::UnexpectedCharacter(s[n])));
                }
                i = e;
            },
            None => {
                i = n;
                break;
            },
        }
    }
    if i >= s.len() || s[i] != '{' || expressions.len() == 0 {
        return Err(error_at(s, i, CustomParseError::UnexpectedEndOfInput));
    }
    let (a, b) = trim_span(s, q0, i);
    let query = string_of(&span_chars(s, a, b));
    let mut rules: Vec<StyleRule> = Vec::new();
    let mut j = i + 1;
    while j < s.len()
        invariant
            p <= i < j <= s@.len(),
            s@.len() < usize::MAX,
            expressions@.len() > 0,
        decreases s@.len() - j,
    {
        let k = skip_ws(s, j);
        if k >= s.len() {
            break;
        }
        if s[k] == '}' {
            return Ok((MediaRule { query, expressions, rules }, k + 1));
        }
        let (rule, e) = parse_style_rule(s, k, s.len())?;
        rules.push(rule);
        j = e;
    }
    Err(error_at(s, s.len(), CustomParseError::UnexpectedEndOfInput))
}

impl Stylesheet {
    /// Parses a whole stylesheet. `@charset` and `@namespace` rules may only
    /// come before every other rule; they are not kept as rules, and the
    /// namespaces go into the table. The first error ends the parse.
    pub fn parse(css: &str) -> (r: Result<Stylesheet, ParseError>)
        requires
            css@.len() < usize::MAX,
        ensures
            r matches Ok(ss) ==> rules_valid(ss.rules.0@),
            r matches Ok(ss) ==> last_directive(css@, "sourceMappingURL"@, prefix_view(ss.source_map_url)),
            r matches Ok(ss) ==> last_directive(css@, "sourceURL"@, prefix_view(ss.source_url)),
            match sheet_view(css@) {
                Some(Ok((rs, ns))) => r matches Ok(ss) && rules_from(css@, rs, ss.rules.0@)
                    && ss.namespaces.view_entries() == ns,
                Some(Err(f)) => r == Err::<Stylesheet, ParseError>(failure_error(css@, f)),
                None => true,
            },
    {
        let s = chars_of(css);
        let s = s.as_slice();
        let mut rules: Vec<CssRule> = Vec::new();
        let mut namespaces = Namespaces::empty();
        let mut state = State::Start;
        let ghost mut kinds: Seq<RuleKind> = Seq::empty();
        let ghost mut specs: Seq<RuleSpec> = Seq::empty();
        let ghost mut ns: Seq<NamespaceEntry> = Seq::empty();
        let mut i: usize = 0;
        assert(namespaces.view_entries() =~= ns);
        while i < s.len()
            invariant
                i <= s@.len(),
                s@.len() < usize::MAX,
                s@ == css@,
                rules_valid(rules@),
                run(kinds) == Ok::<State, CustomParseError>(state),
                sheet_view(s@) is Some ==> sheet_view(s@) == sheet_acc(s@, i as int, state, specs, ns)
                    && rules_from(s@, specs, rules@) && namespaces.view_entries() == ns,
            decreases s@.len() - i,
        {
            let p = skip_ws(s, i);
            let ghost here = sheet_acc(s@, i as int, state, specs, ns);
            if p >= s.len() {
                assert(here == Some(Ok::<(Seq<RuleSpec>, Seq<NamespaceEntry>), Failure>((specs, ns))));
                assert(sheet_acc(s@, s@.len() as int, state, specs, ns) == here);
                i = s.len();
            } else {
                let ghost at = rule_at(s@, p as int, state);
                let (kind, rule, e) = match parse_rule(s, p, state, &mut namespaces) {
                    Ok(x) => x,
                    Err(x) => {
                        assert(at is Some ==> here == Some(Err::<(Seq<RuleSpec>, Seq<NamespaceEntry>), Failure>(at->0->Err_0)));
                        return Err(x);
                    },
                };
                proof {
                    assert(kinds.push(kind).drop_last() =~= kinds);
                    kinds = kinds.push(kind);
                }
                state = match next_state(state, kind) {
                    Ok(n) => n,
                    Err(reason) => {
                        return Err(error_at(s, p, reason));
                    },
                };
                proof {
                    if at is Some {
                        let (_, rs, _, en) = at->0->Ok_0;
                        assert(here == sheet_acc(
                            s@,
                            e as int,
                            state,
                            match rs {
                                Some(x) => specs.push(x),
                                None => specs,
                            },
                            match en {
                                Some(x) => ns.push(x),
                                None => ns,
                            },
                        ));
                        match rs {
                            Some(x) => {
                                specs = specs.push(x);
                            },
                            None => {},
                        }
                        match en {
                            Some(x) => {
                                ns = ns.push(x);
                            },
                            None => {},
                        }
                    } else {
                        assert(here is None);
                    }
                }
                if let Some(x) = rule {
                    let ghost old_rules = rules@;
                    rules.push(x);
                    proof {
                        if sheet_view(s@) is Some {
                            assert forall|k: int| 0 <= k < rules@.len() implies rule_matches(
                                s@,
                                #[trigger] specs[k],
                                rules@[k],
                            ) by {
                                if k < rules@.len() - 1 {
                                    assert(rules@[k] == old_rules[k]);
                                }
                            }
                        }
                    }
                }
                i = e;
            }
        }
        assert(sheet_view(s@) is Some ==> sheet_acc(s@, i as int, state, specs, ns) == Some(
            Ok::<(Seq<RuleSpec>, Seq<NamespaceEntry>), Failure>((specs, ns)),
        ));
        let source_map_url = match find_directive(s, "sourceMappingURL") {
            Some(v) => Some(string_of(&v)),
            None => None,
        };
        let source_url = match find_directive(s, "sourceURL") {
            Some(v) => Some(string_of(&v)),
            None => None,
        };
        Ok(Stylesheet { rules: CssRules(rules), source_map_url, source_url, namespaces })
    }

    /// The stylesheet's text: where `include_source_urls` holds, a line for
    /// each of the source map and the source URL that is present; then each
    /// rule, with nothing between them.
    pub fn to_css(&self, include_source_urls: bool) -> (r: String)
        ensures
            r@ == stylesheet_css(*self, include_source_urls),
    {
        let mut out: Vec<char> = Vec::new();
        write_directive(&mut out, "sourceMappingURL", &self.source_map_url, include_source_urls);
        write_directive(&mut out, "sourceURL", &self.source_url, include_source_urls);
        self.rules.write_css(&mut out);
        assert(out@ =~= stylesheet_css(*self, include_source_urls));
        string_of(&out)
    }
}

} // verus!
