//! Parsing the body of an `@counter-style` rule.
use vstd::prelude::*;
use crate::counter_style::{
    AdditiveSymbols, AdditiveTuple, CounterRange, CounterStyleAtRule, CounterStyleIdent,
    CounterStyleView, Fallback, Negative, Pad, Ranges, SpeakAs, SpeakAsView, Symbol, SymbolView,
    Symbols, System, SystemView, validation_error,
};
use crate::declaration::{location_value, span_chars};
use crate::error::{CustomParseError, ParseError, error_at};
use crate::scan::{ident_starts, name_run, read_ident, skip_ws, ws_end};
use crate::text::{eq_ignore_case, equals_ignoring_case_str, string_of};
use crate::values::{
    Failure, TokenView, ValueToken, failure_error, find_unquoted, tokens_of, tokens_view,
    unquoted_from, value_tokens,
};

verus! {

/// Whether `[a, b)` holds `word`, ignoring case.
pub open spec fn is_word(s: Seq<char>, a: int, b: int, word: Seq<char>) -> bool {
    eq_ignore_case(s.subrange(a, b), word)
}

/// The text of the identifier in `[a, b)`, as a string.
fn ident_string(s: &[char], a: usize, b: usize) -> (r: String)
    requires
        a <= b <= s@.len(),
    ensures
        r@ == s@.subrange(a as int, b as int),
{
    string_of(&span_chars(s, a, b))
}

/// Whether the identifier in `[a, b)` is `word`, ignoring case.
fn ident_is(s: &[char], a: usize, b: usize, word: &str) -> (r: bool)
    requires
        a <= b <= s@.len(),
    ensures
        r == is_word(s@, a as int, b as int, word@),
{
    equals_ignoring_case_str(&s[a..b], word)
}

/// Every identifier token lies inside the source.
pub open spec fn tokens_in(s: Seq<char>, ts: Seq<TokenView>) -> bool {
    forall|i: int|
        0 <= i < ts.len() ==> ((#[trigger] ts[i]) matches TokenView::Ident(a, b) ==> 0 <= a <= b
            <= s.len())
}

/// The symbol a token is: a string or an identifier.
pub open spec fn symbol_view_of(s: Seq<char>, t: TokenView) -> Option<SymbolView> {
    match t {
        TokenView::Str(x) => Some(SymbolView::Str(x)),
        TokenView::Ident(a, b) => Some(SymbolView::Ident(s.subrange(a, b))),
        _ => None,
    }
}

/// The weight a token is: a non-negative integer.
pub open spec fn weight_view_of(t: TokenView) -> Option<u32> {
    match t {
        TokenView::Int(v) => if v >= 0 {
            Some(v as u32)
        } else {
            None
        },
        _ => None,
    }
}

/// `system`: one of the keywords, `fixed` with an optional integer, or
/// `extends` and a name.
pub open spec fn system_view_of(s: Seq<char>, ts: Seq<TokenView>) -> Option<SystemView> {
    if ts.len() == 0 {
        None
    } else {
        match ts[0] {
            TokenView::Ident(a, b) => if ts.len() == 1 {
                if is_word(s, a, b, "cyclic"@) {
                    Some(SystemView::Cyclic)
                } else if is_word(s, a, b, "numeric"@) {
                    Some(SystemView::Numeric)
                } else if is_word(s, a, b, "alphabetic"@) {
                    Some(SystemView::Alphabetic)
                } else if is_word(s, a, b, "symbolic"@) {
                    Some(SystemView::Symbolic)
                } else if is_word(s, a, b, "additive"@) {
                    Some(SystemView::Additive)
                } else if is_word(s, a, b, "fixed"@) {
                    Some(SystemView::Fixed(None))
                } else {
                    None
                }
            } else if ts.len() == 2 {
                if is_word(s, a, b, "fixed"@) {
                    match ts[1] {
                        TokenView::Int(v) => Some(SystemView::Fixed(Some(v))),
                        _ => None,
                    }
                } else if is_word(s, a, b, "extends"@) {
                    match ts[1] {
                        TokenView::Ident(c, d) => Some(SystemView::Extends(s.subrange(c, d))),
                        _ => None,
                    }
                } else {
                    None
                }
            } else {
                None
            },
            _ => None,
        }
    }
}

/// `negative`: one symbol, or two.
pub open spec fn negative_view_of(s: Seq<char>, ts: Seq<TokenView>) -> Option<
    (SymbolView, Option<SymbolView>),
> {
    if ts.len() == 1 {
        match symbol_view_of(s, ts[0]) {
            Some(x) => Some((x, None)),
            None => None,
        }
    } else if ts.len() == 2 {
        match (symbol_view_of(s, ts[0]), symbol_view_of(s, ts[1])) {
            (Some(x), Some(y)) => Some((x, Some(y))),
            _ => None,
        }
    } else {
        None
    }
}

/// `prefix` and `suffix`: one symbol.
pub open spec fn single_symbol_view_of(s: Seq<char>, ts: Seq<TokenView>) -> Option<SymbolView> {
    if ts.len() == 1 {
        symbol_view_of(s, ts[0])
    } else {
        None
    }
}

/// One end of a range: an integer, or `infinite` (`Some(None)`).
pub open spec fn bound_view_of(s: Seq<char>, t: TokenView) -> Option<Option<i32>> {
    match t {
        TokenView::Int(v) => Some(Some(v)),
        TokenView::Ident(a, b) => if is_word(s, a, b, "infinite"@) {
            Some(None)
        } else {
            None
        },
        _ => None,
    }
}

/// The ranges from token `i` on, after those in `acc`: pairs of ends
/// separated by commas.
pub open spec fn ranges_acc(s: Seq<char>, ts: Seq<TokenView>, i: int, acc: Seq<CounterRange>) -> Option<
    Seq<CounterRange>,
>
    decreases ts.len() - i,
{
    if i < 0 || i >= ts.len() {
        Some(acc)
    } else if i + 1 >= ts.len() {
        None
    } else {
        match (bound_view_of(s, ts[i]), bound_view_of(s, ts[i + 1])) {
            (Some(a), Some(b)) => {
                let next = acc.push(CounterRange { start: a, end: b });
                if i + 2 < ts.len() {
                    if ts[i + 2] is Comma && i + 3 < ts.len() {
                        ranges_acc(s, ts, i + 3, next)
                    } else {
                        None
                    }
                } else {
                    Some(next)
                }
            },
            _ => None,
        }
    }
}

/// `range`: `auto` (no ranges), or one or more ranges.
pub open spec fn range_view_of(s: Seq<char>, ts: Seq<TokenView>) -> Option<Seq<CounterRange>> {
    if ts.len() == 1 {
        match ts[0] {
            TokenView::Ident(a, b) => if is_word(s, a, b, "auto"@) {
                Some(Seq::empty())
            } else {
                None
            },
            _ => None,
        }
    } else {
        match ranges_acc(s, ts, 0, Seq::empty()) {
            Some(r) => if r.len() == 0 {
                None
            } else {
                Some(r)
            },
            None => None,
        }
    }
}

/// A weight and a symbol, in either order.
pub open spec fn weighted_view_of(s: Seq<char>, x: TokenView, y: TokenView) -> Option<
    (u32, SymbolView),
> {
    match weight_view_of(x) {
        Some(w) => match symbol_view_of(s, y) {
            Some(v) => Some((w, v)),
            None => None,
        },
        None => match (symbol_view_of(s, x), weight_view_of(y)) {
            (Some(v), Some(w)) => Some((w, v)),
            _ => None,
        },
    }
}

/// `pad`: a weight and a symbol.
pub open spec fn pad_view_of(s: Seq<char>, ts: Seq<TokenView>) -> Option<(u32, SymbolView)> {
    if ts.len() == 2 {
        weighted_view_of(s, ts[0], ts[1])
    } else {
        None
    }
}

/// `fallback`: a name.
pub open spec fn fallback_view_of(s: Seq<char>, ts: Seq<TokenView>) -> Option<Seq<char>> {
    if ts.len() == 1 {
        match ts[0] {
            TokenView::Ident(a, b) => Some(s.subrange(a, b)),
            _ => None,
        }
    } else {
        None
    }
}

/// The symbols from token `i` on, after those in `acc`.
pub open spec fn symbols_acc(s: Seq<char>, ts: Seq<TokenView>, i: int, acc: Seq<SymbolView>) -> Option<
    Seq<SymbolView>,
>
    decreases ts.len() - i,
{
    if i < 0 || i >= ts.len() {
        Some(acc)
    } else {
        match symbol_view_of(s, ts[i]) {
            Some(v) => symbols_acc(s, ts, i + 1, acc.push(v)),
            None => None,
        }
    }
}

/// `symbols`: one or more symbols.
pub open spec fn symbols_view_of(s: Seq<char>, ts: Seq<TokenView>) -> Option<Seq<SymbolView>> {
    if ts.len() == 0 {
        None
    } else {
        symbols_acc(s, ts, 0, Seq::empty())
    }
}

/// The weighted symbols from token `i` on, after those in `acc`, separated by
/// commas.
pub open spec fn additive_acc(
    s: Seq<char>,
    ts: Seq<TokenView>,
    i: int,
    acc: Seq<(u32, SymbolView)>,
) -> Option<Seq<(u32, SymbolView)>>
    decreases ts.len() - i,
{
    if i < 0 || i >= ts.len() {
        Some(acc)
    } else if i + 1 >= ts.len() {
        None
    } else {
        match weighted_view_of(s, ts[i], ts[i + 1]) {
            Some(w) => {
                let next = acc.push(w);
                if i + 2 < ts.len() {
                    if ts[i + 2] is Comma && i + 3 < ts.len() {
                        additive_acc(s, ts, i + 3, next)
                    } else {
                        None
                    }
                } else {
                    Some(next)
                }
            },
            None => None,
        }
    }
}

/// `additive-symbols`: one or more weighted symbols.
pub open spec fn additive_view_of(s: Seq<char>, ts: Seq<TokenView>) -> Option<Seq<(u32, SymbolView)>> {
    match additive_acc(s, ts, 0, Seq::empty()) {
        Some(r) => if r.len() == 0 {
            None
        } else {
            Some(r)
        },
        None => None,
    }
}

/// `speak-as`: a keyword, or the name of another style.
pub open spec fn speak_as_view_of(s: Seq<char>, ts: Seq<TokenView>) -> Option<SpeakAsView> {
    if ts.len() != 1 {
        None
    } else {
        match ts[0] {
            TokenView::Ident(a, b) => if is_word(s, a, b, "auto"@) {
                Some(SpeakAsView::Auto)
            } else if is_word(s, a, b, "bullets"@) {
                Some(SpeakAsView::Bullets)
            } else if is_word(s, a, b, "numbers"@) {
                Some(SpeakAsView::Numbers)
            } else if is_word(s, a, b, "words"@) {
                Some(SpeakAsView::Words)
            } else if is_word(s, a, b, "spell-out"@) {
                Some(SpeakAsView::SpellOut)
            } else {
                Some(SpeakAsView::Other(s.subrange(a, b)))
            },
            _ => None,
        }
    }
}

/// The record after the descriptor named by `[na, nb)` with value `[v0, v1)`
/// is read into `acc`, or the failure: of the value's tokens, of an unknown
/// name (at the name), or of a value the descriptor does not accept (at the
/// value).
pub open spec fn descriptor_step(
    s: Seq<char>,
    na: int,
    nb: int,
    v0: int,
    v1: int,
    acc: CounterStyleView,
) -> Result<CounterStyleView, Failure> {
    match tokens_of(s, v0, v1) {
        Err(f) => Err(f),
        Ok(ts) => {
            let bad = (CustomParseError::InvalidDescriptorValue, v0);
            if is_word(s, na, nb, "system"@) {
                match system_view_of(s, ts) {
                    Some(v) => Ok(CounterStyleView { name: acc.name, system: Some(v), negative: acc.negative, prefix: acc.prefix, suffix: acc.suffix, range: acc.range, pad: acc.pad, fallback: acc.fallback, symbols: acc.symbols, additive_symbols: acc.additive_symbols, speak_as: acc.speak_as }),
                    None => Err(bad),
                }
            } else if is_word(s, na, nb, "negative"@) {
                match negative_view_of(s, ts) {
                    Some(v) => Ok(CounterStyleView { name: acc.name, system: acc.system, negative: Some(v), prefix: acc.prefix, suffix: acc.suffix, range: acc.range, pad: acc.pad, fallback: acc.fallback, symbols: acc.symbols, additive_symbols: acc.additive_symbols, speak_as: acc.speak_as }),
                    None => Err(bad),
                }
            } else if is_word(s, na, nb, "prefix"@) {
                match single_symbol_view_of(s, ts) {
                    Some(v) => Ok(CounterStyleView { name: acc.name, system: acc.system, negative: acc.negative, prefix: Some(v), suffix: acc.suffix, range: acc.range, pad: acc.pad, fallback: acc.fallback, symbols: acc.symbols, additive_symbols: acc.additive_symbols, speak_as: acc.speak_as }),
                    None => Err(bad),
                }
            } else if is_word(s, na, nb, "suffix"@) {
                match single_symbol_view_of(s, ts) {
                    Some(v) => Ok(CounterStyleView { name: acc.name, system: acc.system, negative: acc.negative, prefix: acc.prefix, suffix: Some(v), range: acc.range, pad: acc.pad, fallback: acc.fallback, symbols: acc.symbols, additive_symbols: acc.additive_symbols, speak_as: acc.speak_as }),
                    None => Err(bad),
                }
            } else if is_word(s, na, nb, "range"@) {
                match range_view_of(s, ts) {
                    Some(v) => Ok(CounterStyleView { name: acc.name, system: acc.system, negative: acc.negative, prefix: acc.prefix, suffix: acc.suffix, range: Some(v), pad: acc.pad, fallback: acc.fallback, symbols: acc.symbols, additive_symbols: acc.additive_symbols, speak_as: acc.speak_as }),
                    None => Err(bad),
                }
            } else if is_word(s, na, nb, "pad"@) {
                match pad_view_of(s, ts) {
                    Some(v) => Ok(CounterStyleView { name: acc.name, system: acc.system, negative: acc.negative, prefix: acc.prefix, suffix: acc.suffix, range: acc.range, pad: Some(v), fallback: acc.fallback, symbols: acc.symbols, additive_symbols: acc.additive_symbols, speak_as: acc.speak_as }),
                    None => Err(bad),
                }
            } else if is_word(s, na, nb, "fallback"@) {
                match fallback_view_of(s, ts) {
                    Some(v) => Ok(CounterStyleView { name: acc.name, system: acc.system, negative: acc.negative, prefix: acc.prefix, suffix: acc.suffix, range: acc.range, pad: acc.pad, fallback: Some(v), symbols: acc.symbols, additive_symbols: acc.additive_symbols, speak_as: acc.speak_as }),
                    None => Err(bad),
                }
            } else if is_word(s, na, nb, "symbols"@) {
                match symbols_view_of(s, ts) {
                    Some(v) => Ok(CounterStyleView { name: acc.name, system: acc.system, negative: acc.negative, prefix: acc.prefix, suffix: acc.suffix, range: acc.range, pad: acc.pad, fallback: acc.fallback, symbols: Some(v), additive_symbols: acc.additive_symbols, speak_as: acc.speak_as }),
                    None => Err(bad),
                }
            } else if is_word(s, na, nb, "additive-symbols"@) {
                match additive_view_of(s, ts) {
                    Some(v) => Ok(CounterStyleView { name: acc.name, system: acc.system, negative: acc.negative, prefix: acc.prefix, suffix: acc.suffix, range: acc.range, pad: acc.pad, fallback: acc.fallback, symbols: acc.symbols, additive_symbols: Some(v), speak_as: acc.speak_as }),
                    None => Err(bad),
                }
            } else if is_word(s, na, nb, "speak-as"@) {
                match speak_as_view_of(s, ts) {
                    Some(v) => Ok(CounterStyleView { name: acc.name, system: acc.system, negative: acc.negative, prefix: acc.prefix, suffix: acc.suffix, range: acc.range, pad: acc.pad, fallback: acc.fallback, symbols: acc.symbols, additive_symbols: acc.additive_symbols, speak_as: Some(v) }),
                    None => Err(bad),
                }
            } else {
                Err((CustomParseError::UnsupportedCounterStyleDescriptor, na))
            }
        },
    }
}

/// The record read from the declarations of `[i, to)` into `acc`, or the
/// first failure.
pub open spec fn body_acc(s: Seq<char>, to: int, i: int, acc: CounterStyleView) -> Result<
    CounterStyleView,
    Failure,
>
    decreases to - i,
{
    let n0 = ws_end(s, i);
    if i >= to || n0 >= to {
        Ok(acc)
    } else if n0 < i {
        // positions only move forward
        Ok(acc)
    } else if s[n0] == ';' {
        body_acc(s, to, n0 + 1, acc)
    } else if !ident_starts(s, n0) || name_run(s, n0) > to {
        Err((CustomParseError::ExpectedIdentifier, n0))
    } else {
        let n1 = name_run(s, n0);
        let c = ws_end(s, n1);
        if c >= to || s[c] != ':' {
            Err((CustomParseError::ExpectedColon, if c < to { c } else { to }))
        } else {
            match unquoted_from(s, c + 1, to, ';') {
                Err(f) => Err(f),
                Ok(end) => match descriptor_step(s, n0, n1, c + 1, end, acc) {
                    Err(f) => Err(f),
                    Ok(v) => if end < i || end > to {
                        // positions only move forward
                        Ok(v)
                    } else {
                        body_acc(s, to, if end < to { end + 1 } else { end }, v)
                    },
                },
            }
        }
    }
}

/// A record with the given name and no descriptors.
pub open spec fn empty_view(name: Seq<char>) -> CounterStyleView {
    CounterStyleView {
        name,
        system: None,
        negative: None,
        prefix: None,
        suffix: None,
        range: None,
        pad: None,
        fallback: None,
        symbols: None,
        additive_symbols: None,
        speak_as: None,
    }
}

/// The record that the body `[from, to)` of a rule named `name` yields, or
/// the first failure of a declaration.
pub open spec fn body_view(s: Seq<char>, from: int, to: int, name: Seq<char>) -> Result<
    CounterStyleView,
    Failure,
> {
    body_acc(s, to, from, empty_view(name))
}

fn symbol_of(s: &[char], t: &ValueToken) -> (r: Option<Symbol>)
    requires
        t matches ValueToken::Ident(a, b) ==> *a <= *b <= s@.len(),
    ensures
        match r {
            Some(x) => symbol_view_of(s@, t@) == Some(x@),
            None => symbol_view_of(s@, t@) is None,
        },
{
    match t {
        ValueToken::Str(v) => Some(Symbol::String(string_of(v))),
        ValueToken::Ident(a, b) => Some(Symbol::Ident(ident_string(s, *a, *b))),
        _ => None,
    }
}

fn weight_of(t: &ValueToken) -> (r: Option<u32>)
    ensures
        r == weight_view_of(t@),
{
    match t {
        ValueToken::Int(v) => if *v >= 0 {
            Some(*v as u32)
        } else {
            None
        },
        _ => None,
    }
}

/// Whether every identifier token lies inside the source.
pub open spec fn toks_in(s: Seq<char>, toks: Seq<ValueToken>) -> bool {
    forall|i: int|
        0 <= i < toks.len() ==> ((#[trigger] toks[i]) matches ValueToken::Ident(a, b) ==> a <= b
            <= s.len())
}

fn parse_system(s: &[char], toks: &Vec<ValueToken>) -> (r: Option<System>)
    requires
        toks_in(s@, toks@),
    ensures
        match r {
            Some(x) => system_view_of(s@, tokens_view(toks@)) == Some(x@),
            None => system_view_of(s@, tokens_view(toks@)) is None,
        },
{
    let ghost ts = tokens_view(toks@);
    if toks.len() == 0 {
        return None;
    }
    assert(ts[0] == toks@[0]@);
    let (a, b) = match &toks[0] {
        ValueToken::Ident(a, b) => (*a, *b),
        _ => {
            return None;
        },
    };
    if toks.len() == 1 {
        if ident_is(s, a, b, "cyclic") {
            return Some(System::Cyclic);
        } else if ident_is(s, a, b, "numeric") {
            return Some(System::Numeric);
        } else if ident_is(s, a, b, "alphabetic") {
            return Some(System::Alphabetic);
        } else if ident_is(s, a, b, "symbolic") {
            return Some(System::Symbolic);
        } else if ident_is(s, a, b, "additive") {
            return Some(System::Additive);
        } else if ident_is(s, a, b, "fixed") {
            return Some(System::Fixed { first_symbol_value: None });
        }
        return None;
    }
    if toks.len() == 2 {
        assert(ts[1] == toks@[1]@);
        if ident_is(s, a, b, "fixed") {
            if let ValueToken::Int(v) = &toks[1] {
                return Some(System::Fixed { first_symbol_value: Some(*v) });
            }
        } else if ident_is(s, a, b, "extends") {
            if let ValueToken::Ident(c, d) = &toks[1] {
                return Some(System::Extends(CounterStyleIdent { name: ident_string(s, *c, *d) }));
            }
        }
    }
    None
}

fn parse_negative(s: &[char], toks: &Vec<ValueToken>) -> (r: Option<Negative>)
    requires
        toks_in(s@, toks@),
    ensures
        match r {
            Some(x) => negative_view_of(s@, tokens_view(toks@)) == Some(x@),
            None => negative_view_of(s@, tokens_view(toks@)) is None,
        },
{
    let ghost ts = tokens_view(toks@);
    if toks.len() == 1 {
        assert(ts[0] == toks@[0]@);
        match symbol_of(s, &toks[0]) {
            Some(x) => Some(Negative(x, None)),
            None => None,
        }
    } else if toks.len() == 2 {
        assert(ts[0] == toks@[0]@);
        assert(ts[1] == toks@[1]@);
        match (symbol_of(s, &toks[0]), symbol_of(s, &toks[1])) {
            (Some(x), Some(y)) => Some(Negative(x, Some(y))),
            _ => None,
        }
    } else {
        None
    }
}

fn parse_single_symbol(s: &[char], toks: &Vec<ValueToken>) -> (r: Option<Symbol>)
    requires
        toks_in(s@, toks@),
    ensures
        match r {
            Some(x) => single_symbol_view_of(s@, tokens_view(toks@)) == Some(x@),
            None => single_symbol_view_of(s@, tokens_view(toks@)) is None,
        },
{
    if toks.len() == 1 {
        assert(tokens_view(toks@)[0] == toks@[0]@);
        symbol_of(s, &toks[0])
    } else {
        None
    }
}

fn range_bound(s: &[char], t: &ValueToken) -> (r: Option<Option<i32>>)
    requires
        t matches ValueToken::Ident(a, b) ==> *a <= *b <= s@.len(),
    ensures
        r == bound_view_of(s@, t@),
{
    match t {
        ValueToken::Int(v) => Some(Some(*v)),
        ValueToken::Ident(a, b) => if ident_is(s, *a, *b, "infinite") {
            Some(None)
        } else {
            None
        },
        _ => None,
    }
}

fn parse_range(s: &[char], toks: &Vec<ValueToken>) -> (r: Option<Ranges>)
    requires
        toks_in(s@, toks@),
    ensures
        match r {
            Some(x) => range_view_of(s@, tokens_view(toks@)) == Some(x@),
            None => range_view_of(s@, tokens_view(toks@)) is None,
        },
{
    let ghost ts = tokens_view(toks@);
    if toks.len() == 1 {
        assert(ts[0] == toks@[0]@);
        if let ValueToken::Ident(a, b) = &toks[0] {
            if ident_is(s, *a, *b, "auto") {
                let r = Ranges(Vec::new());
                assert(r@ =~= Seq::<CounterRange>::empty());
                return Some(r);
            }
        }
        return None;
    }
    let mut out: Vec<CounterRange> = Vec::new();
    let mut i: usize = 0;
    while i < toks.len()
        invariant
            toks_in(s@, toks@),
            ts == tokens_view(toks@),
            ts.len() != 1,
            ranges_acc(s@, ts, 0, Seq::empty()) == ranges_acc(s@, ts, i as int, out@),
        decreases toks@.len() - i,
    {
        if i + 1 >= toks.len() {
            return None;
        }
        assert(ts[i as int] == toks@[i as int]@);
        assert(ts[i + 1] == toks@[i + 1]@);
        let start = match range_bound(s, &toks[i]) {
            Some(x) => x,
            None => {
                return None;
            },
        };
        let end = match range_bound(s, &toks[i + 1]) {
            Some(x) => x,
            None => {
                return None;
            },
        };
        out.push(CounterRange { start, end });
        i = i + 2;
        if i < toks.len() {
            assert(ts[i as int] == toks@[i as int]@);
            match &toks[i] {
                ValueToken::Comma => {
                    i = i + 1;
                    if i >= toks.len() {
                        return None;
                    }
                },
                _ => {
                    return None;
                },
            }
        }
    }
    if out.len() == 0 {
        None
    } else {
        Some(Ranges(out))
    }
}

fn weighted_symbol(s: &[char], x: &ValueToken, y: &ValueToken) -> (r: Option<(u32, Symbol)>)
    requires
        x matches ValueToken::Ident(a, b) ==> *a <= *b <= s@.len(),
        y matches ValueToken::Ident(a, b) ==> *a <= *b <= s@.len(),
    ensures
        match r {
            Some((w, v)) => weighted_view_of(s@, x@, y@) == Some((w, v@)),
            None => weighted_view_of(s@, x@, y@) is None,
        },
{
    match weight_of(x) {
        Some(w) => match symbol_of(s, y) {
            Some(sym) => Some((w, sym)),
            None => None,
        },
        None => match (symbol_of(s, x), weight_of(y)) {
            (Some(sym), Some(w)) => Some((w, sym)),
            _ => None,
        },
    }
}

fn parse_pad(s: &[char], toks: &Vec<ValueToken>) -> (r: Option<Pad>)
    requires
        toks_in(s@, toks@),
    ensures
        match r {
            Some(x) => pad_view_of(s@, tokens_view(toks@)) == Some(x@),
            None => pad_view_of(s@, tokens_view(toks@)) is None,
        },
{
    if toks.len() == 2 {
        assert(tokens_view(toks@)[0] == toks@[0]@);
        assert(tokens_view(toks@)[1] == toks@[1]@);
        match weighted_symbol(s, &toks[0], &toks[1]) {
            Some((w, sym)) => Some(Pad(w, sym)),
            None => None,
        }
    } else {
        None
    }
}

fn parse_fallback(s: &[char], toks: &Vec<ValueToken>) -> (r: Option<Fallback>)
    requires
        toks_in(s@, toks@),
    ensures
        match r {
            Some(x) => fallback_view_of(s@, tokens_view(toks@)) == Some(x@),
            None => fallback_view_of(s@, tokens_view(toks@)) is None,
        },
{
    if toks.len() != 1 {
        return None;
    }
    assert(tokens_view(toks@)[0] == toks@[0]@);
    match &toks[0] {
        ValueToken::Ident(a, b) => Some(Fallback(CounterStyleIdent { name: ident_string(s, *a, *b) })),
        _ => None,
    }
}

/// The views of symbols.
pub open spec fn symbol_views(v: Seq<Symbol>) -> Seq<SymbolView> {
    Seq::new(v.len(), |i: int| v[i]@)
}

fn parse_symbols(s: &[char], toks: &Vec<ValueToken>) -> (r: Option<Symbols>)
    requires
        toks_in(s@, toks@),
    ensures
        match r {
            Some(x) => symbols_view_of(s@, tokens_view(toks@)) == Some(x@),
            None => symbols_view_of(s@, tokens_view(toks@)) is None,
        },
{
    let ghost ts = tokens_view(toks@);
    if toks.len() == 0 {
        return None;
    }
    let mut out: Vec<Symbol> = Vec::new();
    let mut i: usize = 0;
    assert(symbol_views(out@) =~= Seq::<SymbolView>::empty());
    while i < toks.len()
        invariant
            i <= toks@.len(),
            toks_in(s@, toks@),
            ts == tokens_view(toks@),
            symbols_acc(s@, ts, 0, Seq::empty()) == symbols_acc(s@, ts, i as int, symbol_views(out@)),
        decreases toks@.len() - i,
    {
        assert(ts[i as int] == toks@[i as int]@);
        let sym = match symbol_of(s, &toks[i]) {
            Some(x) => x,
            None => {
                return None;
            },
        };
        let ghost before = symbol_views(out@);
        out.push(sym);
        assert(symbol_views(out@) =~= before.push(sym@));
        i = i + 1;
    }
    let r = Symbols(out);
    assert(r@ =~= symbol_views(out@));
    Some(r)
}

/// The views of weighted symbols.
pub open spec fn additive_views(v: Seq<AdditiveTuple>) -> Seq<(u32, SymbolView)> {
    Seq::new(v.len(), |i: int| (v[i].weight, v[i].symbol@))
}

fn parse_additive_symbols(s: &[char], toks: &Vec<ValueToken>) -> (r: Option<AdditiveSymbols>)
    requires
        toks_in(s@, toks@),
    ensures
        match r {
            Some(x) => additive_view_of(s@, tokens_view(toks@)) == Some(x@),
            None => additive_view_of(s@, tokens_view(toks@)) is None,
        },
{
    let ghost ts = tokens_view(toks@);
    let mut out: Vec<AdditiveTuple> = Vec::new();
    let mut i: usize = 0;
    assert(additive_views(out@) =~= Seq::<(u32, SymbolView)>::empty());
    while i < toks.len()
        invariant
            toks_in(s@, toks@),
            ts == tokens_view(toks@),
            additive_acc(s@, ts, 0, Seq::empty()) == additive_acc(
                s@,
                ts,
                i as int,
                additive_views(out@),
            ),
        decreases toks@.len() - i,
    {
        if i + 1 >= toks.len() {
            return None;
        }
        assert(ts[i as int] == toks@[i as int]@);
        assert(ts[i + 1] == toks@[i + 1]@);
        let (weight, symbol) = match weighted_symbol(s, &toks[i], &toks[i + 1]) {
            Some(x) => x,
            None => {
                return None;
            },
        };
        let ghost before = additive_views(out@);
        let ghost sv = symbol@;
        out.push(AdditiveTuple { weight, symbol });
        assert(additive_views(out@) =~= before.push((weight, sv)));
        i = i + 2;
        if i < toks.len() {
            assert(ts[i as int] == toks@[i as int]@);
            match &toks[i] {
                ValueToken::Comma => {
                    i = i + 1;
                    if i >= toks.len() {
                        return None;
                    }
                },
                _ => {
                    return None;
                },
            }
        }
    }
    if out.len() == 0 {
        None
    } else {
        let r = AdditiveSymbols(out);
        assert(r@ =~= additive_views(out@));
        Some(r)
    }
}

fn parse_speak_as(s: &[char], toks: &Vec<ValueToken>) -> (r: Option<SpeakAs>)
    requires
        toks_in(s@, toks@),
    ensures
        match r {
            Some(x) => speak_as_view_of(s@, tokens_view(toks@)) == Some(x@),
            None => speak_as_view_of(s@, tokens_view(toks@)) is None,
        },
{
    if toks.len() != 1 {
        return None;
    }
    assert(tokens_view(toks@)[0] == toks@[0]@);
    match &toks[0] {
        ValueToken::Ident(a, b) => {
            let (a, b) = (*a, *b);
            if ident_is(s, a, b, "auto") {
                Some(SpeakAs::Auto)
            } else if ident_is(s, a, b, "bullets") {
                Some(SpeakAs::Bullets)
            } else if ident_is(s, a, b, "numbers") {
                Some(SpeakAs::Numbers)
            } else if ident_is(s, a, b, "words") {
                Some(SpeakAs::Words)
            } else if ident_is(s, a, b, "spell-out") {
                Some(SpeakAs::SpellOut)
            } else {
                Some(SpeakAs::Other(CounterStyleIdent { name: ident_string(s, a, b) }))
            }
        },
        _ => None,
    }
}

/// Parses the descriptor named by `[na, nb)` with value `[v0, v1)` into the
/// rule.
fn parse_descriptor(
    rule: &mut CounterStyleAtRule,
    s: &[char],
    na: usize,
    nb: usize,
    v0: usize,
    v1: usize,
) -> (r: Result<(), ParseError>)
    requires
        na <= nb <= s@.len(),
        v0 <= v1 <= s@.len(),
        s@.len() < usize::MAX,
    ensures
        match descriptor_step(s@, na as int, nb as int, v0 as int, v1 as int, old(rule)@) {
            Ok(v) => r is Ok && final(rule)@ == v,
            Err(f) => r == Err::<(), ParseError>(failure_error(s@, f)),
        },
{
    let toks = match value_tokens(s, v0, v1) {
        Ok(t) => t,
        Err(e) => {
            return Err(e);
        },
    };
    let bad = error_at(s, v0, CustomParseError::InvalidDescriptorValue);
    if ident_is(s, na, nb, "system") {
        match parse_system(s, &toks) {
            Some(v) => {
                rule.system = Some(v);
            },
            None => {
                return Err(bad);
            },
        }
    } else if ident_is(s, na, nb, "negative") {
        match parse_negative(s, &toks) {
            Some(v) => {
                rule.negative = Some(v);
            },
            None => {
                return Err(bad);
            },
        }
    } else if ident_is(s, na, nb, "prefix") {
        match parse_single_symbol(s, &toks) {
            Some(v) => {
                rule.prefix = Some(v);
            },
            None => {
                return Err(bad);
            },
        }
    } else if ident_is(s, na, nb, "suffix") {
        match parse_single_symbol(s, &toks) {
            Some(v) => {
                rule.suffix = Some(v);
            },
            None => {
                return Err(bad);
            },
        }
    } else if ident_is(s, na, nb, "range") {
        match parse_range(s, &toks) {
            Some(v) => {
                rule.range = Some(v);
            },
            None => {
                return Err(bad);
            },
        }
    } else if ident_is(s, na, nb, "pad") {
        match parse_pad(s, &toks) {
            Some(v) => {
                rule.pad = Some(v);
            },
            None => {
                return Err(bad);
            },
        }
    } else if ident_is(s, na, nb, "fallback") {
        match parse_fallback(s, &toks) {
            Some(v) => {
                rule.fallback = Some(v);
            },
            None => {
                return Err(bad);
            },
        }
    } else if ident_is(s, na, nb, "symbols") {
        match parse_symbols(s, &toks) {
            Some(v) => {
                rule.symbols = Some(v);
            },
            None => {
                return Err(bad);
            },
        }
    } else if ident_is(s, na, nb, "additive-symbols") {
        match parse_additive_symbols(s, &toks) {
            Some(v) => {
                rule.additive_symbols = Some(v);
            },
            None => {
                return Err(bad);
            },
        }
    } else if ident_is(s, na, nb, "speak-as") {
        match parse_speak_as(s, &toks) {
            Some(v) => {
                rule.speak_as = Some(v);
            },
            None => {
                return Err(bad);
            },
        }
    } else {
        return Err(error_at(s, na, CustomParseError::UnsupportedCounterStyleDescriptor));
    }
    Ok(())
}

/// Runs the checks that tie a rule's descriptors together; a failure is
/// reported at `name_at`.
pub fn finish_counter_style(s: &[char], rule: CounterStyleAtRule, name_at: usize) -> (r: Result<
    CounterStyleAtRule,
    ParseError,
>)
    requires
        name_at <= s@.len(),
        s@.len() < usize::MAX,
    ensures
        r is Ok <==> validation_error(rule@) is None,
        r matches Ok(x) ==> x@ == rule@,
        validation_error(rule@) matches Some(e) ==> r == Err::<CounterStyleAtRule, ParseError>(
            ParseError { reason: e, location: location_value(s@, name_at as int) },
        ),
{
    match rule.validate() {
        Ok(()) => Ok(rule),
        Err(reason) => Err(error_at(s, name_at, reason)),
    }
}

/// Parses the body `[from, to)` (inside the braces) of an `@counter-style`
/// rule named `name`: `descriptor: value;` pairs, then the checks that tie
/// them together, whose failure is reported at `name_at`.
pub fn parse_counter_style_body(
    s: &[char],
    name: CounterStyleIdent,
    from: usize,
    to: usize,
    name_at: usize,
) -> (r: Result<CounterStyleAtRule, ParseError>)
    requires
        from <= to <= s@.len(),
        name_at <= s@.len(),
        s@.len() < usize::MAX,
    ensures
        match body_view(s@, from as int, to as int, name@) {
            Ok(v) => match validation_error(v) {
                None => r matches Ok(x) && x@ == v,
                Some(e) => r == Err::<CounterStyleAtRule, ParseError>(
                    ParseError { reason: e, location: location_value(s@, name_at as int) },
                ),
            },
            Err(f) => r == Err::<CounterStyleAtRule, ParseError>(failure_error(s@, f)),
        },
{
    let ghost nv = name@;
    let mut rule = CounterStyleAtRule::empty(name);
    assert(rule@ == empty_view(nv));
    let mut i = from;
    while i < to
        invariant
            from <= i <= to <= s@.len(),
            s@.len() < usize::MAX,
            nv == name@,
            body_view(s@, from as int, to as int, nv) == body_acc(s@, to as int, i as int, rule@),
        decreases to - i,
    {
        let n0 = skip_ws(s, i);
        let ghost acc = rule@;
        let ghost here = body_acc(s@, to as int, i as int, acc);
        if n0 >= to {
            assert(here == Ok::<CounterStyleView, Failure>(acc));
            assert(body_acc(s@, to as int, to as int, acc) == Ok::<CounterStyleView, Failure>(acc));
            i = to;
        } else if s[n0] == ';' {
            assert(here == body_acc(s@, to as int, n0 + 1, acc));
            i = n0 + 1;
        } else {
            let n1 = match read_ident(s, n0) {
                Some(e) => e,
                None => {
                    assert(here == Err::<CounterStyleView, Failure>(
                        (CustomParseError::ExpectedIdentifier, n0 as int),
                    ));
                    return Err(error_at(s, n0, CustomParseError::ExpectedIdentifier));
                },
            };
            if n1 > to {
                assert(here == Err::<CounterStyleView, Failure>(
                    (CustomParseError::ExpectedIdentifier, n0 as int),
                ));
                return Err(error_at(s, n0, CustomParseError::ExpectedIdentifier));
            }
            let c = skip_ws(s, n1);
            if c >= to || s[c] != ':' {
                assert(here == Err::<CounterStyleView, Failure>(
                    (CustomParseError::ExpectedColon, if c < to { c as int } else { to as int }),
                ));
                return Err(
                    error_at(s, if c < to { c } else { to }, CustomParseError::ExpectedColon),
                );
            }
            assert(here == match unquoted_from(s@, c + 1, to as int, ';') {
                Err(f) => Err(f),
                Ok(end) => match descriptor_step(s@, n0 as int, n1 as int, c + 1, end, acc) {
                    Err(f) => Err(f),
                    Ok(v) => if end < i || end > to {
                        Ok(v)
                    } else {
                        body_acc(s@, to as int, if end < to { end + 1 } else { end }, v)
                    },
                },
            });
            let end = match find_unquoted(s, c + 1, to, ';') {
                Ok(e) => e,
                Err(e) => {
                    return Err(e);
                },
            };
            match parse_descriptor(&mut rule, s, n0, n1, c + 1, end) {
                Ok(()) => {},
                Err(e) => {
                    return Err(e);
                },
            }
            i = if end < to { end + 1 } else { end };
        }
    }
    assert(i >= to ==> body_acc(s@, to as int, i as int, rule@) == Ok::<CounterStyleView, Failure>(rule@));
    finish_counter_style(s, rule, name_at)
}

} // verus!
