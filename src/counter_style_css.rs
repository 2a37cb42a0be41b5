//! The canonical text of an `@counter-style` rule.
use vstd::prelude::*;
use crate::counter_style::{
    AdditiveSymbols, CounterRange, CounterStyleAtRule, CounterStyleView, Negative, Pad, Ranges,
    SpeakAs, SpeakAsView, Symbol, SymbolView, Symbols, System, SystemView,
};
use crate::scan::{digits_value, integer_value, is_digit};
use crate::text::{push_str, string_of};

verus! {

/// The digit character for `d < 10`.
pub open spec fn digit_char(d: nat) -> char {
    ((d + 48) as u8) as char
}

/// The decimal digits of a natural number.
pub open spec fn nat_digits(n: nat) -> Seq<char>
    decreases n,
{
    if n < 10 {
        seq![digit_char(n)]
    } else {
        nat_digits(n / 10) + seq![digit_char(n % 10)]
    }
}

/// The decimal text of an integer.
pub open spec fn int_css(v: int) -> Seq<char> {
    if v < 0 {
        seq!['-'] + nat_digits((-v) as nat)
    } else {
        nat_digits(v as nat)
    }
}

proof fn lemma_nat_digits_read_back(n: nat)
    ensures
        forall|k: int| 0 <= k < nat_digits(n).len() ==> is_digit(#[trigger] nat_digits(n)[k]),
        digits_value(nat_digits(n)) == n,
        nat_digits(n).len() > 0,
    decreases n,
{
    let d = (n % 10) as nat;
    assert(digit_char(d) as int == d + 48) by {
        assert(0 <= d < 10);
        assert(((d + 48) as u8) as int == d + 48);
    }
    assert('0' as int == 48);
    let t = nat_digits(n);
    if n < 10 {
        assert(t.drop_last() =~= Seq::<char>::empty());
        assert(t.last() == digit_char(d));
        assert(digits_value(t) == digits_value(t.drop_last()) * 10 + (t.last() as int - '0' as int));
    } else {
        lemma_nat_digits_read_back(n / 10);
        assert(t.drop_last() =~= nat_digits(n / 10));
        assert(t.last() == digit_char(d));
        assert(digits_value(t) == digits_value(t.drop_last()) * 10 + (t.last() as int - '0' as int));
        assert(n == (n / 10) * 10 + d);
        assert forall|k: int| 0 <= k < t.len() implies is_digit(#[trigger] t[k]) by {
            if k < t.len() - 1 {
                assert(t[k] == nat_digits(n / 10)[k]);
            }
        }
    }
}

/// The decimal text that the serialiser writes for an integer reads back as
/// that integer.
pub proof fn lemma_integer_text_reads_back(v: int)
    ensures
        integer_value(int_css(v)) == Some(v),
{
    if v < 0 {
        let m = (-v) as nat;
        lemma_nat_digits_read_back(m);
        let t = int_css(v);
        assert(t.subrange(1, t.len() as int) =~= nat_digits(m));
    } else {
        lemma_nat_digits_read_back(v as nat);
        let t = int_css(v);
        assert(t[0] == nat_digits(v as nat)[0]);
        assert(t.subrange(0, t.len() as int) =~= t);
    }
}

/// Appends the decimal digits of `n`.
pub fn write_nat(out: &mut Vec<char>, n: u64)
    ensures
        final(out)@ == old(out)@ + nat_digits(n as nat),
    decreases n,
{
    if n >= 10 {
        write_nat(out, n / 10);
    }
    let d = (n % 10) as u8;
    out.push((d + 48) as char);
    proof {
        assert(old(out)@ + nat_digits(n as nat) =~= (if n >= 10 {
            old(out)@ + nat_digits((n / 10) as nat)
        } else {
            old(out)@
        }) + seq![digit_char((n % 10) as nat)]);
    }
}

/// Appends the decimal text of `v`.
pub fn write_int(out: &mut Vec<char>, v: i32)
    ensures
        final(out)@ == old(out)@ + int_css(v as int),
{
    if v < 0 {
        out.push('-');
        let m: i64 = 0 - (v as i64);
        write_nat(out, m as u64);
        assert(final(out)@ =~= old(out)@ + int_css(v as int)) by {
            assert(old(out)@ + int_css(v as int) =~= old(out)@ + seq!['-'] + nat_digits(
                (-v) as nat,
            ));
        }
    } else {
        write_nat(out, v as u64);
    }
}

/// A character as it stands inside a double-quoted string.
pub open spec fn escape_char(c: char) -> Seq<char> {
    if c == '"' {
        seq!['\\', '"']
    } else if c == '\\' {
        seq!['\\', '\\']
    } else if c == '\n' {
        seq!['\\', 'a', ' ']
    } else {
        seq![c]
    }
}

/// The characters of a string as they stand inside double quotes.
pub open spec fn escape_seq(t: Seq<char>) -> Seq<char>
    decreases t.len(),
{
    if t.len() == 0 {
        Seq::empty()
    } else {
        escape_seq(t.drop_last()) + escape_char(t.last())
    }
}

/// A string in double quotes.
pub open spec fn quoted_css(t: Seq<char>) -> Seq<char> {
    seq!['"'] + escape_seq(t) + seq!['"']
}

/// Appends a string in double quotes.
pub fn write_quoted(out: &mut Vec<char>, t: &str)
    ensures
        final(out)@ == old(out)@ + quoted_css(t@),
{
    let n = t.unicode_len();
    out.push('"');
    let ghost start = out@;
    let mut i: usize = 0;
    while i < n
        invariant
            n == t@.len(),
            i <= n,
            out@ == start + escape_seq(t@.subrange(0, i as int)),
        decreases n - i,
    {
        let c = t.get_char(i);
        if c == '"' {
            out.push('\\');
            out.push('"');
        } else if c == '\\' {
            out.push('\\');
            out.push('\\');
        } else if c == '\n' {
            out.push('\\');
            out.push('a');
            out.push(' ');
        } else {
            out.push(c);
        }
        proof {
            let next = t@.subrange(0, i + 1);
            assert(next.drop_last() =~= t@.subrange(0, i as int));
            assert(out@ =~= start + escape_seq(next));
        }
        i = i + 1;
    }
    out.push('"');
    assert(t@.subrange(0, n as int) =~= t@);
    assert(out@ =~= old(out)@ + quoted_css(t@));
}

/// A symbol that stands alone in a descriptor: its text as written.
pub open spec fn symbol_css(s: SymbolView) -> Seq<char> {
    match s {
        SymbolView::Str(t) => t,
        SymbolView::Ident(t) => t,
    }
}

/// A symbol in a list: a string is quoted.
pub open spec fn list_symbol_css(s: SymbolView) -> Seq<char> {
    match s {
        SymbolView::Str(t) => quoted_css(t),
        SymbolView::Ident(t) => t,
    }
}

fn write_symbol(out: &mut Vec<char>, s: &Symbol)
    ensures
        final(out)@ == old(out)@ + symbol_css(s@),
{
    match s {
        Symbol::String(t) => push_str(out, t.as_str()),
        Symbol::Ident(t) => push_str(out, t.as_str()),
    }
}

fn write_list_symbol(out: &mut Vec<char>, s: &Symbol)
    ensures
        final(out)@ == old(out)@ + list_symbol_css(s@),
{
    match s {
        Symbol::String(t) => write_quoted(out, t.as_str()),
        Symbol::Ident(t) => push_str(out, t.as_str()),
    }
}

/// The text of a system.
pub open spec fn system_css(s: SystemView) -> Seq<char> {
    match s {
        SystemView::Cyclic => "cyclic"@,
        SystemView::Numeric => "numeric"@,
        SystemView::Alphabetic => "alphabetic"@,
        SystemView::Symbolic => "symbolic"@,
        SystemView::Additive => "additive"@,
        SystemView::Fixed(None) => "fixed"@,
        SystemView::Fixed(Some(v)) => "fixed"@ + seq![' '] + int_css(v as int),
        SystemView::Extends(n) => "extends"@ + seq![' '] + n,
    }
}

fn write_system(out: &mut Vec<char>, s: &System)
    ensures
        final(out)@ == old(out)@ + system_css(s@),
{
    match s {
        System::Cyclic => push_str(out, "cyclic"),
        System::Numeric => push_str(out, "numeric"),
        System::Alphabetic => push_str(out, "alphabetic"),
        System::Symbolic => push_str(out, "symbolic"),
        System::Additive => push_str(out, "additive"),
        System::Fixed { first_symbol_value: None } => push_str(out, "fixed"),
        System::Fixed { first_symbol_value: Some(v) } => {
            push_str(out, "fixed");
            out.push(' ');
            write_int(out, *v);
            assert(final(out)@ =~= old(out)@ + system_css(s@));
        },
        System::Extends(n) => {
            push_str(out, "extends");
            out.push(' ');
            push_str(out, n.name.as_str());
            assert(final(out)@ =~= old(out)@ + system_css(s@));
        },
    }
}

/// The text of `negative`.
pub open spec fn negative_css(n: (SymbolView, Option<SymbolView>)) -> Seq<char> {
    match n.1 {
        Some(b) => symbol_css(n.0) + seq![' '] + symbol_css(b),
        None => symbol_css(n.0),
    }
}

fn write_negative(out: &mut Vec<char>, n: &Negative)
    ensures
        final(out)@ == old(out)@ + negative_css(n@),
{
    write_symbol(out, &n.0);
    if let Some(b) = &n.1 {
        out.push(' ');
        write_symbol(out, b);
        assert(final(out)@ =~= old(out)@ + negative_css(n@));
    }
}

/// The text of one end of a range.
pub open spec fn bound_css(b: Option<i32>) -> Seq<char> {
    match b {
        Some(v) => int_css(v as int),
        None => "infinite"@,
    }
}

/// The text of one range.
pub open spec fn one_range_css(r: CounterRange) -> Seq<char> {
    bound_css(r.start) + seq![' '] + bound_css(r.end)
}

/// Ranges separated by commas.
pub open spec fn ranges_join(rs: Seq<CounterRange>) -> Seq<char>
    decreases rs.len(),
{
    if rs.len() == 0 {
        Seq::empty()
    } else if rs.len() == 1 {
        one_range_css(rs[0])
    } else {
        ranges_join(rs.drop_last()) + seq![','] + one_range_css(rs.last())
    }
}

/// The text of `range`: `auto` where there are no ranges.
pub open spec fn range_css(rs: Seq<CounterRange>) -> Seq<char> {
    if rs.len() == 0 {
        "auto"@
    } else {
        ranges_join(rs)
    }
}

fn write_bound(out: &mut Vec<char>, b: Option<i32>)
    ensures
        final(out)@ == old(out)@ + bound_css(b),
{
    match b {
        Some(v) => write_int(out, v),
        None => push_str(out, "infinite"),
    }
}

fn write_ranges(out: &mut Vec<char>, r: &Ranges)
    ensures
        final(out)@ == old(out)@ + range_css(r@),
{
    if r.0.len() == 0 {
        push_str(out, "auto");
        return;
    }
    let ghost start = out@;
    let mut i: usize = 0;
    while i < r.0.len()
        invariant
            i <= r.0@.len(),
            out@ == start + ranges_join(r.0@.subrange(0, i as int)),
        decreases r.0@.len() - i,
    {
        let ghost before = out@;
        if i > 0 {
            out.push(',');
        }
        let x = r.0[i];
        write_bound(out, x.start);
        out.push(' ');
        write_bound(out, x.end);
        proof {
            let next = r.0@.subrange(0, i + 1);
            assert(next.drop_last() =~= r.0@.subrange(0, i as int));
            if i == 0 {
                assert(out@ =~= start + ranges_join(next));
            } else {
                assert(out@ =~= start + ranges_join(next));
            }
        }
        i = i + 1;
    }
    assert(r.0@.subrange(0, r.0@.len() as int) =~= r.0@);
}

/// The text of `pad`.
pub open spec fn pad_css(p: (u32, SymbolView)) -> Seq<char> {
    int_css(p.0 as int) + seq![' '] + symbol_css(p.1)
}

fn write_pad(out: &mut Vec<char>, p: &Pad)
    ensures
        final(out)@ == old(out)@ + pad_css(p@),
{
    write_nat(out, p.0 as u64);
    out.push(' ');
    write_symbol(out, &p.1);
    assert(final(out)@ =~= old(out)@ + pad_css(p@));
}

/// Symbols of a list separated by spaces.
pub open spec fn symbols_css(ss: Seq<SymbolView>) -> Seq<char>
    decreases ss.len(),
{
    if ss.len() == 0 {
        Seq::empty()
    } else if ss.len() == 1 {
        list_symbol_css(ss[0])
    } else {
        symbols_css(ss.drop_last()) + seq![' '] + list_symbol_css(ss.last())
    }
}

fn write_symbols(out: &mut Vec<char>, ss: &Symbols)
    ensures
        final(out)@ == old(out)@ + symbols_css(ss@),
{
    let ghost start = out@;
    let mut i: usize = 0;
    while i < ss.0.len()
        invariant
            i <= ss.0@.len(),
            out@ == start + symbols_css(ss@.subrange(0, i as int)),
        decreases ss.0@.len() - i,
    {
        if i > 0 {
            out.push(' ');
        }
        write_list_symbol(out, &ss.0[i]);
        proof {
            let next = ss@.subrange(0, i + 1);
            assert(next.drop_last() =~= ss@.subrange(0, i as int));
            assert(out@ =~= start + symbols_css(next));
        }
        i = i + 1;
    }
    assert(ss@.subrange(0, ss@.len() as int) =~= ss@);
}

/// One weight and symbol.
pub open spec fn additive_tuple_css(t: (u32, SymbolView)) -> Seq<char> {
    int_css(t.0 as int) + seq![' '] + list_symbol_css(t.1)
}

/// Weights and symbols separated by commas.
pub open spec fn additive_css(ts: Seq<(u32, SymbolView)>) -> Seq<char>
    decreases ts.len(),
{
    if ts.len() == 0 {
        Seq::empty()
    } else if ts.len() == 1 {
        additive_tuple_css(ts[0])
    } else {
        additive_css(ts.drop_last()) + seq![','] + additive_tuple_css(ts.last())
    }
}

fn write_additive(out: &mut Vec<char>, ts: &AdditiveSymbols)
    ensures
        final(out)@ == old(out)@ + additive_css(ts@),
{
    let ghost start = out@;
    let mut i: usize = 0;
    while i < ts.0.len()
        invariant
            i <= ts.0@.len(),
            out@ == start + additive_css(ts@.subrange(0, i as int)),
        decreases ts.0@.len() - i,
    {
        if i > 0 {
            out.push(',');
        }
        write_nat(out, ts.0[i].weight as u64);
        out.push(' ');
        write_list_symbol(out, &ts.0[i].symbol);
        proof {
            let next = ts@.subrange(0, i + 1);
            assert(next.drop_last() =~= ts@.subrange(0, i as int));
            assert(out@ =~= start + additive_css(next));
        }
        i = i + 1;
    }
    assert(ts@.subrange(0, ts@.len() as int) =~= ts@);
}

/// The text of `speak-as`.
pub open spec fn speak_as_css(s: SpeakAsView) -> Seq<char> {
    match s {
        SpeakAsView::Auto => "auto"@,
        SpeakAsView::Bullets => "bullets"@,
        SpeakAsView::Numbers => "numbers"@,
        SpeakAsView::Words => "words"@,
        SpeakAsView::SpellOut => "spell-out"@,
        SpeakAsView::Other(n) => n,
    }
}

fn write_speak_as(out: &mut Vec<char>, s: &SpeakAs)
    ensures
        final(out)@ == old(out)@ + speak_as_css(s@),
{
    match s {
        SpeakAs::Auto => push_str(out, "auto"),
        SpeakAs::Bullets => push_str(out, "bullets"),
        SpeakAs::Numbers => push_str(out, "numbers"),
        SpeakAs::Words => push_str(out, "words"),
        SpeakAs::SpellOut => push_str(out, "spell-out"),
        SpeakAs::Other(n) => push_str(out, n.name.as_str()),
    }
}

/// `name:text;` where a descriptor is written, nothing where it is absent.
pub open spec fn descriptor_css(name: Seq<char>, present: bool, text: Seq<char>) -> Seq<char> {
    if present {
        name + seq![':'] + text + seq![';']
    } else {
        Seq::empty()
    }
}

/// The canonical text of a counter-style rule: the written descriptors in a
/// fixed order; absent ones are left out.
pub open spec fn counter_style_css(r: CounterStyleView) -> Seq<char> {
    "@counter-style "@ + r.name + seq!['{']
        + descriptor_css("system"@, r.system is Some, system_css(r.system->0))
        + descriptor_css("negative"@, r.negative is Some, negative_css(r.negative->0))
        + descriptor_css("prefix"@, r.prefix is Some, symbol_css(r.prefix->0))
        + descriptor_css("suffix"@, r.suffix is Some, symbol_css(r.suffix->0))
        + descriptor_css("range"@, r.range is Some, range_css(r.range->0))
        + descriptor_css("pad"@, r.pad is Some, pad_css(r.pad->0))
        + descriptor_css("fallback"@, r.fallback is Some, r.fallback->0)
        + descriptor_css("symbols"@, r.symbols is Some, symbols_css(r.symbols->0))
        + descriptor_css("additive-symbols"@, r.additive_symbols is Some, additive_css(r.additive_symbols->0))
        + descriptor_css("speak-as"@, r.speak_as is Some, speak_as_css(r.speak_as->0)) + seq!['}']
}

impl CounterStyleAtRule {
    fn write_system_descriptor(&self, out: &mut Vec<char>)
        ensures
            final(out)@ == old(out)@ + descriptor_css("system"@, self@.system is Some, system_css(self@.system->0)),
    {
        if let Some(v) = &self.system {
            push_str(out, "system");
            out.push(':');
            write_system(out, v);
            out.push(';');
            assert(final(out)@ =~= old(out)@ + descriptor_css("system"@, true, system_css(self@.system->0)));
        } else {
            assert(final(out)@ =~= old(out)@ + descriptor_css("system"@, false, system_css(self@.system->0)));
        }
    }

    fn write_negative_descriptor(&self, out: &mut Vec<char>)
        ensures
            final(out)@ == old(out)@ + descriptor_css("negative"@, self@.negative is Some, negative_css(self@.negative->0)),
    {
        if let Some(v) = &self.negative {
            push_str(out, "negative");
            out.push(':');
            write_negative(out, v);
            out.push(';');
            assert(final(out)@ =~= old(out)@ + descriptor_css("negative"@, true, negative_css(self@.negative->0)));
        } else {
            assert(final(out)@ =~= old(out)@ + descriptor_css("negative"@, false, negative_css(self@.negative->0)));
        }
    }

    fn write_prefix_descriptor(&self, out: &mut Vec<char>)
        ensures
            final(out)@ == old(out)@ + descriptor_css("prefix"@, self@.prefix is Some, symbol_css(self@.prefix->0)),
    {
        if let Some(v) = &self.prefix {
            push_str(out, "prefix");
            out.push(':');
            write_symbol(out, v);
            out.push(';');
            assert(final(out)@ =~= old(out)@ + descriptor_css("prefix"@, true, symbol_css(self@.prefix->0)));
        } else {
            assert(final(out)@ =~= old(out)@ + descriptor_css("prefix"@, false, symbol_css(self@.prefix->0)));
        }
    }

    fn write_suffix_descriptor(&self, out: &mut Vec<char>)
        ensures
            final(out)@ == old(out)@ + descriptor_css("suffix"@, self@.suffix is Some, symbol_css(self@.suffix->0)),
    {
        if let Some(v) = &self.suffix {
            push_str(out, "suffix");
            out.push(':');
            write_symbol(out, v);
            out.push(';');
            assert(final(out)@ =~= old(out)@ + descriptor_css("suffix"@, true, symbol_css(self@.suffix->0)));
        } else {
            assert(final(out)@ =~= old(out)@ + descriptor_css("suffix"@, false, symbol_css(self@.suffix->0)));
        }
    }

    fn write_range_descriptor(&self, out: &mut Vec<char>)
        ensures
            final(out)@ == old(out)@ + descriptor_css("range"@, self@.range is Some, range_css(self@.range->0)),
    {
        if let Some(v) = &self.range {
            push_str(out, "range");
            out.push(':');
            write_ranges(out, v);
            out.push(';');
            assert(final(out)@ =~= old(out)@ + descriptor_css("range"@, true, range_css(self@.range->0)));
        } else {
            assert(final(out)@ =~= old(out)@ + descriptor_css("range"@, false, range_css(self@.range->0)));
        }
    }

    fn write_pad_descriptor(&self, out: &mut Vec<char>)
        ensures
            final(out)@ == old(out)@ + descriptor_css("pad"@, self@.pad is Some, pad_css(self@.pad->0)),
    {
        if let Some(v) = &self.pad {
            push_str(out, "pad");
            out.push(':');
            write_pad(out, v);
            out.push(';');
            assert(final(out)@ =~= old(out)@ + descriptor_css("pad"@, true, pad_css(self@.pad->0)));
        } else {
            assert(final(out)@ =~= old(out)@ + descriptor_css("pad"@, false, pad_css(self@.pad->0)));
        }
    }

    fn write_fallback_descriptor(&self, out: &mut Vec<char>)
        ensures
            final(out)@ == old(out)@ + descriptor_css("fallback"@, self@.fallback is Some, self@.fallback->0),
    {
        if let Some(v) = &self.fallback {
            push_str(out, "fallback");
            out.push(':');
            push_str(out, v.0.name.as_str());
            out.push(';');
            assert(final(out)@ =~= old(out)@ + descriptor_css("fallback"@, true, self@.fallback->0));
        } else {
            assert(final(out)@ =~= old(out)@ + descriptor_css("fallback"@, false, self@.fallback->0));
        }
    }

    fn write_symbols_descriptor(&self, out: &mut Vec<char>)
        ensures
            final(out)@ == old(out)@ + descriptor_css("symbols"@, self@.symbols is Some, symbols_css(self@.symbols->0)),
    {
        if let Some(v) = &self.symbols {
            push_str(out, "symbols");
            out.push(':');
            write_symbols(out, v);
            out.push(';');
            assert(final(out)@ =~= old(out)@ + descriptor_css("symbols"@, true, symbols_css(self@.symbols->0)));
        } else {
            assert(final(out)@ =~= old(out)@ + descriptor_css("symbols"@, false, symbols_css(self@.symbols->0)));
        }
    }

    fn write_additive_symbols_descriptor(&self, out: &mut Vec<char>)
        ensures
            final(out)@ == old(out)@ + descriptor_css("additive-symbols"@, self@.additive_symbols is Some, additive_css(self@.additive_symbols->0)),
    {
        if let Some(v) = &self.additive_symbols {
            push_str(out, "additive-symbols");
            out.push(':');
            write_additive(out, v);
            out.push(';');
            assert(final(out)@ =~= old(out)@ + descriptor_css("additive-symbols"@, true, additive_css(self@.additive_symbols->0)));
        } else {
            assert(final(out)@ =~= old(out)@ + descriptor_css("additive-symbols"@, false, additive_css(self@.additive_symbols->0)));
        }
    }

    fn write_speak_as_descriptor(&self, out: &mut Vec<char>)
        ensures
            final(out)@ == old(out)@ + descriptor_css("speak-as"@, self@.speak_as is Some, speak_as_css(self@.speak_as->0)),
    {
        if let Some(v) = &self.speak_as {
            push_str(out, "speak-as");
            out.push(':');
            write_speak_as(out, v);
            out.push(';');
            assert(final(out)@ =~= old(out)@ + descriptor_css("speak-as"@, true, speak_as_css(self@.speak_as->0)));
        } else {
            assert(final(out)@ =~= old(out)@ + descriptor_css("speak-as"@, false, speak_as_css(self@.speak_as->0)));
        }
    }

    /// The rule's canonical text.
    pub fn to_css(&self) -> (r: String)
        ensures
            r@ == counter_style_css(self@),
    {
        let mut out: Vec<char> = Vec::new();
        push_str(&mut out, "@counter-style ");
        assert(out@ == "@counter-style "@) by {
            assert(Seq::<char>::empty() + "@counter-style "@ =~= "@counter-style "@);
        }
        push_str(&mut out, self.name.name.as_str());
        let ghost head = out@;
        out.push('{');
        assert(out@ == head + seq!['{']) by {
            assert(head.push('{') =~= head + seq!['{']);
        }
        self.write_system_descriptor(&mut out);
        self.write_negative_descriptor(&mut out);
        self.write_prefix_descriptor(&mut out);
        self.write_suffix_descriptor(&mut out);
        self.write_range_descriptor(&mut out);
        self.write_pad_descriptor(&mut out);
        self.write_fallback_descriptor(&mut out);
        self.write_symbols_descriptor(&mut out);
        self.write_additive_symbols_descriptor(&mut out);
        self.write_speak_as_descriptor(&mut out);
        let ghost body = out@;
        out.push('}');
        assert(out@ == body + seq!['}']) by {
            assert(body.push('}') =~= body + seq!['}']);
        }
        string_of(&out)
    }
}

} // verus!
