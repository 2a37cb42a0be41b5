//! The `@counter-style` rule: its descriptors, their defaults, the checks that
//! tie them together, parsing and serialisation.
use vstd::prelude::*;
use crate::error::{CustomParseError, SystemKind};

verus! {

/// A counter style's name.
#[derive(Clone, Debug, PartialEq, Eq)]
pub struct CounterStyleIdent {
    pub name: String,
}

/// A symbol: a quoted string or an identifier.
#[derive(Clone, Debug, PartialEq, Eq)]
pub enum Symbol {
    String(String),
    Ident(String),
}

/// The `system` descriptor.
#[derive(Clone, Debug, PartialEq, Eq)]
pub enum System {
    Cyclic,
    Numeric,
    Alphabetic,
    Symbolic,
    Additive,
    Fixed { first_symbol_value: Option<i32> },
    Extends(CounterStyleIdent),
}

/// The `negative` descriptor: a symbol before, and optionally one after.
#[derive(Clone, Debug, PartialEq, Eq)]
pub struct Negative(pub Symbol, pub Option<Symbol>);

/// One range of the `range` descriptor; an absent end is infinite.
#[derive(Clone, Copy, Debug, PartialEq, Eq, Structural)]
pub struct CounterRange {
    pub start: Option<i32>,
    pub end: Option<i32>,
}

/// The `range` descriptor; no ranges at all stands for `auto`.
#[derive(Clone, Debug, PartialEq, Eq)]
pub struct Ranges(pub Vec<CounterRange>);

/// The `pad` descriptor: a minimum width and the symbol that pads.
#[derive(Clone, Debug, PartialEq, Eq)]
pub struct Pad(pub u32, pub Symbol);

/// The `fallback` descriptor.
#[derive(Clone, Debug, PartialEq, Eq)]
pub struct Fallback(pub CounterStyleIdent);

/// The `symbols` descriptor.
#[derive(Clone, Debug, PartialEq, Eq)]
pub struct Symbols(pub Vec<Symbol>);

/// One weight and symbol of the `additive-symbols` descriptor.
#[derive(Clone, Debug, PartialEq, Eq)]
pub struct AdditiveTuple {
    pub weight: u32,
    pub symbol: Symbol,
}

/// The `additive-symbols` descriptor.
#[derive(Clone, Debug, PartialEq, Eq)]
pub struct AdditiveSymbols(pub Vec<AdditiveTuple>);

/// The `speak-as` descriptor.
#[derive(Clone, Debug, PartialEq, Eq)]
pub enum SpeakAs {
    Auto,
    Bullets,
    Numbers,
    Words,
    SpellOut,
    Other(CounterStyleIdent),
}

/// An `@counter-style` rule. Each descriptor is absent unless written; its
/// accessor gives the default in that case.
#[derive(Clone, Debug, PartialEq, Eq)]
pub struct CounterStyleAtRule {
    pub name: CounterStyleIdent,
    pub system: Option<System>,
    pub negative: Option<Negative>,
    pub prefix: Option<Symbol>,
    pub suffix: Option<Symbol>,
    pub range: Option<Ranges>,
    pub pad: Option<Pad>,
    pub fallback: Option<Fallback>,
    pub symbols: Option<Symbols>,
    pub additive_symbols: Option<AdditiveSymbols>,
    pub speak_as: Option<SpeakAs>,
}

/// What a symbol is, as plain values.
pub enum SymbolView {
    Str(Seq<char>),
    Ident(Seq<char>),
}

/// What a system is, as plain values.
pub enum SystemView {
    Cyclic,
    Numeric,
    Alphabetic,
    Symbolic,
    Additive,
    Fixed(Option<i32>),
    Extends(Seq<char>),
}

/// What a `speak-as` value is, as plain values.
pub enum SpeakAsView {
    Auto,
    Bullets,
    Numbers,
    Words,
    SpellOut,
    Other(Seq<char>),
}

/// What a counter-style rule holds, as plain values.
pub struct CounterStyleView {
    pub name: Seq<char>,
    pub system: Option<SystemView>,
    pub negative: Option<(SymbolView, Option<SymbolView>)>,
    pub prefix: Option<SymbolView>,
    pub suffix: Option<SymbolView>,
    pub range: Option<Seq<CounterRange>>,
    pub pad: Option<(u32, SymbolView)>,
    pub fallback: Option<Seq<char>>,
    pub symbols: Option<Seq<SymbolView>>,
    pub additive_symbols: Option<Seq<(u32, SymbolView)>>,
    pub speak_as: Option<SpeakAsView>,
}

impl View for CounterStyleIdent {
    type V = Seq<char>;

    open spec fn view(&self) -> Seq<char> {
        self.name@
    }
}

impl View for Symbol {
    type V = SymbolView;

    open spec fn view(&self) -> SymbolView {
        match self {
            Symbol::String(t) => SymbolView::Str(t@),
            Symbol::Ident(t) => SymbolView::Ident(t@),
        }
    }
}

impl View for System {
    type V = SystemView;

    open spec fn view(&self) -> SystemView {
        match self {
            System::Cyclic => SystemView::Cyclic,
            System::Numeric => SystemView::Numeric,
            System::Alphabetic => SystemView::Alphabetic,
            System::Symbolic => SystemView::Symbolic,
            System::Additive => SystemView::Additive,
            System::Fixed { first_symbol_value } => SystemView::Fixed(*first_symbol_value),
            System::Extends(n) => SystemView::Extends(n@),
        }
    }
}

impl View for Negative {
    type V = (SymbolView, Option<SymbolView>);

    open spec fn view(&self) -> (SymbolView, Option<SymbolView>) {
        (self.0@, match self.1 {
            Some(s) => Some(s@),
            None => None,
        })
    }
}

impl View for Ranges {
    type V = Seq<CounterRange>;

    open spec fn view(&self) -> Seq<CounterRange> {
        self.0@
    }
}

impl View for Pad {
    type V = (u32, SymbolView);

    open spec fn view(&self) -> (u32, SymbolView) {
        (self.0, self.1@)
    }
}

impl View for Fallback {
    type V = Seq<char>;

    open spec fn view(&self) -> Seq<char> {
        self.0@
    }
}

impl View for Symbols {
    type V = Seq<SymbolView>;

    open spec fn view(&self) -> Seq<SymbolView> {
        Seq::new(self.0@.len(), |i: int| self.0@[i]@)
    }
}

impl View for AdditiveSymbols {
    type V = Seq<(u32, SymbolView)>;

    open spec fn view(&self) -> Seq<(u32, SymbolView)> {
        Seq::new(self.0@.len(), |i: int| (self.0@[i].weight, self.0@[i].symbol@))
    }
}

impl View for SpeakAs {
    type V = SpeakAsView;

    open spec fn view(&self) -> SpeakAsView {
        match self {
            SpeakAs::Auto => SpeakAsView::Auto,
            SpeakAs::Bullets => SpeakAsView::Bullets,
            SpeakAs::Numbers => SpeakAsView::Numbers,
            SpeakAs::Words => SpeakAsView::Words,
            SpeakAs::SpellOut => SpeakAsView::SpellOut,
            SpeakAs::Other(n) => SpeakAsView::Other(n@),
        }
    }
}

/// The view of an optional value.
pub open spec fn opt_view<T: View>(o: Option<T>) -> Option<T::V> {
    match o {
        Some(v) => Some(v@),
        None => None,
    }
}

impl View for CounterStyleAtRule {
    type V = CounterStyleView;

    open spec fn view(&self) -> CounterStyleView {
        CounterStyleView {
            name: self.name@,
            system: opt_view(self.system),
            negative: opt_view(self.negative),
            prefix: opt_view(self.prefix),
            suffix: opt_view(self.suffix),
            range: opt_view(self.range),
            pad: opt_view(self.pad),
            fallback: opt_view(self.fallback),
            symbols: opt_view(self.symbols),
            additive_symbols: opt_view(self.additive_symbols),
            speak_as: opt_view(self.speak_as),
        }
    }
}

/// The system in effect: `symbolic` where none is written.
pub open spec fn effective_system(r: CounterStyleView) -> SystemView {
    match r.system {
        Some(s) => s,
        None => SystemView::Symbolic,
    }
}

/// The default of `negative`: `-` before, nothing after.
pub open spec fn default_negative() -> (SymbolView, Option<SymbolView>) {
    (SymbolView::Str(seq!['-']), None)
}

/// The default of `prefix`: the empty string.
pub open spec fn default_prefix() -> SymbolView {
    SymbolView::Str(Seq::empty())
}

/// The default of `suffix`: a full stop and a space.
pub open spec fn default_suffix() -> SymbolView {
    SymbolView::Str(seq!['.', ' '])
}

/// The default of `pad`: width 0, the empty string.
pub open spec fn default_pad() -> (u32, SymbolView) {
    (0, SymbolView::Str(Seq::empty()))
}

/// The default of `fallback`: the `decimal` style.
pub open spec fn default_fallback() -> Seq<char> {
    seq!['d', 'e', 'c', 'i', 'm', 'a', 'l']
}

/// The kind of a system, as errors name it.
pub open spec fn kind_of(s: SystemView) -> SystemKind {
    match s {
        SystemView::Cyclic => SystemKind::Cyclic,
        SystemView::Numeric => SystemKind::Numeric,
        SystemView::Alphabetic => SystemKind::Alphabetic,
        SystemView::Symbolic => SystemKind::Symbolic,
        SystemView::Additive => SystemKind::Additive,
        SystemView::Fixed(_) => SystemKind::Fixed,
        SystemView::Extends(_) => SystemKind::Extends,
    }
}

/// The first check that a rule fails, in order, or `None` where it passes
/// them all.
pub open spec fn validation_error(r: CounterStyleView) -> Option<CustomParseError> {
    let k = kind_of(effective_system(r));
    if (k == SystemKind::Cyclic || k == SystemKind::Fixed || k == SystemKind::Symbolic || k
        == SystemKind::Alphabetic || k == SystemKind::Numeric) && r.symbols is None {
        Some(CustomParseError::InvalidCounterStyleWithoutSymbols(k))
    } else if (k == SystemKind::Alphabetic || k == SystemKind::Numeric) && r.symbols->0.len()
        < 2 {
        Some(CustomParseError::InvalidCounterStyleNotEnoughSymbols(k))
    } else if k == SystemKind::Additive && r.additive_symbols is None {
        Some(CustomParseError::InvalidCounterStyleWithoutAdditiveSymbols)
    } else if k == SystemKind::Extends && r.symbols is Some {
        Some(CustomParseError::InvalidCounterStyleExtendsWithSymbols)
    } else if k == SystemKind::Extends && r.additive_symbols is Some {
        Some(CustomParseError::InvalidCounterStyleExtendsWithAdditiveSymbols)
    } else {
        None
    }
}

/// A rule that passes every check.
pub open spec fn valid_counter_style(r: CounterStyleView) -> bool {
    validation_error(r) is None
}

/// A copy of a string.
fn copy_string(s: &String) -> (r: String)
    ensures
        r@ == s@,
{
    s.clone()
}

impl CounterStyleIdent {
    pub fn copy(&self) -> (r: CounterStyleIdent)
        ensures
            r@ == self@,
    {
        CounterStyleIdent { name: copy_string(&self.name) }
    }
}

impl Symbol {
    pub fn copy(&self) -> (r: Symbol)
        ensures
            r@ == self@,
    {
        match self {
            Symbol::String(t) => Symbol::String(copy_string(t)),
            Symbol::Ident(t) => Symbol::Ident(copy_string(t)),
        }
    }
}

impl System {
    pub fn copy(&self) -> (r: System)
        ensures
            r@ == self@,
    {
        match self {
            System::Cyclic => System::Cyclic,
            System::Numeric => System::Numeric,
            System::Alphabetic => System::Alphabetic,
            System::Symbolic => System::Symbolic,
            System::Additive => System::Additive,
            System::Fixed { first_symbol_value } => System::Fixed {
                first_symbol_value: *first_symbol_value,
            },
            System::Extends(n) => System::Extends(n.copy()),
        }
    }

    /// The kind of this system, as errors name it.
    pub fn kind(&self) -> (r: SystemKind)
        ensures
            r == kind_of(self@),
    {
        match self {
            System::Cyclic => SystemKind::Cyclic,
            System::Numeric => SystemKind::Numeric,
            System::Alphabetic => SystemKind::Alphabetic,
            System::Symbolic => SystemKind::Symbolic,
            System::Additive => SystemKind::Additive,
            System::Fixed { .. } => SystemKind::Fixed,
            System::Extends(_) => SystemKind::Extends,
        }
    }
}

impl SpeakAs {
    pub fn copy(&self) -> (r: SpeakAs)
        ensures
            r@ == self@,
    {
        match self {
            SpeakAs::Auto => SpeakAs::Auto,
            SpeakAs::Bullets => SpeakAs::Bullets,
            SpeakAs::Numbers => SpeakAs::Numbers,
            SpeakAs::Words => SpeakAs::Words,
            SpeakAs::SpellOut => SpeakAs::SpellOut,
            SpeakAs::Other(n) => SpeakAs::Other(n.copy()),
        }
    }
}

fn string_from(s: &str) -> (r: String)
    ensures
        r@ == s@,
{
    String::from_str(s)
}

impl CounterStyleAtRule {
    /// A rule with the given name and no descriptors.
    pub fn empty(name: CounterStyleIdent) -> (r: CounterStyleAtRule)
        ensures
            r@ == (CounterStyleView {
                name: name@,
                system: None,
                negative: None,
                prefix: None,
                suffix: None,
                range: None,
                pad: None,
                fallback: None,
                symbols: None,
                additive_symbols: None,
                speak_as: None,
            }),
    {
        CounterStyleAtRule {
            name,
            system: None,
            negative: None,
            prefix: None,
            suffix: None,
            range: None,
            pad: None,
            fallback: None,
            symbols: None,
            additive_symbols: None,
            speak_as: None,
        }
    }

    /// The rule's name.
    pub fn name(&self) -> (r: &CounterStyleIdent)
        ensures
            r@ == self@.name,
    {
        &self.name
    }

    /// The system in effect.
    pub fn system(&self) -> (r: System)
        ensures
            r@ == effective_system(self@),
    {
        match &self.system {
            Some(v) => v.copy(),
            None => System::Symbolic,
        }
    }

    /// The `negative` descriptor in effect.
    pub fn negative(&self) -> (r: Negative)
        ensures
            r@ == (match self@.negative {
                Some(v) => v,
                None => default_negative(),
            }),
    {
        match &self.negative {
            Some(v) => Negative(v.0.copy(), match &v.1 {
                Some(x) => Some(x.copy()),
                None => None,
            }),
            None => {
                let r = Negative(Symbol::String(string_from("-")), None);
                proof {
                    reveal_strlit("-");
                    assert("-"@ =~= seq!['-']);
                }
                r
            },
        }
    }

    /// The `prefix` descriptor in effect.
    pub fn prefix(&self) -> (r: Symbol)
        ensures
            r@ == (match self@.prefix {
                Some(v) => v,
                None => default_prefix(),
            }),
    {
        match &self.prefix {
            Some(v) => v.copy(),
            None => Symbol::String(String::new()),
        }
    }

    /// The `suffix` descriptor in effect.
    pub fn suffix(&self) -> (r: Symbol)
        ensures
            r@ == (match self@.suffix {
                Some(v) => v,
                None => default_suffix(),
            }),
    {
        match &self.suffix {
            Some(v) => v.copy(),
            None => {
                let r = Symbol::String(string_from(". "));
                proof {
                    reveal_strlit(". ");
                    assert(". "@ =~= seq!['.', ' ']);
                }
                r
            },
        }
    }

    /// The `range` descriptor in effect: no ranges, meaning `auto`, by default.
    pub fn range(&self) -> (r: Ranges)
        ensures
            r@ == (match self@.range {
                Some(v) => v,
                None => Seq::empty(),
            }),
    {
        match &self.range {
            Some(v) => {
                let mut out: Vec<CounterRange> = Vec::new();
                let mut i: usize = 0;
                while i < v.0.len()
                    invariant
                        i <= v.0@.len(),
                        out@ == v.0@.subrange(0, i as int),
                    decreases v.0@.len() - i,
                {
                    out.push(v.0[i]);
                    i = i + 1;
                }
                assert(out@ =~= v.0@);
                Ranges(out)
            },
            None => {
                let r = Ranges(Vec::new());
                assert(r@ =~= Seq::empty());
                r
            },
        }
    }

    /// The `pad` descriptor in effect.
    pub fn pad(&self) -> (r: Pad)
        ensures
            r@ == (match self@.pad {
                Some(v) => v,
                None => default_pad(),
            }),
    {
        match &self.pad {
            Some(v) => Pad(v.0, v.1.copy()),
            None => Pad(0, Symbol::String(String::new())),
        }
    }

    /// The `fallback` descriptor in effect.
    pub fn fallback(&self) -> (r: Fallback)
        ensures
            r@ == (match self@.fallback {
                Some(v) => v,
                None => default_fallback(),
            }),
    {
        match &self.fallback {
            Some(v) => Fallback(v.0.copy()),
            None => {
                let r = Fallback(CounterStyleIdent { name: string_from("decimal") });
                proof {
                    reveal_strlit("decimal");
                    assert("decimal"@ =~= default_fallback());
                }
                r
            },
        }
    }

    /// The `symbols` descriptor, where written.
    pub fn symbols(&self) -> (r: Option<&Symbols>)
        ensures
            opt_view(r) == self@.symbols,
    {
        match &self.symbols {
            Some(v) => Some(v),
            None => None,
        }
    }

    /// The `additive-symbols` descriptor, where written.
    pub fn additive_symbols(&self) -> (r: Option<&AdditiveSymbols>)
        ensures
            opt_view(r) == self@.additive_symbols,
    {
        match &self.additive_symbols {
            Some(v) => Some(v),
            None => None,
        }
    }

    /// The `speak-as` descriptor in effect: `auto` by default.
    pub fn speak_as(&self) -> (r: SpeakAs)
        ensures
            r@ == (match self@.speak_as {
                Some(v) => v,
                None => SpeakAsView::Auto,
            }),
    {
        match &self.speak_as {
            Some(v) => v.copy(),
            None => SpeakAs::Auto,
        }
    }

    /// Runs the checks that tie the descriptors together, in order, and gives
    /// the first that fails.
    pub fn validate(&self) -> (r: Result<(), CustomParseError>)
        ensures
            r is Ok <==> valid_counter_style(self@),
            r matches Err(e) ==> validation_error(self@) == Some(e),
    {
        let k = self.system().kind();
        let no_symbols = self.symbols.is_none();
        if (k == SystemKind::Cyclic || k == SystemKind::Fixed || k == SystemKind::Symbolic || k
            == SystemKind::Alphabetic || k == SystemKind::Numeric) && no_symbols {
            return Err(CustomParseError::InvalidCounterStyleWithoutSymbols(k));
        }
        if k == SystemKind::Alphabetic || k == SystemKind::Numeric {
            if let Some(s) = &self.symbols {
                if s.0.len() < 2 {
                    return Err(CustomParseError::InvalidCounterStyleNotEnoughSymbols(k));
                }
            }
        }
        if k == SystemKind::Additive && self.additive_symbols.is_none() {
            return Err(CustomParseError::InvalidCounterStyleWithoutAdditiveSymbols);
        }
        if k == SystemKind::Extends && self.symbols.is_some() {
            return Err(CustomParseError::InvalidCounterStyleExtendsWithSymbols);
        }
        if k == SystemKind::Extends && self.additive_symbols.is_some() {
            return Err(CustomParseError::InvalidCounterStyleExtendsWithAdditiveSymbols);
        }
        Ok(())
    }
}

} // verus!
