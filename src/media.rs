//! Media-feature expressions: `(name)`, `(name: value)`, `(min-name: value)`
//! and `(max-name: value)`.
use vstd::prelude::*;
use crate::counter_style_css::{int_css, write_nat};
use crate::declaration::span_chars;
use crate::error::{CustomParseError, ParseError, error_at};
use crate::scan::{integer_at, integer_value, read_ident, read_integer, skip_ws, ws_end};
use crate::text::{equals_ignoring_case_str, lower_seq, string_of, to_lower};

verus! {

/// A length or resolution: an integer and its unit, in lower case.
#[derive(Clone, Debug, PartialEq, Eq)]
pub struct Dimension {
    pub value: i32,
    pub unit: String,
}

/// An aspect ratio, width over height.
#[derive(Clone, Copy, Debug, PartialEq, Eq, Structural)]
pub struct Ratio {
    pub width: u32,
    pub height: u32,
}

/// Bits per colour component.
#[derive(Clone, Copy, Debug, PartialEq, Eq, Structural)]
pub struct ColorBitDepth(pub u32);

/// Bits per pixel of a monochrome device.
#[derive(Clone, Copy, Debug, PartialEq, Eq, Structural)]
pub struct MonochromeBitDepth(pub u32);

/// Entries in the colour lookup table.
#[derive(Clone, Copy, Debug, PartialEq, Eq, Structural)]
pub struct MediaColorIndex(pub u32);

/// The value of a range feature: the feature name alone (true where the
/// value is not zero), or bounds of which at least one is present.
#[derive(Clone, Debug, PartialEq, Eq)]
pub enum Range<T> {
    NonZero,
    Between(Option<T>, Option<T>),
}

#[derive(Clone, Copy, Debug, PartialEq, Eq, Structural)]
pub enum MediaOrientation {
    Portrait,
    Landscape,
}

#[derive(Clone, Copy, Debug, PartialEq, Eq, Structural)]
pub enum MediaScan {
    Interlace,
    Progressive,
}

#[derive(Clone, Copy, Debug, PartialEq, Eq, Structural)]
pub enum MediaUpdate {
    NoUpdate,
    Slow,
    Fast,
}

#[derive(Clone, Copy, Debug, PartialEq, Eq, Structural)]
pub enum MediaOverflowBlock {
    NoOverflow,
    Scroll,
    OptionalPaged,
    Paged,
}

#[derive(Clone, Copy, Debug, PartialEq, Eq, Structural)]
pub enum MediaOverflowInline {
    NoOverflow,
    Scroll,
}

#[derive(Clone, Copy, Debug, PartialEq, Eq, Structural)]
pub enum MediaColorGamut {
    Srgb,
    DisplayP3,
    Rec2020,
}

#[derive(Clone, Copy, Debug, PartialEq, Eq, Structural)]
pub enum MediaPointer {
    NoPointer,
    Coarse,
    Fine,
}

#[derive(Clone, Copy, Debug, PartialEq, Eq, Structural)]
pub enum MediaHover {
    NoHover,
    Hover,
}

/// A media-feature expression. A discrete feature holds `None` where only
/// its name was written; `grid` and `transform-3d` hold whether they are 1.
#[derive(Clone, Debug, PartialEq, Eq)]
pub enum ExpressionKind {
    Width(Range<Dimension>),
    Height(Range<Dimension>),
    AspectRatio(Range<Ratio>),
    Orientation(Option<MediaOrientation>),
    Resolution(Range<Dimension>),
    Scan(Option<MediaScan>),
    Grid(Option<bool>),
    Update(Option<MediaUpdate>),
    OverflowBlock(Option<MediaOverflowBlock>),
    OverflowInline(Option<MediaOverflowInline>),
    Color(Range<ColorBitDepth>),
    ColorIndex(Range<MediaColorIndex>),
    Monochrome(Range<MonochromeBitDepth>),
    ColorGamut(Option<MediaColorGamut>),
    Pointer(Option<MediaPointer>),
    Hover(Option<MediaHover>),
    AnyPointer(Option<MediaPointer>),
    AnyHover(Option<MediaHover>),
    Transform3D(Option<bool>),
}

/// The features, without their values.
#[derive(Clone, Copy, Debug, PartialEq, Eq, Structural)]
pub enum Feature {
    Width,
    Height,
    AspectRatio,
    Orientation,
    Resolution,
    Scan,
    Grid,
    Update,
    OverflowBlock,
    OverflowInline,
    Color,
    ColorIndex,
    Monochrome,
    ColorGamut,
    Pointer,
    Hover,
    AnyPointer,
    AnyHover,
    Transform3D,
}

/// The feature a lower-case name stands for.
pub open spec fn feature_named(n: Seq<char>) -> Option<Feature> {
    if n == "width"@ {
        Some(Feature::Width)
    } else if n == "height"@ {
        Some(Feature::Height)
    } else if n == "aspect-ratio"@ {
        Some(Feature::AspectRatio)
    } else if n == "orientation"@ {
        Some(Feature::Orientation)
    } else if n == "resolution"@ {
        Some(Feature::Resolution)
    } else if n == "scan"@ {
        Some(Feature::Scan)
    } else if n == "grid"@ {
        Some(Feature::Grid)
    } else if n == "update"@ {
        Some(Feature::Update)
    } else if n == "overflow-block"@ {
        Some(Feature::OverflowBlock)
    } else if n == "overflow-inline"@ {
        Some(Feature::OverflowInline)
    } else if n == "color"@ {
        Some(Feature::Color)
    } else if n == "color-index"@ {
        Some(Feature::ColorIndex)
    } else if n == "monochrome"@ {
        Some(Feature::Monochrome)
    } else if n == "color-gamut"@ {
        Some(Feature::ColorGamut)
    } else if n == "pointer"@ {
        Some(Feature::Pointer)
    } else if n == "hover"@ {
        Some(Feature::Hover)
    } else if n == "any-pointer"@ {
        Some(Feature::AnyPointer)
    } else if n == "any-hover"@ {
        Some(Feature::AnyHover)
    } else if n == "-webkit-transform-3d"@ {
        Some(Feature::Transform3D)
    } else {
        None
    }
}

/// Whether a feature takes a range of values.
pub open spec fn is_range_feature(f: Feature) -> bool {
    f == Feature::Width || f == Feature::Height || f == Feature::AspectRatio || f
        == Feature::Resolution || f == Feature::Color || f == Feature::ColorIndex || f
        == Feature::Monochrome
}

/// The feature of an expression.
pub open spec fn feature_of(e: ExpressionKind) -> Feature {
    match e {
        ExpressionKind::Width(_) => Feature::Width,
        ExpressionKind::Height(_) => Feature::Height,
        ExpressionKind::AspectRatio(_) => Feature::AspectRatio,
        ExpressionKind::Orientation(_) => Feature::Orientation,
        ExpressionKind::Resolution(_) => Feature::Resolution,
        ExpressionKind::Scan(_) => Feature::Scan,
        ExpressionKind::Grid(_) => Feature::Grid,
        ExpressionKind::Update(_) => Feature::Update,
        ExpressionKind::OverflowBlock(_) => Feature::OverflowBlock,
        ExpressionKind::OverflowInline(_) => Feature::OverflowInline,
        ExpressionKind::Color(_) => Feature::Color,
        ExpressionKind::ColorIndex(_) => Feature::ColorIndex,
        ExpressionKind::Monochrome(_) => Feature::Monochrome,
        ExpressionKind::ColorGamut(_) => Feature::ColorGamut,
        ExpressionKind::Pointer(_) => Feature::Pointer,
        ExpressionKind::Hover(_) => Feature::Hover,
        ExpressionKind::AnyPointer(_) => Feature::AnyPointer,
        ExpressionKind::AnyHover(_) => Feature::AnyHover,
        ExpressionKind::Transform3D(_) => Feature::Transform3D,
    }
}

/// A range holds at least one bound, unless it is the name alone.
pub open spec fn range_ok<T>(r: Range<T>) -> bool {
    match r {
        Range::NonZero => true,
        Range::Between(a, b) => a is Some || b is Some,
    }
}

/// Every range in an expression is well formed.
pub open spec fn expression_ok(e: ExpressionKind) -> bool {
    match e {
        ExpressionKind::Width(r) => range_ok(r),
        ExpressionKind::Height(r) => range_ok(r),
        ExpressionKind::AspectRatio(r) => range_ok(r),
        ExpressionKind::Resolution(r) => range_ok(r),
        ExpressionKind::Color(r) => range_ok(r),
        ExpressionKind::ColorIndex(r) => range_ok(r),
        ExpressionKind::Monochrome(r) => range_ok(r),
        _ => true,
    }
}

/// The feature a lower-case name stands for.
pub fn lookup_feature(n: &[char]) -> (r: Option<Feature>)
    ensures
        r == feature_named(n@),
{
    proof {
        reveal_strlit("width");
        reveal_strlit("height");
        reveal_strlit("aspect-ratio");
        reveal_strlit("orientation");
        reveal_strlit("resolution");
        reveal_strlit("scan");
        reveal_strlit("grid");
        reveal_strlit("update");
        reveal_strlit("overflow-block");
        reveal_strlit("overflow-inline");
        reveal_strlit("color");
        reveal_strlit("color-index");
        reveal_strlit("monochrome");
        reveal_strlit("color-gamut");
        reveal_strlit("pointer");
        reveal_strlit("hover");
        reveal_strlit("any-pointer");
        reveal_strlit("any-hover");
        reveal_strlit("-webkit-transform-3d");
    }
    if exactly(n, "width") {
        Some(Feature::Width)
    } else if exactly(n, "height") {
        Some(Feature::Height)
    } else if exactly(n, "aspect-ratio") {
        Some(Feature::AspectRatio)
    } else if exactly(n, "orientation") {
        Some(Feature::Orientation)
    } else if exactly(n, "resolution") {
        Some(Feature::Resolution)
    } else if exactly(n, "scan") {
        Some(Feature::Scan)
    } else if exactly(n, "grid") {
        Some(Feature::Grid)
    } else if exactly(n, "update") {
        Some(Feature::Update)
    } else if exactly(n, "overflow-block") {
        Some(Feature::OverflowBlock)
    } else if exactly(n, "overflow-inline") {
        Some(Feature::OverflowInline)
    } else if exactly(n, "color") {
        Some(Feature::Color)
    } else if exactly(n, "color-index") {
        Some(Feature::ColorIndex)
    } else if exactly(n, "monochrome") {
        Some(Feature::Monochrome)
    } else if exactly(n, "color-gamut") {
        Some(Feature::ColorGamut)
    } else if exactly(n, "pointer") {
        Some(Feature::Pointer)
    } else if exactly(n, "hover") {
        Some(Feature::Hover)
    } else if exactly(n, "any-pointer") {
        Some(Feature::AnyPointer)
    } else if exactly(n, "any-hover") {
        Some(Feature::AnyHover)
    } else if exactly(n, "-webkit-transform-3d") {
        Some(Feature::Transform3D)
    } else {
        None
    }
}

/// Whether a slice holds exactly the characters of `w`.
fn exactly(n: &[char], w: &str) -> (r: bool)
    ensures
        r == (n@ == w@),
{
    let k = w.unicode_len();
    if k != n.len() {
        return false;
    }
    let mut i: usize = 0;
    while i < k
        invariant
            k == w@.len(),
            k == n@.len(),
            i <= k,
            forall|j: int| 0 <= j < i ==> n@[j] == w@[j],
        decreases k - i,
    {
        if n[i] != w.get_char(i) {
            return false;
        }
        i = i + 1;
    }
    assert(n@ =~= w@);
    true
}

/// A `min-` or `max-` bound on a range feature, or neither.
#[derive(Clone, Copy, Debug, PartialEq, Eq, Structural)]
pub enum Bound {
    Exact,
    Min,
    Max,
}

/// The bound that a lower-case name's prefix asks for, and the name without it.
pub open spec fn split_bound(n: Seq<char>) -> (Bound, Seq<char>) {
    if n.len() >= 4 && n.subrange(0, 4) == "min-"@ {
        (Bound::Min, n.subrange(4, n.len() as int))
    } else if n.len() >= 4 && n.subrange(0, 4) == "max-"@ {
        (Bound::Max, n.subrange(4, n.len() as int))
    } else {
        (Bound::Exact, n)
    }
}

fn bound_of(n: &Vec<char>) -> (r: (Bound, Vec<char>))
    ensures
        r.0 == split_bound(n@).0,
        r.1@ == split_bound(n@).1,
{
    if n.len() >= 4 {
        let head = span_chars(n.as_slice(), 0, 4);
        let rest = span_chars(n.as_slice(), 4, n.len());
        if exactly(head.as_slice(), "min-") {
            return (Bound::Min, rest);
        }
        if exactly(head.as_slice(), "max-") {
            return (Bound::Max, rest);
        }
    }
    (Bound::Exact, span_chars(n.as_slice(), 0, n.len()))
}

/// A value's tokens: the span `[from, to)` after trimming is read whole.
fn integer_value_at(s: &[char], from: usize, to: usize) -> (r: Option<(i32, usize)>)
    requires
        from <= to <= s@.len(),
        s@.len() < usize::MAX,
    ensures
        r matches Some((v, e)) ==> from < e <= to && exists|q: int|
            from <= q < e && #[trigger] integer_value(s@.subrange(q, e as int)) == Some(v as int),
        ({
            let q = ws_end(s@, from as int);
            if q >= to {
                r is None
            } else {
                match integer_at(s@, q) {
                    Some((v, e)) => if e <= to {
                        r == Some((v as i32, e as usize)) && i32::MIN <= v <= i32::MAX && 0 <= e
                    } else {
                        r is None
                    },
                    None => r is None,
                }
            }
        }),
{
    let q = skip_ws(s, from);
    if q >= to {
        return None;
    }
    match read_integer(s, q) {
        Some((v, e)) => if e <= to {
            Some((v, e))
        } else {
            None
        },
        None => None,
    }
}

/// Whether only white space is left in `[p, to)`.
fn only_space_left(s: &[char], p: usize, to: usize) -> (r: bool)
    requires
        p <= to <= s@.len(),
    ensures
        r == (ws_end(s@, p as int) >= to),
{
    skip_ws(s, p) >= to
}

fn parse_dimension(s: &[char], from: usize, to: usize) -> (r: Option<Dimension>)
    requires
        from <= to <= s@.len(),
        s@.len() < usize::MAX,
{
    let (v, e) = integer_value_at(s, from, to)?;
    let unit = match read_ident(s, e) {
        Some(u) => if u <= to {
            to_lower(&s[e..u])
        } else {
            return None;
        },
        None => Vec::new(),
    };
    let end = e + unit.len();
    if end > to || (unit.len() == 0 && v != 0) || !only_space_left(s, end, to) {
        return None;
    }
    Some(Dimension { value: v, unit: string_of(&unit) })
}

/// The non-negative integer that `[from, to)` holds, with white space around
/// it and nothing else.
pub open spec fn count_at(s: Seq<char>, from: int, to: int) -> Option<int> {
    let q = ws_end(s, from);
    if q >= to {
        None
    } else {
        match integer_at(s, q) {
            Some((v, e)) => if e <= to && v >= 0 && ws_end(s, e) >= to {
                Some(v)
            } else {
                None
            },
            None => None,
        }
    }
}

fn parse_count(s: &[char], from: usize, to: usize) -> (r: Option<u32>)
    requires
        from <= to <= s@.len(),
        s@.len() < usize::MAX,
    ensures
        r matches Some(n) ==> exists|q: int, e: int|
            from <= q < e <= to && #[trigger] integer_value(s@.subrange(q, e)) == Some(n as int),
        match count_at(s@, from as int, to as int) {
            Some(v) => r == Some(v as u32),
            None => r is None,
        },
{
    match integer_value_at(s, from, to) {
        None => None,
        Some((v, e)) => {
            if v < 0 || !only_space_left(s, e, to) {
                return None;
            }
            proof {
                let q = ws_end(s@, from as int);
                let (w, f) = integer_at(s@, q)->0;
                assert(v == w as i32);
                assert(v as int == w);
                assert(f == e as int);
                assert(count_at(s@, from as int, to as int) == Some(w));
            }
            Some(v as u32)
        },
    }
}

fn parse_ratio(s: &[char], from: usize, to: usize) -> (r: Option<Ratio>)
    requires
        from <= to <= s@.len(),
        s@.len() < usize::MAX,
{
    let (w, e) = integer_value_at(s, from, to)?;
    let slash = skip_ws(s, e);
    if slash >= to || s[slash] != '/' {
        return None;
    }
    let (h, f) = integer_value_at(s, slash + 1, to)?;
    if w <= 0 || h <= 0 || !only_space_left(s, f, to) {
        return None;
    }
    Some(Ratio { width: w as u32, height: h as u32 })
}

/// The identifier that makes up `[from, to)`, by its span.
fn keyword_at(s: &[char], from: usize, to: usize) -> (r: Option<(usize, usize)>)
    requires
        from <= to <= s@.len(),
    ensures
        r matches Some((a, b)) ==> a <= b <= s@.len(),
{
    let q = skip_ws(s, from);
    let e = read_ident(s, q)?;
    if e > to || !only_space_left(s, e, to) {
        return None;
    }
    Some((q, e))
}

fn keyword_is(s: &[char], k: (usize, usize), w: &str) -> bool
    requires
        k.0 <= k.1 <= s@.len(),
{
    equals_ignoring_case_str(&s[k.0..k.1], w)
}

/// The value of a range feature, with its bound.
fn make_range<T: Clone>(b: Bound, v: T) -> (r: Range<T>)
    ensures
        range_ok(r),
{
    match b {
        Bound::Exact => Range::Between(Some(v.clone()), Some(v)),
        Bound::Min => Range::Between(Some(v), None),
        Bound::Max => Range::Between(None, Some(v)),
    }
}

/// The value of a discrete feature: `None` for the name alone.
fn discrete_value(s: &[char], f: Feature, v: Option<(usize, usize)>) -> (r: Option<ExpressionKind>)
    requires
        v matches Some(k) ==> k.0 <= k.1 <= s@.len(),
    ensures
        r matches Some(e) ==> feature_of(e) == f && expression_ok(e),
{
    match f {
        Feature::Orientation => Some(ExpressionKind::Orientation(match v {
            None => None,
            Some(k) => if keyword_is(s, k, "portrait") {
                Some(MediaOrientation::Portrait)
            } else if keyword_is(s, k, "landscape") {
                Some(MediaOrientation::Landscape)
            } else {
                return None;
            },
        })),
        Feature::Scan => Some(ExpressionKind::Scan(match v {
            None => None,
            Some(k) => if keyword_is(s, k, "interlace") {
                Some(MediaScan::Interlace)
            } else if keyword_is(s, k, "progressive") {
                Some(MediaScan::Progressive)
            } else {
                return None;
            },
        })),
        Feature::Update => Some(ExpressionKind::Update(match v {
            None => None,
            Some(k) => if keyword_is(s, k, "none") {
                Some(MediaUpdate::NoUpdate)
            } else if keyword_is(s, k, "slow") {
                Some(MediaUpdate::Slow)
            } else if keyword_is(s, k, "fast") {
                Some(MediaUpdate::Fast)
            } else {
                return None;
            },
        })),
        Feature::OverflowBlock => Some(ExpressionKind::OverflowBlock(match v {
            None => None,
            Some(k) => if keyword_is(s, k, "none") {
                Some(MediaOverflowBlock::NoOverflow)
            } else if keyword_is(s, k, "scroll") {
                Some(MediaOverflowBlock::Scroll)
            } else if keyword_is(s, k, "optional-paged") {
                Some(MediaOverflowBlock::OptionalPaged)
            } else if keyword_is(s, k, "paged") {
                Some(MediaOverflowBlock::Paged)
            } else {
                return None;
            },
        })),
        Feature::OverflowInline => Some(ExpressionKind::OverflowInline(match v {
            None => None,
            Some(k) => if keyword_is(s, k, "none") {
                Some(MediaOverflowInline::NoOverflow)
            } else if keyword_is(s, k, "scroll") {
                Some(MediaOverflowInline::Scroll)
            } else {
                return None;
            },
        })),
        Feature::ColorGamut => Some(ExpressionKind::ColorGamut(match v {
            None => None,
            Some(k) => if keyword_is(s, k, "srgb") {
                Some(MediaColorGamut::Srgb)
            } else if keyword_is(s, k, "p3") {
                Some(MediaColorGamut::DisplayP3)
            } else if keyword_is(s, k, "rec2020") {
                Some(MediaColorGamut::Rec2020)
            } else {
                return None;
            },
        })),
        Feature::Pointer | Feature::AnyPointer => {
            let p = match v {
                None => None,
                Some(k) => if keyword_is(s, k, "none") {
                    Some(MediaPointer::NoPointer)
                } else if keyword_is(s, k, "coarse") {
                    Some(MediaPointer::Coarse)
                } else if keyword_is(s, k, "fine") {
                    Some(MediaPointer::Fine)
                } else {
                    return None;
                },
            };
            if f == Feature::Pointer {
                Some(ExpressionKind::Pointer(p))
            } else {
                Some(ExpressionKind::AnyPointer(p))
            }
        },
        Feature::Hover | Feature::AnyHover => {
            let h = match v {
                None => None,
                Some(k) => if keyword_is(s, k, "none") {
                    Some(MediaHover::NoHover)
                } else if keyword_is(s, k, "hover") {
                    Some(MediaHover::Hover)
                } else {
                    return None;
                },
            };
            if f == Feature::Hover {
                Some(ExpressionKind::Hover(h))
            } else {
                Some(ExpressionKind::AnyHover(h))
            }
        },
        _ => None,
    }
}

/// Where a feature expression's name and value were read: the feature that
/// the name (lower-cased, without `min-` or `max-`) stands for.
pub open spec fn named_feature(s: Seq<char>, a: int, b: int) -> Option<Feature> {
    feature_named(split_bound(lower_seq(s.subrange(a, b))).1)
}

/// Parses a media-feature expression in `[from, to)`: `(name)`,
/// `(name: value)`, `(min-name: value)` or `(max-name: value)`. `min-` and
/// `max-` are only for range features; a range keeps at least one bound.
pub fn parse_feature_expression(s: &[char], from: usize, to: usize) -> (r: Result<
    ExpressionKind,
    ParseError,
>)
    requires
        from <= to <= s@.len(),
        s@.len() < usize::MAX,
    ensures
        r matches Ok(e) ==> expression_ok(e) && exists|a: int, b: int|
            from <= a < b <= to && #[trigger] named_feature(s@, a, b) == Some(feature_of(e)) && (
            split_bound(lower_seq(s@.subrange(a, b))).0 != Bound::Exact ==> is_range_feature(
                feature_of(e),
            )),
{
    let o = skip_ws(s, from);
    if o >= to || s[o] != '(' {
        return Err(error_at(s, o, CustomParseError::ExpectedIdentifier));
    }
    let n0 = skip_ws(s, o + 1);
    let n1 = match read_ident(s, n0) {
        Some(e) => e,
        None => {
            return Err(error_at(s, n0, CustomParseError::ExpectedIdentifier));
        },
    };
    if n1 > to {
        return Err(error_at(s, n0, CustomParseError::ExpectedIdentifier));
    }
    let lowered = to_lower(&s[n0..n1]);
    let (bound, base) = bound_of(&lowered);
    let f = match lookup_feature(base.as_slice()) {
        Some(f) => f,
        None => {
            return Err(error_at(s, n0, CustomParseError::UnsupportedMediaFeature));
        },
    };
    let ranged = f == Feature::Width || f == Feature::Height || f == Feature::AspectRatio || f
        == Feature::Resolution || f == Feature::Color || f == Feature::ColorIndex || f
        == Feature::Monochrome;
    let close = match crate::values::find_unquoted(s, n1, to, ')') {
        Ok(c) => c,
        Err(e) => {
            return Err(e);
        },
    };
    if close >= to {
        return Err(error_at(s, to, CustomParseError::UnexpectedEndOfInput));
    }
    if !only_space_left(s, close + 1, to) {
        return Err(error_at(s, close + 1, CustomParseError::TrailingInput));
    }
    let c = skip_ws(s, n1);
    let bad = error_at(s, c, CustomParseError::InvalidDescriptorValue);
    let e = if c >= close {
        if bound != Bound::Exact {
            return Err(error_at(s, c, CustomParseError::EmptyMediaFeatureRange));
        }
        match f {
            Feature::Width => ExpressionKind::Width(Range::NonZero),
            Feature::Height => ExpressionKind::Height(Range::NonZero),
            Feature::AspectRatio => ExpressionKind::AspectRatio(Range::NonZero),
            Feature::Resolution => ExpressionKind::Resolution(Range::NonZero),
            Feature::Color => ExpressionKind::Color(Range::NonZero),
            Feature::ColorIndex => ExpressionKind::ColorIndex(Range::NonZero),
            Feature::Monochrome => ExpressionKind::Monochrome(Range::NonZero),
            Feature::Grid => ExpressionKind::Grid(None),
            Feature::Transform3D => ExpressionKind::Transform3D(None),
            _ => match discrete_value(s, f, None) {
                Some(x) => x,
                None => {
                    return Err(bad);
                },
            },
        }
    } else {
        if s[c] != ':' {
            return Err(error_at(s, c, CustomParseError::ExpectedColon));
        }
        if !ranged && bound != Bound::Exact {
            return Err(error_at(s, n0, CustomParseError::UnsupportedMediaFeature));
        }
        let v0 = c + 1;
        match f {
            Feature::Width => ExpressionKind::Width(
                make_range(bound, parse_dimension(s, v0, close).ok_or(bad)?),
            ),
            Feature::Height => ExpressionKind::Height(
                make_range(bound, parse_dimension(s, v0, close).ok_or(bad)?),
            ),
            Feature::Resolution => ExpressionKind::Resolution(
                make_range(bound, parse_dimension(s, v0, close).ok_or(bad)?),
            ),
            Feature::AspectRatio => ExpressionKind::AspectRatio(
                make_range(bound, parse_ratio(s, v0, close).ok_or(bad)?),
            ),
            Feature::Color => ExpressionKind::Color(
                make_range(bound, ColorBitDepth(parse_count(s, v0, close).ok_or(bad)?)),
            ),
            Feature::ColorIndex => ExpressionKind::ColorIndex(
                make_range(bound, MediaColorIndex(parse_count(s, v0, close).ok_or(bad)?)),
            ),
            Feature::Monochrome => ExpressionKind::Monochrome(
                make_range(bound, MonochromeBitDepth(parse_count(s, v0, close).ok_or(bad)?)),
            ),
            Feature::Grid | Feature::Transform3D => {
                let n = parse_count(s, v0, close).ok_or(bad)?;
                if n > 1 {
                    return Err(bad);
                }
                if f == Feature::Grid {
                    ExpressionKind::Grid(Some(n == 1))
                } else {
                    ExpressionKind::Transform3D(Some(n == 1))
                }
            },
            _ => match keyword_at(s, v0, close) {
                Some(k) => match discrete_value(s, f, Some(k)) {
                    Some(x) => x,
                    None => {
                        return Err(bad);
                    },
                },
                None => {
                    return Err(bad);
                },
            },
        }
    };
    proof {
        assert(lowered@ == lower_seq(s@.subrange(n0 as int, n1 as int)));
        assert(named_feature(s@, n0 as int, n1 as int) == Some(f));
    }
    Ok(e)
}

impl ExpressionKind {
    /// Parses one media-feature expression, such as `(min-width: 100px)`.
    pub fn parse(css: &str) -> (r: Result<ExpressionKind, ParseError>)
        requires
            css@.len() < usize::MAX,
        ensures
            r matches Ok(e) ==> expression_ok(e) && exists|a: int, b: int|
                0 <= a < b <= css@.len() && #[trigger] named_feature(css@, a, b) == Some(
                    feature_of(e),
                ) && (split_bound(lower_seq(css@.subrange(a, b))).0 != Bound::Exact
                    ==> is_range_feature(feature_of(e))),
    {
        let s = crate::text::chars_of(css);
        parse_feature_expression(s.as_slice(), 0, s.len())
    }
}

impl ColorBitDepth {
    /// Reads a colour bit depth: a non-negative integer.
    pub fn parse(css: &str) -> (r: Option<ColorBitDepth>)
        requires
            css@.len() < usize::MAX,
        ensures
            match count_at(css@, 0, css@.len() as int) {
                Some(v) => r == Some(ColorBitDepth(v as u32)),
                None => r is None,
            },
    {
        let s = crate::text::chars_of(css);
        match parse_count(s.as_slice(), 0, s.len()) {
            Some(n) => Some(ColorBitDepth(n)),
            None => None,
        }
    }

    /// The depth in decimal.
    pub fn to_css(&self) -> (r: String)
        ensures
            r@ == int_css(self.0 as int),
    {
        let mut out: Vec<char> = Vec::new();
        write_nat(&mut out, self.0 as u64);
        assert(out@ =~= int_css(self.0 as int));
        string_of(&out)
    }
}

} // verus!
