use css::error::CustomParseError;
use css::media::{
    ColorBitDepth, Dimension, ExpressionKind, MediaHover, MediaOrientation, MediaPointer, Range,
    Ratio,
};

fn px(v: i32) -> Dimension {
    Dimension { value: v, unit: "px".to_string() }
}

#[test]
fn min_width_sets_the_lower_bound() {
    let e = ExpressionKind::parse("(min-width: 100px)").unwrap();
    assert_eq!(e, ExpressionKind::Width(Range::Between(Some(px(100)), None)));
}

#[test]
fn max_height_sets_the_upper_bound() {
    let e = ExpressionKind::parse("( MAX-HEIGHT : 20PX )").unwrap();
    assert_eq!(e, ExpressionKind::Height(Range::Between(None, Some(px(20)))));
}

#[test]
fn exact_width_sets_both_bounds() {
    let e = ExpressionKind::parse("(width: 0)").unwrap();
    let zero = Dimension { value: 0, unit: String::new() };
    assert_eq!(e, ExpressionKind::Width(Range::Between(Some(zero.clone()), Some(zero))));
}

#[test]
fn name_alone_is_the_boolean_context() {
    assert_eq!(ExpressionKind::parse("(color)").unwrap(), ExpressionKind::Color(Range::NonZero));
    assert_eq!(ExpressionKind::parse("(hover)").unwrap(), ExpressionKind::Hover(None));
}

#[test]
fn min_without_value_is_an_error() {
    let e = ExpressionKind::parse("(min-width)").unwrap_err();
    assert_eq!(e.reason, CustomParseError::EmptyMediaFeatureRange);
}

#[test]
fn discrete_features_take_keywords() {
    assert_eq!(
        ExpressionKind::parse("(orientation: landscape)").unwrap(),
        ExpressionKind::Orientation(Some(MediaOrientation::Landscape))
    );
    assert_eq!(
        ExpressionKind::parse("(any-pointer: coarse)").unwrap(),
        ExpressionKind::AnyPointer(Some(MediaPointer::Coarse))
    );
    assert_eq!(
        ExpressionKind::parse("(any-hover: none)").unwrap(),
        ExpressionKind::AnyHover(Some(MediaHover::NoHover))
    );
    assert_eq!(ExpressionKind::parse("(grid: 1)").unwrap(), ExpressionKind::Grid(Some(true)));
    assert!(ExpressionKind::parse("(orientation: sideways)").is_err());
    assert!(ExpressionKind::parse("(min-orientation: portrait)").is_err());
}

#[test]
fn aspect_ratio_and_colour_depth() {
    assert_eq!(
        ExpressionKind::parse("(min-aspect-ratio: 16/9)").unwrap(),
        ExpressionKind::AspectRatio(Range::Between(Some(Ratio { width: 16, height: 9 }), None))
    );
    assert_eq!(
        ExpressionKind::parse("(max-color: 8)").unwrap(),
        ExpressionKind::Color(Range::Between(None, Some(ColorBitDepth(8))))
    );
}

#[test]
fn unknown_feature_is_an_error() {
    let e = ExpressionKind::parse("(min-weight: 3)").unwrap_err();
    assert_eq!(e.reason, CustomParseError::UnsupportedMediaFeature);
}

#[test]
fn colour_bit_depth_reads_and_writes_decimal() {
    assert_eq!(ColorBitDepth::parse(" 24 "), Some(ColorBitDepth(24)));
    assert_eq!(ColorBitDepth::parse("-1"), None);
    assert_eq!(ColorBitDepth(4000000000).to_css(), "4000000000");
    assert_eq!(ColorBitDepth(0).to_css(), "0");
}
