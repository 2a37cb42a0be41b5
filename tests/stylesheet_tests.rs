use css::counter_style::{Symbol, SpeakAs, System};
use css::declaration::{CssWideKeyword, Importance, UnparsedPropertyValue};
use css::error::{CustomParseError, SystemKind};
use css::stylesheet::CssRule;
use css::{CounterStyleAtRule, HasCssRules, PropertyDeclaration, Stylesheet};

fn counter_style(css: &str) -> Result<CounterStyleAtRule, CustomParseError> {
    match Stylesheet::parse(css) {
        Ok(sheet) => match &sheet.css_rules_slice()[0] {
            CssRule::CounterStyle(c) => Ok(c.clone()),
            _ => panic!("not a counter style"),
        },
        Err(e) => Err(e.reason),
    }
}

#[test]
fn thumbs_counter_style_parses_and_serialises() {
    let css = "@counter-style thumbs{system:cyclic;symbols:\"\\1F44D\";suffix:\" \";}";
    let rule = counter_style(css).unwrap();
    assert_eq!(rule.system, Some(System::Cyclic));
    assert_eq!(rule.symbols.as_ref().unwrap().0.len(), 1);
    assert_eq!(rule.symbols.as_ref().unwrap().0[0], Symbol::String("👍".to_string()));
    assert_eq!(rule.suffix, Some(Symbol::String(" ".to_string())));
    assert!(rule.negative.is_none());
    assert!(rule.prefix.is_none());
    assert!(rule.range.is_none());
    assert!(rule.pad.is_none());
    assert!(rule.fallback.is_none());
    assert!(rule.additive_symbols.is_none());
    assert!(rule.speak_as.is_none());
    assert_eq!(rule.to_css(), "@counter-style thumbs{system:cyclic;suffix: ;symbols:\"👍\";}");
}

#[test]
fn width_declaration() {
    let d = PropertyDeclaration::parse("width:10px", false).unwrap();
    assert_eq!(d.name, "width");
    assert!(d.vendor_prefix.is_none());
    match &d.value {
        UnparsedPropertyValue::SpecifiedValue(v) => assert_eq!(v.text, "10px"),
        _ => panic!("expected a specified value"),
    }
    assert_eq!(d.importance, Importance::Normal);
    assert_eq!(d.to_css(), "width:10px;");
}

#[test]
fn fail_fast_discards_earlier_rules() {
    let r = Stylesheet::parse("a{color:red} @counter-style x{system:alphabetic;}");
    let e = r.unwrap_err();
    assert_eq!(e.reason, CustomParseError::InvalidCounterStyleWithoutSymbols(SystemKind::Alphabetic));
}

#[test]
fn namespace_after_other_rule_fails() {
    let r = Stylesheet::parse("a{color:red}\n@namespace foo \"urn:x\";");
    assert_eq!(r.unwrap_err().reason, CustomParseError::NamespaceRuleAfterOtherRules);
}

#[test]
fn namespace_first_is_recorded() {
    let sheet = Stylesheet::parse("@charset \"utf-8\";@namespace foo \"urn:x\";a{color:red}").unwrap();
    assert_eq!(sheet.namespaces.lookup(Some("foo")), Some("urn:x".to_string()));
    assert_eq!(sheet.namespaces.lookup(None), None);
    assert_eq!(sheet.css_rules_vec().len(), 1);
}

#[test]
fn important_in_keyframe_is_refused_at_the_bang() {
    let e = PropertyDeclaration::parse("color: red !important", true).unwrap_err();
    assert_eq!(
        e.reason,
        CustomParseError::ImportantIsNotAllowedInKeyframePropertyDeclarationValues
    );
    assert_eq!(e.location.line, 0);
    assert_eq!(e.location.column, 12);
}

#[test]
fn important_outside_keyframe_is_kept() {
    let d = PropertyDeclaration::parse("color: red !important", false).unwrap();
    assert_eq!(d.importance, Importance::Important);
    assert_eq!(d.to_css(), "color:red!important;");
}

#[test]
fn bang_without_important_is_an_error() {
    let e = PropertyDeclaration::parse("color: red !foo", false).unwrap_err();
    assert_eq!(e.reason, CustomParseError::ExpectedImportant);
}

#[test]
fn trailing_input_is_an_error() {
    let e = PropertyDeclaration::parse("color: red !important x", false).unwrap_err();
    assert_eq!(e.reason, CustomParseError::TrailingInput);
}

#[test]
fn empty_value_is_an_error() {
    let e = PropertyDeclaration::parse("color:  ", false).unwrap_err();
    assert_eq!(e.reason, CustomParseError::EmptyPropertyValue);
}

#[test]
fn missing_colon_is_an_error() {
    let e = PropertyDeclaration::parse("color red", false).unwrap_err();
    assert_eq!(e.reason, CustomParseError::ExpectedColon);
}

#[test]
fn custom_property_is_not_vendor_prefixed() {
    let d = PropertyDeclaration::parse("--my-color: red", false).unwrap();
    assert!(d.vendor_prefix.is_none());
    assert_eq!(d.name, "--my-color");
    assert!(d.hasACustomPropertyName());
    assert!(!d.hasAVendorPrefix());
}

#[test]
fn vendor_prefix_is_split_off() {
    let d = PropertyDeclaration::parse("-WebKit-Transition: none", false).unwrap();
    assert_eq!(d.vendor_prefix.as_ref().unwrap().name, "webkit");
    assert_eq!(d.name, "transition");
    assert!(!d.hasAVendorPrefix());
    assert!(d.hasAsciiNameIgnoringCase("TRANSITION"));
    assert!(!d.hasAsciiNameIgnoringCase("transitions"));
    assert_eq!(d.to_css(), "-webkit-transition:none;");
}

#[test]
fn wide_keyword_value() {
    let d = PropertyDeclaration::parse("color: INHERIT", false).unwrap();
    assert_eq!(d.value, UnparsedPropertyValue::CssWideKeyword(CssWideKeyword::Inherit));
    assert_eq!(d.to_css(), "color:inherit;");
}

#[test]
fn bang_inside_string_is_part_of_the_value() {
    let d = PropertyDeclaration::parse("content: \"a!b\"", false).unwrap();
    match &d.value {
        UnparsedPropertyValue::SpecifiedValue(v) => assert_eq!(v.text, "\"a!b\""),
        _ => panic!("expected a specified value"),
    }
}

#[test]
fn each_system_rejects_its_invalid_body_and_accepts_a_corrected_one() {
    let cases: Vec<(&str, CustomParseError, &str)> = vec![
        ("system:cyclic;", CustomParseError::InvalidCounterStyleWithoutSymbols(SystemKind::Cyclic), "system:cyclic;symbols:a;"),
        ("system:fixed;", CustomParseError::InvalidCounterStyleWithoutSymbols(SystemKind::Fixed), "system:fixed 3;symbols:a b;"),
        ("system:symbolic;", CustomParseError::InvalidCounterStyleWithoutSymbols(SystemKind::Symbolic), "system:symbolic;symbols:a;"),
        ("", CustomParseError::InvalidCounterStyleWithoutSymbols(SystemKind::Symbolic), "symbols:a;"),
        ("system:alphabetic;symbols:a;", CustomParseError::InvalidCounterStyleNotEnoughSymbols(SystemKind::Alphabetic), "system:alphabetic;symbols:a b;"),
        ("system:numeric;symbols:\"0\";", CustomParseError::InvalidCounterStyleNotEnoughSymbols(SystemKind::Numeric), "system:numeric;symbols:\"0\" \"1\";"),
        ("system:additive;", CustomParseError::InvalidCounterStyleWithoutAdditiveSymbols, "system:additive;additive-symbols:10 x, 1 i;"),
        ("system:extends decimal;symbols:a;", CustomParseError::InvalidCounterStyleExtendsWithSymbols, "system:extends decimal;"),
        ("system:extends decimal;additive-symbols:1 i;", CustomParseError::InvalidCounterStyleExtendsWithAdditiveSymbols, "system:extends decimal;suffix:\")\";"),
    ];
    for (bad, err, good) in cases {
        let bad_css = format!("@counter-style s{{{}}}", bad);
        assert_eq!(counter_style(&bad_css).unwrap_err(), err, "{}", bad_css);
        let good_css = format!("@counter-style s{{{}}}", good);
        assert!(counter_style(&good_css).is_ok(), "{}", good_css);
    }
}

#[test]
fn alphabetic_with_no_symbols_reports_missing_symbols_first() {
    let e = counter_style("@counter-style s{system:alphabetic;}").unwrap_err();
    assert_eq!(e, CustomParseError::InvalidCounterStyleWithoutSymbols(SystemKind::Alphabetic));
}

#[test]
fn unknown_descriptor_is_an_error() {
    let e = counter_style("@counter-style s{symbols:a;colour:red;}").unwrap_err();
    assert_eq!(e, CustomParseError::UnsupportedCounterStyleDescriptor);
}

#[test]
fn bad_descriptor_value_is_an_error() {
    let e = counter_style("@counter-style s{symbols:a;pad:x y;}").unwrap_err();
    assert_eq!(e, CustomParseError::InvalidDescriptorValue);
}

#[test]
fn defaults_are_given_on_read_and_not_stored() {
    let rule = counter_style("@counter-style s{symbols:a;}").unwrap();
    assert_eq!(rule.system(), System::Symbolic);
    assert_eq!(rule.negative().0, Symbol::String("-".to_string()));
    assert!(rule.negative().1.is_none());
    assert_eq!(rule.prefix(), Symbol::String(String::new()));
    assert_eq!(rule.suffix(), Symbol::String(". ".to_string()));
    assert!(rule.range().0.is_empty());
    assert_eq!(rule.pad().0, 0);
    assert_eq!(rule.fallback().0.name, "decimal");
    assert_eq!(rule.speak_as(), SpeakAs::Auto);
    assert!(rule.additive_symbols().is_none());
    assert_eq!(rule.symbols().unwrap().0.len(), 1);
    assert_eq!(rule.name().name, "s");
    assert_eq!(rule.to_css(), "@counter-style s{symbols:a;}");
}

#[test]
fn additive_symbols_accessor_reads_its_own_field() {
    let rule = counter_style("@counter-style s{system:additive;additive-symbols:5 v,1 i;}").unwrap();
    assert!(rule.symbols().is_none());
    let a = rule.additive_symbols().unwrap();
    assert_eq!(a.0.len(), 2);
    assert_eq!(a.0[0].weight, 5);
    assert_eq!(rule.to_css(), "@counter-style s{system:additive;additive-symbols:5 v,1 i;}");
}

#[test]
fn every_descriptor_serialises_in_canonical_order() {
    let css = "@counter-style s{speak-as:bullets;fallback:disc;pad:3 \"0\";range:1 10, infinite -5;suffix:\")\";prefix:\"(\";negative:\"(\" \")\";system:fixed -2;symbols:a 'b\"';}";
    let rule = counter_style(css).unwrap();
    assert_eq!(
        rule.to_css(),
        "@counter-style s{system:fixed -2;negative:( );prefix:(;suffix:);range:1 10,infinite -5;pad:3 0;fallback:disc;symbols:a \"b\\\"\";speak-as:bullets;}"
    );
}

#[test]
fn round_trip_keeps_effective_values() {
    let css = "@counter-style roman{system:additive;range:1 3999;additive-symbols:1000 M,500 D,1 I;speak-as:numbers;}";
    let first = counter_style(css).unwrap();
    let again = counter_style(&first.to_css()).unwrap();
    assert_eq!(first.system(), again.system());
    assert_eq!(first.range(), again.range());
    assert_eq!(first.additive_symbols(), again.additive_symbols());
    assert_eq!(first.speak_as(), again.speak_as());
    assert_eq!(first.suffix(), again.suffix());
    assert_eq!(first.fallback(), again.fallback());
}

#[test]
fn stylesheet_serialises_rules_and_directives() {
    let css = "a { color : red ; width:1px }\n/*# sourceMappingURL=map.css.map */\n/*# sourceURL=x.css */";
    let sheet = Stylesheet::parse(css).unwrap();
    assert_eq!(sheet.source_map_url, Some("map.css.map".to_string()));
    assert_eq!(sheet.source_url, Some("x.css".to_string()));
    assert_eq!(sheet.to_css(false), "a{color:red;width:1px;}");
    assert_eq!(
        sheet.to_css(true),
        "//# sourceMappingURL=<map.css.map>\n//# sourceURL=<x.css>\na{color:red;width:1px;}"
    );
}

#[test]
fn rules_can_be_edited_through_the_collection() {
    let mut sheet = Stylesheet::parse("a{color:red}b{color:blue}").unwrap();
    sheet.css_rules_vec_mut().remove(0);
    assert_eq!(sheet.css_rules().0.len(), 1);
    assert_eq!(sheet.to_css(false), "b{color:blue;}");
    sheet.css_rules_mut().0.clear();
    assert_eq!(sheet.to_css(false), "");
}

#[test]
fn unknown_at_rule_is_an_error() {
    let e = Stylesheet::parse("@font-feature-values x{}").unwrap_err();
    assert_eq!(e.reason, CustomParseError::UnsupportedAtRule);
}

#[test]
fn error_location_counts_lines_from_zero() {
    let e = Stylesheet::parse("a{color:red}\n\n  b{color}").unwrap_err();
    assert_eq!(e.reason, CustomParseError::ExpectedColon);
    assert_eq!(e.location.line, 2);
    assert_eq!(e.location.column, 10);
}

#[test]
fn empty_stylesheet_has_no_rules() {
    let sheet = Stylesheet::parse("  /* nothing */ ").unwrap();
    assert!(sheet.css_rules_slice().is_empty());
    assert_eq!(sheet.source_map_url, None);
}

#[test]
fn media_rule_holds_expressions_and_style_rules() {
    let css = "@media (min-width: 100px) and (orientation: portrait) { a { color: red } b{x:y} }";
    let sheet = Stylesheet::parse(css).unwrap();
    match &sheet.css_rules_slice()[0] {
        CssRule::Media(m) => {
            assert_eq!(m.expressions.len(), 2);
            assert_eq!(m.rules.len(), 2);
            assert_eq!(m.query, "(min-width: 100px) and (orientation: portrait)");
        }
        _ => panic!("expected a media rule"),
    }
    assert_eq!(
        sheet.to_css(false),
        "@media (min-width: 100px) and (orientation: portrait){a{color:red;}b{x:y;}}"
    );
}

#[test]
fn media_rule_with_unknown_feature_fails() {
    let e = Stylesheet::parse("@media (colour: 8) { a{b:c} }").unwrap_err();
    assert_eq!(e.reason, CustomParseError::UnsupportedMediaFeature);
}

#[test]
fn namespace_after_media_rule_fails() {
    let e = Stylesheet::parse("@media (color) {} @namespace \"urn:y\";").unwrap_err();
    assert_eq!(e.reason, CustomParseError::NamespaceRuleAfterOtherRules);
}

#[test]
fn declarations_order_by_their_fields() {
    let a = PropertyDeclaration::parse("a: 1", false).unwrap();
    let b = PropertyDeclaration::parse("b: 1", false).unwrap();
    let a_important = PropertyDeclaration::parse("a: 1 !important", false).unwrap();
    assert!(a < b);
    assert!(a < a_important);
    assert_eq!(a.clone(), a);
}
