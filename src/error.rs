//! Parse errors: a closed set of reasons, each with a source location.
use vstd::prelude::*;
use crate::scan::{SourceLocation, location, location_at};

verus! {

/// The kind of counter-style system named in a validation error.
#[derive(Clone, Copy, Debug, PartialEq, Eq, Structural)]
pub enum SystemKind {
    Cyclic,
    Numeric,
    Alphabetic,
    Symbolic,
    Additive,
    Fixed,
    Extends,
}

/// Why a parse failed.
#[derive(Clone, Copy, Debug, PartialEq, Eq, Structural)]
pub enum CustomParseError {
    /// The input ended where more was expected.
    UnexpectedEndOfInput,
    /// A character stands where the grammar does not allow it.
    UnexpectedCharacter(char),
    /// A quoted string holds a bare line break.
    BadString,
    /// A name was expected.
    ExpectedIdentifier,
    /// A declaration has no `:` after its name.
    ExpectedColon,
    /// A declaration has no value.
    EmptyPropertyValue,
    /// A `!` is not followed by `important`.
    ExpectedImportant,
    /// Something follows a complete construct.
    TrailingInput,
    /// `!important` inside a keyframe's declarations.
    ImportantIsNotAllowedInKeyframePropertyDeclarationValues,
    /// A descriptor name that the counter-style rule does not know.
    UnsupportedCounterStyleDescriptor,
    /// A descriptor value that its grammar does not accept.
    InvalidDescriptorValue,
    InvalidCounterStyleWithoutSymbols(SystemKind),
    InvalidCounterStyleNotEnoughSymbols(SystemKind),
    InvalidCounterStyleWithoutAdditiveSymbols,
    InvalidCounterStyleExtendsWithSymbols,
    InvalidCounterStyleExtendsWithAdditiveSymbols,
    /// An at-rule this parser does not know.
    UnsupportedAtRule,
    /// An `@namespace` rule after a rule other than `@charset` or `@namespace`.
    NamespaceRuleAfterOtherRules,
    /// A media feature name this parser does not know.
    UnsupportedMediaFeature,
    /// A media feature range with neither end.
    EmptyMediaFeatureRange,
}

/// A parse failure and where it happened.
#[derive(Clone, Copy, Debug, PartialEq, Eq, Structural)]
pub struct ParseError {
    pub reason: CustomParseError,
    pub location: SourceLocation,
}

/// The error `reason` at position `p`.
pub fn error_at(s: &[char], p: usize, reason: CustomParseError) -> (r: ParseError)
    requires
        p <= s@.len(),
        s@.len() < usize::MAX,
    ensures
        r.reason == reason,
        (r.location.line as int, r.location.column as int) == location(s@, p as int),
{
    ParseError { reason, location: location_at(s, p) }
}

} // verus!
