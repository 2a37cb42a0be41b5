//! A parser and serialiser for stylesheets: rules, counter styles and property
//! declarations, with the checks that the grammar asks for.
pub mod text;
pub mod scan;
pub mod error;
pub mod declaration;
pub mod counter_style;
pub mod values;
pub mod counter_style_parser;
pub mod counter_style_css;
pub mod rule_list;
pub mod stylesheet;
pub mod media;

pub use counter_style::CounterStyleAtRule;
pub use declaration::PropertyDeclaration;
pub use stylesheet::{HasCssRules, Stylesheet};

