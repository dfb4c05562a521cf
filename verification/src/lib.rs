//! A compiler from CSS-like stylesheets to composed style records, with the
//! state machine that republishes them when the source changes.
//!
//! The text goes through the tokenizer ([`lexer`]), the rule parser and the
//! pass that fills in custom properties ([`parser`]), the declaration
//! compiler ([`declaration`]) and the style composer ([`composer`]), which
//! fills the style table ([`table`]). [`reload`] decides when the table is
//! replaced. [`analyzer`] reports what is wrong with a stylesheet. [`blocks`]
//! and [`sheet`] read a stylesheet block by block instead.

pub mod analyzer;
pub mod blocks;
pub mod color;
pub mod composer;
pub mod declaration;
pub mod keywords;
pub mod length;
pub mod lexer;
pub mod lists;
pub mod number;
pub mod options;
pub mod parser;
pub mod reload;
pub mod selector;
pub mod shadow;
pub mod sheet;
pub mod style;
pub mod table;
pub mod text;
pub mod transition;

pub use analyzer::{analyze, analyze_tokens, SyntaxError};
pub use composer::{css_to_rules, parse_css, parse_rules};
pub use declaration::Declaration;
pub use options::ProviderOptions;
pub use parser::Rule;
pub use selector::PseudoClass;
pub use table::StyleMap;
