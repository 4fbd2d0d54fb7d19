//! Converts an icon theme into a style sheet and a compact lookup manifest.
pub mod acode;
pub mod args;
pub mod bundle;
pub mod definition;
pub mod manifest;
pub mod parser;
pub mod path;
pub mod registry;
pub mod runtime;
pub mod selector;
pub mod table;
pub mod text;
pub mod style_rule;
pub mod font_rule;
pub mod css_rule;
pub mod resolve;
pub mod style_sheet;
