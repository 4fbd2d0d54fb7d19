//! Either kind of block in the style sheet.
use vstd::prelude::*;
use crate::font_rule::{font_css, FontRule};
use crate::style_rule::{rule_css, StyleRule};

verus! {

#[derive(Debug)]
pub enum CssRule {
    FontRule(FontRule),
    StyleRule(StyleRule),
}

pub open spec fn css_rule_css(r: CssRule) -> Seq<char> {
    match r {
        CssRule::FontRule(f) => font_css(f.0),
        CssRule::StyleRule(s) => rule_css(s.selectors_view(), s.definition),
    }
}

impl CssRule {
    /// The block as CSS text.
    pub fn to_css(&self) -> (r: String)
        ensures
            r@ == css_rule_css(*self),
    {
        match self {
            CssRule::FontRule(f) => f.to_css(),
            CssRule::StyleRule(s) => s.to_css(),
        }
    }
}

} // verus!
