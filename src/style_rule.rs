//! One style block: the selectors that share a definition, and its declarations.
use vstd::prelude::*;
use crate::definition::{opt_view, DefinitionProperties};
use crate::path::views;
use crate::text::{append_opt_decl, join_with, joined_with, opt_decl};

verus! {

/// The inline-image declarations, present only with an image path.
pub open spec fn image_decls(icon_path: Option<Seq<char>>) -> Seq<char> {
    match icon_path {
        Some(p) => "display:inline-block;"@ + "background-size:contain;"@
            + "background-repeat:no-repeat;"@ + "height:1em;"@ + "width:1em;"@
            + "background-image:url("@ + p + ");"@,
        None => Seq::empty(),
    }
}

/// The glyph, or nothing.
pub open spec fn glyph(font_character: Option<Seq<char>>) -> Seq<char> {
    match font_character {
        Some(c) => c,
        None => Seq::empty(),
    }
}

/// The declarations of a definition, in their fixed order.
pub open spec fn declarations(d: DefinitionProperties) -> Seq<char> {
    "content:'"@ + glyph(opt_view(d.font_character)) + "'!important;"@ + image_decls(
        opt_view(d.icon_path),
    ) + opt_decl("color:"@, opt_view(d.font_color)) + opt_decl(
        "font-family:"@,
        opt_view(d.font_id),
    ) + opt_decl("font-size:"@, opt_view(d.font_size))
}

fn image_css(icon_path: &Option<String>) -> (r: String)
    ensures
        r@ == image_decls(opt_view(*icon_path)),
{
    let mut out = String::new();
    match icon_path {
        Some(p) => {
            out.append("display:inline-block;");
            assert(out@ =~= "display:inline-block;"@);
            out.append("background-size:contain;");
            out.append("background-repeat:no-repeat;");
            out.append("height:1em;");
            out.append("width:1em;");
            out.append("background-image:url(");
            out.append(p.as_str());
            out.append(");");
        },
        None => {},
    }
    out
}

fn declarations_css(d: &DefinitionProperties) -> (r: String)
    ensures
        r@ == declarations(*d),
{
    let mut out = String::from_str("content:'");
    match &d.font_character {
        Some(c) => out.append(c.as_str()),
        None => {
            assert(out@ + Seq::<char>::empty() =~= out@);
        },
    }
    out.append("'!important;");
    let image = image_css(&d.icon_path);
    out.append(image.as_str());
    append_opt_decl(&mut out, "color:", &d.font_color);
    append_opt_decl(&mut out, "font-family:", &d.font_id);
    append_opt_decl(&mut out, "font-size:", &d.font_size);
    out
}

/// The block for the selectors and the definition.
pub open spec fn rule_css(selectors: Seq<Seq<char>>, d: DefinitionProperties) -> Seq<char> {
    joined_with(selectors, ","@) + "{"@ + declarations(d) + "}"@
}

/// The selectors that share one definition, in insertion order.
#[derive(Debug)]
pub struct StyleRule {
    pub selectors: Vec<String>,
    pub definition: DefinitionProperties,
}

impl StyleRule {
    pub open spec fn selectors_view(&self) -> Seq<Seq<char>> {
        views(self.selectors@)
    }

    /// A rule with one selector.
    pub fn new(selector: &str, definition: DefinitionProperties) -> (r: StyleRule)
        ensures
            r.selectors_view() == seq![selector@],
            r.definition == definition,
    {
        let mut selectors = Vec::new();
        selectors.push(String::from_str(selector));
        let r = StyleRule { selectors, definition };
        assert(r.selectors_view() =~= seq![selector@]);
        r
    }

    /// The rule as CSS text.
    pub fn to_css(&self) -> (r: String)
        ensures
            r@ == rule_css(self.selectors_view(), self.definition),
    {
        let mut out = join_with(&self.selectors, ",");
        out.append("{");
        let decls = declarations_css(&self.definition);
        out.append(decls.as_str());
        out.append("}");
        out
    }
}

} // verus!
