//! The block that declares one custom font.
use vstd::prelude::*;
use crate::definition::{opt_view, FontProperties, Src};
use crate::path::views;
use crate::text::{append_opt_decl, join_with, joined_with, opt_decl};

verus! {

/// One face in a font's `src` list.
pub open spec fn face_css(s: Src) -> Seq<char> {
    "url("@ + s.path@ + ")format('"@ + s.format@ + "')"@
}

/// The font's block: family, faces in order, then size, style and weight when set.
pub open spec fn font_css(f: FontProperties) -> Seq<char> {
    "@font-face{"@ + "font-family:'"@ + f.id@ + "';"@ + "src:"@ + joined_with(
        f.src@.map_values(|s: Src| face_css(s)),
        ","@,
    ) + ";"@ + opt_decl("font-size:"@, opt_view(f.size)) + opt_decl(
        "font-style:"@,
        opt_view(f.style),
    ) + opt_decl("font-weight:"@, opt_view(f.weight)) + "}"@
}

/// A custom font, rendered as one block.
#[derive(Debug)]
pub struct FontRule(pub FontProperties);

impl FontRule {
    /// The block as CSS text.
    pub fn to_css(&self) -> (r: String)
        ensures
            r@ == font_css(self.0),
    {
        let f = &self.0;
        let mut srcs: Vec<String> = Vec::new();
        let n = f.src.len();
        let mut i: usize = 0;
        while i < n
            invariant
                0 <= i <= n,
                n == f.src@.len(),
                srcs@.len() == i,
                forall|j: int| 0 <= j < i ==> #[trigger] srcs@[j]@ == face_css(f.src@[j]),
            decreases n - i,
        {
            let s = &f.src[i];
            let mut e = String::from_str("url(");
            e.append(s.path.as_str());
            e.append(")format('");
            e.append(s.format.as_str());
            e.append("')");
            srcs.push(e);
            i = i + 1;
        }
        assert(views(srcs@) =~= f.src@.map_values(|s: Src| face_css(s)));
        let mut out = String::from_str("@font-face{");
        out.append("font-family:'");
        out.append(f.id.as_str());
        out.append("';");
        out.append("src:");
        let joined = join_with(&srcs, ",");
        out.append(joined.as_str());
        out.append(";");
        append_opt_decl(&mut out, "font-size:", &f.size);
        append_opt_decl(&mut out, "font-style:", &f.style);
        append_opt_decl(&mut out, "font-weight:", &f.weight);
        out.append("}");
        out
    }
}

} // verus!
