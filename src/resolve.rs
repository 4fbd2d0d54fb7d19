//! Rewriting image and font paths to their bundled output paths.
use vstd::prelude::*;
use crate::definition::{opt_view, DefinitionProperties};
use crate::table::{first_index, keys, position};

verus! {

/// Where a path goes: its bundled output path if `bundled` maps it, else itself.
pub open spec fn mapped(bundled: Seq<(String, String)>, p: Seq<char>) -> Seq<char> {
    match first_index(keys(bundled), p) {
        Some(i) => bundled[i].1@,
        None => p,
    }
}

/// `new` is `old` with its image path, if any, mapped through `bundled`.
pub open spec fn rebundled(
    old: DefinitionProperties,
    new: DefinitionProperties,
    bundled: Seq<(String, String)>,
) -> bool {
    &&& opt_view(new.icon_path) == match opt_view(old.icon_path) {
        Some(p) => Some(mapped(bundled, p)),
        None => None,
    }
    &&& new.font_character == old.font_character
    &&& new.font_color == old.font_color
    &&& new.font_size == old.font_size
    &&& new.font_id == old.font_id
    &&& new.is_bundled == old.is_bundled
}

/// The bundled output path of `p`, or `p` itself.
pub fn map_path(bundled: &Vec<(String, String)>, p: &String) -> (r: String)
    ensures
        r@ == mapped(bundled@, p@),
{
    let found = position(bundled, p);
    proof {
        crate::table::lemma_first_index(keys(bundled@), p@);
    }
    match found {
        Some(i) => bundled[i].1.clone(),
        None => p.clone(),
    }
}

/// Maps the definition's image path through `bundled`.
pub fn rebundle_def(d: &mut DefinitionProperties, bundled: &Vec<(String, String)>)
    ensures
        rebundled(*old(d), *final(d), bundled@),
{
    let p = match &d.icon_path {
        Some(p) => map_path(bundled, p),
        None => {
            return;
        },
    };
    d.icon_path = Some(p);
}

} // verus!
