//! The icon theme's data: icon definitions and custom fonts.
use vstd::prelude::*;

verus! {

/// The view of an optional string.
pub open spec fn opt_view(o: Option<String>) -> Option<Seq<char>> {
    match o {
        Some(s) => Some(s@),
        None => None,
    }
}

/// Compares two optional strings by content.
pub fn opt_str_eq(a: &Option<String>, b: &Option<String>) -> (r: bool)
    ensures
        r == (opt_view(*a) == opt_view(*b)),
{
    match (a, b) {
        (Some(x), Some(y)) => *x == *y,
        (None, None) => true,
        _ => false,
    }
}

/// A copy of an optional string.
pub fn clone_opt(o: &Option<String>) -> (r: Option<String>)
    ensures
        r == *o,
{
    match o {
        Some(s) => Some(s.clone()),
        None => None,
    }
}

/// A copy of a definition.
pub fn copy_definition(d: &DefinitionProperties) -> (r: DefinitionProperties)
    ensures
        r == *d,
{
    DefinitionProperties {
        icon_path: clone_opt(&d.icon_path),
        font_character: clone_opt(&d.font_character),
        font_color: clone_opt(&d.font_color),
        font_size: clone_opt(&d.font_size),
        font_id: clone_opt(&d.font_id),
        is_bundled: d.is_bundled,
    }
}

/// One named icon: a glyph, an image, a color, a font and a size, each optional.
#[derive(Debug, Clone, Default)]
pub struct DefinitionProperties {
    pub icon_path: Option<String>,
    pub font_character: Option<String>,
    pub font_color: Option<String>,
    pub font_size: Option<String>,
    pub font_id: Option<String>,
    /// Set once some role or selector refers to the definition.
    pub is_bundled: bool,
}

/// The five value fields that decide whether two definitions share one rule.
pub type Identity = (
    Option<Seq<char>>,
    Option<Seq<char>>,
    Option<Seq<char>>,
    Option<Seq<char>>,
    Option<Seq<char>>,
);

impl DefinitionProperties {
    pub open spec fn identity(self) -> Identity {
        (
            opt_view(self.icon_path),
            opt_view(self.font_character),
            opt_view(self.font_color),
            opt_view(self.font_size),
            opt_view(self.font_id),
        )
    }

    /// Whether the two definitions would render the same rule.
    pub fn same_identity(&self, other: &DefinitionProperties) -> (r: bool)
        ensures
            r == (self.identity() == other.identity()),
    {
        opt_str_eq(&self.icon_path, &other.icon_path) && opt_str_eq(
            &self.font_character,
            &other.font_character,
        ) && opt_str_eq(&self.font_color, &other.font_color) && opt_str_eq(
            &self.font_size,
            &other.font_size,
        ) && opt_str_eq(&self.font_id, &other.font_id)
    }
}

/// One physical font resource.
#[derive(Debug, Clone, Default)]
pub struct Src {
    pub path: String,
    pub format: String,
}

/// A custom font: its id, its faces in order, and optional weight, style and size.
#[derive(Debug, Clone, Default)]
pub struct FontProperties {
    pub id: String,
    pub src: Vec<Src>,
    pub weight: Option<String>,
    pub style: Option<String>,
    pub size: Option<String>,
}

} // verus!

verus! {

/// A copy of a font.
pub fn copy_font(f: &FontProperties) -> (r: FontProperties)
    ensures
        r.id == f.id,
        r.src@ == f.src@,
        r.weight == f.weight,
        r.style == f.style,
        r.size == f.size,
{
    let mut src: Vec<Src> = Vec::new();
    let n = f.src.len();
    let mut i: usize = 0;
    while i < n
        invariant
            0 <= i <= n,
            n == f.src@.len(),
            src@ == f.src@.subrange(0, i as int),
        decreases n - i,
    {
        src.push(Src { path: f.src[i].path.clone(), format: f.src[i].format.clone() });
        assert(src@ =~= f.src@.subrange(0, i + 1));
        i = i + 1;
    }
    assert(src@ =~= f.src@);
    FontProperties {
        id: f.id.clone(),
        src,
        weight: clone_opt(&f.weight),
        style: clone_opt(&f.style),
        size: clone_opt(&f.size),
    }
}

} // verus!
