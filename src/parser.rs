//! Turning one icon theme into its style sheet and compact manifest.
use vstd::prelude::*;
use crate::bundle::{
    bundle_all, bundle_all_spec, pair_views, request_views, BundleCache, BundleError, Request,
};
use crate::definition::{clone_opt, copy_font, opt_view, DefinitionProperties, FontProperties, Src};
use crate::font_rule::{font_css, FontRule};
use crate::manifest::{
    ids_view, numbered, remapped_opt, retained, CompactManifest, IconThemeManifest, Mapping,
};
use crate::path::{join, joined};
use crate::registry::{apply_emissions, applied, mark_all, mark_table, seconds};
use crate::resolve::{map_path, mapped, rebundle_def, rebundled};
use crate::selector::{file_selector, file_selector_spec, named_selector, role_selector, FolderType};
use crate::style_sheet::{sheet_css, RuleView, StyleSheet};
use crate::table::{first_index, keys, lemma_first_index, position};

verus! {

/// A parser of one kind of contributed manifest.
pub trait Parser {
    type Output;

    type Error;

    /// Converts the manifest, bundling its assets through `cache`.
    fn parse(&mut self, cache: &mut BundleCache) -> (r: Result<Self::Output, Self::Error>)
        requires
            old(cache).wf(),
        ensures
            final(cache).wf(),
    ;
}

/// The role field, cleared when it names no definition.
pub open spec fn pruned_role(role: Option<String>, defs: Seq<(String, DefinitionProperties)>) -> Option<
    String,
> {
    match role {
        Some(n) => if first_index(keys(defs), n@) is Some {
            Some(n)
        } else {
            None
        },
        None => None,
    }
}

/// The theme with each role that names no definition cleared.
pub open spec fn pruned(m: IconThemeManifest) -> IconThemeManifest {
    IconThemeManifest {
        file: pruned_role(m.file, m.icon_definitions@),
        folder: pruned_role(m.folder, m.icon_definitions@),
        folder_expanded: pruned_role(m.folder_expanded, m.icon_definitions@),
        root_folder: pruned_role(m.root_folder, m.icon_definitions@),
        root_folder_expanded: pruned_role(m.root_folder_expanded, m.icon_definitions@),
        ..m
    }
}

pub open spec fn or_else(o: Option<String>, d: Seq<char>) -> Seq<char> {
    match o {
        Some(s) => s@,
        None => d,
    }
}

/// The definition names of the five roles after the fallbacks: file, folder,
/// expanded folder, root folder, expanded root folder.
pub open spec fn resolved_spec(m: IconThemeManifest) -> (
    Seq<char>,
    Seq<char>,
    Seq<char>,
    Seq<char>,
    Seq<char>,
) {
    let file = or_else(m.file, Seq::empty());
    let folder = or_else(m.folder, Seq::empty());
    let folder_expanded = or_else(m.folder_expanded, folder);
    let root_folder = or_else(m.root_folder, folder);
    let root_folder_expanded = if m.root_folder is Some {
        or_else(m.root_folder_expanded, root_folder)
    } else {
        or_else(m.root_folder_expanded, folder_expanded)
    };
    (file, folder, folder_expanded, root_folder, root_folder_expanded)
}

/// An unset expanded root folder follows an explicitly set root folder, not the
/// expanded folder.
pub proof fn lemma_root_expanded_follows_root(m: IconThemeManifest)
    requires
        m.root_folder is Some,
        m.root_folder_expanded is None,
    ensures
        resolved_spec(m).4 == resolved_spec(m).3,
        resolved_spec(m).3 == m.root_folder.unwrap()@,
{
}

/// The five role names after the fallbacks.
#[derive(Debug)]
pub struct ResolvedRoles {
    pub file: String,
    pub folder: String,
    pub folder_expanded: String,
    pub root_folder: String,
    pub root_folder_expanded: String,
}

impl ResolvedRoles {
    pub open spec fn view5(&self) -> (Seq<char>, Seq<char>, Seq<char>, Seq<char>, Seq<char>) {
        (
            self.file@,
            self.folder@,
            self.folder_expanded@,
            self.root_folder@,
            self.root_folder_expanded@,
        )
    }
}

/// The (selector, definition name) pairs of the five roles.
pub open spec fn role_emissions(r: (Seq<char>, Seq<char>, Seq<char>, Seq<char>, Seq<char>)) -> Seq<
    (Seq<char>, Seq<char>),
> {
    seq![
        (file_selector_spec(), r.0),
        (role_selector(FolderType::Normal), r.1),
        (role_selector(FolderType::Expanded), r.2),
        (role_selector(FolderType::Root), r.3),
        (role_selector(FolderType::RootExpanded), r.4),
    ]
}

/// The (selector, definition name) pairs of one folder-name table.
pub open spec fn table_emissions(t: FolderType, table: Mapping) -> Seq<(Seq<char>, Seq<char>)> {
    match table {
        Some(v) => v@.map_values(|e: (String, String)| (named_selector(t, e.0@), e.1@)),
        None => Seq::empty(),
    }
}

/// Every (selector, definition name) pair of the theme: the roles, then the four
/// folder-name tables.
pub open spec fn emissions(m: IconThemeManifest) -> Seq<(Seq<char>, Seq<char>)> {
    role_emissions(resolved_spec(m)) + table_emissions(FolderType::Normal, m.folder_names)
        + table_emissions(FolderType::Expanded, m.folder_names_expanded) + table_emissions(
        FolderType::Root,
        m.root_folder_names,
    ) + table_emissions(FolderType::RootExpanded, m.root_folder_names_expanded)
}

/// The definition names in a lookup table.
pub open spec fn table_names(t: Mapping) -> Seq<Seq<char>> {
    match t {
        Some(v) => seconds(pair_views(v@)),
        None => Seq::empty(),
    }
}

/// The registry with every definition that a role, a folder-name table or a
/// lookup table refers to marked.
pub open spec fn marked_defs(m: IconThemeManifest) -> Seq<(String, DefinitionProperties)> {
    mark_all(
        mark_all(
            mark_all(
                mark_all(m.icon_definitions@, seconds(emissions(m))),
                table_names(m.file_extensions),
            ),
            table_names(m.file_names),
        ),
        table_names(m.language_ids),
    )
}

/// The theme's rules before bundling.
pub open spec fn theme_rules(m: IconThemeManifest) -> Seq<RuleView> {
    applied(Seq::empty(), m.icon_definitions@, emissions(m))
}

/// Where a relative asset path resolved, by the first entry for it.
pub open spec fn resolution(resolved: Seq<(String, Option<String>)>, p: Seq<char>) -> Option<
    Seq<char>,
> {
    match first_index(keys(resolved), p) {
        Some(i) => opt_view(resolved[i].1),
        None => None,
    }
}

/// A bundling request for each image of a referenced definition, in order.
pub open spec fn def_requests(
    defs: Seq<(String, DefinitionProperties)>,
    resolved: Seq<(String, Option<String>)>,
) -> Seq<Request>
    decreases defs.len(),
{
    if defs.len() == 0 {
        Seq::empty()
    } else {
        let prev = def_requests(defs.drop_last(), resolved);
        let d = defs.last().1;
        match d.icon_path {
            Some(p) => if d.is_bundled {
                prev.push((p@, resolution(resolved, p@)))
            } else {
                prev
            },
            None => prev,
        }
    }
}

pub open spec fn face_requests(faces: Seq<Src>, resolved: Seq<(String, Option<String>)>) -> Seq<
    Request,
> {
    faces.map_values(|s: Src| (s.path@, resolution(resolved, s.path@)))
}

/// A bundling request for each face of each font, in order.
pub open spec fn font_requests(
    fonts: Seq<FontProperties>,
    resolved: Seq<(String, Option<String>)>,
) -> Seq<Request>
    decreases fonts.len(),
{
    if fonts.len() == 0 {
        Seq::empty()
    } else {
        font_requests(fonts.drop_last(), resolved) + face_requests(fonts.last().src@, resolved)
    }
}

pub open spec fn fonts_of(m: IconThemeManifest) -> Seq<FontProperties> {
    match m.fonts {
        Some(v) => v@,
        None => Seq::empty(),
    }
}

/// The image path of each definition that has one, in order.
pub open spec fn image_paths(defs: Seq<(String, DefinitionProperties)>) -> Seq<Seq<char>>
    decreases defs.len(),
{
    if defs.len() == 0 {
        Seq::empty()
    } else {
        match defs.last().1.icon_path {
            Some(p) => image_paths(defs.drop_last()).push(p@),
            None => image_paths(defs.drop_last()),
        }
    }
}

/// The path of each face of each font, in order.
pub open spec fn face_paths(fonts: Seq<FontProperties>) -> Seq<Seq<char>>
    decreases fonts.len(),
{
    if fonts.len() == 0 {
        Seq::empty()
    } else {
        face_paths(fonts.drop_last()) + fonts.last().src@.map_values(|s: Src| s.path@)
    }
}

/// Every asset the theme bundles: referenced definitions' images, then font faces.
pub open spec fn theme_requests(m: IconThemeManifest, resolved: Seq<(String, Option<String>)>) -> Seq<
    Request,
> {
    def_requests(marked_defs(m), resolved) + font_requests(fonts_of(m), resolved)
}

/// `new` is the font `old` with each face's path mapped through `bundled`.
pub open spec fn font_rebundled(
    old: FontProperties,
    new: FontProperties,
    bundled: Seq<(String, String)>,
) -> bool {
    &&& new.id == old.id
    &&& new.weight == old.weight
    &&& new.style == old.style
    &&& new.size == old.size
    &&& new.src@.len() == old.src@.len()
    &&& forall|i: int|
        0 <= i < old.src@.len() ==> #[trigger] new.src@[i].format == old.src@[i].format
            && new.src@[i].path@ == mapped(bundled, old.src@[i].path@)
}

/// The fonts' blocks, in order.
pub open spec fn fonts_css(fonts: Seq<FontProperties>) -> Seq<char>
    decreases fonts.len(),
{
    if fonts.len() == 0 {
        Seq::empty()
    } else {
        fonts_css(fonts.drop_last()) + font_css(fonts.last())
    }
}

/// What converting a theme produces.
#[derive(Debug)]
pub struct ThemeOutput {
    /// The style sheet: font blocks, then rules.
    pub css: String,
    /// The compact manifest.
    pub manifest: CompactManifest,
    /// Each relative asset path with its bundled output path.
    pub bundled: Vec<(String, String)>,
    /// Each (absolute source, output path) to copy into the asset directory.
    pub copies: Vec<(String, String)>,
    /// The fonts, with bundled face paths.
    pub fonts: Vec<FontProperties>,
    /// The rules, with bundled image paths.
    pub sheet: StyleSheet,
    /// Where the style sheet goes.
    pub css_path: String,
    /// Where the compact manifest goes.
    pub manifest_path: String,
}

/// Converts one icon theme, given where its assets resolved.
pub struct IconThemeParser {
    id: String,
    src: String,
    build: String,
    manifest: IconThemeManifest,
    resolved: Vec<(String, Option<String>)>,
}

fn prune_role(role: &mut Option<String>, defs: &Vec<(String, DefinitionProperties)>)
    ensures
        *final(role) == pruned_role(*old(role), defs@),
{
    let keep = match role {
        Some(n) => position(defs, n).is_some(),
        None => true,
    };
    if !keep {
        *role = None;
    }
}

fn push_table(out: &mut Vec<(String, String)>, t: FolderType, table: &Mapping)
    ensures
        pair_views(final(out)@) == pair_views(old(out)@) + table_emissions(t, *table),
{
    match table {
        Some(v) => {
            let n = v.len();
            let mut i: usize = 0;
            let ghost start = pair_views(out@);
            while i < n
                invariant
                    0 <= i <= n,
                    n == v@.len(),
                    *table == Some(*v),
                    pair_views(out@) == start + table_emissions(t, *table).subrange(0, i as int),
                decreases n - i,
            {
                let ghost before = pair_views(out@);
                out.push((t.named_selector(v[i].0.as_str()), v[i].1.clone()));
                assert(pair_views(out@) =~= before.push(table_emissions(t, *table)[i as int]));
                assert(start + table_emissions(t, *table).subrange(0, i + 1) =~= (start
                    + table_emissions(t, *table).subrange(0, i as int)).push(
                    table_emissions(t, *table)[i as int],
                ));
                i = i + 1;
            }
            assert(table_emissions(t, *table).subrange(0, n as int) =~= table_emissions(t, *table));
        },
        None => {
            assert(pair_views(out@) + Seq::<(Seq<char>, Seq<char>)>::empty() =~= pair_views(out@));
        },
    }
}

fn mark_opt_table(defs: &mut Vec<(String, DefinitionProperties)>, table: &Mapping)
    ensures
        final(defs)@ == mark_all(old(defs)@, table_names(*table)),
{
    match table {
        Some(v) => mark_table(defs, v),
        None => {},
    }
}

/// Where `p` resolved, by the first entry for it.
fn lookup_resolution(resolved: &Vec<(String, Option<String>)>, p: &String) -> (r: Option<String>)
    ensures
        opt_view(r) == resolution(resolved@, p@),
{
    let found = position(resolved, p);
    proof {
        lemma_first_index(keys(resolved@), p@);
    }
    match found {
        Some(i) => clone_opt(&resolved[i].1),
        None => None,
    }
}

/// The bundling requests of the referenced definitions' images and the fonts' faces.
pub fn theme_asset_requests(
    defs: &Vec<(String, DefinitionProperties)>,
    fonts: &Vec<FontProperties>,
    resolved: &Vec<(String, Option<String>)>,
) -> (r: Vec<(String, Option<String>)>)
    ensures
        request_views(r@) == def_requests(defs@, resolved@) + font_requests(fonts@, resolved@),
{
    let mut out: Vec<(String, Option<String>)> = Vec::new();
    let n = defs.len();
    let mut i: usize = 0;
    assert(request_views(out@) =~= def_requests(defs@.subrange(0, 0), resolved@));
    while i < n
        invariant
            0 <= i <= n,
            n == defs@.len(),
            request_views(out@) == def_requests(defs@.subrange(0, i as int), resolved@),
        decreases n - i,
    {
        assert(defs@.subrange(0, i + 1).drop_last() =~= defs@.subrange(0, i as int));
        let ghost before = request_views(out@);
        let d = &defs[i].1;
        match &d.icon_path {
            Some(p) => {
                if d.is_bundled {
                    out.push((p.clone(), lookup_resolution(resolved, p)));
                    assert(request_views(out@) =~= before.push(
                        (p@, resolution(resolved@, p@)),
                    ));
                }
            },
            None => {},
        }
        i = i + 1;
    }
    assert(defs@.subrange(0, n as int) =~= defs@);
    let ghost base = request_views(out@);
    let m = fonts.len();
    let mut k: usize = 0;
    assert(font_requests(fonts@.subrange(0, 0), resolved@) =~= Seq::<Request>::empty());
    assert(base + Seq::<Request>::empty() =~= base);
    while k < m
        invariant
            0 <= k <= m,
            m == fonts@.len(),
            request_views(out@) == base + font_requests(fonts@.subrange(0, k as int), resolved@),
        decreases m - k,
    {
        assert(fonts@.subrange(0, k + 1).drop_last() =~= fonts@.subrange(0, k as int));
        let faces = &fonts[k].src;
        let ghost start = request_views(out@);
        let f = faces.len();
        let mut j: usize = 0;
        while j < f
            invariant
                0 <= j <= f,
                f == faces@.len(),
                request_views(out@) == start + face_requests(faces@, resolved@).subrange(
                    0,
                    j as int,
                ),
            decreases f - j,
        {
            let ghost before = request_views(out@);
            let ghost fr = face_requests(faces@, resolved@);
            out.push((faces[j].path.clone(), lookup_resolution(resolved, &faces[j].path)));
            assert(request_views(out@) =~= before.push(fr[j as int]));
            assert(start + fr.subrange(0, j + 1) =~= (start + fr.subrange(0, j as int)).push(
                fr[j as int],
            ));
            j = j + 1;
        }
        assert(face_requests(faces@, resolved@).subrange(0, f as int) =~= face_requests(
            faces@,
            resolved@,
        ));
        assert(base + font_requests(fonts@.subrange(0, k + 1), resolved@) =~= start
            + face_requests(faces@, resolved@));
        k = k + 1;
    }
    assert(fonts@.subrange(0, m as int) =~= fonts@);
    out
}

/// The font with each face's path mapped through `bundled`.
pub fn rebundle_font(f: &FontProperties, bundled: &Vec<(String, String)>) -> (r: FontProperties)
    ensures
        font_rebundled(*f, r, bundled@),
{
    let mut src: Vec<Src> = Vec::new();
    let n = f.src.len();
    let mut i: usize = 0;
    while i < n
        invariant
            0 <= i <= n,
            n == f.src@.len(),
            src@.len() == i,
            forall|j: int|
                0 <= j < i ==> #[trigger] src@[j].format == f.src@[j].format && src@[j].path@
                    == mapped(bundled@, f.src@[j].path@),
        decreases n - i,
    {
        let face = &f.src[i];
        src.push(Src { path: map_path(bundled, &face.path), format: face.format.clone() });
        i = i + 1;
    }
    FontProperties {
        id: f.id.clone(),
        src,
        weight: clone_opt(&f.weight),
        style: clone_opt(&f.style),
        size: clone_opt(&f.size),
    }
}

/// The fonts' blocks, in input order.
pub fn render_fonts(fonts: &Vec<FontProperties>) -> (r: String)
    ensures
        r@ == fonts_css(fonts@),
{
    let mut out = String::new();
    let n = fonts.len();
    let mut i: usize = 0;
    while i < n
        invariant
            0 <= i <= n,
            n == fonts@.len(),
            out@ == fonts_css(fonts@.subrange(0, i as int)),
        decreases n - i,
    {
        assert(fonts@.subrange(0, i + 1).drop_last() =~= fonts@.subrange(0, i as int));
        let rule = FontRule(copy_font(&fonts[i]));
        let css = rule.to_css();
        out.append(css.as_str());
        i = i + 1;
    }
    assert(fonts@.subrange(0, n as int) =~= fonts@);
    out
}

/// The path made of the parts, as `join` makes it.
pub open spec fn joined3(a: Seq<char>, b: Seq<char>, c: Seq<char>, d: Seq<char>) -> Seq<char> {
    joined(seq![a, b, c, d])
}

fn join4(a: &String, b: &str, c: &str, d: String) -> (r: String)
    ensures
        r@ == joined3(a@, b@, c@, d@),
{
    let parts = vec![a.clone(), String::from_str(b), String::from_str(c), d];
    proof {
        assert(crate::path::views(parts@) =~= seq![a@, b@, c@, d@]);
    }
    join(parts.as_slice())
}

impl IconThemeParser {
    pub closed spec fn manifest_view(&self) -> IconThemeManifest {
        self.manifest
    }

    pub closed spec fn resolved_view(&self) -> Seq<(String, Option<String>)> {
        self.resolved@
    }

    pub closed spec fn id_view(&self) -> Seq<char> {
        self.id@
    }

    pub closed spec fn src_view(&self) -> Seq<char> {
        self.src@
    }

    pub closed spec fn build_view(&self) -> Seq<char> {
        self.build@
    }

    /// A parser for the theme `id`, whose assets are relative to `src`, building
    /// into `build`. No asset has resolved yet.
    pub fn new(id: String, src: String, build: String, manifest: IconThemeManifest) -> (r: Self)
        ensures
            r.manifest_view() == manifest,
            r.resolved_view() == Seq::<(String, Option<String>)>::empty(),
            r.id_view() == id@,
            r.src_view() == src@,
            r.build_view() == build@,
    {
        IconThemeParser { id, src, build, manifest, resolved: Vec::new() }
    }

    /// Records where the theme's relative asset paths resolved: each with its
    /// absolute path, or `None` where no such file exists.
    pub fn set_resolved(&mut self, resolved: Vec<(String, Option<String>)>)
        ensures
            final(self).resolved_view() == resolved@,
            final(self).manifest_view() == old(self).manifest_view(),
            final(self).id_view() == old(self).id_view(),
            final(self).src_view() == old(self).src_view(),
            final(self).build_view() == old(self).build_view(),
    {
        self.resolved = resolved;
    }

    /// The absolute path of a relative asset path: the source directory joined with it.
    pub fn source_path(&self, rel: &String) -> (r: String)
        ensures
            r@ == joined(seq![self.src_view(), rel@]),
    {
        let parts = vec![self.src.clone(), rel.clone()];
        proof {
            assert(crate::path::views(parts@) =~= seq![self.src@, rel@]);
        }
        join(parts.as_slice())
    }

    /// Every relative asset path of the theme: each definition's image, then each
    /// font face.
    pub fn asset_paths(&self) -> (r: Vec<String>)
        ensures
            r@.map_values(|s: String| s@) == image_paths(self.manifest_view().icon_definitions@)
                + face_paths(fonts_of(self.manifest_view())),
    {
        let mut out: Vec<String> = Vec::new();
        let defs = &self.manifest.icon_definitions;
        let n = defs.len();
        let mut i: usize = 0;
        assert(out@.map_values(|s: String| s@) =~= image_paths(defs@.subrange(0, 0)));
        while i < n
            invariant
                0 <= i <= n,
                n == defs@.len(),
                out@.map_values(|s: String| s@) == image_paths(defs@.subrange(0, i as int)),
            decreases n - i,
        {
            assert(defs@.subrange(0, i + 1).drop_last() =~= defs@.subrange(0, i as int));
            let ghost before = out@.map_values(|s: String| s@);
            match &defs[i].1.icon_path {
                Some(p) => {
                    out.push(p.clone());
                    assert(out@.map_values(|s: String| s@) =~= before.push(p@));
                },
                None => {},
            }
            i = i + 1;
        }
        assert(defs@.subrange(0, n as int) =~= defs@);
        let ghost base = out@.map_values(|s: String| s@);
        let empty_fonts: Vec<FontProperties> = Vec::new();
        let fonts = match &self.manifest.fonts {
            Some(f) => f,
            None => &empty_fonts,
        };
        assert(fonts@ == fonts_of(self.manifest));
        let m = fonts.len();
        let mut k: usize = 0;
        assert(base + face_paths(fonts@.subrange(0, 0)) =~= base);
        while k < m
            invariant
                0 <= k <= m,
                m == fonts@.len(),
                out@.map_values(|s: String| s@) == base + face_paths(fonts@.subrange(0, k as int)),
            decreases m - k,
        {
            assert(fonts@.subrange(0, k + 1).drop_last() =~= fonts@.subrange(0, k as int));
            let faces = &fonts[k].src;
            let ghost start = out@.map_values(|s: String| s@);
            let ghost fp = faces@.map_values(|s: Src| s.path@);
            let f = faces.len();
            let mut j: usize = 0;
            assert(start + fp.subrange(0, 0) =~= start);
            while j < f
                invariant
                    0 <= j <= f,
                    f == faces@.len(),
                    fp == faces@.map_values(|s: Src| s.path@),
                    out@.map_values(|s: String| s@) == start + fp.subrange(0, j as int),
                decreases f - j,
            {
                let ghost before = out@.map_values(|s: String| s@);
                out.push(faces[j].path.clone());
                assert(out@.map_values(|s: String| s@) =~= before.push(fp[j as int]));
                assert(start + fp.subrange(0, j + 1) =~= (start + fp.subrange(0, j as int)).push(
                    fp[j as int],
                ));
                j = j + 1;
            }
            assert(fp.subrange(0, f as int) =~= fp);
            assert(base + face_paths(fonts@.subrange(0, k + 1)) =~= start + fp);
            k = k + 1;
        }
        assert(fonts@.subrange(0, m as int) =~= fonts@);
        out
    }

    /// Clears each role that names no definition.
    pub fn prune_roles(&mut self)
        ensures
            final(self).manifest_view() == pruned(old(self).manifest_view()),
            final(self).resolved_view() == old(self).resolved_view(),
            final(self).id_view() == old(self).id_view(),
            final(self).src_view() == old(self).src_view(),
            final(self).build_view() == old(self).build_view(),
    {
        prune_role(&mut self.manifest.file, &self.manifest.icon_definitions);
        prune_role(&mut self.manifest.folder, &self.manifest.icon_definitions);
        prune_role(&mut self.manifest.folder_expanded, &self.manifest.icon_definitions);
        prune_role(&mut self.manifest.root_folder, &self.manifest.icon_definitions);
        prune_role(&mut self.manifest.root_folder_expanded, &self.manifest.icon_definitions);
    }

    /// The five role names after the fallbacks.
    pub fn resolve_roles(&self) -> (r: ResolvedRoles)
        ensures
            r.view5() == resolved_spec(self.manifest_view()),
    {
        let m = &self.manifest;
        let file = match &m.file {
            Some(v) => v.clone(),
            None => String::new(),
        };
        let folder = match &m.folder {
            Some(v) => v.clone(),
            None => String::new(),
        };
        let folder_expanded = match &m.folder_expanded {
            Some(v) => v.clone(),
            None => folder.clone(),
        };
        let root_folder = match &m.root_folder {
            Some(v) => v.clone(),
            None => folder.clone(),
        };
        let root_folder_expanded = match &m.root_folder_expanded {
            Some(v) => v.clone(),
            None => if m.root_folder.is_some() {
                root_folder.clone()
            } else {
                folder_expanded.clone()
            },
        };
        ResolvedRoles { file, folder, folder_expanded, root_folder, root_folder_expanded }
    }

    /// Every (selector, definition name) pair: the five roles, then the four
    /// folder-name tables in order.
    pub fn emissions(&self) -> (r: Vec<(String, String)>)
        ensures
            pair_views(r@) == emissions(self.manifest_view()),
    {
        let roles = self.resolve_roles();
        let mut out: Vec<(String, String)> = Vec::new();
        out.push((file_selector(), roles.file));
        out.push((FolderType::Normal.selector(), roles.folder));
        out.push((FolderType::Expanded.selector(), roles.folder_expanded));
        out.push((FolderType::Root.selector(), roles.root_folder));
        out.push((FolderType::RootExpanded.selector(), roles.root_folder_expanded));
        assert(pair_views(out@) =~= role_emissions(resolved_spec(self.manifest)));
        push_table(&mut out, FolderType::Normal, &self.manifest.folder_names);
        push_table(&mut out, FolderType::Expanded, &self.manifest.folder_names_expanded);
        push_table(&mut out, FolderType::Root, &self.manifest.root_folder_names);
        push_table(&mut out, FolderType::RootExpanded, &self.manifest.root_folder_names_expanded);
        out
    }
}

/// What converting the theme `m`, with its assets resolved as `resolved`,
/// promises of its output, where the bundling gave `outcome`.
pub open spec fn output_matches(
    out: ThemeOutput,
    m: IconThemeManifest,
    id: Seq<char>,
    build: Seq<char>,
    outcome: crate::bundle::Outcome,
) -> bool {
    let kept = retained(marked_defs(m));
    let rules = theme_rules(m);
    let fonts = fonts_of(m);
    &&& pair_views(out.bundled@) == outcome.0
    &&& pair_views(out.copies@) == outcome.1
    &&& out.manifest.definitions@.len() == kept.len()
    &&& forall|i: int|
        0 <= i < kept.len() ==> rebundled(
            kept[i].1,
            #[trigger] out.manifest.definitions@[i],
            out.bundled@,
        )
    &&& forall|ids: Seq<(String, usize)>|
        numbered(ids, kept) ==> {
            &&& ids_view(out.manifest.file_extensions) == remapped_opt(m.file_extensions, ids)
            &&& ids_view(out.manifest.file_names) == remapped_opt(m.file_names, ids)
            &&& ids_view(out.manifest.language_ids) == remapped_opt(m.language_ids, ids)
        }
    &&& out.sheet@.len() == rules.len()
    &&& forall|i: int|
        0 <= i < rules.len() ==> (#[trigger] out.sheet@[i]).0 == rules[i].0 && rebundled(
            rules[i].1,
            out.sheet@[i].1,
            out.bundled@,
        )
    &&& out.fonts@.len() == fonts.len()
    &&& forall|i: int|
        0 <= i < fonts.len() ==> font_rebundled(fonts[i], #[trigger] out.fonts@[i], out.bundled@)
    &&& out.css@ == fonts_css(out.fonts@) + sheet_css(out.sheet@)
    &&& out.css_path@ == joined3(build, "dist"@, "assets"@, id + ".iconTheme.css"@)
    &&& out.manifest_path@ == joined3(build, "src"@, "iconThemes"@, id + ".json"@)
}

impl IconThemeParser {
    /// Converts the theme: prunes the roles, gathers one rule per definition
    /// identity with the selectors of every role and folder-name entry, marks the
    /// referenced definitions, bundles their images and the fonts' faces, renders
    /// the style sheet (fonts first) and compacts the manifest. A missing asset
    /// fails the whole theme.
    ///
    /// A definition counts as referenced when a role, a folder-name entry or a
    /// lookup-table entry (file extensions, file names, language ids) names it;
    /// only referenced definitions are kept, so only their images are bundled:
    /// the others are dropped from the output and their files are never read.
    pub fn parse_with(&mut self, cache: &mut BundleCache) -> (r: Result<ThemeOutput, BundleError>)
        requires
            old(cache).wf(),
        ensures
            final(cache).wf(),
            ({
                let m = pruned(old(self).manifest_view());
                let b = bundle_all_spec(old(cache)@, theme_requests(m, old(self).resolved_view()));
                &&& final(cache)@ == b.1
                &&& r is Ok <==> b.0 is Some
                &&& r matches Ok(out) ==> output_matches(
                    out,
                    m,
                    old(self).id_view(),
                    old(self).build_view(),
                    b.0.unwrap(),
                )
            }),
    {
        self.prune_roles();
        let ghost m = self.manifest;
        let ems = self.emissions();
        let dest = join4(&self.build, "dist", "assets", String::new());
        let mut sheet = StyleSheet::new(self.src.clone(), dest);
        apply_emissions(&mut self.manifest.icon_definitions, &mut sheet, &ems);
        mark_opt_table(&mut self.manifest.icon_definitions, &self.manifest.file_extensions);
        mark_opt_table(&mut self.manifest.icon_definitions, &self.manifest.file_names);
        mark_opt_table(&mut self.manifest.icon_definitions, &self.manifest.language_ids);
        assert(self.manifest.icon_definitions@ == marked_defs(m));
        assert(sheet@ == theme_rules(m));
        let empty_fonts: Vec<FontProperties> = Vec::new();
        let fonts = match &self.manifest.fonts {
            Some(f) => f,
            None => &empty_fonts,
        };
        assert(fonts@ == fonts_of(m));
        let reqs = theme_asset_requests(&self.manifest.icon_definitions, fonts, &self.resolved);
        let (bundled, copies) = match bundle_all(cache, &reqs) {
            Ok(x) => x,
            Err(e) => {
                return Err(e);
            },
        };
        let mut fonts_out: Vec<FontProperties> = Vec::new();
        let nf = fonts.len();
        let mut i: usize = 0;
        while i < nf
            invariant
                0 <= i <= nf,
                nf == fonts@.len(),
                fonts_out@.len() == i,
                forall|j: int|
                    0 <= j < i ==> font_rebundled(fonts@[j], #[trigger] fonts_out@[j], bundled@),
            decreases nf - i,
        {
            fonts_out.push(rebundle_font(&fonts[i], &bundled));
            i = i + 1;
        }
        sheet.resolve_urls(&bundled);
        let mut manifest = self.manifest.compact();
        let ghost kept_defs = manifest.definitions@;
        let ghost tables = (manifest.file_extensions, manifest.file_names, manifest.language_ids);
        let nd = manifest.definitions.len();
        let mut k: usize = 0;
        while k < nd
            invariant
                0 <= k <= nd,
                nd == kept_defs.len(),
                manifest.definitions@.len() == nd,
                forall|j: int|
                    0 <= j < k ==> rebundled(
                        kept_defs[j],
                        #[trigger] manifest.definitions@[j],
                        bundled@,
                    ),
                forall|j: int| k <= j < nd ==> #[trigger] manifest.definitions@[j] == kept_defs[j],
                tables == (manifest.file_extensions, manifest.file_names, manifest.language_ids),
            decreases nd - k,
        {
            let ghost before = manifest.definitions@;
            let mut d = manifest.definitions.remove(k);
            rebundle_def(&mut d, &bundled);
            manifest.definitions.insert(k, d);
            assert(manifest.definitions@ =~= before.update(k as int, d));
            k = k + 1;
        }
        let mut css = render_fonts(&fonts_out);
        let rules_css = sheet.to_css();
        css.append(rules_css.as_str());
        let mut css_name = self.id.clone();
        css_name.append(".iconTheme.css");
        let css_path = join4(&self.build, "dist", "assets", css_name);
        let mut json_name = self.id.clone();
        json_name.append(".json");
        let manifest_path = join4(&self.build, "src", "iconThemes", json_name);
        Ok(
            ThemeOutput {
                css,
                manifest,
                bundled,
                copies,
                fonts: fonts_out,
                sheet,
                css_path,
                manifest_path,
            },
        )
    }
}

impl Parser for IconThemeParser {
    type Output = ThemeOutput;

    type Error = BundleError;

    /// Converts the theme exactly as `parse_with` does.
    fn parse(&mut self, cache: &mut BundleCache) -> (r: Result<ThemeOutput, BundleError>)
        ensures
            ({
                let m = pruned(old(self).manifest_view());
                let b = bundle_all_spec(old(cache)@, theme_requests(m, old(self).resolved_view()));
                &&& final(cache)@ == b.1
                &&& r is Ok <==> b.0 is Some
                &&& r matches Ok(out) ==> output_matches(
                    out,
                    m,
                    old(self).id_view(),
                    old(self).build_view(),
                    b.0.unwrap(),
                )
            }),
    {
        self.parse_with(cache)
    }
}

} // verus!
