//! The plugin manifest of the target editor, and merging a user-supplied one into it.
use vstd::prelude::*;
use crate::definition::opt_view;
use crate::path::{join, joined, views};

verus! {

/// A plugin's author.
#[derive(Debug, Clone)]
pub struct Author {
    pub name: String,
    pub email: Option<String>,
    pub url: Option<String>,
    pub github: Option<String>,
}

/// The plugin manifest: id, name, entry point, version, readme, icon, files,
/// price, minimum editor version, author and dependencies, each optional.
#[derive(Debug, Clone)]
pub struct AcodeManifest {
    pub id: Option<String>,
    pub name: Option<String>,
    pub main: Option<String>,
    pub version: Option<String>,
    pub readme: Option<String>,
    pub icon: Option<String>,
    pub files: Option<Vec<String>>,
    pub price: Option<u16>,
    pub min_version_code: Option<i32>,
    pub author: Option<Author>,
    pub dependencies: Option<Vec<String>>,
}

/// `with`'s value where it has one, else `base`'s.
pub open spec fn overridden<T>(base: Option<T>, with: Option<T>) -> Option<T> {
    if with is Some {
        with
    } else {
        base
    }
}

/// The items of an optional list.
pub open spec fn items(l: Option<Vec<String>>) -> Seq<Seq<char>> {
    match l {
        Some(v) => views(v@),
        None => Seq::empty(),
    }
}

/// A list path made absolute against `dir`.
pub open spec fn resolved_path(dir: Seq<char>, p: Option<String>) -> Option<Seq<char>> {
    match p {
        Some(q) => Some(joined(seq![dir, q@])),
        None => None,
    }
}

fn concat_lists(base: Option<Vec<String>>, with: Option<Vec<String>>) -> (r: Vec<String>)
    ensures
        views(r@) == items(base) + items(with),
{
    let mut out = match base {
        Some(v) => v,
        None => Vec::new(),
    };
    match with {
        Some(w) => {
            let mut w = w;
            out.append(&mut w);
        },
        None => {},
    }
    assert(views(out@) =~= items(base) + items(with));
    out
}

fn join_dir(dir: &String, p: &String) -> (r: String)
    ensures
        r@ == joined(seq![dir@, p@]),
{
    let parts = vec![dir.clone(), p.clone()];
    proof {
        assert(views(parts@) =~= seq![dir@, p@]);
    }
    join(parts.as_slice())
}

impl AcodeManifest {
    /// Takes each field that `with` sets, except the entry point; appends `with`'s
    /// files and dependencies to these, which become lists even where neither had one.
    pub fn merge(&mut self, with: Self)
        ensures
            final(self).id == overridden(old(self).id, with.id),
            final(self).name == overridden(old(self).name, with.name),
            final(self).main == old(self).main,
            final(self).version == overridden(old(self).version, with.version),
            final(self).readme == overridden(old(self).readme, with.readme),
            final(self).icon == overridden(old(self).icon, with.icon),
            final(self).price == overridden(old(self).price, with.price),
            final(self).min_version_code == overridden(
                old(self).min_version_code,
                with.min_version_code,
            ),
            final(self).author == overridden(old(self).author, with.author),
            final(self).files is Some,
            items(final(self).files) == items(old(self).files) + items(with.files),
            final(self).dependencies is Some,
            items(final(self).dependencies) == items(old(self).dependencies) + items(
                with.dependencies,
            ),
    {
        let with = with;
        if with.id.is_some() {
            self.id = with.id;
        }
        if with.name.is_some() {
            self.name = with.name;
        }
        if with.version.is_some() {
            self.version = with.version;
        }
        if with.readme.is_some() {
            self.readme = with.readme;
        }
        if with.icon.is_some() {
            self.icon = with.icon;
        }
        if with.price.is_some() {
            self.price = with.price;
        }
        if with.min_version_code.is_some() {
            self.min_version_code = with.min_version_code;
        }
        if with.author.is_some() {
            self.author = with.author;
        }
        let mut files = None;
        std::mem::swap(&mut files, &mut self.files);
        self.files = Some(concat_lists(files, with.files));
        let mut dependencies = None;
        std::mem::swap(&mut dependencies, &mut self.dependencies);
        self.dependencies = Some(concat_lists(dependencies, with.dependencies));
    }

    /// Makes the readme and icon paths relative to `path`.
    pub fn resolve(&mut self, path: &String)
        ensures
            opt_view(final(self).readme) == resolved_path(path@, old(self).readme),
            opt_view(final(self).icon) == resolved_path(path@, old(self).icon),
            final(self).id == old(self).id,
            final(self).name == old(self).name,
            final(self).main == old(self).main,
            final(self).version == old(self).version,
            final(self).files == old(self).files,
            final(self).price == old(self).price,
            final(self).min_version_code == old(self).min_version_code,
            final(self).author == old(self).author,
            final(self).dependencies == old(self).dependencies,
    {
        let readme = match &self.readme {
            Some(r) => Some(join_dir(path, r)),
            None => None,
        };
        self.readme = readme;
        let icon = match &self.icon {
            Some(i) => Some(join_dir(path, i)),
            None => None,
        };
        self.icon = icon;
    }
}

} // verus!
