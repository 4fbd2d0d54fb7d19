//! The icon theme as read, and the compact manifest written for the runtime.
use vstd::prelude::*;
use crate::definition::{copy_definition, DefinitionProperties, FontProperties};
use crate::table::{first_index, keys, lemma_first_index, position};

verus! {

/// A table from a matched name to a definition name, kept as pairs. Names are
/// looked up by their first entry: a later entry with the same name is never
/// consulted. A table read from a JSON object holds each name once.
pub type Mapping = Option<Vec<(String, String)>>;

/// An icon theme: its definitions, its five roles, and its name tables.
#[derive(Debug, Default)]
pub struct IconThemeManifest {
    pub hides_explorer_arrows: Option<bool>,
    pub fonts: Option<Vec<FontProperties>>,
    /// The definitions by name; a name resolves to its first entry.
    pub icon_definitions: Vec<(String, DefinitionProperties)>,
    pub file: Option<String>,
    pub folder: Option<String>,
    pub folder_expanded: Option<String>,
    pub folder_names: Mapping,
    pub folder_names_expanded: Mapping,
    pub root_folder: Option<String>,
    pub root_folder_expanded: Option<String>,
    pub root_folder_names: Mapping,
    pub root_folder_names_expanded: Mapping,
    pub language_ids: Mapping,
    pub file_extensions: Mapping,
    pub file_names: Mapping,
}

/// The compacted manifest: retained definitions by id (their index), and the three
/// lookup tables from a name to an id, each present only where the theme had it.
#[derive(Debug)]
pub struct CompactManifest {
    pub definitions: Vec<DefinitionProperties>,
    pub file_extensions: Option<Vec<(String, usize)>>,
    pub file_names: Option<Vec<(String, usize)>>,
    pub language_ids: Option<Vec<(String, usize)>>,
}

/// The definitions marked as referenced, in registry order.
pub open spec fn retained(defs: Seq<(String, DefinitionProperties)>) -> Seq<
    (String, DefinitionProperties),
>
    decreases defs.len(),
{
    if defs.len() == 0 {
        Seq::empty()
    } else if defs.last().1.is_bundled {
        retained(defs.drop_last()).push(defs.last())
    } else {
        retained(defs.drop_last())
    }
}

/// The table with each definition name replaced by its id in `ids`, dropping the
/// entries whose name has no id.
pub open spec fn remapped(table: Seq<(String, String)>, ids: Seq<(String, usize)>) -> Seq<
    (Seq<char>, int),
>
    decreases table.len(),
{
    if table.len() == 0 {
        Seq::empty()
    } else {
        let prev = remapped(table.drop_last(), ids);
        match first_index(keys(ids), table.last().1@) {
            Some(j) => prev.push((table.last().0@, ids[j].1 as int)),
            None => prev,
        }
    }
}

pub open spec fn remapped_opt(t: Mapping, ids: Seq<(String, usize)>) -> Option<
    Seq<(Seq<char>, int)>,
> {
    match t {
        Some(v) => Some(remapped(v@, ids)),
        None => None,
    }
}

pub open spec fn ids_view(t: Option<Vec<(String, usize)>>) -> Option<Seq<(Seq<char>, int)>> {
    match t {
        Some(v) => Some(v@.map_values(|e: (String, usize)| (e.0@, e.1 as int))),
        None => None,
    }
}

/// Each retained name with its id, which is its position.
pub open spec fn numbered(ids: Seq<(String, usize)>, kept: Seq<(String, DefinitionProperties)>) -> bool {
    &&& ids.len() == kept.len()
    &&& forall|j: int| 0 <= j < ids.len() ==> #[trigger] ids[j].0 == kept[j].0 && ids[j].1 == j
}

/// After compaction every lookup entry points at a retained definition by its id,
/// which is that definition's position among the retained ones, and it is the
/// definition that some entry of the uncompacted table named under the same key: an
/// entry naming a definition that was not retained is gone. No entries are added.
pub proof fn lemma_remapped_points_to_retained(
    table: Seq<(String, String)>,
    ids: Seq<(String, usize)>,
    kept: Seq<(String, DefinitionProperties)>,
)
    requires
        numbered(ids, kept),
    ensures
        remapped(table, ids).len() <= table.len(),
        forall|i: int|
            0 <= i < remapped(table, ids).len() ==> {
                let e = #[trigger] remapped(table, ids)[i];
                &&& 0 <= e.1 < kept.len()
                &&& exists|t: int|
                    0 <= t < table.len() && table[t].0@ == e.0 && table[t].1@ == kept[e.1].0@
            },
    decreases table.len(),
{
    if table.len() > 0 {
        let prev = table.drop_last();
        lemma_remapped_points_to_retained(prev, ids, kept);
        lemma_first_index(keys(ids), table.last().1@);
        let r = remapped(table, ids);
        assert forall|i: int| 0 <= i < r.len() implies {
            let e = #[trigger] r[i];
            &&& 0 <= e.1 < kept.len()
            &&& exists|t: int|
                0 <= t < table.len() && table[t].0@ == e.0 && table[t].1@ == kept[e.1].0@
        } by {
            let e = r[i];
            if i < remapped(prev, ids).len() {
                assert(e == remapped(prev, ids)[i]);
                let t = choose|t: int|
                    0 <= t < prev.len() && prev[t].0@ == e.0 && prev[t].1@ == kept[e.1].0@;
                assert(table[t] == prev[t]);
            } else {
                let j = first_index(keys(ids), table.last().1@).unwrap();
                assert(ids[j].0 == kept[j].0);
                assert(keys(ids)[j] == ids[j].0@);
                assert(table[table.len() - 1] == table.last());
            }
        }
    }
}

impl IconThemeManifest {
    /// The retained definitions in order: each name with its id, and the
    /// definitions indexed by id.
    pub fn split_icon_defs(&self) -> (r: (Vec<(String, usize)>, Vec<DefinitionProperties>))
        ensures
            numbered(r.0@, retained(self.icon_definitions@)),
            r.1@ == retained(self.icon_definitions@).map_values(
                |e: (String, DefinitionProperties)| e.1,
            ),
    {
        let defs = &self.icon_definitions;
        let mut ids: Vec<(String, usize)> = Vec::new();
        let mut out: Vec<DefinitionProperties> = Vec::new();
        let n = defs.len();
        let mut i: usize = 0;
        while i < n
            invariant
                0 <= i <= n,
                n == defs@.len(),
                numbered(ids@, retained(defs@.subrange(0, i as int))),
                out@ == retained(defs@.subrange(0, i as int)).map_values(
                    |e: (String, DefinitionProperties)| e.1,
                ),
                out@.len() == ids@.len(),
            decreases n - i,
        {
            let ghost prefix = defs@.subrange(0, i + 1);
            assert(prefix.drop_last() =~= defs@.subrange(0, i as int));
            assert(prefix.last() == defs@[i as int]);
            if defs[i].1.is_bundled {
                let id = out.len();
                ids.push((defs[i].0.clone(), id));
                out.push(copy_definition(&defs[i].1));
                assert(out@ =~= retained(prefix).map_values(
                    |e: (String, DefinitionProperties)| e.1,
                ));
            }
            i = i + 1;
        }
        assert(defs@.subrange(0, n as int) =~= defs@);
        (ids, out)
    }

    /// Replaces each definition name of `from` by its id in `to`, dropping the
    /// entries whose name has none.
    pub fn map(from: &Vec<(String, String)>, to: &Vec<(String, usize)>) -> (r: Vec<(String, usize)>)
        ensures
            ids_view(Some(r)) == Some(remapped(from@, to@)),
    {
        let mut r: Vec<(String, usize)> = Vec::new();
        let n = from.len();
        let mut i: usize = 0;
        while i < n
            invariant
                0 <= i <= n,
                n == from@.len(),
                r@.map_values(|e: (String, usize)| (e.0@, e.1 as int)) == remapped(
                    from@.subrange(0, i as int),
                    to@,
                ),
            decreases n - i,
        {
            let ghost prefix = from@.subrange(0, i + 1);
            assert(prefix.drop_last() =~= from@.subrange(0, i as int));
            assert(prefix.last() == from@[i as int]);
            let ghost before = r@.map_values(|e: (String, usize)| (e.0@, e.1 as int));
            let found = position(to, &from[i].1);
            proof {
                lemma_first_index(keys(to@), from@[i as int].1@);
            }
            match found {
                Some(j) => {
                    r.push((from[i].0.clone(), to[j].1));
                    assert(r@.map_values(|e: (String, usize)| (e.0@, e.1 as int)) =~= before.push(
                        (from@[i as int].0@, to@[j as int].1 as int),
                    ));
                },
                None => {},
            }
            i = i + 1;
        }
        assert(from@.subrange(0, n as int) =~= from@);
        r
    }

    /// The compact manifest: the retained definitions numbered in order, and the
    /// three lookup tables rewritten to those numbers.
    pub fn compact(&self) -> (r: CompactManifest)
        ensures
            r.definitions@ == retained(self.icon_definitions@).map_values(
                |e: (String, DefinitionProperties)| e.1,
            ),
            forall|ids: Seq<(String, usize)>|
                numbered(ids, retained(self.icon_definitions@)) ==> {
                    &&& ids_view(r.file_extensions) == remapped_opt(self.file_extensions, ids)
                    &&& ids_view(r.file_names) == remapped_opt(self.file_names, ids)
                    &&& ids_view(r.language_ids) == remapped_opt(self.language_ids, ids)
                },
    {
        let (ids, definitions) = self.split_icon_defs();
        let file_extensions = match &self.file_extensions {
            Some(t) => Some(IconThemeManifest::map(t, &ids)),
            None => None,
        };
        let file_names = match &self.file_names {
            Some(t) => Some(IconThemeManifest::map(t, &ids)),
            None => None,
        };
        let language_ids = match &self.language_ids {
            Some(t) => Some(IconThemeManifest::map(t, &ids)),
            None => None,
        };
        proof {
            assert forall|other: Seq<(String, usize)>|
                numbered(other, retained(self.icon_definitions@)) implies other == ids@ by {
                assert forall|j: int| 0 <= j < other.len() implies other[j] == ids@[j] by {
                    assert(other[j].0 == ids@[j].0);
                    assert(other[j].1 == ids@[j].1);
                }
                assert(other =~= ids@);
            }
        }
        CompactManifest { definitions, file_extensions, file_names, language_ids }
    }
}

} // verus!
