//! Marking definitions as referenced, and feeding their rules to the style sheet.
use vstd::prelude::*;
use crate::bundle::pair_views;
use crate::definition::{copy_definition, DefinitionProperties};
use crate::style_rule::StyleRule;
use crate::style_sheet::{inserted, RuleView, StyleSheet};
use crate::table::{first_index, keys, lemma_first_index, position};

verus! {

/// The definition, marked as referenced.
pub open spec fn marked(d: DefinitionProperties) -> DefinitionProperties {
    DefinitionProperties { is_bundled: true, ..d }
}

/// The registry with the definition named `name`, if any, marked.
pub open spec fn mark_one(defs: Seq<(String, DefinitionProperties)>, name: Seq<char>) -> Seq<
    (String, DefinitionProperties),
> {
    match first_index(keys(defs), name) {
        Some(i) => defs.update(i, (defs[i].0, marked(defs[i].1))),
        None => defs,
    }
}

/// The registry with every definition named in `names` marked.
pub open spec fn mark_all(defs: Seq<(String, DefinitionProperties)>, names: Seq<Seq<char>>) -> Seq<
    (String, DefinitionProperties),
>
    decreases names.len(),
{
    if names.len() == 0 {
        defs
    } else {
        mark_one(mark_all(defs, names.drop_last()), names.last())
    }
}

/// The rules after each (selector, definition name) pair whose name is defined
/// adds its selector for that definition, marked.
pub open spec fn applied(
    rules: Seq<RuleView>,
    defs: Seq<(String, DefinitionProperties)>,
    ems: Seq<(Seq<char>, Seq<char>)>,
) -> Seq<RuleView>
    decreases ems.len(),
{
    if ems.len() == 0 {
        rules
    } else {
        let prev = applied(rules, defs, ems.drop_last());
        match first_index(keys(defs), ems.last().1) {
            Some(i) => inserted(prev, (seq![ems.last().0], marked(defs[i].1))),
            None => prev,
        }
    }
}

/// Marking keeps the names, and every field but the mark.
pub proof fn lemma_mark_all_keeps(defs: Seq<(String, DefinitionProperties)>, names: Seq<Seq<char>>)
    ensures
        mark_all(defs, names).len() == defs.len(),
        forall|i: int|
            0 <= i < defs.len() ==> #[trigger] mark_all(defs, names)[i].0 == defs[i].0 && marked(
                mark_all(defs, names)[i].1,
            ) == marked(defs[i].1),
    decreases names.len(),
{
    if names.len() > 0 {
        lemma_mark_all_keeps(defs, names.drop_last());
        let prev = mark_all(defs, names.drop_last());
        lemma_first_index(keys(prev), names.last());
    }
}

/// Marks the definition named `name`, if any; returns its index.
pub fn mark(defs: &mut Vec<(String, DefinitionProperties)>, name: &String) -> (r: Option<usize>)
    ensures
        final(defs)@ == mark_one(old(defs)@, name@),
        r matches Some(i) ==> first_index(keys(old(defs)@), name@) == Some(i as int),
        r is None ==> first_index(keys(old(defs)@), name@) is None,
{
    let found = position(defs, name);
    proof {
        lemma_first_index(keys(defs@), name@);
    }
    match found {
        Some(i) => {
            let ghost before = defs@;
            let (k, mut d) = defs.remove(i);
            d.is_bundled = true;
            defs.insert(i, (k, d));
            assert(defs@ =~= mark_one(before, name@));
            Some(i)
        },
        None => None,
    }
}

/// The second parts of a table's entries.
pub open spec fn seconds(s: Seq<(Seq<char>, Seq<char>)>) -> Seq<Seq<char>> {
    s.map_values(|e: (Seq<char>, Seq<char>)| e.1)
}

/// For each (selector, definition name) pair, in order: marks the definition and
/// adds the selector for it to the sheet, where the name is defined.
pub fn apply_emissions(
    defs: &mut Vec<(String, DefinitionProperties)>,
    sheet: &mut StyleSheet,
    ems: &Vec<(String, String)>,
)
    requires
        old(sheet).wf(),
    ensures
        final(sheet).wf(),
        final(sheet)@ == applied(old(sheet)@, old(defs)@, pair_views(ems@)),
        final(defs)@ == mark_all(old(defs)@, seconds(pair_views(ems@))),
        final(sheet).src_view() == old(sheet).src_view(),
        final(sheet).dest_view() == old(sheet).dest_view(),
{
    let ghost ev = pair_views(ems@);
    let ghost orig = defs@;
    let n = ems.len();
    let mut i: usize = 0;
    while i < n
        invariant
            0 <= i <= n,
            n == ems@.len(),
            ev == pair_views(ems@),
            orig == old(defs)@,
            sheet.wf(),
            sheet@ == applied(old(sheet)@, orig, ev.subrange(0, i as int)),
            defs@ == mark_all(orig, seconds(ev.subrange(0, i as int))),
            sheet.src_view() == old(sheet).src_view(),
            sheet.dest_view() == old(sheet).dest_view(),
        decreases n - i,
    {
        let ghost pre = ev.subrange(0, i as int);
        assert(ev.subrange(0, i + 1).drop_last() =~= pre);
        assert(seconds(ev.subrange(0, i + 1)).drop_last() =~= seconds(pre));
        assert(seconds(ev.subrange(0, i + 1)).last() == ems@[i as int].1@);
        proof {
            lemma_mark_all_keeps(orig, seconds(pre));
            assert(keys(defs@) =~= keys(orig));
        }
        let ghost before = defs@;
        let found = mark(defs, &ems[i].1);
        match found {
            Some(j) => {
                proof {
                    lemma_first_index(keys(before), ems@[i as int].1@);
                    lemma_first_index(keys(orig), ems@[i as int].1@);
                }
                let d = copy_definition(&defs[j].1);
                assert(marked(orig[j as int].1) == d);
                sheet.insert(StyleRule::new(ems[i].0.as_str(), d));
            },
            None => {},
        }
        i = i + 1;
    }
    assert(ev.subrange(0, n as int) =~= ev);
}

/// Marks every definition that an entry of the table names.
pub fn mark_table(defs: &mut Vec<(String, DefinitionProperties)>, table: &Vec<(String, String)>)
    ensures
        final(defs)@ == mark_all(old(defs)@, seconds(pair_views(table@))),
{
    let ghost names = seconds(pair_views(table@));
    let n = table.len();
    let mut i: usize = 0;
    while i < n
        invariant
            0 <= i <= n,
            n == table@.len(),
            names == seconds(pair_views(table@)),
            defs@ == mark_all(old(defs)@, names.subrange(0, i as int)),
        decreases n - i,
    {
        assert(names.subrange(0, i + 1).drop_last() =~= names.subrange(0, i as int));
        mark(defs, &table[i].1);
        i = i + 1;
    }
    assert(names.subrange(0, n as int) =~= names);
}

} // verus!
