//! The rule aggregator: one rule per definition identity, selectors accumulated.
use vstd::prelude::*;
use crate::definition::DefinitionProperties;
use crate::resolve::{rebundle_def, rebundled};
use crate::path::views;
use crate::style_rule::{rule_css, StyleRule};

verus! {

/// A rule as selectors and definition.
pub type RuleView = (Seq<Seq<char>>, DefinitionProperties);

pub open spec fn rule_view(r: StyleRule) -> RuleView {
    (r.selectors_view(), r.definition)
}

pub open spec fn has_identity(rules: Seq<RuleView>, d: DefinitionProperties) -> bool {
    exists|i: int| 0 <= i < rules.len() && rules[i].1.identity() == d.identity()
}

pub open spec fn identity_index(rules: Seq<RuleView>, d: DefinitionProperties) -> int {
    choose|i: int| 0 <= i < rules.len() && rules[i].1.identity() == d.identity()
}

/// No two rules render identity-equal definitions.
pub open spec fn identities_unique(rules: Seq<RuleView>) -> bool {
    forall|i: int, j: int|
        0 <= i < rules.len() && 0 <= j < rules.len() && rules[i].1.identity()
            == rules[j].1.identity() ==> i == j
}

/// The rules after inserting `v`: its selectors join the rule of an identity-equal
/// definition, or it becomes a new rule at the end.
pub open spec fn inserted(rules: Seq<RuleView>, v: RuleView) -> Seq<RuleView> {
    if has_identity(rules, v.1) {
        let i = identity_index(rules, v.1);
        rules.update(i, (rules[i].0 + v.0, rules[i].1))
    } else {
        rules.push(v)
    }
}

/// The rules' blocks, one after another.
pub open spec fn sheet_css(rules: Seq<RuleView>) -> Seq<char>
    decreases rules.len(),
{
    if rules.len() == 0 {
        Seq::empty()
    } else {
        sheet_css(rules.drop_last()) + rule_css(rules.last().0, rules.last().1)
    }
}

/// The style rules of one icon theme, with the directories its assets come from
/// and go to.
#[derive(Debug)]
pub struct StyleSheet {
    rules: Vec<StyleRule>,
    src: String,
    dest: String,
}

impl View for StyleSheet {
    type V = Seq<RuleView>;

    closed spec fn view(&self) -> Seq<RuleView> {
        self.rules@.map_values(|r: StyleRule| rule_view(r))
    }
}

impl StyleSheet {
    pub open spec fn wf(&self) -> bool {
        identities_unique(self@)
    }

    pub closed spec fn src_view(&self) -> Seq<char> {
        self.src@
    }

    pub closed spec fn dest_view(&self) -> Seq<char> {
        self.dest@
    }

    /// An empty sheet.
    pub fn new(src: String, dest: String) -> (r: StyleSheet)
        ensures
            r.wf(),
            r@ == Seq::<RuleView>::empty(),
            r.src_view() == src@,
            r.dest_view() == dest@,
    {
        let r = StyleSheet { rules: Vec::new(), src, dest };
        assert(r@ =~= Seq::<RuleView>::empty());
        r
    }

    /// The directory that asset paths are relative to.
    pub fn src(&self) -> (r: &String)
        ensures
            r@ == self.src_view(),
    {
        &self.src
    }

    /// The directory that bundled assets go to.
    pub fn dest(&self) -> (r: &String)
        ensures
            r@ == self.dest_view(),
    {
        &self.dest
    }

    /// The number of rules.
    pub fn len(&self) -> (r: usize)
        ensures
            r == self@.len(),
    {
        self.rules.len()
    }

    /// The `i`-th rule.
    pub fn rule(&self, i: usize) -> (r: &StyleRule)
        requires
            i < self@.len(),
        ensures
            rule_view(*r) == self@[i as int],
    {
        &self.rules[i]
    }

    /// Adds `v`'s selectors to the rule of an identity-equal definition, or adds
    /// `v` as a new rule.
    pub fn insert(&mut self, v: StyleRule)
        requires
            old(self).wf(),
        ensures
            final(self).wf(),
            final(self)@ == inserted(old(self)@, rule_view(v)),
            final(self).src_view() == old(self).src_view(),
            final(self).dest_view() == old(self).dest_view(),
    {
        let n = self.rules.len();
        let mut i: usize = 0;
        while i < n
            invariant
                0 <= i <= n,
                n == self@.len(),
                *self == *old(self),
                self.wf(),
                forall|j: int| 0 <= j < i ==> self@[j].1.identity() != v.definition.identity(),
            decreases n - i,
        {
            assert(self@[i as int] == rule_view(self.rules@[i as int]));
            if self.rules[i].definition.same_identity(&v.definition) {
                let ghost before = self@;
                let ghost before_rules = self.rules@;
                assert(has_identity(before, v.definition));
                assert(identity_index(before, v.definition) == i) by {
                    let k = identity_index(before, v.definition);
                    assert(before[k].1.identity() == before[i as int].1.identity());
                }
                let mut rule = self.rules.remove(i);
                let ghost old_sel = rule.selectors@;
                let mut extra = v.selectors;
                rule.selectors.append(&mut extra);
                assert(rule.selectors@ == old_sel + v.selectors@);
                assert(views(rule.selectors@) =~= views(old_sel) + views(v.selectors@));
                self.rules.insert(i, rule);
                assert(self.rules@ =~= before_rules.update(i as int, rule));
                assert(self@ =~= inserted(before, rule_view(v)));
                assert(self@[i as int].0 =~= before[i as int].0 + v.selectors_view());
                assert(self.wf()) by {
                    assert forall|a: int, b: int|
                        0 <= a < self@.len() && 0 <= b < self@.len() && self@[a].1.identity()
                            == self@[b].1.identity() implies a == b by {
                        assert(self@[a].1 == before[a].1);
                        assert(self@[b].1 == before[b].1);
                    }
                }
                return;
            }
            i = i + 1;
        }
        let ghost before = self@;
        self.rules.push(v);
        assert(self@ =~= before.push(rule_view(v)));
    }

    /// Every rule's block, in order, as CSS text.
    pub fn to_css(&self) -> (r: String)
        ensures
            r@ == sheet_css(self@),
    {
        let mut out = String::new();
        let n = self.rules.len();
        let mut i: usize = 0;
        while i < n
            invariant
                0 <= i <= n,
                n == self@.len(),
                out@ == sheet_css(self@.subrange(0, i as int)),
            decreases n - i,
        {
            let css = self.rules[i].to_css();
            out.append(css.as_str());
            assert(self@.subrange(0, i + 1).drop_last() =~= self@.subrange(0, i as int));
            i = i + 1;
        }
        assert(self@.subrange(0, n as int) =~= self@);
        out
    }

    /// Replaces each rule's image path by its bundled output path, where `bundled`
    /// maps it.
    pub fn resolve_urls(&mut self, bundled: &Vec<(String, String)>)
        ensures
            final(self)@.len() == old(self)@.len(),
            forall|i: int|
                0 <= i < old(self)@.len() ==> (#[trigger] final(self)@[i]).0 == old(self)@[i].0 && rebundled(
                    old(self)@[i].1,
                    final(self)@[i].1,
                    bundled@,
                ),
            final(self).src_view() == old(self).src_view(),
            final(self).dest_view() == old(self).dest_view(),
    {
        let n = self.rules.len();
        let mut i: usize = 0;
        while i < n
            invariant
                0 <= i <= n,
                n == self@.len(),
                n == old(self)@.len(),
                self.src == old(self).src,
                self.dest == old(self).dest,
                forall|j: int| 0 <= j < n ==> #[trigger] self@[j].0 == old(self)@[j].0,
                forall|j: int| 0 <= j < i ==> rebundled(old(self)@[j].1, #[trigger] self@[j].1, bundled@),
                forall|j: int| i <= j < n ==> #[trigger] self@[j] == old(self)@[j],
            decreases n - i,
        {
            let ghost before_rules = self.rules@;
            let ghost before = self@;
            let mut rule = self.rules.remove(i);
            rebundle_def(&mut rule.definition, bundled);
            let ghost r = rule;
            self.rules.insert(i, rule);
            assert(self.rules@ =~= before_rules.update(i as int, r));
            assert(self@ =~= before.update(i as int, rule_view(r)));
            assert(before[i as int] == old(self)@[i as int]);
            i = i + 1;
        }
    }
}

/// Two identity-equal definitions never stand in two rules of a well-formed sheet:
/// the one rule that renders them carries every selector inserted for either.
pub proof fn lemma_identical_definitions_share_rule(
    rules: Seq<RuleView>,
    s1: Seq<Seq<char>>,
    d1: DefinitionProperties,
    s2: Seq<Seq<char>>,
    d2: DefinitionProperties,
)
    requires
        identities_unique(rules),
        d1.identity() == d2.identity(),
    ensures
        ({
            let after = inserted(inserted(rules, (s1, d1)), (s2, d2));
            &&& identities_unique(after)
            &&& has_identity(after, d1)
            &&& {
                let k = identity_index(after, d1);
                &&& after[k].0.subrange(after[k].0.len() - s1.len() - s2.len(), after[k].0.len() as int)
                    == s1 + s2
            }
        }),
{
    lemma_inserted(rules, (s1, d1));
    let mid = inserted(rules, (s1, d1));
    lemma_inserted(mid, (s2, d2));
    let after = inserted(mid, (s2, d2));
    let k = identity_index(mid, d1);
    assert(identity_index(mid, d2) == k);
    assert(identity_index(after, d1) == k);
    let a = after[k].0;
    assert(a == mid[k].0 + s2);
    assert(mid[k].0.subrange(mid[k].0.len() - s1.len(), mid[k].0.len() as int) == s1);
    assert(a.subrange(a.len() - s1.len() - s2.len(), a.len() as int) =~= s1 + s2);
}

/// Insertion keeps identities unique, and afterwards the inserted definition's rule
/// ends with the inserted selectors.
pub proof fn lemma_inserted(rules: Seq<RuleView>, v: RuleView)
    requires
        identities_unique(rules),
    ensures
        identities_unique(inserted(rules, v)),
        has_identity(inserted(rules, v), v.1),
        ({
            let after = inserted(rules, v);
            let k = identity_index(after, v.1);
            &&& after.len() >= rules.len()
            &&& after[k].0.len() >= v.0.len()
            &&& after[k].0.subrange(after[k].0.len() - v.0.len(), after[k].0.len() as int) == v.0
            &&& forall|j: int| 0 <= j < after.len() && j != k ==> after[j] == rules[j]
            &&& forall|j: int| 0 <= j < after.len() ==> after[j].1 == if j < rules.len() {
                rules[j].1
            } else {
                v.1
            }
        }),
{
    let after = inserted(rules, v);
    if has_identity(rules, v.1) {
        let i = identity_index(rules, v.1);
        assert(after[i].1.identity() == v.1.identity());
        assert(has_identity(after, v.1));
        assert(identity_index(after, v.1) == i);
        assert(after[i].0.subrange(after[i].0.len() - v.0.len(), after[i].0.len() as int) =~= v.0);
    } else {
        let n = rules.len() as int;
        assert(after[n].1.identity() == v.1.identity());
        assert(has_identity(after, v.1));
        assert(identity_index(after, v.1) == n) by {
            let k = identity_index(after, v.1);
            if k != n {
                assert(rules[k].1.identity() == v.1.identity());
            }
        }
        assert(after[n].0.subrange(0, v.0.len() as int) =~= v.0);
    }
}

} // verus!
