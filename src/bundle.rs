//! The asset bundler's memo: which source file went to which output name.
use vstd::prelude::*;
use crate::definition::{clone_opt, opt_view};

verus! {

/// The lower-case base-36 digit for `d`.
pub open spec fn base36_digit(d: nat) -> char {
    seq![
        '0', '1', '2', '3', '4', '5', '6', '7', '8', '9', 'a', 'b', 'c', 'd', 'e', 'f', 'g', 'h',
        'i', 'j', 'k', 'l', 'm', 'n', 'o', 'p', 'q', 'r', 's', 't', 'u', 'v', 'w', 'x', 'y', 'z',
    ][d as int]
}

/// `n` written in base 36, most significant digit first, in lower case.
pub open spec fn base36(n: nat) -> Seq<char>
    decreases n,
{
    if n < 36 {
        seq![base36_digit(n)]
    } else {
        base36(n / 36).push(base36_digit(n % 36))
    }
}

/// Relies on radix_fmt::radix_36, whose Display writes the lower-case base-36
/// digits of `n`, most significant first.
#[verifier::external_body]
fn radix_36(n: usize) -> (r: String)
    ensures
        r@ == base36(n as nat),
{
    format!("{}", radix_fmt::radix_36(n))
}

/// The extension that `Path::extension` finds in a path, if any.
pub uninterp spec fn path_extension(p: Seq<char>) -> Option<Seq<char>>;

/// Relies on std::path::Path::extension: the part of the file name after its last
/// dot; none where there is no file name, no dot in it, or only a leading one.
#[verifier::external_body]
fn extension(p: &String) -> (r: Option<String>)
    ensures
        opt_view(r) == path_extension(p@),
{
    std::path::Path::new(p).extension().map(|e| e.to_string_lossy().into_owned())
}

/// The extension kept on a bundled copy: the source's own, else `jpg`.
pub open spec fn kept_extension(path: Seq<char>) -> Seq<char> {
    match path_extension(path) {
        Some(e) => e,
        None => "jpg"@,
    }
}

/// The name given to the `n`-th new source: its number in base 36, a dot, the extension.
pub open spec fn output_name(n: nat, path: Seq<char>) -> Seq<char> {
    base36(n) + "."@ + kept_extension(path)
}

/// Memo entries: (canonical source path, output path).
pub type Entries = Seq<(Seq<char>, Seq<char>)>;

pub open spec fn has_source(entries: Entries, src: Seq<char>) -> bool {
    exists|i: int| 0 <= i < entries.len() && entries[i].0 == src
}

pub open spec fn source_index(entries: Entries, src: Seq<char>) -> int {
    choose|i: int| 0 <= i < entries.len() && entries[i].0 == src
}

/// Each source is recorded at most once.
pub open spec fn sources_unique(entries: Entries) -> bool {
    forall|i: int, j: int|
        0 <= i < j < entries.len() ==> entries[i].0 != entries[j].0
}

/// What bundling `path`, which resolved to `canonical` (`None`: it did not),
/// returns and leaves in the memo. The result is the output path and whether the
/// file is to be copied; `None` is a failure: a missing source, or a memo
/// whose counter cannot name another file.
pub open spec fn bundle_spec(entries: Entries, path: Seq<char>, canonical: Option<Seq<char>>) -> (
    Option<(Seq<char>, bool)>,
    Entries,
) {
    match canonical {
        None => (None, entries),
        Some(c) => if has_source(entries, c) {
            (Some((entries[source_index(entries, c)].1, false)), entries)
        } else if entries.len() + 1 >= usize::MAX {
            (None, entries)
        } else {
            let out = output_name(entries.len() as nat, path);
            (Some((out, true)), entries.push((c, out)))
        },
    }
}

/// `o` is a name given to the `n`-th new source: `n` in base 36, then a dot.
pub open spec fn numbered_name(o: Seq<char>, n: nat) -> bool {
    &&& o.len() > base36(n).len()
    &&& o.subrange(0, base36(n).len() as int) == base36(n)
    &&& o[base36(n).len() as int] == '.'
}

/// The `i`-th entry's output is a name given to the `i`-th new source.
pub open spec fn outputs_numbered(entries: Entries) -> bool {
    forall|i: int| 0 <= i < entries.len() ==> numbered_name(#[trigger] entries[i].1, i as nat)
}

/// Every output name is a name for its own position.
pub proof fn lemma_output_name_numbered(n: nat, p: Seq<char>)
    ensures
        numbered_name(output_name(n, p), n),
{
    reveal_strlit(".");
    let o = output_name(n, p);
    assert(o == base36(n) + seq!['.'] + kept_extension(p));
    assert(o.subrange(0, base36(n).len() as int) =~= base36(n));
}

/// Adding the entry named for the next position keeps the outputs numbered.
pub proof fn lemma_numbered_push(entries: Entries, e: (Seq<char>, Seq<char>), p: Seq<char>)
    requires
        outputs_numbered(entries),
        e.1 == output_name(entries.len() as nat, p),
    ensures
        outputs_numbered(entries.push(e)),
{
    lemma_output_name_numbered(entries.len() as nat, p);
    let after = entries.push(e);
    assert forall|k: int| 0 <= k < after.len() implies numbered_name(
        #[trigger] after[k].1,
        k as nat,
    ) by {
        if k < entries.len() {
            assert(after[k] == entries[k]);
        }
    }
}

/// No two entries share an output path.
pub open spec fn outputs_distinct(entries: Entries) -> bool {
    forall|i: int, j: int|
        0 <= i < j < entries.len() ==> entries[i].1 != entries[j].1
}

/// A bundling error.
#[derive(Debug, Clone)]
pub enum BundleError {
    /// The referenced file does not exist under the source root.
    MissingSourceFile(String),
    /// The memo's counter cannot name another file.
    Full,
}

/// The outcome of bundling one file.
#[derive(Debug, Clone)]
pub struct Bundled {
    /// The output path, relative to the asset directory.
    pub path: String,
    /// The file to copy there, on the first bundling of its source only.
    pub copy_from: Option<String>,
}

pub open spec fn bundled_view(r: Result<Bundled, BundleError>) -> Option<(Seq<char>, bool)> {
    match r {
        Ok(b) => Some((b.path@, b.copy_from is Some)),
        Err(_) => None,
    }
}

/// A memo of bundled sources and the counter that names new ones.
pub struct BundleCache {
    entries: Vec<(String, String)>,
    count: usize,
}

impl View for BundleCache {
    type V = Entries;

    closed spec fn view(&self) -> Entries {
        self.entries@.map_values(|e: (String, String)| (e.0@, e.1@))
    }
}

impl BundleCache {
    /// The counter agrees with the number of entries.
    pub closed spec fn counted(&self) -> bool {
        self.count == self.entries@.len()
    }

    pub open spec fn wf(&self) -> bool {
        &&& self.counted()
        &&& sources_unique(self@)
        &&& outputs_numbered(self@)
    }

    pub fn new() -> (r: BundleCache)
        ensures
            r.wf(),
            r@ == Seq::<(Seq<char>, Seq<char>)>::empty(),
    {
        let r = BundleCache { entries: Vec::new(), count: 0 };
        assert(r@ =~= Seq::<(Seq<char>, Seq<char>)>::empty());
        r
    }

    /// How many sources have been bundled.
    pub fn len(&self) -> (r: usize)
        requires
            self.wf(),
        ensures
            r == self@.len(),
    {
        self.count
    }

    /// Forgets every source and restarts the counter.
    pub fn clear(&mut self)
        ensures
            final(self).wf(),
            final(self)@ == Seq::<(Seq<char>, Seq<char>)>::empty(),
    {
        self.entries = Vec::new();
        self.count = 0;
        assert(self@ =~= Seq::<(Seq<char>, Seq<char>)>::empty());
    }
}

/// Empties the memo and resets the counter, between two independent builds.
pub fn clear_bundle_cache(cache: &mut BundleCache)
    ensures
        final(cache).wf(),
        final(cache)@ == Seq::<(Seq<char>, Seq<char>)>::empty(),
{
    cache.clear();
}

/// Bundles the file named `path` (relative to the source root), which resolved to
/// the absolute `canonical` path, or to nothing when it does not exist. A source
/// seen before gets its earlier output path and nothing to copy; a new one gets
/// the next name and is to be copied from `canonical`.
pub fn bundle(cache: &mut BundleCache, path: &String, canonical: Option<String>) -> (r: Result<
    Bundled,
    BundleError,
>)
    requires
        old(cache).wf(),
    ensures
        final(cache).wf(),
        bundled_view(r) == bundle_spec(old(cache)@, path@, opt_view(canonical)).0,
        final(cache)@ == bundle_spec(old(cache)@, path@, opt_view(canonical)).1,
        r matches Ok(b) ==> (b.copy_from is Some ==> opt_view(b.copy_from) == opt_view(canonical)),
        r matches Err(BundleError::MissingSourceFile(p)) ==> p@ == path@,
        r matches Err(BundleError::MissingSourceFile(_)) <==> canonical is None,
{
    let c = match &canonical {
        Some(c) => c.clone(),
        None => {
            return Err(BundleError::MissingSourceFile(path.clone()));
        },
    };
    let n = cache.entries.len();
    let mut i: usize = 0;
    while i < n
        invariant
            n == cache.entries@.len(),
            cache.wf(),
            cache@ == old(cache)@,
            0 <= i <= n,
            forall|j: int| 0 <= j < i ==> cache@[j].0 != c@,
            opt_view(canonical) == Some(c@),
        decreases n - i,
    {
        assert(cache@[i as int] == (cache.entries@[i as int].0@, cache.entries@[i as int].1@));
        if cache.entries[i].0 == c {
            assert(cache@[i as int].0 == c@);
            assert(has_source(cache@, c@));
            assert(source_index(cache@, c@) == i) by {
                let k = source_index(cache@, c@);
                if k != i {
                    if k < i {
                        assert(cache@[k].0 != cache@[i as int].0);
                    } else {
                        assert(cache@[i as int].0 != cache@[k].0);
                    }
                }
            }
            let out = cache.entries[i].1.clone();
            assert(out@ == cache@[i as int].1);
            return Ok(Bundled { path: out, copy_from: None });
        }
        i = i + 1;
    }
    if cache.count >= usize::MAX - 1 {
        return Err(BundleError::Full);
    }
    let digits = radix_36(cache.count);
    let ext = match extension(path) {
        Some(e) => e,
        None => String::from_str("jpg"),
    };
    let mut name = digits;
    name.append(".");
    name.append(ext.as_str());
    let ghost old_view = cache@;
    cache.entries.push((c.clone(), name.clone()));
    cache.count = cache.count + 1;
    assert(cache@ =~= old_view.push((c@, name@)));
    assert(cache@[old_view.len() as int].1 == output_name(old_view.len() as nat, path@));
    proof {
        lemma_numbered_push(old_view, (c@, name@), path@);
    }
    Ok(Bundled { path: name, copy_from: Some(c) })
}

/// An asset to bundle: its path relative to the source root, and the absolute
/// path it resolved to, if it exists.
pub type Request = (Seq<char>, Option<Seq<char>>);

/// The outcome of a batch: each requested path with its output path, and each
/// (source, output path) to copy.
pub type Outcome = (Seq<(Seq<char>, Seq<char>)>, Seq<(Seq<char>, Seq<char>)>);

pub open spec fn request_views(reqs: Seq<(String, Option<String>)>) -> Seq<Request> {
    reqs.map_values(|q: (String, Option<String>)| (q.0@, opt_view(q.1)))
}

pub open spec fn pair_views(s: Seq<(String, String)>) -> Seq<(Seq<char>, Seq<char>)> {
    s.map_values(|e: (String, String)| (e.0@, e.1@))
}

/// Bundling the requests in order; the first failure ends the batch.
pub open spec fn bundle_all_spec(entries: Entries, reqs: Seq<Request>) -> (Option<Outcome>, Entries)
    decreases reqs.len(),
{
    if reqs.len() == 0 {
        (Some((Seq::empty(), Seq::empty())), entries)
    } else {
        let (prev, e) = bundle_all_spec(entries, reqs.drop_last());
        match prev {
            None => (None, e),
            Some((m, c)) => {
                let q = reqs.last();
                let (r, e2) = bundle_spec(e, q.0, q.1);
                match r {
                    None => (None, e2),
                    Some((out, copied)) => (
                        Some(
                            (
                                m.push((q.0, out)),
                                if copied {
                                    c.push((q.1.unwrap(), out))
                                } else {
                                    c
                                },
                            ),
                        ),
                        e2,
                    ),
                }
            },
        }
    }
}

/// Once a batch has failed, later requests change nothing.
pub proof fn lemma_failure_sticks(entries: Entries, reqs: Seq<Request>, i: int)
    requires
        0 <= i <= reqs.len(),
        bundle_all_spec(entries, reqs.subrange(0, i)).0 is None,
    ensures
        bundle_all_spec(entries, reqs) == bundle_all_spec(entries, reqs.subrange(0, i)),
    decreases reqs.len() - i,
{
    if i < reqs.len() {
        assert(reqs.subrange(0, i + 1).drop_last() =~= reqs.subrange(0, i));
        lemma_failure_sticks(entries, reqs, i + 1);
    } else {
        assert(reqs.subrange(0, i) =~= reqs);
    }
}

/// Bundles every request in order: the output path of each, and the files to copy.
/// Fails with the first request that fails.
pub fn bundle_all(cache: &mut BundleCache, reqs: &Vec<(String, Option<String>)>) -> (r: Result<
    (Vec<(String, String)>, Vec<(String, String)>),
    BundleError,
>)
    requires
        old(cache).wf(),
    ensures
        final(cache).wf(),
        final(cache)@ == bundle_all_spec(old(cache)@, request_views(reqs@)).1,
        match r {
            Ok((m, c)) => bundle_all_spec(old(cache)@, request_views(reqs@)).0 == Some(
                (pair_views(m@), pair_views(c@)),
            ),
            Err(_) => bundle_all_spec(old(cache)@, request_views(reqs@)).0 is None,
        },
{
    let ghost rv = request_views(reqs@);
    let mut m: Vec<(String, String)> = Vec::new();
    let mut c: Vec<(String, String)> = Vec::new();
    let n = reqs.len();
    let mut i: usize = 0;
    assert(rv.subrange(0, 0) =~= Seq::<Request>::empty());
    assert(pair_views(m@) =~= Seq::<(Seq<char>, Seq<char>)>::empty());
    assert(pair_views(c@) =~= Seq::<(Seq<char>, Seq<char>)>::empty());
    while i < n
        invariant
            0 <= i <= n,
            n == reqs@.len(),
            rv == request_views(reqs@),
            cache.wf(),
            bundle_all_spec(old(cache)@, rv.subrange(0, i as int)) == (
                Some((pair_views(m@), pair_views(c@))),
                cache@,
            ),
        decreases n - i,
    {
        let q = &reqs[i];
        let ghost before = cache@;
        let ghost mv = pair_views(m@);
        let ghost cv = pair_views(c@);
        assert(rv.subrange(0, i + 1).drop_last() =~= rv.subrange(0, i as int));
        assert(rv.subrange(0, i + 1).last() == rv[i as int]);
        let res = bundle(cache, &q.0, clone_opt(&q.1));
        match res {
            Ok(b) => {
                m.push((q.0.clone(), b.path.clone()));
                assert(pair_views(m@) =~= mv.push((q.0@, b.path@)));
                match b.copy_from {
                    Some(src) => {
                        c.push((src, b.path));
                        assert(pair_views(c@) =~= cv.push((rv[i as int].1.unwrap(), b.path@)));
                    },
                    None => {},
                }
            },
            Err(e) => {
                proof {
                    lemma_failure_sticks(old(cache)@, rv, i + 1);
                }
                return Err(e);
            },
        }
        i = i + 1;
    }
    assert(rv.subrange(0, n as int) =~= rv);
    Ok((m, c))
}

/// Distinct digits are distinct characters, and none of them is a dot.
pub proof fn lemma_base36_digit(d1: nat, d2: nat)
    requires
        d1 < 36,
        d2 < 36,
    ensures
        base36_digit(d1) == base36_digit(d2) ==> d1 == d2,
        base36_digit(d1) != '.',
{
}

/// The base-36 form of a number has at least one digit, no dot, and two digits or
/// more from 36 on.
pub proof fn lemma_base36_shape(n: nat)
    ensures
        base36(n).len() >= 1,
        n < 36 ==> base36(n).len() == 1,
        n >= 36 ==> base36(n).len() >= 2,
        forall|i: int| 0 <= i < base36(n).len() ==> base36(n)[i] != '.',
    decreases n,
{
    if n < 36 {
        lemma_base36_digit(n, n);
    } else {
        lemma_base36_shape(n / 36);
        lemma_base36_digit(n % 36, n % 36);
        assert forall|i: int| 0 <= i < base36(n).len() implies base36(n)[i] != '.' by {
            if i < base36(n / 36).len() {
                assert(base36(n)[i] == base36(n / 36)[i]);
            }
        }
    }
}

/// Different numbers have different base-36 forms.
pub proof fn lemma_base36_injective(n: nat, m: nat)
    requires
        base36(n) == base36(m),
    ensures
        n == m,
    decreases n,
{
    lemma_base36_shape(n);
    lemma_base36_shape(m);
    if n < 36 && m < 36 {
        assert(base36(n)[0] == base36_digit(n));
        assert(base36(m)[0] == base36_digit(m));
        lemma_base36_digit(n, m);
        assert(n == m);
    } else if n >= 36 && m >= 36 {
        assert(base36(n) == base36(n / 36).push(base36_digit(n % 36)));
        assert(base36(m) == base36(m / 36).push(base36_digit(m % 36)));
        assert(base36(n).last() == base36(m).last());
        let a: nat = n % 36;
        let b: nat = m % 36;
        assert(base36(n).last() == base36_digit(a));
        assert(base36(m).last() == base36_digit(b));
        lemma_base36_digit(a, b);
        assert(base36(n).drop_last() =~= base36(n / 36));
        assert(base36(m).drop_last() =~= base36(m / 36));
        lemma_base36_injective(n / 36, m / 36);
        assert(n % 36 == m % 36);
        assert(n / 36 == m / 36);
        assert(n == 36 * (n / 36) + n % 36) by (nonlinear_arith);
        assert(m == 36 * (m / 36) + m % 36) by (nonlinear_arith);
        assert(n == m);
    } else {
        assert(base36(n).len() != base36(m).len());
    }
}

/// A name given to one position is given to no other.
pub proof fn lemma_numbered_name_injective(o: Seq<char>, n1: nat, n2: nat)
    requires
        numbered_name(o, n1),
        numbered_name(o, n2),
    ensures
        n1 == n2,
{
    let a = base36(n1);
    let b = base36(n2);
    lemma_base36_shape(n1);
    lemma_base36_shape(n2);
    if a.len() < b.len() {
        assert(o.subrange(0, b.len() as int)[a.len() as int] == o[a.len() as int]);
    } else if b.len() < a.len() {
        assert(o.subrange(0, a.len() as int)[b.len() as int] == o[b.len() as int]);
    } else {
        lemma_base36_injective(n1, n2);
    }
}

/// In a well-formed memo no two sources share an output path: two different
/// sources are never bundled into one file.
pub proof fn lemma_outputs_distinct(entries: Entries)
    requires
        outputs_numbered(entries),
    ensures
        outputs_distinct(entries),
{
    assert forall|i: int, j: int| 0 <= i < j < entries.len() implies entries[i].1
        != entries[j].1 by {
        if entries[i].1 == entries[j].1 {
            lemma_numbered_name_injective(entries[i].1, i as nat, j as nat);
        }
    }
}

/// A well-formed memo records each source once and gives no two sources the same
/// output path.
pub proof fn lemma_cache_distinct(cache: &BundleCache)
    requires
        cache.wf(),
    ensures
        sources_unique(cache@),
        outputs_distinct(cache@),
{
    lemma_outputs_distinct(cache@);
}

/// Bundling one source twice, under any two relative names, gives the same output
/// path both times, and only the first asks for a copy: the memo then holds the
/// source once.
pub proof fn lemma_bundle_twice(entries: Entries, path1: Seq<char>, path2: Seq<char>, c: Seq<char>)
    requires
        sources_unique(entries),
        entries.len() + 1 < usize::MAX,
    ensures
        ({
            let (r1, e1) = bundle_spec(entries, path1, Some(c));
            let (r2, e2) = bundle_spec(e1, path2, Some(c));
            &&& r1 is Some
            &&& r2 is Some
            &&& r1.unwrap().0 == r2.unwrap().0
            &&& !r2.unwrap().1
            &&& e2 == e1
            &&& has_source(e2, c)
            &&& forall|i: int, j: int|
                0 <= i < e2.len() && 0 <= j < e2.len() && e2[i].0 == c && e2[j].0 == c ==> i == j
        }),
{
    let (r1, e1) = bundle_spec(entries, path1, Some(c));
    if has_source(entries, c) {
        let k = source_index(entries, c);
        assert(has_source(e1, c));
    } else {
        let n = entries.len() as int;
        assert(e1[n].0 == c);
        assert(has_source(e1, c));
        let k = source_index(e1, c);
        assert(k == n) by {
            if k != n {
                assert(entries[k].0 == c);
            }
        }
    }
}

} // verus!
