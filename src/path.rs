//! Joining path components.
use vstd::prelude::*;

verus! {

/// What `PathBuf::push` makes of `base` when `part` is pushed onto it.
pub uninterp spec fn pushed_path(base: Seq<char>, part: Seq<char>) -> Seq<char>;

/// Relies on std::path::PathBuf::push: appends `part` to `base`, with a
/// separator where needed, or replaces `base` where `part` is absolute.
#[verifier::external_body]
fn push_path(base: &String, part: &String) -> (r: String)
    ensures
        r@ == pushed_path(base@, part@),
{
    let mut p = std::path::PathBuf::from(base);
    p.push(part);
    p.to_string_lossy().into_owned()
}

/// The views of a sequence of strings.
pub open spec fn views(s: Seq<String>) -> Seq<Seq<char>> {
    s.map_values(|x: String| x@)
}

/// The path made by pushing each part in turn onto the first.
pub open spec fn joined(parts: Seq<Seq<char>>) -> Seq<char>
    decreases parts.len(),
{
    if parts.len() == 0 {
        Seq::empty()
    } else if parts.len() == 1 {
        parts[0]
    } else {
        pushed_path(joined(parts.drop_last()), parts.last())
    }
}

/// Joins path components, first to last.
pub fn join(parts: &[String]) -> (r: String)
    requires
        parts@.len() >= 1,
    ensures
        r@ == joined(views(parts@)),
{
    let mut acc = parts[0].clone();
    let n = parts.len();
    let mut i: usize = 1;
    assert(views(parts@).subrange(0, 1) =~= seq![parts@[0]@]);
    while i < n
        invariant
            1 <= i <= n,
            n == parts@.len(),
            acc@ == joined(views(parts@).subrange(0, i as int)),
        decreases n - i,
    {
        let next = push_path(&acc, &parts[i]);
        assert(views(parts@).subrange(0, i + 1).drop_last() =~= views(parts@).subrange(0, i as int));
        acc = next;
        i = i + 1;
    }
    assert(views(parts@).subrange(0, n as int) =~= views(parts@));
    acc
}

} // verus!
