//! Small text builders shared by the style sheet's renderers.
use vstd::prelude::*;
use crate::definition::opt_view;
use crate::path::views;

verus! {

/// The parts separated by `sep`.
pub open spec fn joined_with(parts: Seq<Seq<char>>, sep: Seq<char>) -> Seq<char>
    decreases parts.len(),
{
    if parts.len() == 0 {
        Seq::empty()
    } else if parts.len() == 1 {
        parts[0]
    } else {
        joined_with(parts.drop_last(), sep) + sep + parts.last()
    }
}

/// `name` + value + `;` when the value is set, else nothing.
pub open spec fn opt_decl(name: Seq<char>, value: Option<Seq<char>>) -> Seq<char> {
    match value {
        Some(v) => name + v + ";"@,
        None => Seq::empty(),
    }
}

/// Joins the strings with `sep` between each two.
pub fn join_with(parts: &Vec<String>, sep: &str) -> (r: String)
    ensures
        r@ == joined_with(views(parts@), sep@),
{
    let mut out = String::new();
    let n = parts.len();
    let mut i: usize = 0;
    while i < n
        invariant
            0 <= i <= n,
            n == parts@.len(),
            out@ == joined_with(views(parts@).subrange(0, i as int), sep@),
        decreases n - i,
    {
        if i > 0 {
            out.append(sep);
        }
        out.append(parts[i].as_str());
        assert(views(parts@).subrange(0, i + 1).drop_last() =~= views(parts@).subrange(0, i as int));
        if i == 0 {
            assert(out@ =~= joined_with(views(parts@).subrange(0, 1), sep@));
        }
        i = i + 1;
    }
    assert(views(parts@).subrange(0, n as int) =~= views(parts@));
    out
}

/// Appends `name`, the value and `;` when the value is set.
pub fn append_opt_decl(out: &mut String, name: &str, value: &Option<String>)
    ensures
        final(out)@ == old(out)@ + opt_decl(name@, opt_view(*value)),
{
    match value {
        Some(v) => {
            out.append(name);
            out.append(v.as_str());
            out.append(";");
        },
        None => {
            assert(old(out)@ + Seq::<char>::empty() =~= old(out)@);
        },
    }
}

} // verus!
