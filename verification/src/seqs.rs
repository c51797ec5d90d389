//! The suffix of a sequence from an executable position, and the facts a
//! loop that walks it needs.
use vstd::prelude::*;

verus! {

/// The elements of `s` from position `i` on.
pub open spec fn after<T>(s: Seq<T>, i: usize) -> Seq<T> {
    s.skip(i as int)
}

/// The element of `s` at an executable position.
pub open spec fn at<T>(s: Seq<T>, i: usize) -> T {
    s[i as int]
}

/// Walking one step: the suffix at `i` starts with `s[i]` and goes on with
/// the suffix at `i + 1`.
pub proof fn lemma_after_step<T>(s: Seq<T>, i: usize)
    requires
        i < s.len(),
        s.len() <= usize::MAX,
    ensures
        after(s, i).len() > 0,
        after(s, i)[0] == s[i as int],
        after(s, i).drop_first() == after(s, (i + 1) as usize),
{
    assert(s.skip(i as int).drop_first() =~= s.skip(i + 1));
}

/// The suffix at the start is the whole sequence, and at the end is empty.
pub proof fn lemma_after_ends<T>(s: Seq<T>, i: usize)
    ensures
        after(s, 0) == s,
        i == s.len() ==> after(s, i).len() == 0,
{
    assert(s.skip(0) =~= s);
}

} // verus!
