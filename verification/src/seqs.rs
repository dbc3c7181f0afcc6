//! Sequences: searching and filtering.
use vstd::prelude::*;

verus! {

/// How many elements of `s` stand before the first `stop` in it; all of them where there is none.
pub open spec fn before<A>(s: Seq<A>, stop: A) -> nat
    decreases s.len(),
{
    if s.len() == 0 || s[0] == stop {
        0
    } else {
        1 + before(s.skip(1), stop)
    }
}

/// `before` stops at the first `stop`, and nowhere else.
pub proof fn lemma_before<A>(s: Seq<A>, stop: A)
    ensures
        before(s, stop) <= s.len(),
        forall|j: int| 0 <= j < before(s, stop) ==> s[j] != stop,
        before(s, stop) < s.len() ==> s[before(s, stop) as int] == stop,
    decreases s.len(),
{
    if s.len() > 0 && s[0] != stop {
        let rest = s.skip(1);
        lemma_before(rest, stop);
        assert forall|j: int| 0 <= j < before(s, stop) implies s[j] != stop by {
            if j > 0 {
                assert(s[j] == rest[j - 1]);
            }
        }
        if before(s, stop) < s.len() {
            assert(s[before(s, stop) as int] == rest[before(rest, stop) as int]);
        }
    }
}

/// The place of the first `stop` is determined by what stands before it.
pub proof fn lemma_before_unique<A>(s: Seq<A>, stop: A, i: int)
    requires
        0 <= i <= s.len(),
        forall|j: int| 0 <= j < i ==> s[j] != stop,
        i < s.len() ==> s[i] == stop,
    ensures
        before(s, stop) == i,
{
    lemma_before(s, stop);
    let b = before(s, stop) as int;
    if b < i {
        assert(s[b] == stop);
    }
}

/// Filtering one more element of a sequence.
pub proof fn lemma_filter_next<A>(s: Seq<A>, keep: spec_fn(A) -> bool, i: int)
    requires
        0 <= i < s.len(),
    ensures
        s.take(i + 1).filter(keep) == if keep(s[i]) {
            s.take(i).filter(keep).push(s[i])
        } else {
            s.take(i).filter(keep)
        },
{
    reveal(Seq::filter);
    assert(s.take(i + 1).drop_last() == s.take(i));
}

} // verus!
