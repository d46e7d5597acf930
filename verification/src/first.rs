//! The first element of a sequence on which a partial function is defined.

use vstd::prelude::*;

verus! {

/// What `f` gives for the first element of `s` on which it gives anything.
pub open spec fn first_some<A, B>(s: Seq<A>, f: spec_fn(A) -> Option<B>) -> Option<B>
    decreases s.len(),
{
    if s.len() == 0 {
        None
    } else if f(s.first()) is Some {
        f(s.first())
    } else {
        first_some(s.drop_first(), f)
    }
}

/// `first_some` gives nothing exactly when `f` gives nothing for any element.
pub proof fn lemma_first_some_none<A, B>(s: Seq<A>, f: spec_fn(A) -> Option<B>)
    ensures
        first_some(s, f) is None <==> forall|i: int| 0 <= i < s.len() ==> f(#[trigger] s[i]) is None,
    decreases s.len(),
{
    if s.len() > 0 {
        lemma_first_some_none(s.drop_first(), f);
        if f(s.first()) is None {
            if first_some(s, f) is None {
                assert forall|i: int| 0 <= i < s.len() implies f(#[trigger] s[i]) is None by {
                    if i > 0 {
                        assert(s[i] == s.drop_first()[i - 1]);
                    }
                }
            } else {
                let i = choose|i: int|
                    0 <= i < s.drop_first().len() && !(f(#[trigger] s.drop_first()[i]) is None);
                assert(s[i + 1] == s.drop_first()[i]);
            }
        } else {
            assert(s[0] == s.first());
        }
    }
}

/// Where `f` gives nothing before position `i` and something at `i`,
/// `first_some` gives what `f` gives at `i`.
pub proof fn lemma_first_some_at<A, B>(s: Seq<A>, f: spec_fn(A) -> Option<B>, i: int)
    requires
        0 <= i < s.len(),
        forall|j: int| 0 <= j < i ==> f(#[trigger] s[j]) is None,
        f(s[i]) is Some,
    ensures
        first_some(s, f) == f(s[i]),
    decreases i,
{
    if i > 0 {
        assert(f(s[0]) is None);
        assert forall|j: int| 0 <= j < i - 1 implies f(#[trigger] s.drop_first()[j]) is None by {
            assert(s.drop_first()[j] == s[j + 1]);
        }
        assert(s.drop_first()[i - 1] == s[i]);
        lemma_first_some_at(s.drop_first(), f, i - 1);
    }
}

/// Whatever `first_some` gives, `f` gives it at some position and gives
/// nothing before that position.
pub proof fn lemma_first_some_witness<A, B>(s: Seq<A>, f: spec_fn(A) -> Option<B>) -> (i: int)
    requires
        first_some(s, f) is Some,
    ensures
        0 <= i < s.len(),
        f(s[i]) == first_some(s, f),
        forall|j: int| 0 <= j < i ==> f(#[trigger] s[j]) is None,
    decreases s.len(),
{
    if f(s.first()) is Some {
        0
    } else {
        let k = lemma_first_some_witness(s.drop_first(), f);
        assert(s.drop_first()[k] == s[k + 1]);
        assert forall|j: int| 0 <= j < k + 1 implies f(#[trigger] s[j]) is None by {
            if j > 0 {
                assert(s[j] == s.drop_first()[j - 1]);
            }
        }
        k + 1
    }
}

} // verus!
