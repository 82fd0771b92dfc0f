//! Small sequence lemmas shared by the store modules: how `filter` grows
//! when one more element of a prefix is taken.

use vstd::prelude::*;

verus! {

/// Taking one element more extends the prefix by exactly that element.
pub proof fn lemma_take_one_more<A>(s: Seq<A>, i: int)
    requires
        0 <= i < s.len(),
    ensures
        s.take(i + 1).drop_last() =~= s.take(i),
        s.take(i + 1).last() == s[i],
{
}

/// One unfolding step of `filter` along a growing prefix.
pub proof fn lemma_filter_one_step<A>(s: Seq<A>, pred: spec_fn(A) -> bool, i: int)
    requires
        0 <= i < s.len(),
    ensures
        s.take(i + 1).filter(pred) == if pred(s[i]) {
            s.take(i).filter(pred).push(s[i])
        } else {
            s.take(i).filter(pred)
        },
{
    reveal(Seq::filter);
    lemma_take_one_more(s, i);
}

/// A whole sequence is the prefix of its own length.
pub proof fn lemma_take_all<A>(s: Seq<A>)
    ensures
        s.take(s.len() as int) =~= s,
{
}

} // verus!
