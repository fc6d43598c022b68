//! Ambient facts about sequence concatenation that the event logs of the
//! grammar and the hydrator lean on.

use vstd::prelude::*;

verus! {

pub broadcast proof fn lemma_seq_concat_empty<A>(s: Seq<A>)
    ensures
        #[trigger] (s + Seq::<A>::empty()) == s,
{
    assert(s + Seq::<A>::empty() =~= s);
}

pub broadcast proof fn lemma_seq_push_is_concat<A>(s: Seq<A>, x: A)
    ensures
        #[trigger] s.push(x) == s + seq![x],
{
    assert(s.push(x) =~= s + seq![x]);
}

pub broadcast proof fn lemma_seq_concat_assoc<A>(a: Seq<A>, b: Seq<A>, c: Seq<A>)
    ensures
        #[trigger] ((a + b) + c) == a + (b + c),
{
    assert((a + b) + c =~= a + (b + c));
}

} // verus!
