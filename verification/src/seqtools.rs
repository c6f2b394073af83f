use vstd::prelude::*;

verus! {

/// Appending one element to the second of two concatenated sequences.
pub proof fn lemma_concat_push<A>(a: Seq<A>, b: Seq<A>, x: A)
    ensures
        (a + b).push(x) =~= a + (b + seq![x]),
{
}

/// The empty sequence is the identity of concatenation.
pub proof fn lemma_concat_empty<A>(a: Seq<A>)
    ensures
        a + Seq::<A>::empty() =~= a,
{
}

/// Concatenation is associative.
pub proof fn lemma_concat_assoc<A>(a: Seq<A>, b: Seq<A>, c: Seq<A>)
    ensures
        (a + b) + c =~= a + (b + c),
{
}

} // verus!
