//! Zone accounting: the ghost arithmetic behind the "every card sits in
//! exactly one zone" invariant.
//!
//! A session stores its cards in a table and its six zones (deck, hand and
//! battlefield of each player) as sequences of indices into that table. The
//! invariant is phrased with multisets: the indices held by the six zones,
//! taken together, are exactly the indices `0 .. n` of the table, each once.

use vstd::multiset::Multiset;
use vstd::prelude::*;
use vstd::seq_lib::lemma_multiset_commutative;

verus! {

/// The sequence `0, 1, .., n - 1` of card indices.
pub open spec fn ids_up_to(n: nat) -> Seq<usize> {
    Seq::new(n, |i: int| i as usize)
}

/// Every index below `n` occurs exactly once in `ids_up_to(n)`, and no other
/// index occurs at all.
pub proof fn lemma_ids_up_to_count(n: nat, x: usize)
    requires
        n <= usize::MAX as nat + 1,
    ensures
        ids_up_to(n).to_multiset().count(x) == if (x as int) < n {
            1int
        } else {
            0int
        },
    decreases n,
{
    broadcast use vstd::seq_lib::group_to_multiset_ensures;
    broadcast use vstd::multiset::group_multiset_axioms;

    if n == 0 {
        assert(ids_up_to(0) =~= Seq::<usize>::empty());
        assert(ids_up_to(0).to_multiset() =~= Multiset::<usize>::empty());
    } else {
        let m = (n - 1) as nat;
        lemma_ids_up_to_count(m, x);
        assert((m as usize) as int == m as int);
        assert(ids_up_to(n) =~= ids_up_to(m).push(m as usize));
        assert(ids_up_to(n).to_multiset() =~= ids_up_to(m).to_multiset().insert(m as usize));
    }
}

/// A sequence in which no index occurs twice, as witnessed by its multiset.
pub proof fn lemma_counts_below_one_no_duplicates(z: Seq<usize>)
    requires
        forall|x: usize| z.to_multiset().count(x) <= 1,
    ensures
        z.no_duplicates(),
{
    broadcast use vstd::seq_lib::group_to_multiset_ensures;

    z.lemma_multiset_has_no_duplicates_conv();
}

/// Concatenating two zone sequences adds their multisets.
pub proof fn lemma_concat_multiset(a: Seq<usize>, b: Seq<usize>)
    ensures
        (a + b).to_multiset() == a.to_multiset().add(b.to_multiset()),
{
    lemma_multiset_commutative(a, b);
}

/// A sequence splits at any point into its two halves, multiset-wise.
pub proof fn lemma_split_multiset(s: Seq<usize>, at: int)
    requires
        0 <= at <= s.len(),
    ensures
        s.to_multiset() == s.subrange(0, at).to_multiset().add(
            s.subrange(at, s.len() as int).to_multiset(),
        ),
{
    assert(s =~= s.subrange(0, at) + s.subrange(at, s.len() as int));
    lemma_multiset_commutative(s.subrange(0, at), s.subrange(at, s.len() as int));
}

} // verus!
