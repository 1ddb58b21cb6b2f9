use vstd::prelude::*;
use vstd::multiset::Multiset;

verus! {

broadcast use vstd::seq_lib::group_to_multiset_ensures;

/// Removing a matched item from what remains and adding it to what was matched
/// keeps their union.
pub proof fn lemma_match_step<K>(rem: Seq<K>, j: int, matched: Seq<K>, whole: Multiset<K>)
    requires
        0 <= j < rem.len(),
        rem.to_multiset().add(matched.to_multiset()) == whole,
    ensures
        rem.remove(j).to_multiset().add(matched.push(rem[j]).to_multiset()) == whole,
{
    broadcast use vstd::multiset::group_multiset_axioms;

    assert(rem.remove(j).to_multiset().add(matched.push(rem[j]).to_multiset()) =~= whole);
}

/// When an item finds no partner among what remains, the items to match hold it
/// more often than the partners do.
pub proof fn lemma_no_match<K>(rem: Seq<K>, matched: Seq<K>, whole: Multiset<K>, x: K, bound: nat)
    requires
        !rem.contains(x),
        rem.to_multiset().add(matched.to_multiset()) == whole,
        matched.push(x).to_multiset().count(x) <= bound,
    ensures
        whole.count(x) < bound,
{
    broadcast use vstd::multiset::group_multiset_axioms;

    assert(rem.to_multiset().count(x) == 0);
}

/// When nothing remains, the matched items are exactly the partners.
pub proof fn lemma_all_matched<K>(rem: Seq<K>, matched: Seq<K>, whole: Multiset<K>)
    requires
        rem.to_multiset().add(matched.to_multiset()) == whole,
    ensures
        rem.len() == 0 <==> matched.to_multiset() == whole,
{
    broadcast use vstd::multiset::group_multiset_axioms;

    if rem.len() == 0 {
        assert(rem.to_multiset() =~= Multiset::empty());
        assert(matched.to_multiset() =~= whole);
    } else {
        assert(rem.to_multiset().count(rem[0]) > 0);
        assert(whole.count(rem[0]) > matched.to_multiset().count(rem[0]));
    }
}

/// An item occurs in a prefix of a sequence at most as often as in the whole.
pub proof fn lemma_prefix_count<K>(s: Seq<K>, n: int, x: K)
    requires
        0 <= n <= s.len(),
    ensures
        s.take(n).to_multiset().count(x) <= s.to_multiset().count(x),
{
    broadcast use vstd::multiset::group_multiset_axioms;

    vstd::seq_lib::lemma_multiset_commutative(s.take(n), s.skip(n));
    assert(s.take(n) + s.skip(n) =~= s);
}

} // verus!
