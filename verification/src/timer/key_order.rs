use vstd::prelude::*;
use vstd::std_specs::cmp::OrdSpec;

verus! {

/// Strict order of timer keys: by widget id, then timer id.
pub open spec fn key_lt(a: (usize, u32), b: (usize, u32)) -> bool {
    a.0 < b.0 || (a.0 == b.0 && a.1 < b.1)
}

/// The standard ordering of `(usize, u32)` pairs is `key_lt`.
pub proof fn lemma_pair_order(a: (usize, u32), b: (usize, u32))
    ensures
        a.cmp_spec(&b) is Less <==> key_lt(a, b),
{
}

/// Keys listed in increasing standard order are strictly increasing under `key_lt`.
pub proof fn lemma_increasing_keys(s: Seq<&(usize, u32)>)
    requires
        vstd::std_specs::btree::increasing_seq(s),
    ensures
        forall|i: int, j: int|
            0 <= i < j < s.len() ==> key_lt(#[trigger] s.unref()[i], #[trigger] s.unref()[j]),
{
    broadcast use vstd::std_specs::btree::group_btree_axioms;
    broadcast use vstd::laws_cmp::group_laws_cmp;

    assert(vstd::laws_cmp::obeys_cmp::<usize>());
    assert(vstd::laws_cmp::obeys_cmp::<u32>());
    assert(vstd::laws_cmp::obeys_cmp::<(usize, u32)>());
    assert(vstd::laws_cmp::obeys_cmp::<&(usize, u32)>());

    assert forall|i: int, j: int| 0 <= i < j < s.len() implies key_lt(
        #[trigger] s.unref()[i],
        #[trigger] s.unref()[j],
    ) by {
        lemma_pair_order(*s[i], *s[j]);
        assert(OrdSpec::cmp_spec(&s[i], &s[j]) is Less);
    }
}

} // verus!
