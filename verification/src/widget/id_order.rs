//! The standard order of widget ids.
use vstd::prelude::*;
use vstd::std_specs::cmp::OrdSpec;

verus! {

/// Widget ids listed in increasing standard order are strictly increasing.
pub proof fn lemma_increasing_ids(s: Seq<&usize>)
    requires
        vstd::std_specs::btree::increasing_seq(s),
    ensures
        forall|i: int, j: int| 0 <= i < j < s.len() ==> #[trigger] s.unref()[i] < #[trigger] s.unref()[j],
{
    broadcast use vstd::laws_cmp::group_laws_cmp;

    assert(vstd::laws_cmp::obeys_cmp::<usize>());
    assert(vstd::laws_cmp::obeys_cmp::<&usize>());
    assert forall|i: int, j: int| 0 <= i < j < s.len() implies #[trigger] s.unref()[i]
        < #[trigger] s.unref()[j] by {
        assert(OrdSpec::cmp_spec(&s[i], &s[j]) is Less);
    }
}

} // verus!
