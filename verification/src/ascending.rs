//! The order in which std's B-tree collections hand out `u64` keys.

use vstd::prelude::*;
use vstd::std_specs::btree::increasing_seq;
use vstd::std_specs::cmp::OrdSpec;

verus! {

/// Whether each item of `s` is smaller than every later one.
pub open spec fn strictly_ascending(s: Seq<u64>) -> bool {
    forall|i: int, j: int| 0 <= i < j < s.len() ==> s[i] < s[j]
}

/// What vstd promises of keys borrowed from a B-tree, said with `<`.
pub proof fn lemma_increasing_is_ascending(s: Seq<&u64>)
    requires
        increasing_seq(s),
    ensures
        strictly_ascending(s.unref()),
{
    assert(vstd::laws_cmp::obeys_cmp::<u64>());
    assert(vstd::laws_cmp::obeys_cmp::<&u64>());
    vstd::std_specs::btree::axiom_increasing_seq_meaning::<&u64>(s);
    let plain = s.unref();
    assert forall|i: int, j: int| 0 <= i < j < plain.len() implies plain[i] < plain[j] by {
        assert((&s[i]).cmp_spec(&&s[j]) is Less);
    }
}

} // verus!
