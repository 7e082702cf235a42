//! Splitting work among adapters.
use std::collections::HashMap;
use vstd::prelude::*;

use crate::collections::into_entries;
use crate::types::AdapterId;

verus! {

broadcast use vstd::std_specs::hash::group_hash_axioms;

/// The items of `work` that are for `adapter`, in order.
pub open spec fn share<T>(work: Seq<(AdapterId, T)>, adapter: AdapterId) -> Seq<T>
    decreases work.len(),
{
    if work.len() == 0 {
        Seq::empty()
    } else if work.last().0 == adapter {
        share(work.drop_last(), adapter).push(work.last().1)
    } else {
        share(work.drop_last(), adapter)
    }
}

/// `batches` splits `work` by adapter: one batch for each adapter that has work, which holds
/// all its work in order.
pub open spec fn is_split<T>(
    work: Seq<(AdapterId, T)>,
    batches: Seq<(AdapterId, Vec<T>)>,
) -> bool {
    &&& forall|i: int, j: int|
        #![trigger batches[i], batches[j]]
        0 <= i < j < batches.len() ==> batches[i].0 != batches[j].0
    &&& forall|i: int|
        #![trigger batches[i]]
        0 <= i < batches.len() ==> batches[i].1@.len() > 0 && batches[i].1@ == share(
            work,
            batches[i].0,
        )
    &&& forall|a: AdapterId| #[trigger]
        share(work, a).len() > 0 ==> exists|i: int|
            0 <= i < batches.len() && (#[trigger] batches[i]).0 == a
}

/// Splits work by adapter. The order of the batches is left open.
pub fn split_by_adapter<T>(work: Vec<(AdapterId, T)>) -> (batches: Vec<(AdapterId, Vec<T>)>)
    ensures
        is_split(work@, batches@),
{
    let ghost all = work@;
    let mut per_adapter: HashMap<AdapterId, Vec<T>> = HashMap::new();
    let ghost mut done: Seq<(AdapterId, T)> = Seq::empty();
    for entry in it: work
        invariant
            it.seq() == all,
            done =~= all.take(it.index() as int),
            forall|a: AdapterId| #[trigger]
                per_adapter@.contains_key(a) <==> share(done, a).len() > 0,
            forall|a: AdapterId| #[trigger]
                per_adapter@.contains_key(a) ==> per_adapter@[a]@ == share(done, a),
    {
        let (adapter, item) = entry;
        proof {
            let next = done.push((adapter, item));
            assert(next.drop_last() =~= done);
            done = next;
        }
        match per_adapter.remove(&adapter) {
            Some(batch) => {
                let mut batch = batch;
                batch.push(item);
                per_adapter.insert(adapter, batch);
            },
            None => {
                let mut batch: Vec<T> = Vec::new();
                batch.push(item);
                per_adapter.insert(adapter, batch);
            },
        }
    }
    assert(done =~= all);
    let batches = into_entries(per_adapter);
    proof {
        assert forall|a: AdapterId| #[trigger] share(all, a).len() > 0 implies exists|i: int|
            0 <= i < batches@.len() && (#[trigger] batches@[i]).0 == a by {
            assert(per_adapter@.contains_key(a));
        }
    }
    batches
}

/// Whoever has work has a share of it.
pub proof fn lemma_share_nonempty<T>(work: Seq<(AdapterId, T)>, w: int)
    requires
        0 <= w < work.len(),
    ensures
        share(work, work[w].0).len() > 0,
    decreases work.len(),
{
    if w < work.len() - 1 {
        assert(work.drop_last()[w] == work[w]);
        lemma_share_nonempty(work.drop_last(), w);
    }
}

} // verus!
