//! Choosing services and channels by selectors, and tagging what was chosen.
use std::collections::HashMap;
use vstd::prelude::*;

use crate::collections::{group_view_map, keys_of, lists, view_map};
use crate::types::TagId;

verus! {

broadcast use vstd::std_specs::hash::group_hash_axioms;

/// Something that a selector of type `Q` may choose.
pub trait SelectedBy<Q>: View + Sized {
    /// `answer` is a possible answer to whether `selector` chooses `item`.
    spec fn answers(item: Self::V, selector: Q, answer: bool) -> bool;

    /// Whether the selector chooses this item.
    fn matches(&self, selector: &Q) -> (answer: bool)
        ensures
            Self::answers(self@, *selector, answer),
    ;
}

/// `picked` is a possible outcome of choosing among `items` by any of `selectors`: for what is
/// picked, one of the selectors answered yes; for what is not, all of them answered no.
pub open spec fn is_selection<Q, V: SelectedBy<Q>>(
    items: Map<u64, V::V>,
    selectors: Seq<Q>,
    picked: Set<u64>,
) -> bool {
    &&& picked.subset_of(items.dom())
    &&& forall|k: u64| #[trigger]
        picked.contains(k) ==> exists|i: int|
            0 <= i < selectors.len() && V::answers(items[k], #[trigger] selectors[i], true)
    &&& forall|k: u64, i: int|
        #![trigger items.contains_key(k), selectors[i]]
        items.contains_key(k) && !picked.contains(k) && 0 <= i < selectors.len() ==> V::answers(
            items[k],
            selectors[i],
            false,
        )
}

/// `walk` lists, in some order, items that `selectors` may choose.
pub open spec fn is_walk<Q, V: SelectedBy<Q>>(
    items: Map<u64, V::V>,
    selectors: Seq<Q>,
    walk: Seq<u64>,
) -> bool {
    &&& walk.no_duplicates()
    &&& is_selection::<Q, V>(items, selectors, walk.to_set())
}

/// Whether any of the selectors chooses an item.
pub fn matches_any<Q, V: SelectedBy<Q>>(selectors: &Vec<Q>, item: &V) -> (answer: bool)
    ensures
        answer ==> exists|i: int|
            0 <= i < selectors@.len() && V::answers(item@, #[trigger] selectors@[i], true),
        !answer ==> forall|i: int|
            0 <= i < selectors@.len() ==> V::answers(item@, #[trigger] selectors@[i], false),
{
    let mut i: usize = 0;
    while i < selectors.len()
        invariant
            i <= selectors.len(),
            forall|j: int|
                0 <= j < i ==> V::answers(item@, #[trigger] selectors@[j], false),
        decreases selectors.len() - i,
    {
        if item.matches(&selectors[i]) {
            assert(V::answers(item@, selectors@[i as int], true));
            return true;
        }
        i = i + 1;
    }
    false
}

/// The keys of the items that any of the selectors chooses, in the order in which the map is
/// walked.
pub fn select<Q, V: SelectedBy<Q>>(selectors: &Vec<Q>, map: &HashMap<u64, V>) -> (picked: Vec<u64>)
    ensures
        is_walk::<Q, V>(view_map(map@), selectors@, picked@),
{
    let keys = keys_of(map);
    let mut picked: Vec<u64> = Vec::new();
    let mut i: usize = 0;
    while i < keys.len()
        invariant
            i <= keys.len(),
            lists(keys@, map@.dom()),
            picked@.no_duplicates(),
            forall|k: u64| #[trigger]
                picked@.contains(k) ==> keys@.take(i as int).contains(k) && map@.contains_key(k)
                    && exists|j: int|
                    0 <= j < selectors@.len() && V::answers(
                        map@[k]@,
                        #[trigger] selectors@[j],
                        true,
                    ),
            forall|k: u64, j: int|
                #![trigger keys@.take(i as int).contains(k), selectors@[j]]
                keys@.take(i as int).contains(k) && !picked@.contains(k) && 0 <= j
                    < selectors@.len() ==> V::answers(map@[k]@, selectors@[j], false),
        decreases keys.len() - i,
    {
        let k = keys[i];
        let ghost before = picked@;
        proof {
            assert(keys@.to_set().contains(k));
            assert(keys@.take(i + 1) =~= keys@.take(i as int).push(k));
            assert(!keys@.take(i as int).contains(k));
            assert(!picked@.contains(k));
        }
        match map.get(&k) {
            Some(item) => {
                if matches_any(selectors, item) {
                    picked.push(k);
                }
            },
            None => {
                assert(false);
            },
        }
        proof {
            let next = keys@.take(i + 1);
            assert forall|x: u64| #[trigger] next.contains(x) == (keys@.take(i as int).contains(x)
                || x == k) by {
                assert(next.to_set() =~= keys@.take(i as int).to_set().insert(k)) by {
                    keys@.take(i as int).lemma_push_to_set_commute(k);
                }
                assert(next.to_set().contains(x) == next.contains(x));
                assert(keys@.take(i as int).to_set().contains(x) == keys@.take(i as int).contains(
                    x,
                ));
            }
            if picked@ != before {
                before.lemma_push_to_set_commute(k);
                assert forall|x: u64| #[trigger]
                    picked@.contains(x) == (before.contains(x) || x == k) by {
                    assert(picked@.to_set().contains(x) == picked@.contains(x));
                    assert(before.to_set().contains(x) == before.contains(x));
                }
            }
        }
        i = i + 1;
    }
    proof {
        assert(keys@.take(keys@.len() as int) =~= keys@);
        assert forall|k: u64| #[trigger] picked@.to_set().contains(k) implies {
            &&& view_map(map@).contains_key(k)
            &&& exists|j: int|
                0 <= j < selectors@.len() && V::answers(
                    view_map(map@)[k],
                    #[trigger] selectors@[j],
                    true,
                )
        } by {
            assert(picked@.contains(k));
        }
        assert forall|k: u64, j: int|
            #![trigger view_map(map@).contains_key(k), selectors@[j]]
            view_map(map@).contains_key(k) && !picked@.to_set().contains(k) && 0 <= j
                < selectors@.len() implies V::answers(view_map(map@)[k], selectors@[j], false) by {
            assert(keys@.to_set().contains(k));
            assert(keys@.contains(k));
            assert(!picked@.contains(k));
        }
    }
    picked
}

/// What has tags, mathematically.
pub trait TaggedView: Sized {
    /// The tags.
    spec fn tag_set(self) -> Set<TagId>;

    /// The same, but for its tags.
    spec fn with_tags(self, tags: Set<TagId>) -> Self;

    /// Only the tags given last count.
    proof fn lemma_with_tags(self, first: Set<TagId>, last: Set<TagId>)
        ensures
            self.with_tags(last).tag_set() == last,
            self.with_tags(first).with_tags(last) == self.with_tags(last),
    ;
}

/// Something that carries tags.
pub trait Tagged: View + Sized where Self::V: TaggedView {
    /// Adds some tags.
    fn insert_tags(&mut self, tags: &Vec<TagId>)
        ensures
            final(self)@ == old(self)@.with_tags(old(self)@.tag_set().union(tags@.to_set())),
    ;

    /// Removes some tags.
    fn remove_tags(&mut self, tags: &Vec<TagId>)
        ensures
            final(self)@ == old(self)@.with_tags(old(self)@.tag_set().difference(tags@.to_set())),
    ;
}

/// What becomes of `old_tags` when `tags` are added, or else removed.
pub open spec fn changed(old_tags: Set<TagId>, tags: Set<TagId>, adding: bool) -> Set<TagId> {
    if adding {
        old_tags.union(tags)
    } else {
        old_tags.difference(tags)
    }
}

/// `items`, where those in `picked` have gained `tags`, or else lost them.
pub open spec fn retagged<C: TaggedView>(
    items: Map<u64, C>,
    picked: Set<u64>,
    tags: Set<TagId>,
    adding: bool,
) -> Map<u64, C> {
    items.map_entries(
        |k: u64, c: C|
            if picked.contains(k) {
                c.with_tags(changed(c.tag_set(), tags, adding))
            } else {
                c
            },
    )
}

/// `items`, where those in `picked` have gained `tags`.
pub open spec fn tagged<C: TaggedView>(
    items: Map<u64, C>,
    picked: Set<u64>,
    tags: Set<TagId>,
) -> Map<u64, C> {
    retagged(items, picked, tags, true)
}

/// `items`, where those in `picked` have lost `tags`.
pub open spec fn untagged<C: TaggedView>(
    items: Map<u64, C>,
    picked: Set<u64>,
    tags: Set<TagId>,
) -> Map<u64, C> {
    retagged(items, picked, tags, false)
}

/// Changing the tags of one more item, be it a new one or one whose tags were changed already.
proof fn lemma_retagged_step<C: TaggedView>(
    items: Map<u64, C>,
    done: Set<u64>,
    tags: Set<TagId>,
    adding: bool,
    k: u64,
)
    requires
        items.contains_key(k),
    ensures
        ({
            let now = retagged(items, done, tags, adding);
            retagged(items, done.insert(k), tags, adding) == now.insert(
                k,
                now[k].with_tags(changed(now[k].tag_set(), tags, adding)),
            )
        }),
{
    let now = retagged(items, done, tags, adding);
    let once = changed(items[k].tag_set(), tags, adding);
    assert(changed(once, tags, adding) =~= once);
    items[k].lemma_with_tags(once, once);
    assert(retagged(items, done.insert(k), tags, adding) =~= now.insert(
        k,
        now[k].with_tags(changed(now[k].tag_set(), tags, adding)),
    ));
}

/// Changes the tags of the items with the given keys.
fn retag_items<V: Tagged>(
    map: &mut HashMap<u64, V>,
    picked: &Vec<u64>,
    tags: &Vec<TagId>,
    adding: bool,
) where V::V: TaggedView,

    ensures
        view_map(final(map)@) == retagged(
            view_map(old(map)@),
            picked@.to_set(),
            tags@.to_set(),
            adding,
        ),
{
    broadcast use group_view_map;

    let ghost before = view_map(map@);
    assert(retagged(before, picked@.take(0).to_set(), tags@.to_set(), adding) =~= before);
    let mut i: usize = 0;
    while i < picked.len()
        invariant
            i <= picked.len(),
            view_map(map@) =~= retagged(
                before,
                picked@.take(i as int).to_set(),
                tags@.to_set(),
                adding,
            ),
        decreases picked.len() - i,
    {
        let k = picked[i];
        let ghost done = picked@.take(i as int);
        let ghost now = view_map(map@);
        proof {
            assert(picked@.take(i + 1) =~= done.push(k));
            done.lemma_push_to_set_commute(k);
        }
        if let Some(item) = map.remove(&k) {
            let mut item = item;
            assert(now.contains_key(k) && now[k] == item@);
            if adding {
                item.insert_tags(tags);
            } else {
                item.remove_tags(tags);
            }
            map.insert(k, item);
            proof {
                assert(view_map(map@) =~= now.insert(k, item@));
                lemma_retagged_step(before, done.to_set(), tags@.to_set(), adding, k);
            }
        } else {
            assert(!now.contains_key(k));
            assert(view_map(map@) =~= now);
        }
        i = i + 1;
    }
    assert(picked@.take(picked@.len() as int) =~= picked@);
}

/// Adds tags to the items with the given keys.
pub fn tag_items<V: Tagged>(map: &mut HashMap<u64, V>, picked: &Vec<u64>, tags: &Vec<TagId>) where
    V::V: TaggedView,

    ensures
        view_map(final(map)@) == tagged(view_map(old(map)@), picked@.to_set(), tags@.to_set()),
{
    retag_items(map, picked, tags, true);
}

/// Removes tags from the items with the given keys.
pub fn untag_items<V: Tagged>(map: &mut HashMap<u64, V>, picked: &Vec<u64>, tags: &Vec<TagId>) where
    V::V: TaggedView,

    ensures
        view_map(final(map)@) == untagged(view_map(old(map)@), picked@.to_set(), tags@.to_set()),
{
    retag_items(map, picked, tags, false);
}

/// Something that the registry shows to its clients as an `Item`.
pub trait Shown: View + Sized {
    /// What is shown.
    type Item: View;

    /// The identifier of what is shown.
    spec fn id_of(shown: <Self::Item as View>::V) -> u64;

    /// What is shown, mathematically.
    spec fn shown(item: Self::V) -> <Self::Item as View>::V;

    /// A copy of what is shown.
    fn show(&self) -> (item: Self::Item)
        ensures
            item@ == Self::shown(self@),
    ;
}

/// `shown` holds what is shown of the items with the keys in `walk`, in the same order.
pub open spec fn shows<V: Shown>(
    items: Map<u64, V::V>,
    walk: Seq<u64>,
    shown: Seq<V::Item>,
) -> bool {
    &&& shown.len() == walk.len()
    &&& forall|i: int|
        #![trigger shown[i]]
        0 <= i < shown.len() ==> shown[i]@ == V::shown(items[walk[i]])
}

/// `listed` may be the list of the items that `selectors` choose.
pub open spec fn is_list<Q, V: SelectedBy<Q> + Shown>(
    items: Map<u64, <V as View>::V>,
    selectors: Seq<Q>,
    listed: Seq<V::Item>,
) -> bool {
    exists|walk: Seq<u64>| #[trigger]
        is_walk::<Q, V>(items, selectors, walk) && shows::<V>(items, walk, listed)
}

/// What is shown of the items with the given keys, in the same order.
pub fn show_items<V: Shown>(map: &HashMap<u64, V>, picked: &Vec<u64>) -> (shown: Vec<V::Item>)
    requires
        picked@.to_set().subset_of(map@.dom()),
    ensures
        shows::<V>(view_map(map@), picked@, shown@),
{
    let mut shown: Vec<V::Item> = Vec::new();
    let mut i: usize = 0;
    while i < picked.len()
        invariant
            i <= picked.len(),
            shown.len() == i,
            picked@.to_set().subset_of(map@.dom()),
            forall|j: int|
                #![trigger shown@[j]]
                0 <= j < i ==> shown@[j]@ == V::shown(view_map(map@)[picked@[j]]),
        decreases picked.len() - i,
    {
        let k = picked[i];
        assert(picked@.to_set().contains(k));
        match map.get(&k) {
            Some(item) => {
                shown.push(item.show());
            },
            None => {
                assert(false);
            },
        }
        i = i + 1;
    }
    shown
}

} // verus!
