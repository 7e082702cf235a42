//! What selections are to each other, when matching is decided.
use vstd::prelude::*;

use crate::adapter::Taxonomy;
use crate::data::{GetterData, ServiceData, SetterData};
use crate::model::Registry;
use crate::selection::{is_list, is_selection, is_walk, shows, SelectedBy, Shown};
use crate::types::{Channel, Service, TagId};

verus! {

/// No selector can answer both yes and no on the same item.
pub open spec fn decided<Q, V: SelectedBy<Q>>(items: Map<u64, V::V>, selectors: Seq<Q>) -> bool {
    forall|k: u64, i: int|
        #![trigger items.contains_key(k), selectors[i]]
        items.contains_key(k) && 0 <= i < selectors.len() ==> !(V::answers(
            items[k],
            selectors[i],
            true,
        ) && V::answers(items[k], selectors[i], false))
}

/// The items on which any of the selectors can answer yes.
pub open spec fn matching<Q, V: SelectedBy<Q>>(items: Map<u64, V::V>, selectors: Seq<Q>) -> Set<
    u64,
> {
    Set::new(
        |k: u64|
            items.contains_key(k) && exists|i: int|
                0 <= i < selectors.len() && V::answers(items[k], #[trigger] selectors[i], true),
    )
}

/// When matching is decided, a selection is what matches.
pub proof fn law_selection_is_what_matches<Q, V: SelectedBy<Q>>(
    items: Map<u64, V::V>,
    selectors: Seq<Q>,
    picked: Set<u64>,
)
    requires
        decided::<Q, V>(items, selectors),
        is_selection::<Q, V>(items, selectors, picked),
    ensures
        picked == matching::<Q, V>(items, selectors),
{
    assert forall|k: u64| picked.contains(k) == matching::<Q, V>(items, selectors).contains(k) by {
        if picked.contains(k) {
            assert(items.contains_key(k));
        } else if matching::<Q, V>(items, selectors).contains(k) {
            let i = choose|i: int|
                0 <= i < selectors.len() && V::answers(items[k], #[trigger] selectors[i], true);
            assert(V::answers(items[k], selectors[i], false));
        }
    }
    assert(picked =~= matching::<Q, V>(items, selectors));
}

/// When matching is decided, selecting twice by the same selectors chooses the same items.
pub proof fn law_selections_agree<Q, V: SelectedBy<Q>>(
    items: Map<u64, V::V>,
    selectors: Seq<Q>,
    one: Set<u64>,
    other: Set<u64>,
)
    requires
        decided::<Q, V>(items, selectors),
        is_selection::<Q, V>(items, selectors, one),
        is_selection::<Q, V>(items, selectors, other),
    ensures
        one == other,
{
    law_selection_is_what_matches::<Q, V>(items, selectors, one);
    law_selection_is_what_matches::<Q, V>(items, selectors, other);
}

/// When matching is decided, selecting by two lists of selectors joined chooses what either of
/// them chooses.
pub proof fn law_joined_selectors_choose_the_union<Q, V: SelectedBy<Q>>(
    items: Map<u64, V::V>,
    first: Seq<Q>,
    second: Seq<Q>,
    by_both: Set<u64>,
    by_first: Set<u64>,
    by_second: Set<u64>,
)
    requires
        decided::<Q, V>(items, first + second),
        is_selection::<Q, V>(items, first + second, by_both),
        is_selection::<Q, V>(items, first, by_first),
        is_selection::<Q, V>(items, second, by_second),
    ensures
        by_both == by_first.union(by_second),
{
    let both = first + second;
    assert forall|k: u64, i: int|
        #![trigger items.contains_key(k), first[i]]
        items.contains_key(k) && 0 <= i < first.len() implies !(V::answers(items[k], first[i], true)
        && V::answers(items[k], first[i], false)) by {
        assert(both[i] == first[i]);
    }
    assert forall|k: u64, i: int|
        #![trigger items.contains_key(k), second[i]]
        items.contains_key(k) && 0 <= i < second.len() implies !(V::answers(
        items[k],
        second[i],
        true,
    ) && V::answers(items[k], second[i], false)) by {
        assert(both[first.len() + i] == second[i]);
    }
    law_selection_is_what_matches::<Q, V>(items, both, by_both);
    law_selection_is_what_matches::<Q, V>(items, first, by_first);
    law_selection_is_what_matches::<Q, V>(items, second, by_second);
    assert forall|k: u64| by_both.contains(k) == by_first.union(by_second).contains(k) by {
        if by_both.contains(k) {
            let i = choose|i: int|
                0 <= i < both.len() && V::answers(items[k], #[trigger] both[i], true);
            if i < first.len() {
                assert(V::answers(items[k], first[i], true));
            } else {
                assert(V::answers(items[k], second[i - first.len()], true));
            }
        }
        if by_first.contains(k) {
            let i = choose|i: int|
                0 <= i < first.len() && V::answers(items[k], #[trigger] first[i], true);
            assert(V::answers(items[k], both[i], true));
        }
        if by_second.contains(k) {
            let i = choose|i: int|
                0 <= i < second.len() && V::answers(items[k], #[trigger] second[i], true);
            assert(V::answers(items[k], both[first.len() + i], true));
        }
    }
    assert(by_both =~= by_first.union(by_second));
}

/// What the items of a list are, mathematically.
pub open spec fn views<T: View>(listed: Seq<T>) -> Set<T::V> {
    listed.map_values(|item: T| item@).to_set()
}

/// A list shows what is shown of each item, and nothing else.
proof fn lemma_views<V: Shown>(
    items: Map<u64, V::V>,
    walk: Seq<u64>,
    listed: Seq<V::Item>,
    view: <V::Item as View>::V,
)
    requires
        shows::<V>(items, walk, listed),
    ensures
        views(listed).contains(view) <==> exists|k: u64| #[trigger]
            walk.to_set().contains(k) && view == V::shown(items[k]),
{
    let all = listed.map_values(|item: V::Item| item@);
    if all.contains(view) {
        let i = choose|i: int| 0 <= i < all.len() && all[i] == view;
        assert(listed[i]@ == view);
        assert(walk.to_set().contains(walk[i]));
    }
    if exists|k: u64| #[trigger] walk.to_set().contains(k) && view == V::shown(items[k]) {
        let k = choose|k: u64| #[trigger]
            walk.to_set().contains(k) && view == V::shown(items[k]);
        let i = choose|i: int| 0 <= i < walk.len() && walk[i] == k;
        assert(listed[i]@ == view);
        assert(all[i] == view);
    }
}

/// The identifiers in a list.
pub open spec fn ids<V: Shown>(listed: Seq<V::Item>) -> Seq<u64> {
    listed.map_values(|item: V::Item| V::id_of(item@))
}

/// Each item stands under its own identifier.
pub open spec fn keyed<V: Shown>(items: Map<u64, V::V>) -> bool {
    forall|k: u64| #[trigger] items.contains_key(k) ==> V::id_of(V::shown(items[k])) == k
}

/// The identifiers in a list are the keys of the items that were chosen.
proof fn lemma_ids<Q, V: SelectedBy<Q> + Shown>(
    items: Map<u64, <V as View>::V>,
    selectors: Seq<Q>,
    walk: Seq<u64>,
    listed: Seq<V::Item>,
)
    requires
        keyed::<V>(items),
        is_walk::<Q, V>(items, selectors, walk),
        shows::<V>(items, walk, listed),
    ensures
        ids::<V>(listed) == walk,
{
    assert forall|i: int| 0 <= i < walk.len() implies #[trigger] ids::<V>(listed)[i] == walk[i] by {
        assert(walk.to_set().contains(walk[i]));
        assert(items.contains_key(walk[i]));
        assert(listed[i]@ == V::shown(items[walk[i]]));
    }
    assert(ids::<V>(listed) =~= walk);
}

/// When matching is decided, a list holds one copy, as it stands, of each item that matches any
/// of the selectors, and nothing else.
pub proof fn law_list_is_exact<Q, V: SelectedBy<Q> + Shown>(
    items: Map<u64, <V as View>::V>,
    selectors: Seq<Q>,
    listed: Seq<V::Item>,
)
    requires
        keyed::<V>(items),
        decided::<Q, V>(items, selectors),
        is_list::<Q, V>(items, selectors, listed),
    ensures
        ids::<V>(listed).no_duplicates(),
        ids::<V>(listed).to_set() == matching::<Q, V>(items, selectors),
        forall|i: int|
            #![trigger listed[i]]
            0 <= i < listed.len() ==> listed[i]@ == V::shown(items[V::id_of(listed[i]@)]),
{
    let walk = choose|walk: Seq<u64>| #[trigger]
        is_walk::<Q, V>(items, selectors, walk) && shows::<V>(items, walk, listed);
    lemma_ids::<Q, V>(items, selectors, walk, listed);
    law_selection_is_what_matches::<Q, V>(items, selectors, walk.to_set());
    assert forall|i: int|
        #![trigger listed[i]]
        0 <= i < listed.len() implies listed[i]@ == V::shown(items[V::id_of(listed[i]@)]) by {
        assert(ids::<V>(listed)[i] == walk[i]);
    }
}

/// When matching is decided, listing by two lists of selectors joined shows what either of the
/// two lists shows.
pub proof fn law_joined_list_is_the_union<Q, V: SelectedBy<Q> + Shown>(
    items: Map<u64, <V as View>::V>,
    first: Seq<Q>,
    second: Seq<Q>,
    by_both: Seq<V::Item>,
    by_first: Seq<V::Item>,
    by_second: Seq<V::Item>,
)
    requires
        decided::<Q, V>(items, first + second),
        is_list::<Q, V>(items, first + second, by_both),
        is_list::<Q, V>(items, first, by_first),
        is_list::<Q, V>(items, second, by_second),
    ensures
        views(by_both) == views(by_first).union(views(by_second)),
{
    let both = choose|walk: Seq<u64>| #[trigger]
        is_walk::<Q, V>(items, first + second, walk) && shows::<V>(items, walk, by_both);
    let one = choose|walk: Seq<u64>| #[trigger]
        is_walk::<Q, V>(items, first, walk) && shows::<V>(items, walk, by_first);
    let two = choose|walk: Seq<u64>| #[trigger]
        is_walk::<Q, V>(items, second, walk) && shows::<V>(items, walk, by_second);
    law_joined_selectors_choose_the_union::<Q, V>(
        items,
        first,
        second,
        both.to_set(),
        one.to_set(),
        two.to_set(),
    );
    assert forall|view: <V::Item as View>::V|
        views(by_both).contains(view) == views(by_first).union(views(by_second)).contains(view) by {
        lemma_views::<V>(items, both, by_both, view);
        lemma_views::<V>(items, one, by_first, view);
        lemma_views::<V>(items, two, by_second, view);
        if views(by_both).contains(view) {
            let k = choose|k: u64| #[trigger]
                both.to_set().contains(k) && view == V::shown(items[k]);
            assert(one.to_set().contains(k) || two.to_set().contains(k));
        }
        if views(by_first).contains(view) {
            let k = choose|k: u64| #[trigger]
                one.to_set().contains(k) && view == V::shown(items[k]);
            assert(both.to_set().contains(k));
        }
        if views(by_second).contains(view) {
            let k = choose|k: u64| #[trigger]
                two.to_set().contains(k) && view == V::shown(items[k]);
            assert(both.to_set().contains(k));
        }
    }
    assert(views(by_both) =~= views(by_first).union(views(by_second)));
}

/// When matching is decided, whatever is chosen by the same selectors is what a list shows.
pub proof fn law_choice_is_what_is_listed<Q, V: SelectedBy<Q> + Shown>(
    items: Map<u64, <V as View>::V>,
    selectors: Seq<Q>,
    listed: Seq<V::Item>,
    walk: Seq<u64>,
)
    requires
        keyed::<V>(items),
        decided::<Q, V>(items, selectors),
        is_list::<Q, V>(items, selectors, listed),
        is_walk::<Q, V>(items, selectors, walk),
    ensures
        walk.len() == listed.len(),
        walk.to_set() == ids::<V>(listed).to_set(),
{
    let shown = choose|walk: Seq<u64>| #[trigger]
        is_walk::<Q, V>(items, selectors, walk) && shows::<V>(items, walk, listed);
    lemma_ids::<Q, V>(items, selectors, shown, listed);
    law_selections_agree::<Q, V>(items, selectors, walk.to_set(), shown.to_set());
    walk.unique_seq_to_set();
    shown.unique_seq_to_set();
}

/// When matching is decided, a list of services holds one copy, as it stands, of each service that
/// matches any of the selectors, and nothing else.
pub proof fn law_service_list_is_exact<X: Taxonomy, A>(
    registry: Registry<X, A>,
    selectors: Seq<X::ServiceSelector>,
    listed: Seq<Service<X::Getter, X::Setter>>,
)
    requires
        registry.consistent(),
        decided::<X::ServiceSelector, ServiceData<X>>(registry.services, selectors),
        registry.may_list_services(selectors, listed),
    ensures
        ids::<ServiceData<X>>(listed).no_duplicates(),
        ids::<ServiceData<X>>(listed).to_set() == matching::<X::ServiceSelector, ServiceData<X>>(
            registry.services,
            selectors,
        ),
        forall|i: int|
            #![trigger listed[i]]
            0 <= i < listed.len() ==> listed[i]@ == registry.services[listed[i]@.id],
{
    law_list_is_exact::<X::ServiceSelector, ServiceData<X>>(registry.services, selectors, listed);
}

/// When matching is decided, listing services by two lists of selectors joined shows what either of
/// the two lists shows.
pub proof fn law_joined_service_list_is_the_union<X: Taxonomy, A>(
    registry: Registry<X, A>,
    first: Seq<X::ServiceSelector>,
    second: Seq<X::ServiceSelector>,
    by_both: Seq<Service<X::Getter, X::Setter>>,
    by_first: Seq<Service<X::Getter, X::Setter>>,
    by_second: Seq<Service<X::Getter, X::Setter>>,
)
    requires
        decided::<X::ServiceSelector, ServiceData<X>>(registry.services, first + second),
        registry.may_list_services(first + second, by_both),
        registry.may_list_services(first, by_first),
        registry.may_list_services(second, by_second),
    ensures
        views(by_both) == views(by_first).union(views(by_second)),
{
    law_joined_list_is_the_union::<X::ServiceSelector, ServiceData<X>>(
        registry.services,
        first,
        second,
        by_both,
        by_first,
        by_second,
    );
}

/// When matching is decided, adding tags to services, or removing them, counts what a list taken
/// just before shows; it changes the tags of the services in the list, and nothing else.
pub proof fn law_service_tags_change_what_is_listed<X: Taxonomy, A>(
    registry: Registry<X, A>,
    selectors: Seq<X::ServiceSelector>,
    listed: Seq<Service<X::Getter, X::Setter>>,
    tags: Seq<TagId>,
    count: usize,
    after: Registry<X, A>,
)
    requires
        registry.consistent(),
        decided::<X::ServiceSelector, ServiceData<X>>(registry.services, selectors),
        registry.may_list_services(selectors, listed),
    ensures
        registry.may_tag_services(selectors, tags, count, after) ==> {
            &&& count == listed.len()
            &&& after == registry.tag_services(
                ids::<ServiceData<X>>(listed).to_set(),
                tags.to_set(),
            )
        },
        registry.may_untag_services(selectors, tags, count, after) ==> {
            &&& count == listed.len()
            &&& after == registry.untag_services(
                ids::<ServiceData<X>>(listed).to_set(),
                tags.to_set(),
            )
        },
{
    assert forall|walk: Seq<u64>| #[trigger] registry.services_chosen(selectors, walk) implies {
        &&& walk.len() == listed.len()
        &&& walk.to_set() == ids::<ServiceData<X>>(listed).to_set()
    } by {
        law_choice_is_what_is_listed::<X::ServiceSelector, ServiceData<X>>(
            registry.services,
            selectors,
            listed,
            walk,
        );
    }
}

/// When matching is decided, a list of getters holds one copy, as it stands, of each getter that
/// matches any of the selectors, and nothing else.
pub proof fn law_getter_list_is_exact<X: Taxonomy, A>(
    registry: Registry<X, A>,
    selectors: Seq<X::GetterSelector>,
    listed: Seq<Channel<X::Getter>>,
)
    requires
        registry.consistent(),
        decided::<X::GetterSelector, GetterData<X>>(registry.getters, selectors),
        registry.may_list_getters(selectors, listed),
    ensures
        ids::<GetterData<X>>(listed).no_duplicates(),
        ids::<GetterData<X>>(listed).to_set() == matching::<X::GetterSelector, GetterData<X>>(
            registry.getters,
            selectors,
        ),
        forall|i: int|
            #![trigger listed[i]]
            0 <= i < listed.len() ==> listed[i]@ == registry.getters[listed[i]@.id].channel,
{
    law_list_is_exact::<X::GetterSelector, GetterData<X>>(registry.getters, selectors, listed);
}

/// When matching is decided, listing getters by two lists of selectors joined shows what either of
/// the two lists shows.
pub proof fn law_joined_getter_list_is_the_union<X: Taxonomy, A>(
    registry: Registry<X, A>,
    first: Seq<X::GetterSelector>,
    second: Seq<X::GetterSelector>,
    by_both: Seq<Channel<X::Getter>>,
    by_first: Seq<Channel<X::Getter>>,
    by_second: Seq<Channel<X::Getter>>,
)
    requires
        decided::<X::GetterSelector, GetterData<X>>(registry.getters, first + second),
        registry.may_list_getters(first + second, by_both),
        registry.may_list_getters(first, by_first),
        registry.may_list_getters(second, by_second),
    ensures
        views(by_both) == views(by_first).union(views(by_second)),
{
    law_joined_list_is_the_union::<X::GetterSelector, GetterData<X>>(
        registry.getters,
        first,
        second,
        by_both,
        by_first,
        by_second,
    );
}

/// When matching is decided, adding tags to getters, or removing them, counts what a list taken
/// just before shows; it changes the tags of the getters in the list, and nothing else.
pub proof fn law_getter_tags_change_what_is_listed<X: Taxonomy, A>(
    registry: Registry<X, A>,
    selectors: Seq<X::GetterSelector>,
    listed: Seq<Channel<X::Getter>>,
    tags: Seq<TagId>,
    count: usize,
    after: Registry<X, A>,
)
    requires
        registry.consistent(),
        decided::<X::GetterSelector, GetterData<X>>(registry.getters, selectors),
        registry.may_list_getters(selectors, listed),
    ensures
        registry.may_tag_getters(selectors, tags, count, after) ==> {
            &&& count == listed.len()
            &&& after == registry.tag_getters(
                ids::<GetterData<X>>(listed).to_set(),
                tags.to_set(),
            )
        },
        registry.may_untag_getters(selectors, tags, count, after) ==> {
            &&& count == listed.len()
            &&& after == registry.untag_getters(
                ids::<GetterData<X>>(listed).to_set(),
                tags.to_set(),
            )
        },
{
    assert forall|walk: Seq<u64>| #[trigger] registry.getters_chosen(selectors, walk) implies {
        &&& walk.len() == listed.len()
        &&& walk.to_set() == ids::<GetterData<X>>(listed).to_set()
    } by {
        law_choice_is_what_is_listed::<X::GetterSelector, GetterData<X>>(
            registry.getters,
            selectors,
            listed,
            walk,
        );
    }
}

/// When matching is decided, a list of setters holds one copy, as it stands, of each setter that
/// matches any of the selectors, and nothing else.
pub proof fn law_setter_list_is_exact<X: Taxonomy, A>(
    registry: Registry<X, A>,
    selectors: Seq<X::SetterSelector>,
    listed: Seq<Channel<X::Setter>>,
)
    requires
        registry.consistent(),
        decided::<X::SetterSelector, SetterData<X>>(registry.setters, selectors),
        registry.may_list_setters(selectors, listed),
    ensures
        ids::<SetterData<X>>(listed).no_duplicates(),
        ids::<SetterData<X>>(listed).to_set() == matching::<X::SetterSelector, SetterData<X>>(
            registry.setters,
            selectors,
        ),
        forall|i: int|
            #![trigger listed[i]]
            0 <= i < listed.len() ==> listed[i]@ == registry.setters[listed[i]@.id],
{
    law_list_is_exact::<X::SetterSelector, SetterData<X>>(registry.setters, selectors, listed);
}

/// When matching is decided, listing setters by two lists of selectors joined shows what either of
/// the two lists shows.
pub proof fn law_joined_setter_list_is_the_union<X: Taxonomy, A>(
    registry: Registry<X, A>,
    first: Seq<X::SetterSelector>,
    second: Seq<X::SetterSelector>,
    by_both: Seq<Channel<X::Setter>>,
    by_first: Seq<Channel<X::Setter>>,
    by_second: Seq<Channel<X::Setter>>,
)
    requires
        decided::<X::SetterSelector, SetterData<X>>(registry.setters, first + second),
        registry.may_list_setters(first + second, by_both),
        registry.may_list_setters(first, by_first),
        registry.may_list_setters(second, by_second),
    ensures
        views(by_both) == views(by_first).union(views(by_second)),
{
    law_joined_list_is_the_union::<X::SetterSelector, SetterData<X>>(
        registry.setters,
        first,
        second,
        by_both,
        by_first,
        by_second,
    );
}

/// When matching is decided, adding tags to setters, or removing them, counts what a list taken
/// just before shows; it changes the tags of the setters in the list, and nothing else.
pub proof fn law_setter_tags_change_what_is_listed<X: Taxonomy, A>(
    registry: Registry<X, A>,
    selectors: Seq<X::SetterSelector>,
    listed: Seq<Channel<X::Setter>>,
    tags: Seq<TagId>,
    count: usize,
    after: Registry<X, A>,
)
    requires
        registry.consistent(),
        decided::<X::SetterSelector, SetterData<X>>(registry.setters, selectors),
        registry.may_list_setters(selectors, listed),
    ensures
        registry.may_tag_setters(selectors, tags, count, after) ==> {
            &&& count == listed.len()
            &&& after == registry.tag_setters(
                ids::<SetterData<X>>(listed).to_set(),
                tags.to_set(),
            )
        },
        registry.may_untag_setters(selectors, tags, count, after) ==> {
            &&& count == listed.len()
            &&& after == registry.untag_setters(
                ids::<SetterData<X>>(listed).to_set(),
                tags.to_set(),
            )
        },
{
    assert forall|walk: Seq<u64>| #[trigger] registry.setters_chosen(selectors, walk) implies {
        &&& walk.len() == listed.len()
        &&& walk.to_set() == ids::<SetterData<X>>(listed).to_set()
    } by {
        law_choice_is_what_is_listed::<X::SetterSelector, SetterData<X>>(
            registry.setters,
            selectors,
            listed,
            walk,
        );
    }
}

} // verus!
