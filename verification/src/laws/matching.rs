//! What matching by selectors comes to, in lists and in changes of tags, told by the answers that
//! the taxonomy gives.
use vstd::prelude::*;

use crate::adapter::Taxonomy;
use crate::data::{GetterData, ServiceData, SetterData};
use crate::model::Registry;
use crate::selection::{is_walk, shows, SelectedBy};
use crate::types::{
    Channel, ChannelView, GetterId, Service, ServiceId, ServiceView, SetterId, TagId,
};

verus! {

/// Whether the taxonomy says that a selector chooses a service is told by `m`.
pub open spec fn decides_services<X: Taxonomy>(
    m: spec_fn(ServiceView<X::Getter, X::Setter>, X::ServiceSelector) -> bool,
) -> bool {
    forall|s: Service<X::Getter, X::Setter>, q: X::ServiceSelector, answer: bool| #[trigger]
        call_ensures(X::service_matches, (&s, &q), answer) ==> answer == m(s@, q)
}

/// Whether the taxonomy says that a selector chooses a getter is told by `m`.
pub open spec fn decides_getters<X: Taxonomy>(
    m: spec_fn(ChannelView<X::Getter>, X::GetterSelector) -> bool,
) -> bool {
    forall|c: Channel<X::Getter>, q: X::GetterSelector, answer: bool| #[trigger]
        call_ensures(X::getter_matches, (&c, &q), answer) ==> answer == m(c@, q)
}

/// Whether the taxonomy says that a selector chooses a setter is told by `m`.
pub open spec fn decides_setters<X: Taxonomy>(
    m: spec_fn(ChannelView<X::Setter>, X::SetterSelector) -> bool,
) -> bool {
    forall|c: Channel<X::Setter>, q: X::SetterSelector, answer: bool| #[trigger]
        call_ensures(X::setter_matches, (&c, &q), answer) ==> answer == m(c@, q)
}

/// Some of the selectors chooses the item, where `m` tells which do.
pub open spec fn wanted<C, Q>(m: spec_fn(C, Q) -> bool, item: C, selectors: Seq<Q>) -> bool {
    exists|i: int| 0 <= i < selectors.len() && m(item, #[trigger] selectors[i])
}

/// The services that some of the selectors chooses, each once.
pub proof fn lemma_services_wanted<X: Taxonomy, A>(
    registry: Registry<X, A>,
    m: spec_fn(ServiceView<X::Getter, X::Setter>, X::ServiceSelector) -> bool,
    selectors: Seq<X::ServiceSelector>,
    walk: Seq<ServiceId>,
)
    requires
        decides_services::<X>(m),
        registry.services_chosen(selectors, walk),
    ensures
        walk.no_duplicates(),
        forall|s: ServiceId| #[trigger]
            walk.contains(s) <==> registry.services.contains_key(s) && wanted(
                m,
                registry.services[s],
                selectors,
            ),
{
    assert forall|s: ServiceId| #[trigger]
        walk.contains(s) <==> registry.services.contains_key(s) && wanted(
            m,
            registry.services[s],
            selectors,
        ) by {
        assert(walk.to_set().contains(s) == walk.contains(s));
        if walk.contains(s) {
            let i = choose|i: int|
                0 <= i < selectors.len() && <ServiceData<X> as SelectedBy<
                    X::ServiceSelector,
                >>::answers(registry.services[s], #[trigger] selectors[i], true);
            assert(m(registry.services[s], selectors[i]));
        } else if registry.services.contains_key(s) && wanted(
            m,
            registry.services[s],
            selectors,
        ) {
            let i = choose|i: int|
                0 <= i < selectors.len() && m(registry.services[s], #[trigger] selectors[i]);
            assert(<ServiceData<X> as SelectedBy<X::ServiceSelector>>::answers(
                registry.services[s],
                selectors[i],
                false,
            ));
        }
    }
}

/// The getters that some of the selectors chooses, each once.
pub proof fn lemma_getters_wanted<X: Taxonomy, A>(
    registry: Registry<X, A>,
    m: spec_fn(ChannelView<X::Getter>, X::GetterSelector) -> bool,
    selectors: Seq<X::GetterSelector>,
    walk: Seq<GetterId>,
)
    requires
        decides_getters::<X>(m),
        registry.getters_chosen(selectors, walk),
    ensures
        walk.no_duplicates(),
        forall|g: GetterId| #[trigger]
            walk.contains(g) <==> registry.getters.contains_key(g) && wanted(
                m,
                registry.getters[g].channel,
                selectors,
            ),
{
    assert forall|g: GetterId| #[trigger]
        walk.contains(g) <==> registry.getters.contains_key(g) && wanted(
            m,
            registry.getters[g].channel,
            selectors,
        ) by {
        assert(walk.to_set().contains(g) == walk.contains(g));
        if walk.contains(g) {
            let i = choose|i: int|
                0 <= i < selectors.len() && <GetterData<X> as SelectedBy<
                    X::GetterSelector,
                >>::answers(registry.getters[g], #[trigger] selectors[i], true);
            assert(m(registry.getters[g].channel, selectors[i]));
        } else if registry.getters.contains_key(g) && wanted(
            m,
            registry.getters[g].channel,
            selectors,
        ) {
            let i = choose|i: int|
                0 <= i < selectors.len() && m(registry.getters[g].channel, #[trigger] selectors[i]);
            assert(<GetterData<X> as SelectedBy<X::GetterSelector>>::answers(
                registry.getters[g],
                selectors[i],
                false,
            ));
        }
    }
}

/// The setters that some of the selectors chooses, each once.
pub proof fn lemma_setters_wanted<X: Taxonomy, A>(
    registry: Registry<X, A>,
    m: spec_fn(ChannelView<X::Setter>, X::SetterSelector) -> bool,
    selectors: Seq<X::SetterSelector>,
    walk: Seq<SetterId>,
)
    requires
        decides_setters::<X>(m),
        registry.setters_chosen(selectors, walk),
    ensures
        walk.no_duplicates(),
        forall|t: SetterId| #[trigger]
            walk.contains(t) <==> registry.setters.contains_key(t) && wanted(
                m,
                registry.setters[t],
                selectors,
            ),
{
    assert forall|t: SetterId| #[trigger]
        walk.contains(t) <==> registry.setters.contains_key(t) && wanted(
            m,
            registry.setters[t],
            selectors,
        ) by {
        assert(walk.to_set().contains(t) == walk.contains(t));
        if walk.contains(t) {
            let i = choose|i: int|
                0 <= i < selectors.len() && <SetterData<X> as SelectedBy<
                    X::SetterSelector,
                >>::answers(registry.setters[t], #[trigger] selectors[i], true);
            assert(m(registry.setters[t], selectors[i]));
        } else if registry.setters.contains_key(t) && wanted(
            m,
            registry.setters[t],
            selectors,
        ) {
            let i = choose|i: int|
                0 <= i < selectors.len() && m(registry.setters[t], #[trigger] selectors[i]);
            assert(<SetterData<X> as SelectedBy<X::SetterSelector>>::answers(
                registry.setters[t],
                selectors[i],
                false,
            ));
        }
    }
}

/// The taxonomy can give this answer when it is asked whether a selector chooses a service.
pub open spec fn service_can_be<X: Taxonomy>(
    service: ServiceView<X::Getter, X::Setter>,
    selector: X::ServiceSelector,
    answer: bool,
) -> bool {
    exists|item: Service<X::Getter, X::Setter>|
        item@ == service && #[trigger] call_ensures(X::service_matches, (&item, &selector), answer)
}

/// A service of the registry is listed if for some of the selectors the taxonomy cannot answer that
/// it does not match, and only if for some of them it can answer that it does. What is listed is
/// registered, as it stands, and is listed once.
pub proof fn law_service_is_listed_as_it_matches<X: Taxonomy, A>(
    registry: Registry<X, A>,
    selectors: Seq<X::ServiceSelector>,
    listed: Seq<Service<X::Getter, X::Setter>>,
)
    requires
        registry.consistent(),
        registry.may_list_services(selectors, listed),
    ensures
        forall|i: int, j: int|
            #![trigger listed[i], listed[j]]
            0 <= i < j < listed.len() ==> listed[i]@.id != listed[j]@.id,
        forall|i: int|
            #![trigger listed[i]]
            0 <= i < listed.len() ==> {
                &&& registry.services.contains_key(listed[i]@.id)
                &&& listed[i]@ == registry.services[listed[i]@.id]
                &&& exists|n: int|
                    0 <= n < selectors.len() && service_can_be::<X>(
                        listed[i]@,
                        #[trigger] selectors[n],
                        true,
                    )
            },
        forall|s: ServiceId, n: int|
            #![trigger registry.services.contains_key(s), selectors[n]]
            registry.services.contains_key(s) && 0 <= n < selectors.len() && !service_can_be::<X>(
                registry.services[s],
                selectors[n],
                false,
            ) ==> exists|i: int| 0 <= i < listed.len() && (#[trigger] listed[i])@.id == s,
{
    let walk = choose|walk: Seq<u64>| #[trigger]
        is_walk::<X::ServiceSelector, ServiceData<X>>(registry.services, selectors, walk)
            && shows::<ServiceData<X>>(registry.services, walk, listed);
    assert forall|i: int|
        #![trigger listed[i]]
        0 <= i < listed.len() implies {
        &&& listed[i]@.id == walk[i]
        &&& registry.services.contains_key(listed[i]@.id)
        &&& listed[i]@ == registry.services[listed[i]@.id]
        &&& exists|n: int|
            0 <= n < selectors.len() && service_can_be::<X>(
                listed[i]@,
                #[trigger] selectors[n],
                true,
            )
    } by {
        assert(walk.to_set().contains(walk[i]));
        assert(registry.services.contains_key(walk[i]));
        let n = choose|n: int|
            0 <= n < selectors.len() && <ServiceData<X> as SelectedBy<X::ServiceSelector>>::answers(
                registry.services[walk[i]],
                #[trigger] selectors[n],
                true,
            );
        assert(service_can_be::<X>(listed[i]@, selectors[n], true));
    }
    assert forall|s: ServiceId, n: int|
        #![trigger registry.services.contains_key(s), selectors[n]]
        registry.services.contains_key(s) && 0 <= n < selectors.len() && !service_can_be::<X>(
            registry.services[s],
            selectors[n],
            false,
        ) implies exists|i: int| 0 <= i < listed.len() && (#[trigger] listed[i])@.id == s by {
        if !walk.to_set().contains(s) {
            assert(<ServiceData<X> as SelectedBy<X::ServiceSelector>>::answers(
                registry.services[s],
                selectors[n],
                false,
            ));
        }
        let i = choose|i: int| 0 <= i < walk.len() && walk[i] == s;
        assert(listed[i]@.id == s);
    }
}

/// `listed` holds one copy, as it stands, of each service that matches some of the selectors, and
/// nothing else.
pub open spec fn services_listed_exactly<X: Taxonomy, A>(
    registry: Registry<X, A>,
    m: spec_fn(ServiceView<X::Getter, X::Setter>, X::ServiceSelector) -> bool,
    selectors: Seq<X::ServiceSelector>,
    listed: Seq<Service<X::Getter, X::Setter>>,
) -> bool {
    &&& forall|i: int, j: int|
        #![trigger listed[i], listed[j]]
        0 <= i < j < listed.len() ==> listed[i]@.id != listed[j]@.id
    &&& forall|i: int|
        #![trigger listed[i]]
        0 <= i < listed.len() ==> {
            &&& registry.services.contains_key(listed[i]@.id)
            &&& listed[i]@ == registry.services[listed[i]@.id]
        }
    &&& forall|s: ServiceId| #[trigger]
        registry.services.contains_key(s) ==> ((exists|i: int|
            0 <= i < listed.len() && (#[trigger] listed[i])@.id == s) <==> wanted(
            m,
            registry.services[s],
            selectors,
        ))
}

/// Where `m` tells which services match, a list holds each service that matches some of the
/// selectors, and nothing else.
pub proof fn law_services_listed_are_those_that_match<X: Taxonomy, A>(
    registry: Registry<X, A>,
    m: spec_fn(ServiceView<X::Getter, X::Setter>, X::ServiceSelector) -> bool,
    selectors: Seq<X::ServiceSelector>,
    listed: Seq<Service<X::Getter, X::Setter>>,
)
    requires
        registry.consistent(),
        decides_services::<X>(m),
        registry.may_list_services(selectors, listed),
    ensures
        services_listed_exactly(registry, m, selectors, listed),
{
    law_service_is_listed_as_it_matches(registry, selectors, listed);
    assert forall|s: ServiceId| #[trigger]
        registry.services.contains_key(s) implies ((exists|i: int|
        0 <= i < listed.len() && (#[trigger] listed[i])@.id == s) <==> wanted(
        m,
        registry.services[s],
        selectors,
    )) by {
        if exists|i: int| 0 <= i < listed.len() && (#[trigger] listed[i])@.id == s {
            let i = choose|i: int| 0 <= i < listed.len() && (#[trigger] listed[i])@.id == s;
            let n = choose|n: int|
                0 <= n < selectors.len() && service_can_be::<X>(
                    listed[i]@,
                    #[trigger] selectors[n],
                    true,
                );
            assert(m(registry.services[s], selectors[n]));
        }
        if wanted(m, registry.services[s], selectors) {
            let n = choose|n: int|
                0 <= n < selectors.len() && m(registry.services[s], #[trigger] selectors[n]);
            assert(!service_can_be::<X>(registry.services[s], selectors[n], false));
        }
    }
}

/// Each service that matches some of the selectors has gained the tags, `count` is the number of
/// these services, and nothing else has changed.
pub open spec fn services_tagged_exactly<X: Taxonomy, A>(
    registry: Registry<X, A>,
    m: spec_fn(ServiceView<X::Getter, X::Setter>, X::ServiceSelector) -> bool,
    selectors: Seq<X::ServiceSelector>,
    tags: Seq<TagId>,
    count: usize,
    after: Registry<X, A>,
) -> bool {
    &&& count == Set::new(
        |s: ServiceId|
            registry.services.contains_key(s) && wanted(m, registry.services[s], selectors),
    ).len()
    &&& after.services.dom() == registry.services.dom()
    &&& forall|s: ServiceId| #[trigger]
        registry.services.contains_key(s) ==> {
            let before = registry.services[s];
            let now = after.services[s];
            &&& forall|tag: TagId| #[trigger]
                now.tags.contains(tag) <==> {
                    ||| before.tags.contains(tag)
                    ||| wanted(m, before, selectors) && tags.contains(tag)
                }
            &&& now.id == before.id
            &&& now.adapter == before.adapter
            &&& now.getters == before.getters
            &&& now.setters == before.setters
        }
    &&& after.adapters == registry.adapters
    &&& after.getters == registry.getters
    &&& after.setters == registry.setters
    &&& after.watches == registry.watches
}

/// Adding tags to services gives them to each service that matches some of the selectors, counts
/// these services, and changes nothing else.
pub proof fn law_services_that_match_are_tagged<X: Taxonomy, A>(
    registry: Registry<X, A>,
    m: spec_fn(ServiceView<X::Getter, X::Setter>, X::ServiceSelector) -> bool,
    selectors: Seq<X::ServiceSelector>,
    tags: Seq<TagId>,
    count: usize,
    after: Registry<X, A>,
)
    requires
        decides_services::<X>(m),
        registry.may_tag_services(selectors, tags, count, after),
    ensures
        services_tagged_exactly(registry, m, selectors, tags, count, after),
{
    let walk = choose|walk: Seq<ServiceId>| #[trigger]
        registry.services_chosen(selectors, walk) && count == walk.len() && after
            == registry.tag_services(walk.to_set(), tags.to_set());
    lemma_services_wanted(registry, m, selectors, walk);
    let chosen = Set::new(
        |s: ServiceId|
            registry.services.contains_key(s) && wanted(m, registry.services[s], selectors),
    );
    assert forall|s: ServiceId| walk.to_set().contains(s) == chosen.contains(s) by {
        assert(walk.to_set().contains(s) == walk.contains(s));
    }
    assert(walk.to_set() =~= chosen);
    walk.unique_seq_to_set();
    assert(after.services.dom() =~= registry.services.dom());
    assert forall|tag: TagId| #[trigger] tags.to_set().contains(tag) == tags.contains(tag) by {}
}

/// Each service that matches some of the selectors has lost the tags, `count` is the number of
/// these services, and nothing else has changed.
pub open spec fn services_untagged_exactly<X: Taxonomy, A>(
    registry: Registry<X, A>,
    m: spec_fn(ServiceView<X::Getter, X::Setter>, X::ServiceSelector) -> bool,
    selectors: Seq<X::ServiceSelector>,
    tags: Seq<TagId>,
    count: usize,
    after: Registry<X, A>,
) -> bool {
    &&& count == Set::new(
        |s: ServiceId|
            registry.services.contains_key(s) && wanted(m, registry.services[s], selectors),
    ).len()
    &&& after.services.dom() == registry.services.dom()
    &&& forall|s: ServiceId| #[trigger]
        registry.services.contains_key(s) ==> {
            let before = registry.services[s];
            let now = after.services[s];
            &&& forall|tag: TagId| #[trigger]
                now.tags.contains(tag) <==> {
                    &&& before.tags.contains(tag)
                    &&& !(wanted(m, before, selectors) && tags.contains(tag))
                }
            &&& now.id == before.id
            &&& now.adapter == before.adapter
            &&& now.getters == before.getters
            &&& now.setters == before.setters
        }
    &&& after.adapters == registry.adapters
    &&& after.getters == registry.getters
    &&& after.setters == registry.setters
    &&& after.watches == registry.watches
}

/// Removing tags from services takes them from each service that matches some of the selectors,
/// counts these services, and changes nothing else.
pub proof fn law_services_that_match_are_untagged<X: Taxonomy, A>(
    registry: Registry<X, A>,
    m: spec_fn(ServiceView<X::Getter, X::Setter>, X::ServiceSelector) -> bool,
    selectors: Seq<X::ServiceSelector>,
    tags: Seq<TagId>,
    count: usize,
    after: Registry<X, A>,
)
    requires
        decides_services::<X>(m),
        registry.may_untag_services(selectors, tags, count, after),
    ensures
        services_untagged_exactly(registry, m, selectors, tags, count, after),
{
    let walk = choose|walk: Seq<ServiceId>| #[trigger]
        registry.services_chosen(selectors, walk) && count == walk.len() && after
            == registry.untag_services(walk.to_set(), tags.to_set());
    lemma_services_wanted(registry, m, selectors, walk);
    let chosen = Set::new(
        |s: ServiceId|
            registry.services.contains_key(s) && wanted(m, registry.services[s], selectors),
    );
    assert forall|s: ServiceId| walk.to_set().contains(s) == chosen.contains(s) by {
        assert(walk.to_set().contains(s) == walk.contains(s));
    }
    assert(walk.to_set() =~= chosen);
    walk.unique_seq_to_set();
    assert(after.services.dom() =~= registry.services.dom());
    assert forall|tag: TagId| #[trigger] tags.to_set().contains(tag) == tags.contains(tag) by {}
}

/// The taxonomy can give this answer when it is asked whether a selector chooses a getter.
pub open spec fn getter_can_be<X: Taxonomy>(
    getter: ChannelView<X::Getter>,
    selector: X::GetterSelector,
    answer: bool,
) -> bool {
    exists|item: Channel<X::Getter>|
        item@ == getter && #[trigger] call_ensures(X::getter_matches, (&item, &selector), answer)
}

/// A getter of the registry is listed if for some of the selectors the taxonomy cannot answer that
/// it does not match, and only if for some of them it can answer that it does. What is listed is
/// registered, as it stands, and is listed once.
pub proof fn law_getter_is_listed_as_it_matches<X: Taxonomy, A>(
    registry: Registry<X, A>,
    selectors: Seq<X::GetterSelector>,
    listed: Seq<Channel<X::Getter>>,
)
    requires
        registry.consistent(),
        registry.may_list_getters(selectors, listed),
    ensures
        forall|i: int, j: int|
            #![trigger listed[i], listed[j]]
            0 <= i < j < listed.len() ==> listed[i]@.id != listed[j]@.id,
        forall|i: int|
            #![trigger listed[i]]
            0 <= i < listed.len() ==> {
                &&& registry.getters.contains_key(listed[i]@.id)
                &&& listed[i]@ == registry.getters[listed[i]@.id].channel
                &&& exists|n: int|
                    0 <= n < selectors.len() && getter_can_be::<X>(
                        listed[i]@,
                        #[trigger] selectors[n],
                        true,
                    )
            },
        forall|g: GetterId, n: int|
            #![trigger registry.getters.contains_key(g), selectors[n]]
            registry.getters.contains_key(g) && 0 <= n < selectors.len() && !getter_can_be::<X>(
                registry.getters[g].channel,
                selectors[n],
                false,
            ) ==> exists|i: int| 0 <= i < listed.len() && (#[trigger] listed[i])@.id == g,
{
    let walk = choose|walk: Seq<u64>| #[trigger]
        is_walk::<X::GetterSelector, GetterData<X>>(registry.getters, selectors, walk)
            && shows::<GetterData<X>>(registry.getters, walk, listed);
    assert forall|i: int|
        #![trigger listed[i]]
        0 <= i < listed.len() implies {
        &&& listed[i]@.id == walk[i]
        &&& registry.getters.contains_key(listed[i]@.id)
        &&& listed[i]@ == registry.getters[listed[i]@.id].channel
        &&& exists|n: int|
            0 <= n < selectors.len() && getter_can_be::<X>(
                listed[i]@,
                #[trigger] selectors[n],
                true,
            )
    } by {
        assert(walk.to_set().contains(walk[i]));
        assert(registry.getters.contains_key(walk[i]));
        let n = choose|n: int|
            0 <= n < selectors.len() && <GetterData<X> as SelectedBy<X::GetterSelector>>::answers(
                registry.getters[walk[i]],
                #[trigger] selectors[n],
                true,
            );
        assert(getter_can_be::<X>(listed[i]@, selectors[n], true));
    }
    assert forall|g: GetterId, n: int|
        #![trigger registry.getters.contains_key(g), selectors[n]]
        registry.getters.contains_key(g) && 0 <= n < selectors.len() && !getter_can_be::<X>(
            registry.getters[g].channel,
            selectors[n],
            false,
        ) implies exists|i: int| 0 <= i < listed.len() && (#[trigger] listed[i])@.id == g by {
        if !walk.to_set().contains(g) {
            assert(<GetterData<X> as SelectedBy<X::GetterSelector>>::answers(
                registry.getters[g],
                selectors[n],
                false,
            ));
        }
        let i = choose|i: int| 0 <= i < walk.len() && walk[i] == g;
        assert(listed[i]@.id == g);
    }
}

/// `listed` holds one copy, as it stands, of each getter that matches some of the selectors, and
/// nothing else.
pub open spec fn getters_listed_exactly<X: Taxonomy, A>(
    registry: Registry<X, A>,
    m: spec_fn(ChannelView<X::Getter>, X::GetterSelector) -> bool,
    selectors: Seq<X::GetterSelector>,
    listed: Seq<Channel<X::Getter>>,
) -> bool {
    &&& forall|i: int, j: int|
        #![trigger listed[i], listed[j]]
        0 <= i < j < listed.len() ==> listed[i]@.id != listed[j]@.id
    &&& forall|i: int|
        #![trigger listed[i]]
        0 <= i < listed.len() ==> {
            &&& registry.getters.contains_key(listed[i]@.id)
            &&& listed[i]@ == registry.getters[listed[i]@.id].channel
        }
    &&& forall|g: GetterId| #[trigger]
        registry.getters.contains_key(g) ==> ((exists|i: int|
            0 <= i < listed.len() && (#[trigger] listed[i])@.id == g) <==> wanted(
            m,
            registry.getters[g].channel,
            selectors,
        ))
}

/// Where `m` tells which getters match, a list holds each getter that matches some of the
/// selectors, and nothing else.
pub proof fn law_getters_listed_are_those_that_match<X: Taxonomy, A>(
    registry: Registry<X, A>,
    m: spec_fn(ChannelView<X::Getter>, X::GetterSelector) -> bool,
    selectors: Seq<X::GetterSelector>,
    listed: Seq<Channel<X::Getter>>,
)
    requires
        registry.consistent(),
        decides_getters::<X>(m),
        registry.may_list_getters(selectors, listed),
    ensures
        getters_listed_exactly(registry, m, selectors, listed),
{
    law_getter_is_listed_as_it_matches(registry, selectors, listed);
    assert forall|g: GetterId| #[trigger] registry.getters.contains_key(g) implies ((exists|i: int|
        0 <= i < listed.len() && (#[trigger] listed[i])@.id == g) <==> wanted(
        m,
        registry.getters[g].channel,
        selectors,
    )) by {
        if exists|i: int| 0 <= i < listed.len() && (#[trigger] listed[i])@.id == g {
            let i = choose|i: int| 0 <= i < listed.len() && (#[trigger] listed[i])@.id == g;
            let n = choose|n: int|
                0 <= n < selectors.len() && getter_can_be::<X>(
                    listed[i]@,
                    #[trigger] selectors[n],
                    true,
                );
            assert(m(registry.getters[g].channel, selectors[n]));
        }
        if wanted(m, registry.getters[g].channel, selectors) {
            let n = choose|n: int|
                0 <= n < selectors.len() && m(registry.getters[g].channel, #[trigger] selectors[n]);
            assert(!getter_can_be::<X>(registry.getters[g].channel, selectors[n], false));
        }
    }
}

/// Each getter that matches some of the selectors has gained the tags, `count` is the number of
/// these getters, and nothing else has changed.
pub open spec fn getters_tagged_exactly<X: Taxonomy, A>(
    registry: Registry<X, A>,
    m: spec_fn(ChannelView<X::Getter>, X::GetterSelector) -> bool,
    selectors: Seq<X::GetterSelector>,
    tags: Seq<TagId>,
    count: usize,
    after: Registry<X, A>,
) -> bool {
    &&& count == Set::new(
        |g: GetterId|
            registry.getters.contains_key(g) && wanted(m, registry.getters[g].channel, selectors),
    ).len()
    &&& after.getters.dom() == registry.getters.dom()
    &&& forall|g: GetterId| #[trigger]
        registry.getters.contains_key(g) ==> {
            let before = registry.getters[g].channel;
            let now = after.getters[g].channel;
            &&& forall|tag: TagId| #[trigger]
                now.tags.contains(tag) <==> {
                    ||| before.tags.contains(tag)
                    ||| wanted(m, before, selectors) && tags.contains(tag)
                }
            &&& now.id == before.id
            &&& now.service == before.service
            &&& now.adapter == before.adapter
            &&& now.mechanism == before.mechanism
            &&& after.getters[g].watchers == registry.getters[g].watchers
        }
    &&& after.adapters == registry.adapters
    &&& after.services == registry.services
    &&& after.setters == registry.setters
    &&& after.watches == registry.watches
}

/// Adding tags to getters gives them to each getter that matches some of the selectors, counts
/// these getters, and changes nothing else.
pub proof fn law_getters_that_match_are_tagged<X: Taxonomy, A>(
    registry: Registry<X, A>,
    m: spec_fn(ChannelView<X::Getter>, X::GetterSelector) -> bool,
    selectors: Seq<X::GetterSelector>,
    tags: Seq<TagId>,
    count: usize,
    after: Registry<X, A>,
)
    requires
        decides_getters::<X>(m),
        registry.may_tag_getters(selectors, tags, count, after),
    ensures
        getters_tagged_exactly(registry, m, selectors, tags, count, after),
{
    let walk = choose|walk: Seq<GetterId>| #[trigger]
        registry.getters_chosen(selectors, walk) && count == walk.len() && after
            == registry.tag_getters(walk.to_set(), tags.to_set());
    lemma_getters_wanted(registry, m, selectors, walk);
    let chosen = Set::new(
        |g: GetterId|
            registry.getters.contains_key(g) && wanted(m, registry.getters[g].channel, selectors),
    );
    assert forall|g: GetterId| walk.to_set().contains(g) == chosen.contains(g) by {
        assert(walk.to_set().contains(g) == walk.contains(g));
    }
    assert(walk.to_set() =~= chosen);
    walk.unique_seq_to_set();
    assert(after.getters.dom() =~= registry.getters.dom());
    assert forall|tag: TagId| #[trigger] tags.to_set().contains(tag) == tags.contains(tag) by {}
}

/// Each getter that matches some of the selectors has lost the tags, `count` is the number of
/// these getters, and nothing else has changed.
pub open spec fn getters_untagged_exactly<X: Taxonomy, A>(
    registry: Registry<X, A>,
    m: spec_fn(ChannelView<X::Getter>, X::GetterSelector) -> bool,
    selectors: Seq<X::GetterSelector>,
    tags: Seq<TagId>,
    count: usize,
    after: Registry<X, A>,
) -> bool {
    &&& count == Set::new(
        |g: GetterId|
            registry.getters.contains_key(g) && wanted(m, registry.getters[g].channel, selectors),
    ).len()
    &&& after.getters.dom() == registry.getters.dom()
    &&& forall|g: GetterId| #[trigger]
        registry.getters.contains_key(g) ==> {
            let before = registry.getters[g].channel;
            let now = after.getters[g].channel;
            &&& forall|tag: TagId| #[trigger]
                now.tags.contains(tag) <==> {
                    &&& before.tags.contains(tag)
                    &&& !(wanted(m, before, selectors) && tags.contains(tag))
                }
            &&& now.id == before.id
            &&& now.service == before.service
            &&& now.adapter == before.adapter
            &&& now.mechanism == before.mechanism
            &&& after.getters[g].watchers == registry.getters[g].watchers
        }
    &&& after.adapters == registry.adapters
    &&& after.services == registry.services
    &&& after.setters == registry.setters
    &&& after.watches == registry.watches
}

/// Removing tags from getters takes them from each getter that matches some of the selectors,
/// counts these getters, and changes nothing else.
pub proof fn law_getters_that_match_are_untagged<X: Taxonomy, A>(
    registry: Registry<X, A>,
    m: spec_fn(ChannelView<X::Getter>, X::GetterSelector) -> bool,
    selectors: Seq<X::GetterSelector>,
    tags: Seq<TagId>,
    count: usize,
    after: Registry<X, A>,
)
    requires
        decides_getters::<X>(m),
        registry.may_untag_getters(selectors, tags, count, after),
    ensures
        getters_untagged_exactly(registry, m, selectors, tags, count, after),
{
    let walk = choose|walk: Seq<GetterId>| #[trigger]
        registry.getters_chosen(selectors, walk) && count == walk.len() && after
            == registry.untag_getters(walk.to_set(), tags.to_set());
    lemma_getters_wanted(registry, m, selectors, walk);
    let chosen = Set::new(
        |g: GetterId|
            registry.getters.contains_key(g) && wanted(m, registry.getters[g].channel, selectors),
    );
    assert forall|g: GetterId| walk.to_set().contains(g) == chosen.contains(g) by {
        assert(walk.to_set().contains(g) == walk.contains(g));
    }
    assert(walk.to_set() =~= chosen);
    walk.unique_seq_to_set();
    assert(after.getters.dom() =~= registry.getters.dom());
    assert forall|tag: TagId| #[trigger] tags.to_set().contains(tag) == tags.contains(tag) by {}
}

/// The taxonomy can give this answer when it is asked whether a selector chooses a setter.
pub open spec fn setter_can_be<X: Taxonomy>(
    setter: ChannelView<X::Setter>,
    selector: X::SetterSelector,
    answer: bool,
) -> bool {
    exists|item: Channel<X::Setter>|
        item@ == setter && #[trigger] call_ensures(X::setter_matches, (&item, &selector), answer)
}

/// A setter of the registry is listed if for some of the selectors the taxonomy cannot answer that
/// it does not match, and only if for some of them it can answer that it does. What is listed is
/// registered, as it stands, and is listed once.
pub proof fn law_setter_is_listed_as_it_matches<X: Taxonomy, A>(
    registry: Registry<X, A>,
    selectors: Seq<X::SetterSelector>,
    listed: Seq<Channel<X::Setter>>,
)
    requires
        registry.consistent(),
        registry.may_list_setters(selectors, listed),
    ensures
        forall|i: int, j: int|
            #![trigger listed[i], listed[j]]
            0 <= i < j < listed.len() ==> listed[i]@.id != listed[j]@.id,
        forall|i: int|
            #![trigger listed[i]]
            0 <= i < listed.len() ==> {
                &&& registry.setters.contains_key(listed[i]@.id)
                &&& listed[i]@ == registry.setters[listed[i]@.id]
                &&& exists|n: int|
                    0 <= n < selectors.len() && setter_can_be::<X>(
                        listed[i]@,
                        #[trigger] selectors[n],
                        true,
                    )
            },
        forall|t: SetterId, n: int|
            #![trigger registry.setters.contains_key(t), selectors[n]]
            registry.setters.contains_key(t) && 0 <= n < selectors.len() && !setter_can_be::<X>(
                registry.setters[t],
                selectors[n],
                false,
            ) ==> exists|i: int| 0 <= i < listed.len() && (#[trigger] listed[i])@.id == t,
{
    let walk = choose|walk: Seq<u64>| #[trigger]
        is_walk::<X::SetterSelector, SetterData<X>>(registry.setters, selectors, walk)
            && shows::<SetterData<X>>(registry.setters, walk, listed);
    assert forall|i: int|
        #![trigger listed[i]]
        0 <= i < listed.len() implies {
        &&& listed[i]@.id == walk[i]
        &&& registry.setters.contains_key(listed[i]@.id)
        &&& listed[i]@ == registry.setters[listed[i]@.id]
        &&& exists|n: int|
            0 <= n < selectors.len() && setter_can_be::<X>(
                listed[i]@,
                #[trigger] selectors[n],
                true,
            )
    } by {
        assert(walk.to_set().contains(walk[i]));
        assert(registry.setters.contains_key(walk[i]));
        let n = choose|n: int|
            0 <= n < selectors.len() && <SetterData<X> as SelectedBy<X::SetterSelector>>::answers(
                registry.setters[walk[i]],
                #[trigger] selectors[n],
                true,
            );
        assert(setter_can_be::<X>(listed[i]@, selectors[n], true));
    }
    assert forall|t: SetterId, n: int|
        #![trigger registry.setters.contains_key(t), selectors[n]]
        registry.setters.contains_key(t) && 0 <= n < selectors.len() && !setter_can_be::<X>(
            registry.setters[t],
            selectors[n],
            false,
        ) implies exists|i: int| 0 <= i < listed.len() && (#[trigger] listed[i])@.id == t by {
        if !walk.to_set().contains(t) {
            assert(<SetterData<X> as SelectedBy<X::SetterSelector>>::answers(
                registry.setters[t],
                selectors[n],
                false,
            ));
        }
        let i = choose|i: int| 0 <= i < walk.len() && walk[i] == t;
        assert(listed[i]@.id == t);
    }
}

/// `listed` holds one copy, as it stands, of each setter that matches some of the selectors, and
/// nothing else.
pub open spec fn setters_listed_exactly<X: Taxonomy, A>(
    registry: Registry<X, A>,
    m: spec_fn(ChannelView<X::Setter>, X::SetterSelector) -> bool,
    selectors: Seq<X::SetterSelector>,
    listed: Seq<Channel<X::Setter>>,
) -> bool {
    &&& forall|i: int, j: int|
        #![trigger listed[i], listed[j]]
        0 <= i < j < listed.len() ==> listed[i]@.id != listed[j]@.id
    &&& forall|i: int|
        #![trigger listed[i]]
        0 <= i < listed.len() ==> {
            &&& registry.setters.contains_key(listed[i]@.id)
            &&& listed[i]@ == registry.setters[listed[i]@.id]
        }
    &&& forall|t: SetterId| #[trigger]
        registry.setters.contains_key(t) ==> ((exists|i: int|
            0 <= i < listed.len() && (#[trigger] listed[i])@.id == t) <==> wanted(
            m,
            registry.setters[t],
            selectors,
        ))
}

/// Where `m` tells which setters match, a list holds each setter that matches some of the
/// selectors, and nothing else.
pub proof fn law_setters_listed_are_those_that_match<X: Taxonomy, A>(
    registry: Registry<X, A>,
    m: spec_fn(ChannelView<X::Setter>, X::SetterSelector) -> bool,
    selectors: Seq<X::SetterSelector>,
    listed: Seq<Channel<X::Setter>>,
)
    requires
        registry.consistent(),
        decides_setters::<X>(m),
        registry.may_list_setters(selectors, listed),
    ensures
        setters_listed_exactly(registry, m, selectors, listed),
{
    law_setter_is_listed_as_it_matches(registry, selectors, listed);
    assert forall|t: SetterId| #[trigger] registry.setters.contains_key(t) implies ((exists|i: int|
        0 <= i < listed.len() && (#[trigger] listed[i])@.id == t) <==> wanted(
        m,
        registry.setters[t],
        selectors,
    )) by {
        if exists|i: int| 0 <= i < listed.len() && (#[trigger] listed[i])@.id == t {
            let i = choose|i: int| 0 <= i < listed.len() && (#[trigger] listed[i])@.id == t;
            let n = choose|n: int|
                0 <= n < selectors.len() && setter_can_be::<X>(
                    listed[i]@,
                    #[trigger] selectors[n],
                    true,
                );
            assert(m(registry.setters[t], selectors[n]));
        }
        if wanted(m, registry.setters[t], selectors) {
            let n = choose|n: int|
                0 <= n < selectors.len() && m(registry.setters[t], #[trigger] selectors[n]);
            assert(!setter_can_be::<X>(registry.setters[t], selectors[n], false));
        }
    }
}

/// Each setter that matches some of the selectors has gained the tags, `count` is the number of
/// these setters, and nothing else has changed.
pub open spec fn setters_tagged_exactly<X: Taxonomy, A>(
    registry: Registry<X, A>,
    m: spec_fn(ChannelView<X::Setter>, X::SetterSelector) -> bool,
    selectors: Seq<X::SetterSelector>,
    tags: Seq<TagId>,
    count: usize,
    after: Registry<X, A>,
) -> bool {
    &&& count == Set::new(
        |t: SetterId|
            registry.setters.contains_key(t) && wanted(m, registry.setters[t], selectors),
    ).len()
    &&& after.setters.dom() == registry.setters.dom()
    &&& forall|t: SetterId| #[trigger]
        registry.setters.contains_key(t) ==> {
            let before = registry.setters[t];
            let now = after.setters[t];
            &&& forall|tag: TagId| #[trigger]
                now.tags.contains(tag) <==> {
                    ||| before.tags.contains(tag)
                    ||| wanted(m, before, selectors) && tags.contains(tag)
                }
            &&& now.id == before.id
            &&& now.service == before.service
            &&& now.adapter == before.adapter
            &&& now.mechanism == before.mechanism
        }
    &&& after.adapters == registry.adapters
    &&& after.services == registry.services
    &&& after.getters == registry.getters
    &&& after.watches == registry.watches
}

/// Adding tags to setters gives them to each setter that matches some of the selectors, counts
/// these setters, and changes nothing else.
pub proof fn law_setters_that_match_are_tagged<X: Taxonomy, A>(
    registry: Registry<X, A>,
    m: spec_fn(ChannelView<X::Setter>, X::SetterSelector) -> bool,
    selectors: Seq<X::SetterSelector>,
    tags: Seq<TagId>,
    count: usize,
    after: Registry<X, A>,
)
    requires
        decides_setters::<X>(m),
        registry.may_tag_setters(selectors, tags, count, after),
    ensures
        setters_tagged_exactly(registry, m, selectors, tags, count, after),
{
    let walk = choose|walk: Seq<SetterId>| #[trigger]
        registry.setters_chosen(selectors, walk) && count == walk.len() && after
            == registry.tag_setters(walk.to_set(), tags.to_set());
    lemma_setters_wanted(registry, m, selectors, walk);
    let chosen = Set::new(
        |t: SetterId|
            registry.setters.contains_key(t) && wanted(m, registry.setters[t], selectors),
    );
    assert forall|t: SetterId| walk.to_set().contains(t) == chosen.contains(t) by {
        assert(walk.to_set().contains(t) == walk.contains(t));
    }
    assert(walk.to_set() =~= chosen);
    walk.unique_seq_to_set();
    assert(after.setters.dom() =~= registry.setters.dom());
    assert forall|tag: TagId| #[trigger] tags.to_set().contains(tag) == tags.contains(tag) by {}
}

/// Each setter that matches some of the selectors has lost the tags, `count` is the number of
/// these setters, and nothing else has changed.
pub open spec fn setters_untagged_exactly<X: Taxonomy, A>(
    registry: Registry<X, A>,
    m: spec_fn(ChannelView<X::Setter>, X::SetterSelector) -> bool,
    selectors: Seq<X::SetterSelector>,
    tags: Seq<TagId>,
    count: usize,
    after: Registry<X, A>,
) -> bool {
    &&& count == Set::new(
        |t: SetterId|
            registry.setters.contains_key(t) && wanted(m, registry.setters[t], selectors),
    ).len()
    &&& after.setters.dom() == registry.setters.dom()
    &&& forall|t: SetterId| #[trigger]
        registry.setters.contains_key(t) ==> {
            let before = registry.setters[t];
            let now = after.setters[t];
            &&& forall|tag: TagId| #[trigger]
                now.tags.contains(tag) <==> {
                    &&& before.tags.contains(tag)
                    &&& !(wanted(m, before, selectors) && tags.contains(tag))
                }
            &&& now.id == before.id
            &&& now.service == before.service
            &&& now.adapter == before.adapter
            &&& now.mechanism == before.mechanism
        }
    &&& after.adapters == registry.adapters
    &&& after.services == registry.services
    &&& after.getters == registry.getters
    &&& after.watches == registry.watches
}

/// Removing tags from setters takes them from each setter that matches some of the selectors,
/// counts these setters, and changes nothing else.
pub proof fn law_setters_that_match_are_untagged<X: Taxonomy, A>(
    registry: Registry<X, A>,
    m: spec_fn(ChannelView<X::Setter>, X::SetterSelector) -> bool,
    selectors: Seq<X::SetterSelector>,
    tags: Seq<TagId>,
    count: usize,
    after: Registry<X, A>,
)
    requires
        decides_setters::<X>(m),
        registry.may_untag_setters(selectors, tags, count, after),
    ensures
        setters_untagged_exactly(registry, m, selectors, tags, count, after),
{
    let walk = choose|walk: Seq<SetterId>| #[trigger]
        registry.setters_chosen(selectors, walk) && count == walk.len() && after
            == registry.untag_setters(walk.to_set(), tags.to_set());
    lemma_setters_wanted(registry, m, selectors, walk);
    let chosen = Set::new(
        |t: SetterId|
            registry.setters.contains_key(t) && wanted(m, registry.setters[t], selectors),
    );
    assert forall|t: SetterId| walk.to_set().contains(t) == chosen.contains(t) by {
        assert(walk.to_set().contains(t) == walk.contains(t));
    }
    assert(walk.to_set() =~= chosen);
    walk.unique_seq_to_set();
    assert(after.setters.dom() =~= registry.setters.dom());
    assert forall|tag: TagId| #[trigger] tags.to_set().contains(tag) == tags.contains(tag) by {}
}

} // verus!
