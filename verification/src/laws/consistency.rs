//! Every request keeps the registry consistent.
use std::sync::atomic::AtomicBool;
use std::sync::Arc;
use vstd::prelude::*;

use crate::adapter::Taxonomy;
use crate::model::Registry;
use crate::selection::TaggedView;
use crate::types::{
    AdapterId, ChannelView, Exactly, GetterId, ServiceId, ServiceView, SetterId, TagId,
};

verus! {

/// An empty registry is consistent.
pub proof fn law_empty_is_consistent<X: Taxonomy, A>()
    ensures
        Registry::<X, A>::empty().consistent(),
{
}

/// Adding an adapter keeps the registry consistent.
pub proof fn law_add_adapter_keeps_consistency<X: Taxonomy, A>(
    registry: Registry<X, A>,
    id: AdapterId,
    adapter: A,
)
    requires
        registry.consistent(),
    ensures
        registry.add_adapter(id, adapter).1.consistent(),
{
}

/// Removing services, with their channels, keeps the channels consistent.
pub proof fn lemma_without_services<X: Taxonomy, A>(registry: Registry<X, A>, gone: Set<ServiceId>)
    requires
        registry.consistent(),
    ensures
        registry.without_services(gone).getters_consistent(),
        registry.without_services(gone).setters_consistent(),
        registry.without_services(gone).watches_consistent(),
        forall|g: GetterId| #[trigger]
            registry.without_services(gone).getters.contains_key(g) <==> {
                &&& registry.getters.contains_key(g)
                &&& !gone.contains(registry.getters[g].channel.service)
            },
        forall|t: SetterId| #[trigger]
            registry.without_services(gone).setters.contains_key(t) <==> {
                &&& registry.setters.contains_key(t)
                &&& !gone.contains(registry.setters[t].service)
            },
{
    let rest = registry.without_services(gone);
    assert forall|g: GetterId| #[trigger] rest.getters.contains_key(g) <==> {
        &&& registry.getters.contains_key(g)
        &&& !gone.contains(registry.getters[g].channel.service)
    } by {
        if registry.getters.contains_key(g) {
            let s = registry.getters[g].channel.service;
            assert(registry.services[s].getters.contains_key(g));
            if registry.getters_of(gone).contains(g) {
                let o = choose|o: ServiceId|
                    gone.contains(o) && registry.services.contains_key(o)
                        && #[trigger] registry.services[o].getters.contains_key(g);
                assert(o == s);
            }
        }
    }
    assert forall|t: SetterId| #[trigger] rest.setters.contains_key(t) <==> {
        &&& registry.setters.contains_key(t)
        &&& !gone.contains(registry.setters[t].service)
    } by {
        if registry.setters.contains_key(t) {
            let s = registry.setters[t].service;
            assert(registry.services[s].setters.contains_key(t));
            if registry.setters_of(gone).contains(t) {
                let o = choose|o: ServiceId|
                    gone.contains(o) && registry.services.contains_key(o)
                        && #[trigger] registry.services[o].setters.contains_key(t);
                assert(o == s);
            }
        }
    }
    assert forall|s: ServiceId, g: GetterId|
        rest.services.contains_key(s) && #[trigger] rest.services[s].getters.contains_key(
            g,
        ) implies rest.getters.contains_key(g) by {
        assert(registry.services[s].getters.contains_key(g));
    }
    assert forall|s: ServiceId, t: SetterId|
        rest.services.contains_key(s) && #[trigger] rest.services[s].setters.contains_key(
            t,
        ) implies rest.setters.contains_key(t) by {
        assert(registry.services[s].setters.contains_key(t));
    }
    assert forall|g: GetterId, k: usize|
        rest.getters.contains_key(g) && #[trigger] rest.getters[g].watchers.contains(k) implies {
        &&& rest.watches.watchers.contains_key(k)
        &&& rest.watches.watchers[k].getters.contains(g)
    } by {
        assert(registry.getters[g].watchers.contains(k));
    }
}

/// Removing an adapter keeps the registry consistent.
pub proof fn law_remove_adapter_keeps_consistency<X: Taxonomy, A>(
    registry: Registry<X, A>,
    id: AdapterId,
)
    requires
        registry.consistent(),
    ensures
        registry.remove_adapter(id).1.consistent(),
{
    if registry.adapters.contains_key(id) {
        let gone = registry.adapters[id].services;
        let after = registry.remove_adapter(id).1;
        lemma_without_services(registry, gone);
        assert forall|s: ServiceId| #[trigger] after.services.contains_key(s) implies {
            &&& after.services[s].id == s
            &&& after.adapters.contains_key(after.services[s].adapter)
            &&& after.adapters[after.services[s].adapter].services.contains(s)
        } by {
            assert(registry.services.contains_key(s));
        }
        assert forall|a: AdapterId, s: ServiceId|
            after.adapters.contains_key(a) && #[trigger] after.adapters[a].services.contains(
                s,
            ) implies after.services.contains_key(s) && after.services[s].adapter == a by {
            assert(registry.adapters[a].services.contains(s));
            if gone.contains(s) {
                assert(registry.adapters[id].services.contains(s));
            }
        }
        assert(after.services_consistent());
        lemma_same_channels(registry.without_services(gone), after);
    }
}

/// Consistency of channels and watches does not depend on adapters.
proof fn lemma_same_channels<X: Taxonomy, A>(one: Registry<X, A>, other: Registry<X, A>)
    requires
        one.services == other.services,
        one.getters == other.getters,
        one.setters == other.setters,
        one.watches == other.watches,
    ensures
        one.getters_consistent() ==> other.getters_consistent(),
        one.setters_consistent() ==> other.setters_consistent(),
        one.watches_consistent() ==> other.watches_consistent(),
{
}

/// Adding a service keeps the registry consistent.
pub proof fn law_add_service_keeps_consistency<X: Taxonomy, A>(
    registry: Registry<X, A>,
    service: ServiceView<X::Getter, X::Setter>,
)
    requires
        registry.consistent(),
    ensures
        registry.add_service(service).1.consistent(),
{
    let (result, after) = registry.add_service(service);
    if result is Ok {
        assert forall|a: AdapterId, s: ServiceId|
            after.adapters.contains_key(a) && #[trigger] after.adapters[a].services.contains(
                s,
            ) implies after.services.contains_key(s) && after.services[s].adapter == a by {
            if s != service.id {
                assert(registry.adapters[a].services.contains(s));
            }
            if s == service.id && a != service.adapter {
                assert(registry.adapters[a].services.contains(s));
            }
        }
        assert(after.services_consistent());
        assert forall|s: ServiceId, g: GetterId|
            after.services.contains_key(s) && #[trigger] after.services[s].getters.contains_key(
                g,
            ) implies s != service.id && registry.services[s].getters.contains_key(g) by {
            if s == service.id {
                assert(service.getters.contains_key(g));
            }
        }
        assert(after.getters_consistent());
        assert forall|s: ServiceId, t: SetterId|
            after.services.contains_key(s) && #[trigger] after.services[s].setters.contains_key(
                t,
            ) implies s != service.id && registry.services[s].setters.contains_key(t) by {
            if s == service.id {
                assert(service.setters.contains_key(t));
            }
        }
        assert(after.setters_consistent());
    }
}

/// Removing a service keeps the registry consistent.
pub proof fn law_remove_service_keeps_consistency<X: Taxonomy, A>(
    registry: Registry<X, A>,
    id: ServiceId,
)
    requires
        registry.consistent(),
    ensures
        registry.remove_service(id).1.consistent(),
{
    if registry.services.contains_key(id) {
        let after = registry.remove_service(id).1;
        let rest = registry.without_services(set![id]);
        lemma_without_services(registry, set![id]);
        assert forall|s: ServiceId| #[trigger] after.services.contains_key(s) implies {
            &&& after.services[s].id == s
            &&& after.adapters.contains_key(after.services[s].adapter)
            &&& after.adapters[after.services[s].adapter].services.contains(s)
        } by {
            assert(registry.services.contains_key(s));
            assert(s != id);
        }
        assert forall|a: AdapterId, s: ServiceId|
            after.adapters.contains_key(a) && #[trigger] after.adapters[a].services.contains(
                s,
            ) implies after.services.contains_key(s) && after.services[s].adapter == a by {
            assert(registry.adapters[a].services.contains(s));
            assert(s != id);
        }
        lemma_same_channels(rest, after);
    }
}

/// Adding a getter keeps the registry consistent.
pub proof fn law_add_getter_keeps_consistency<X: Taxonomy, A>(
    registry: Registry<X, A>,
    getter: ChannelView<X::Getter>,
)
    requires
        registry.consistent(),
    ensures
        registry.add_getter(getter).1.consistent(),
{
    let (result, after) = registry.add_getter(getter);
    if result is Ok {
        assert forall|s: ServiceId, g: GetterId|
            after.services.contains_key(s) && #[trigger] after.services[s].getters.contains_key(
                g,
            ) implies {
            &&& after.getters.contains_key(g)
            &&& after.getters[g].channel.service == s
            &&& after.services[s].getters[g] == (ChannelView {
                tags: after.services[s].getters[g].tags,
                ..after.getters[g].channel
            })
        } by {
            if g != getter.id || s != getter.service {
                assert(registry.services[s].getters.contains_key(g));
            }
        }
        assert(after.getters_consistent());
        assert forall|s: ServiceId, t: SetterId|
            after.services.contains_key(s) && #[trigger] after.services[s].setters.contains_key(
                t,
            ) implies registry.services[s].setters.contains_key(t) by {}
        assert(after.setters_consistent());
        assert forall|g: GetterId, k: usize|
            after.getters.contains_key(g) && #[trigger] after.getters[g].watchers.contains(
                k,
            ) implies registry.getters[g].watchers.contains(k) by {}
        assert(after.watches_consistent());
        assert(after.services_consistent());
    }
}

/// Removing a getter keeps the registry consistent.
pub proof fn law_remove_getter_keeps_consistency<X: Taxonomy, A>(
    registry: Registry<X, A>,
    id: GetterId,
)
    requires
        registry.consistent(),
    ensures
        registry.remove_getter(id).1.consistent(),
{
    let after = registry.remove_getter(id).1;
    if registry.getters.contains_key(id) {
        assert forall|s: ServiceId, g: GetterId|
            after.services.contains_key(s) && #[trigger] after.services[s].getters.contains_key(
                g,
            ) implies {
            &&& after.getters.contains_key(g)
            &&& after.getters[g].channel.service == s
            &&& after.services[s].getters[g] == (ChannelView {
                tags: after.services[s].getters[g].tags,
                ..after.getters[g].channel
            })
        } by {
            assert(registry.services[s].getters.contains_key(g));
        }
        assert(after.getters_consistent());
        assert forall|s: ServiceId, t: SetterId|
            after.services.contains_key(s) && #[trigger] after.services[s].setters.contains_key(
                t,
            ) implies registry.services[s].setters.contains_key(t) by {}
        assert(after.setters_consistent());
        assert forall|g: GetterId, k: usize|
            after.getters.contains_key(g) && #[trigger] after.getters[g].watchers.contains(
                k,
            ) implies registry.getters[g].watchers.contains(k) by {}
        assert(after.watches_consistent());
        assert(after.services_consistent());
    }
}

/// Adding a setter keeps the registry consistent.
pub proof fn law_add_setter_keeps_consistency<X: Taxonomy, A>(
    registry: Registry<X, A>,
    setter: ChannelView<X::Setter>,
)
    requires
        registry.consistent(),
    ensures
        registry.add_setter(setter).1.consistent(),
{
    let (result, after) = registry.add_setter(setter);
    if result is Ok {
        assert forall|s: ServiceId, t: SetterId|
            after.services.contains_key(s) && #[trigger] after.services[s].setters.contains_key(
                t,
            ) implies {
            &&& after.setters.contains_key(t)
            &&& after.setters[t].service == s
            &&& after.services[s].setters[t] == (ChannelView {
                tags: after.services[s].setters[t].tags,
                ..after.setters[t]
            })
        } by {
            if t != setter.id || s != setter.service {
                assert(registry.services[s].setters.contains_key(t));
            }
        }
        assert(after.setters_consistent());
        assert forall|s: ServiceId, g: GetterId|
            after.services.contains_key(s) && #[trigger] after.services[s].getters.contains_key(
                g,
            ) implies registry.services[s].getters.contains_key(g) by {}
        assert(after.getters_consistent());
        assert(after.services_consistent());
    }
}

/// Removing a setter keeps the registry consistent.
pub proof fn law_remove_setter_keeps_consistency<X: Taxonomy, A>(
    registry: Registry<X, A>,
    id: SetterId,
)
    requires
        registry.consistent(),
    ensures
        registry.remove_setter(id).1.consistent(),
{
    let after = registry.remove_setter(id).1;
    if registry.setters.contains_key(id) {
        assert forall|s: ServiceId, t: SetterId|
            after.services.contains_key(s) && #[trigger] after.services[s].setters.contains_key(
                t,
            ) implies {
            &&& after.setters.contains_key(t)
            &&& after.setters[t].service == s
            &&& after.services[s].setters[t] == (ChannelView {
                tags: after.services[s].setters[t].tags,
                ..after.setters[t]
            })
        } by {
            assert(registry.services[s].setters.contains_key(t));
        }
        assert(after.setters_consistent());
        assert forall|s: ServiceId, g: GetterId|
            after.services.contains_key(s) && #[trigger] after.services[s].getters.contains_key(
                g,
            ) implies registry.services[s].getters.contains_key(g) by {}
        assert(after.getters_consistent());
        assert(after.services_consistent());
    }
}

/// Changing the tags of some services, getters or setters keeps the registry consistent.
pub proof fn law_tagging_keeps_consistency<X: Taxonomy, A>(
    registry: Registry<X, A>,
    picked: Set<u64>,
    tags: Set<TagId>,
)
    requires
        registry.consistent(),
    ensures
        registry.tag_services(picked, tags).consistent(),
        registry.untag_services(picked, tags).consistent(),
        registry.tag_getters(picked, tags).consistent(),
        registry.untag_getters(picked, tags).consistent(),
        registry.tag_setters(picked, tags).consistent(),
        registry.untag_setters(picked, tags).consistent(),
{
    lemma_retagged_services(registry, registry.tag_services(picked, tags));
    lemma_retagged_services(registry, registry.untag_services(picked, tags));
    lemma_retagged_getters(registry, registry.tag_getters(picked, tags));
    lemma_retagged_getters(registry, registry.untag_getters(picked, tags));
    lemma_retagged_setters(registry, registry.tag_setters(picked, tags));
    lemma_retagged_setters(registry, registry.untag_setters(picked, tags));
}

/// Consistency does not depend on the tags of services.
proof fn lemma_retagged_services<X: Taxonomy, A>(before: Registry<X, A>, after: Registry<X, A>)
    requires
        before.consistent(),
        after == (Registry { services: after.services, ..before }),
        after.services.dom() =~= before.services.dom(),
        forall|s: ServiceId| #[trigger]
            after.services.contains_key(s) ==> after.services[s] == before.services[s].with_tags(
                after.services[s].tags,
            ),
    ensures
        after.consistent(),
{
    assert forall|s: ServiceId, g: GetterId|
        after.services.contains_key(s) && #[trigger] after.services[s].getters.contains_key(
            g,
        ) implies before.services[s].getters.contains_key(g) by {}
    assert forall|s: ServiceId, t: SetterId|
        after.services.contains_key(s) && #[trigger] after.services[s].setters.contains_key(
            t,
        ) implies before.services[s].setters.contains_key(t) by {}
    assert forall|g: GetterId| #[trigger] after.getters.contains_key(g) implies {
        let c = after.getters[g].channel;
        &&& after.services.contains_key(c.service)
        &&& after.services[c.service].adapter == c.adapter
        &&& after.services[c.service].getters.contains_key(g)
    } by {
        assert(before.services.contains_key(before.getters[g].channel.service));
        assert(after.services.contains_key(before.getters[g].channel.service));
    }
    assert forall|t: SetterId| #[trigger] after.setters.contains_key(t) implies {
        let c = after.setters[t];
        &&& after.services.contains_key(c.service)
        &&& after.services[c.service].adapter == c.adapter
        &&& after.services[c.service].setters.contains_key(t)
    } by {
        assert(before.services.contains_key(before.setters[t].service));
        assert(after.services.contains_key(before.setters[t].service));
    }
    assert forall|s: ServiceId| #[trigger] after.services.contains_key(s) implies {
        &&& after.services[s].id == s
        &&& after.adapters.contains_key(after.services[s].adapter)
        &&& after.adapters[after.services[s].adapter].services.contains(s)
    } by {
        assert(before.services.contains_key(s));
    }
    assert forall|a: AdapterId, s: ServiceId|
        after.adapters.contains_key(a) && #[trigger] after.adapters[a].services.contains(
            s,
        ) implies after.services.contains_key(s) && after.services[s].adapter == a by {
        assert(before.services.contains_key(s));
        assert(after.services.contains_key(s));
    }
}

/// Consistency does not depend on the tags of getters.
proof fn lemma_retagged_getters<X: Taxonomy, A>(before: Registry<X, A>, after: Registry<X, A>)
    requires
        before.consistent(),
        after == (Registry { getters: after.getters, ..before }),
        after.getters.dom() =~= before.getters.dom(),
        forall|g: GetterId| #[trigger]
            after.getters.contains_key(g) ==> after.getters[g] == before.getters[g].with_tags(
                after.getters[g].channel.tags,
            ),
    ensures
        after.consistent(),
{
    assert forall|s: ServiceId, g: GetterId|
        after.services.contains_key(s) && #[trigger] after.services[s].getters.contains_key(
            g,
        ) implies {
        &&& after.getters.contains_key(g)
        &&& after.getters[g].channel.service == s
        &&& after.services[s].getters[g] == (ChannelView {
            tags: after.services[s].getters[g].tags,
            ..after.getters[g].channel
        })
    } by {
        assert(before.services[s].getters.contains_key(g));
        assert(before.getters.contains_key(g));
        assert(after.getters.contains_key(g));
    }
    assert forall|g: GetterId| #[trigger] after.getters.contains_key(g) implies {
        let c = after.getters[g].channel;
        &&& c.id == g
        &&& after.services.contains_key(c.service)
        &&& after.services[c.service].adapter == c.adapter
        &&& after.services[c.service].getters.contains_key(g)
    } by {
        assert(before.getters.contains_key(g));
    }
    assert forall|g: GetterId, k: usize|
        after.getters.contains_key(g) && #[trigger] after.getters[g].watchers.contains(k) implies {
        &&& after.watches.watchers.contains_key(k)
        &&& after.watches.watchers[k].getters.contains(g)
    } by {
        assert(before.getters.contains_key(g));
        assert(before.getters[g].watchers.contains(k));
    }
}

/// Consistency does not depend on the tags of setters.
proof fn lemma_retagged_setters<X: Taxonomy, A>(before: Registry<X, A>, after: Registry<X, A>)
    requires
        before.consistent(),
        after == (Registry { setters: after.setters, ..before }),
        after.setters.dom() =~= before.setters.dom(),
        forall|t: SetterId| #[trigger]
            after.setters.contains_key(t) ==> after.setters[t] == before.setters[t].with_tags(
                after.setters[t].tags,
            ),
    ensures
        after.consistent(),
{
    assert forall|s: ServiceId, t: SetterId|
        after.services.contains_key(s) && #[trigger] after.services[s].setters.contains_key(
            t,
        ) implies {
        &&& after.setters.contains_key(t)
        &&& after.setters[t].service == s
        &&& after.services[s].setters[t] == (ChannelView {
            tags: after.services[s].setters[t].tags,
            ..after.setters[t]
        })
    } by {
        assert(before.services[s].setters.contains_key(t));
        assert(before.setters.contains_key(t));
        assert(after.setters.contains_key(t));
    }
    assert forall|t: SetterId| #[trigger] after.setters.contains_key(t) implies {
        let c = after.setters[t];
        &&& c.id == t
        &&& after.services.contains_key(c.service)
        &&& after.services[c.service].adapter == c.adapter
        &&& after.services[c.service].setters.contains_key(t)
    } by {
        assert(before.setters.contains_key(t));
    }
}

/// Starting a watch on some getters keeps the registry consistent.
pub proof fn law_starting_a_watch_keeps_consistency<X: Taxonomy, A>(
    registry: Registry<X, A>,
    watch: Seq<(Vec<X::GetterSelector>, Exactly<Arc<X::Range>>)>,
    is_dropped: Arc<AtomicBool>,
    on_event: Arc<X::EventSender>,
    picked: Set<GetterId>,
)
    requires
        registry.consistent(),
        registry.watches.next_key < usize::MAX,
    ensures
        registry.watched(watch, is_dropped, on_event, picked).consistent(),
{
    let after = registry.watched(watch, is_dropped, on_event, picked);
    let key = registry.watches.next_key as usize;
    assert forall|g: GetterId, k: usize|
        after.getters.contains_key(g) && #[trigger] after.getters[g].watchers.contains(k) implies {
        &&& after.watches.watchers.contains_key(k)
        &&& after.watches.watchers[k].getters.contains(g)
    } by {
        assert(registry.getters.contains_key(g));
        if k != key {
            assert(registry.getters[g].watchers.contains(k));
        } else if !picked.contains(g) {
            assert(registry.getters[g].watchers.contains(k));
        }
    }
    assert(after.watches_consistent());
    lemma_same_getters(registry, after);
}

/// Consistency of getters does not depend on watches.
proof fn lemma_same_getters<X: Taxonomy, A>(before: Registry<X, A>, after: Registry<X, A>)
    requires
        before.consistent(),
        after == (Registry { getters: after.getters, watches: after.watches, ..before }),
        after.getters.dom() =~= before.getters.dom(),
        forall|g: GetterId| #[trigger]
            after.getters.contains_key(g) ==> after.getters[g].channel == before.getters[g].channel,
    ensures
        after.services_consistent(),
        after.getters_consistent(),
        after.setters_consistent(),
{
    assert forall|s: ServiceId, g: GetterId|
        after.services.contains_key(s) && #[trigger] after.services[s].getters.contains_key(
            g,
        ) implies {
        &&& after.getters.contains_key(g)
        &&& after.getters[g].channel.service == s
        &&& after.services[s].getters[g] == (ChannelView {
            tags: after.services[s].getters[g].tags,
            ..after.getters[g].channel
        })
    } by {
        assert(before.services[s].getters.contains_key(g));
        assert(before.getters.contains_key(g));
        assert(after.getters.contains_key(g));
    }
    assert forall|g: GetterId| #[trigger] after.getters.contains_key(g) implies {
        let c = after.getters[g].channel;
        &&& c.id == g
        &&& after.services.contains_key(c.service)
        &&& after.services[c.service].adapter == c.adapter
        &&& after.services[c.service].getters.contains_key(g)
    } by {
        assert(before.getters.contains_key(g));
    }
}

/// Keeping the guards that an adapter hands out keeps the registry consistent.
pub proof fn law_granting_a_watch_keeps_consistency<X: Taxonomy, A>(
    registry: Registry<X, A>,
    key: usize,
    reply: Seq<(GetterId, Result<X::AdapterWatchGuard, X::AdapterError>)>,
)
    requires
        registry.consistent(),
    ensures
        registry.watch_granted(key, reply).consistent(),
{
    let after = registry.watch_granted(key, reply);
    lemma_same_getters(registry, after);
}

/// Ending a watch keeps the registry consistent.
pub proof fn law_ending_a_watch_keeps_consistency<X: Taxonomy, A>(
    registry: Registry<X, A>,
    key: usize,
)
    requires
        registry.consistent(),
    ensures
        registry.watch_ended(key).consistent(),
{
    let after = registry.watch_ended(key);
    if registry.watches.watchers.contains_key(key) {
        assert forall|g: GetterId, k: usize|
            after.getters.contains_key(g) && #[trigger] after.getters[g].watchers.contains(
                k,
            ) implies after.watches.watchers.contains_key(k)
            && after.watches.watchers[k].getters.contains(g) by {
            assert(registry.getters.contains_key(g));
            assert(registry.getters[g].watchers.contains(k));
        }
        lemma_same_getters(registry, after);
    }
}

} // verus!
