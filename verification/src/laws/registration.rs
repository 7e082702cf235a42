//! What additions and removals are to each other.
use vstd::prelude::*;

use crate::adapter::Taxonomy;
use crate::data::AdapterView;
use crate::laws::consistency::lemma_without_services;
use crate::model::Registry;
use crate::types::{
    AdapterId, ChannelView, Error, GetterId, InternalError, ServiceId, ServiceView, SetterId,
};

verus! {

/// An addition that is refused changes nothing.
pub proof fn law_refused_addition_changes_nothing<X: Taxonomy, A>(
    registry: Registry<X, A>,
    id: AdapterId,
    adapter: A,
    service: ServiceView<X::Getter, X::Setter>,
    getter: ChannelView<X::Getter>,
    setter: ChannelView<X::Setter>,
)
    ensures
        registry.add_adapter(id, adapter).0 is Err ==> registry.add_adapter(id, adapter).1
            == registry,
        registry.add_service(service).0 is Err ==> registry.add_service(service).1 == registry,
        registry.add_getter(getter).0 is Err ==> registry.add_getter(getter).1 == registry,
        registry.add_setter(setter).0 is Err ==> registry.add_setter(setter).1 == registry,
{
}

/// In a consistent registry an addition succeeds exactly when it makes sense: the identifier is
/// free, a service comes without channels and its adapter is registered, and a channel names a
/// service and an adapter that are registered and belong together.
pub proof fn law_addition_succeeds_when_possible<X: Taxonomy, A>(
    registry: Registry<X, A>,
    id: AdapterId,
    adapter: A,
    service: ServiceView<X::Getter, X::Setter>,
    getter: ChannelView<X::Getter>,
    setter: ChannelView<X::Setter>,
)
    requires
        registry.consistent(),
    ensures
        registry.add_adapter(id, adapter).0 is Ok <==> !registry.adapters.contains_key(id),
        registry.add_service(service).0 is Ok <==> {
            &&& service.getters.is_empty()
            &&& service.setters.is_empty()
            &&& registry.adapters.contains_key(service.adapter)
            &&& !registry.services.contains_key(service.id)
        },
        registry.add_getter(getter).0 is Ok <==> {
            &&& registry.services.contains_key(getter.service)
            &&& registry.adapters.contains_key(getter.adapter)
            &&& registry.services[getter.service].adapter == getter.adapter
            &&& !registry.getters.contains_key(getter.id)
        },
        registry.add_setter(setter).0 is Ok <==> {
            &&& registry.services.contains_key(setter.service)
            &&& registry.adapters.contains_key(setter.adapter)
            &&& registry.services[setter.service].adapter == setter.adapter
            &&& !registry.setters.contains_key(setter.id)
        },
{
}

/// An identifier belongs to one adapter, one service, one getter and one setter at a time: once
/// something was added, nothing else can be added under the same identifier.
pub proof fn law_second_addition_is_refused<X: Taxonomy, A>(
    registry: Registry<X, A>,
    id: AdapterId,
    adapter: A,
    other_adapter: A,
    service: ServiceView<X::Getter, X::Setter>,
    other_service: ServiceView<X::Getter, X::Setter>,
    getter: ChannelView<X::Getter>,
    other_getter: ChannelView<X::Getter>,
    setter: ChannelView<X::Setter>,
    other_setter: ChannelView<X::Setter>,
)
    ensures
        registry.add_adapter(id, adapter).0 is Ok ==> registry.add_adapter(
            id,
            adapter,
        ).1.add_adapter(id, other_adapter).0 is Err,
        registry.add_service(service).0 is Ok && other_service.id == service.id
            ==> registry.add_service(service).1.add_service(other_service).0 is Err,
        registry.add_getter(getter).0 is Ok && other_getter.id == getter.id
            ==> registry.add_getter(getter).1.add_getter(other_getter).0 is Err,
        registry.add_setter(setter).0 is Ok && other_setter.id == setter.id
            ==> registry.add_setter(setter).1.add_setter(other_setter).0 is Err,
{
}

/// Removing an adapter that was just added undoes the addition.
pub proof fn law_remove_adapter_undoes_add<X: Taxonomy, A>(
    registry: Registry<X, A>,
    id: AdapterId,
    adapter: A,
)
    requires
        registry.add_adapter(id, adapter).0 is Ok,
    ensures
        registry.add_adapter(id, adapter).1.remove_adapter(id) == (Ok::<(), Error>(()), registry),
{
    let (result, after) = registry.add_adapter(id, adapter).1.remove_adapter(id);
    assert(after.adapters =~= registry.adapters);
    assert(after.services =~= registry.services);
    assert(after.getters =~= registry.getters);
    assert(after.setters =~= registry.setters);
}

/// Removing a service that was just added undoes the addition.
pub proof fn law_remove_service_undoes_add<X: Taxonomy, A>(
    registry: Registry<X, A>,
    service: ServiceView<X::Getter, X::Setter>,
)
    requires
        registry.add_service(service).0 is Ok,
    ensures
        registry.add_service(service).1.remove_service(service.id) == (
            Ok::<(), Error>(()),
            registry,
        ),
{
    let mid = registry.add_service(service).1;
    let (result, after) = mid.remove_service(service.id);
    assert(mid.getters_of(set![service.id]) =~= Set::empty()) by {
        assert forall|g: GetterId| !mid.getters_of(set![service.id]).contains(g) by {
            assert(!service.getters.contains_key(g));
        }
    }
    assert(mid.setters_of(set![service.id]) =~= Set::empty()) by {
        assert forall|t: SetterId| !mid.setters_of(set![service.id]).contains(t) by {
            assert(!service.setters.contains_key(t));
        }
    }
    let before = registry.adapters[service.adapter];
    assert(after.adapters[service.adapter].services =~= before.services);
    assert(after.adapters =~= registry.adapters);
    assert(after.services =~= registry.services);
    assert(after.getters =~= registry.getters);
    assert(after.setters =~= registry.setters);
}

/// Removing a getter that was just added undoes the addition.
pub proof fn law_remove_getter_undoes_add<X: Taxonomy, A>(
    registry: Registry<X, A>,
    getter: ChannelView<X::Getter>,
)
    requires
        registry.add_getter(getter).0 is Ok,
    ensures
        registry.add_getter(getter).1.remove_getter(getter.id) == (Ok::<(), Error>(()), registry),
{
    let (result, after) = registry.add_getter(getter).1.remove_getter(getter.id);
    let before = registry.services[getter.service];
    assert(after.services[getter.service].getters =~= before.getters);
    assert(after.services =~= registry.services);
    assert(after.getters =~= registry.getters);
}

/// Removing a setter that was just added undoes the addition.
pub proof fn law_remove_setter_undoes_add<X: Taxonomy, A>(
    registry: Registry<X, A>,
    setter: ChannelView<X::Setter>,
)
    requires
        registry.add_setter(setter).0 is Ok,
    ensures
        registry.add_setter(setter).1.remove_setter(setter.id) == (Ok::<(), Error>(()), registry),
{
    let (result, after) = registry.add_setter(setter).1.remove_setter(setter.id);
    let before = registry.services[setter.service];
    assert(after.services[setter.service].setters =~= before.setters);
    assert(after.services =~= registry.services);
    assert(after.setters =~= registry.setters);
}

/// Removing an adapter removes all its services and channels, and nothing else.
pub proof fn law_remove_adapter_takes_all_of_it<X: Taxonomy, A>(
    registry: Registry<X, A>,
    id: AdapterId,
)
    requires
        registry.consistent(),
        registry.adapters.contains_key(id),
    ensures
        ({
            let after = registry.remove_adapter(id).1;
            &&& after.adapters == registry.adapters.remove(id)
            &&& forall|s: ServiceId| #[trigger]
                after.services.contains_key(s) <==> registry.services.contains_key(s)
                    && registry.services[s].adapter != id
            &&& forall|s: ServiceId| #[trigger]
                after.services.contains_key(s) ==> after.services[s] == registry.services[s]
            &&& forall|g: GetterId| #[trigger]
                after.getters.contains_key(g) <==> registry.getters.contains_key(g)
                    && registry.getters[g].channel.adapter != id
            &&& forall|g: GetterId| #[trigger]
                after.getters.contains_key(g) ==> after.getters[g] == registry.getters[g]
            &&& forall|t: SetterId| #[trigger]
                after.setters.contains_key(t) <==> registry.setters.contains_key(t)
                    && registry.setters[t].adapter != id
            &&& forall|t: SetterId| #[trigger]
                after.setters.contains_key(t) ==> after.setters[t] == registry.setters[t]
            &&& after.watches == registry.watches
        }),
{
    let gone = registry.adapters[id].services;
    let after = registry.remove_adapter(id).1;
    lemma_without_services(registry, gone);
    assert forall|s: ServiceId| registry.services.contains_key(s) implies (#[trigger] gone.contains(
        s,
    ) <==> registry.services[s].adapter == id) by {
        if gone.contains(s) {
            assert(registry.adapters[id].services.contains(s));
        }
    }
    assert forall|g: GetterId| #[trigger]
        after.getters.contains_key(g) <==> registry.getters.contains_key(g)
            && registry.getters[g].channel.adapter != id by {
        assert(registry.without_services(gone).getters.contains_key(g)
            == after.getters.contains_key(g));
        if registry.getters.contains_key(g) {
            let s = registry.getters[g].channel.service;
            assert(registry.services.contains_key(s));
            assert(gone.contains(s) <==> registry.services[s].adapter == id);
        }
    }
    assert forall|t: SetterId| #[trigger]
        after.setters.contains_key(t) <==> registry.setters.contains_key(t)
            && registry.setters[t].adapter != id by {
        assert(registry.without_services(gone).setters.contains_key(t)
            == after.setters.contains_key(t));
        if registry.setters.contains_key(t) {
            let s = registry.setters[t].service;
            assert(registry.services.contains_key(s));
            assert(gone.contains(s) <==> registry.services[s].adapter == id);
        }
    }
    assert forall|s: ServiceId| #[trigger]
        after.services.contains_key(s) <==> registry.services.contains_key(s)
            && registry.services[s].adapter != id by {
        assert(registry.services.contains_key(s) ==> (gone.contains(s)
            <==> registry.services[s].adapter == id));
    }
}

/// Removing a service removes all its channels, and nothing else but its mention in its adapter.
pub proof fn law_remove_service_takes_all_of_it<X: Taxonomy, A>(
    registry: Registry<X, A>,
    id: ServiceId,
)
    requires
        registry.consistent(),
        registry.services.contains_key(id),
    ensures
        ({
            let after = registry.remove_service(id).1;
            &&& after.services == registry.services.remove(id)
            &&& after.adapters.dom() == registry.adapters.dom()
            &&& forall|a: AdapterId| #[trigger]
                after.adapters.contains_key(a) ==> after.adapters[a] == (AdapterView {
                    services: registry.adapters[a].services.remove(id),
                    ..registry.adapters[a]
                })
            &&& forall|g: GetterId| #[trigger]
                after.getters.contains_key(g) <==> registry.getters.contains_key(g)
                    && registry.getters[g].channel.service != id
            &&& forall|g: GetterId| #[trigger]
                after.getters.contains_key(g) ==> after.getters[g] == registry.getters[g]
            &&& forall|t: SetterId| #[trigger]
                after.setters.contains_key(t) <==> registry.setters.contains_key(t)
                    && registry.setters[t].service != id
            &&& forall|t: SetterId| #[trigger]
                after.setters.contains_key(t) ==> after.setters[t] == registry.setters[t]
            &&& after.watches == registry.watches
        }),
{
    let gone = set![id];
    let after = registry.remove_service(id).1;
    lemma_without_services(registry, gone);
    assert(after.services =~= registry.services.remove(id));
    assert(after.adapters.dom() =~= registry.adapters.dom());
    assert forall|a: AdapterId| #[trigger] after.adapters.contains_key(a) implies after.adapters[a]
        == (AdapterView {
        services: registry.adapters[a].services.remove(id),
        ..registry.adapters[a]
    }) by {
        if registry.adapters[a].services.contains(id) {
        } else {
            assert(registry.adapters[a].services.remove(id) =~= registry.adapters[a].services);
        }
    }
    assert forall|g: GetterId| #[trigger]
        after.getters.contains_key(g) <==> registry.getters.contains_key(g)
            && registry.getters[g].channel.service != id by {
        assert(registry.without_services(gone).getters.contains_key(g)
            == after.getters.contains_key(g));
    }
    assert forall|t: SetterId| #[trigger]
        after.setters.contains_key(t) <==> registry.setters.contains_key(t)
            && registry.setters[t].service != id by {
        assert(registry.without_services(gone).setters.contains_key(t)
            == after.setters.contains_key(t));
    }
}

/// In a consistent registry a removal succeeds exactly when there is something to remove, and
/// otherwise changes nothing.
pub proof fn law_removal_succeeds_when_present<X: Taxonomy, A>(registry: Registry<X, A>, id: u64)
    requires
        registry.consistent(),
    ensures
        registry.remove_adapter(id).0 == if registry.adapters.contains_key(id) {
            Ok::<(), Error>(())
        } else {
            Err(Error::InternalError(InternalError::NoSuchAdapter(id)))
        },
        registry.remove_service(id).0 == if registry.services.contains_key(id) {
            Ok::<(), Error>(())
        } else {
            Err(Error::InternalError(InternalError::NoSuchService(id)))
        },
        registry.remove_getter(id).0 == if registry.getters.contains_key(id) {
            Ok::<(), Error>(())
        } else {
            Err(Error::InternalError(InternalError::NoSuchGetter(id)))
        },
        registry.remove_setter(id).0 == if registry.setters.contains_key(id) {
            Ok::<(), Error>(())
        } else {
            Err(Error::InternalError(InternalError::NoSuchSetter(id)))
        },
        registry.remove_adapter(id).0 is Err ==> registry.remove_adapter(id).1 == registry,
        registry.remove_service(id).0 is Err ==> registry.remove_service(id).1 == registry,
        registry.remove_getter(id).0 is Err ==> registry.remove_getter(id).1 == registry,
        registry.remove_setter(id).0 is Err ==> registry.remove_setter(id).1 == registry,
{
}

} // verus!
