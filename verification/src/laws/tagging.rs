//! What selections and tags are to each other.
use vstd::prelude::*;

use crate::adapter::Taxonomy;
use crate::model::Registry;
use crate::selection::{is_selection, tagged, untagged, SelectedBy, TaggedView};
use crate::types::TagId;

verus! {

/// No selectors choose nothing.
pub proof fn law_no_selectors_choose_nothing<Q, V: SelectedBy<Q>>(
    items: Map<u64, V::V>,
    picked: Set<u64>,
)
    requires
        is_selection::<Q, V>(items, Seq::empty(), picked),
    ensures
        picked == Set::<u64>::empty(),
{
    assert forall|k: u64| !picked.contains(k) by {
        if picked.contains(k) {
            let i = choose|i: int|
                0 <= i < Seq::<Q>::empty().len() && V::answers(
                    items[k],
                    #[trigger] Seq::<Q>::empty()[i],
                    true,
                );
        }
    }
    assert(picked =~= Set::empty());
}

/// Adding tags gives them to what was picked, and changes nothing else: whatever was not picked
/// stays as it is, and what was picked changes in its tags alone. So it is with services,
/// getters and setters.
pub proof fn law_tags_are_added<X: Taxonomy, A>(
    registry: Registry<X, A>,
    picked: Set<u64>,
    tags: Set<TagId>,
    k: u64,
)
    ensures
        ({
            let after = registry.tag_services(picked, tags).services;
            &&& after.dom() == registry.services.dom()
            &&& after.contains_key(k) ==> after[k] == registry.services[k].with_tags(
                if picked.contains(k) {
                    registry.services[k].tags.union(tags)
                } else {
                    registry.services[k].tags
                },
            )
        }),
        ({
            let after = registry.tag_getters(picked, tags).getters;
            &&& after.dom() == registry.getters.dom()
            &&& after.contains_key(k) ==> after[k] == registry.getters[k].with_tags(
                if picked.contains(k) {
                    registry.getters[k].channel.tags.union(tags)
                } else {
                    registry.getters[k].channel.tags
                },
            )
        }),
        ({
            let after = registry.tag_setters(picked, tags).setters;
            &&& after.dom() == registry.setters.dom()
            &&& after.contains_key(k) ==> after[k] == registry.setters[k].with_tags(
                if picked.contains(k) {
                    registry.setters[k].tags.union(tags)
                } else {
                    registry.setters[k].tags
                },
            )
        }),
{
    assert(registry.tag_services(picked, tags).services.dom() =~= registry.services.dom());
    assert(registry.tag_getters(picked, tags).getters.dom() =~= registry.getters.dom());
    assert(registry.tag_setters(picked, tags).setters.dom() =~= registry.setters.dom());
}

/// Removing tags takes them from what was picked, and changes nothing else: whatever was not
/// picked stays as it is, and what was picked changes in its tags alone. So it is with services,
/// getters and setters.
pub proof fn law_tags_are_removed<X: Taxonomy, A>(
    registry: Registry<X, A>,
    picked: Set<u64>,
    tags: Set<TagId>,
    k: u64,
)
    ensures
        ({
            let after = registry.untag_services(picked, tags).services;
            &&& after.dom() == registry.services.dom()
            &&& after.contains_key(k) ==> after[k] == registry.services[k].with_tags(
                if picked.contains(k) {
                    registry.services[k].tags.difference(tags)
                } else {
                    registry.services[k].tags
                },
            )
        }),
        ({
            let after = registry.untag_getters(picked, tags).getters;
            &&& after.dom() == registry.getters.dom()
            &&& after.contains_key(k) ==> after[k] == registry.getters[k].with_tags(
                if picked.contains(k) {
                    registry.getters[k].channel.tags.difference(tags)
                } else {
                    registry.getters[k].channel.tags
                },
            )
        }),
        ({
            let after = registry.untag_setters(picked, tags).setters;
            &&& after.dom() == registry.setters.dom()
            &&& after.contains_key(k) ==> after[k] == registry.setters[k].with_tags(
                if picked.contains(k) {
                    registry.setters[k].tags.difference(tags)
                } else {
                    registry.setters[k].tags
                },
            )
        }),
{
    assert(registry.untag_services(picked, tags).services.dom() =~= registry.services.dom());
    assert(registry.untag_getters(picked, tags).getters.dom() =~= registry.getters.dom());
    assert(registry.untag_setters(picked, tags).setters.dom() =~= registry.setters.dom());
}

/// Adding the same tags twice is adding them once, and so is removing them.
pub proof fn law_tagging_is_idempotent<X: Taxonomy, A>(
    registry: Registry<X, A>,
    picked: Set<u64>,
    tags: Set<TagId>,
)
    ensures
        registry.tag_services(picked, tags).tag_services(picked, tags) == registry.tag_services(
            picked,
            tags,
        ),
        registry.untag_services(picked, tags).untag_services(picked, tags)
            == registry.untag_services(picked, tags),
        registry.tag_getters(picked, tags).tag_getters(picked, tags) == registry.tag_getters(
            picked,
            tags,
        ),
        registry.untag_getters(picked, tags).untag_getters(picked, tags) == registry.untag_getters(
            picked,
            tags,
        ),
        registry.tag_setters(picked, tags).tag_setters(picked, tags) == registry.tag_setters(
            picked,
            tags,
        ),
        registry.untag_setters(picked, tags).untag_setters(picked, tags) == registry.untag_setters(
            picked,
            tags,
        ),
{
    assert forall|old_tags: Set<TagId>| #[trigger]
        old_tags.union(tags).union(tags) == old_tags.union(tags) by {
        assert(old_tags.union(tags).union(tags) =~= old_tags.union(tags));
    }
    assert forall|old_tags: Set<TagId>| #[trigger]
        old_tags.difference(tags).difference(tags) == old_tags.difference(tags) by {
        assert(old_tags.difference(tags).difference(tags) =~= old_tags.difference(tags));
    }
    let s = registry.services;
    assert(tagged(tagged(s, picked, tags), picked, tags) =~= tagged(s, picked, tags));
    assert(untagged(untagged(s, picked, tags), picked, tags) =~= untagged(s, picked, tags));
    let g = registry.getters;
    assert(tagged(tagged(g, picked, tags), picked, tags) =~= tagged(g, picked, tags));
    assert(untagged(untagged(g, picked, tags), picked, tags) =~= untagged(g, picked, tags));
    let t = registry.setters;
    assert(tagged(tagged(t, picked, tags), picked, tags) =~= tagged(t, picked, tags));
    assert(untagged(untagged(t, picked, tags), picked, tags) =~= untagged(t, picked, tags));
}

/// Removing the tags that were just added leaves what was picked without them, as if they had
/// been removed without being added first.
pub proof fn law_untagging_undoes_tagging<X: Taxonomy, A>(
    registry: Registry<X, A>,
    picked: Set<u64>,
    tags: Set<TagId>,
)
    ensures
        registry.tag_services(picked, tags).untag_services(picked, tags)
            == registry.untag_services(picked, tags),
        registry.tag_getters(picked, tags).untag_getters(picked, tags) == registry.untag_getters(
            picked,
            tags,
        ),
        registry.tag_setters(picked, tags).untag_setters(picked, tags) == registry.untag_setters(
            picked,
            tags,
        ),
{
    assert forall|old_tags: Set<TagId>| #[trigger]
        old_tags.union(tags).difference(tags) == old_tags.difference(tags) by {
        assert(old_tags.union(tags).difference(tags) =~= old_tags.difference(tags));
    }
    let s = registry.services;
    assert(untagged(tagged(s, picked, tags), picked, tags) =~= untagged(s, picked, tags));
    let g = registry.getters;
    assert(untagged(tagged(g, picked, tags), picked, tags) =~= untagged(g, picked, tags));
    let t = registry.setters;
    assert(untagged(tagged(t, picked, tags), picked, tags) =~= untagged(t, picked, tags));
}

} // verus!
