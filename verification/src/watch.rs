//! The watches that are going on, and the events that they give rise to.
use std::collections::{HashMap, HashSet};
use std::sync::atomic::{AtomicBool, Ordering};
use std::sync::Arc;
use vstd::prelude::*;

use crate::adapter::Taxonomy;
use crate::collections::{group_view_map, insert_all, view_map};
use crate::types::{AdapterWatchEvent, Exactly, GetterId, WatchEvent};

verus! {

broadcast use vstd::std_specs::hash::group_hash_axioms;

/// What a client wants to watch: selectors of getters, each list with the values to watch for.
/// `Never` stands for no values at all: the client then watches only which getters there are.
pub type WatchRequest<X> = Vec<
    (Vec<<X as Taxonomy>::GetterSelector>, Exactly<Arc<<X as Taxonomy>::Range>>),
>;

/// What the client is told of an event, unless the watch was dropped.
pub open spec fn forwarded<V, E>(is_dropped: bool, event: AdapterWatchEvent<V>) -> Option<
    WatchEvent<V, E>,
> {
    if is_dropped {
        None
    } else {
        Some(
            match event {
                AdapterWatchEvent::Enter { id, value } => WatchEvent::EnterRange {
                    from: id,
                    value,
                },
                AdapterWatchEvent::Exit { id, value } => WatchEvent::ExitRange { from: id, value },
            },
        )
    }
}

/// Turns what an adapter reports into what the client is told. Once the watch was dropped, the
/// client is told nothing.
pub fn forward_event<V, E>(is_dropped: bool, event: AdapterWatchEvent<V>) -> (told: Option<
    WatchEvent<V, E>,
>)
    ensures
        told == forwarded::<V, E>(is_dropped, event),
{
    if is_dropped {
        return None;
    }
    Some(
        match event {
            AdapterWatchEvent::Enter { id, value } => WatchEvent::EnterRange { from: id, value },
            AdapterWatchEvent::Exit { id, value } => WatchEvent::ExitRange { from: id, value },
        },
    )
}

/// `raised` is a possible outcome of looking at the flag.
pub open spec fn flag_reads(flag: AtomicBool, raised: bool) -> bool {
    call_ensures(AtomicBool::load, (&flag, Ordering::Relaxed), raised)
}

/// The flag was made as one that is not raised.
pub open spec fn made_lowered(flag: AtomicBool) -> bool {
    call_ensures(AtomicBool::new, (false,), flag)
}

/// Turns what an adapter reports into what the client is told, unless the flag is raised that
/// stands for the watch being dropped. Another thread may raise it at any time.
pub fn forward_unless_dropped<V, E>(is_dropped: &AtomicBool, event: AdapterWatchEvent<V>) -> (told:
    Option<WatchEvent<V, E>>)
    ensures
        exists|dropped: bool| #[trigger]
            flag_reads(*is_dropped, dropped) && told == forwarded::<V, E>(dropped, event),
{
    let dropped = is_dropped.load(Ordering::Relaxed);
    assert(flag_reads(*is_dropped, dropped));
    forward_event(dropped, event)
}

/// The guards that an adapter handed out, in order.
pub open spec fn granted<X: Taxonomy>(
    results: Seq<(GetterId, Result<X::AdapterWatchGuard, X::AdapterError>)>,
) -> Seq<X::AdapterWatchGuard>
    decreases results.len(),
{
    if results.len() == 0 {
        Seq::empty()
    } else {
        let before = granted::<X>(results.drop_last());
        match results.last().1 {
            Ok(guard) => before.push(guard),
            Err(_) => before,
        }
    }
}

/// The events that tell of the getters that an adapter refused to watch, in order.
pub open spec fn refused<X: Taxonomy>(
    results: Seq<(GetterId, Result<X::AdapterWatchGuard, X::AdapterError>)>,
) -> Seq<WatchEvent<X::Value, X::AdapterError>>
    decreases results.len(),
{
    if results.len() == 0 {
        Seq::empty()
    } else {
        let before = refused::<X>(results.drop_last());
        match results.last().1 {
            Ok(_) => before,
            Err(error) => before.push(
                WatchEvent::InitializationError { channel: results.last().0, error },
            ),
        }
    }
}

/// Tells the guards that an adapter handed out from the events to send for its refusals.
pub fn sort_results<X: Taxonomy>(
    results: Vec<(GetterId, Result<X::AdapterWatchGuard, X::AdapterError>)>,
) -> (sorted: (Vec<X::AdapterWatchGuard>, Vec<WatchEvent<X::Value, X::AdapterError>>))
    ensures
        sorted.0@ == granted::<X>(results@),
        sorted.1@ == refused::<X>(results@),
{
    let ghost all = results@;
    let ghost mut done: Seq<(GetterId, Result<X::AdapterWatchGuard, X::AdapterError>)> =
        Seq::empty();
    let mut guards: Vec<X::AdapterWatchGuard> = Vec::new();
    let mut events: Vec<WatchEvent<X::Value, X::AdapterError>> = Vec::new();
    for entry in it: results
        invariant
            it.seq() == all,
            done =~= all.take(it.index() as int),
            guards@ =~= granted::<X>(done),
            events@ =~= refused::<X>(done),
    {
        proof {
            let next = done.push(entry);
            assert(next.drop_last() =~= done);
            done = next;
        }
        let (channel, result) = entry;
        match result {
            Ok(guard) => {
                guards.push(guard);
            },
            Err(error) => {
                events.push(WatchEvent::InitializationError { channel, error });
            },
        }
    }
    assert(done =~= all);
    (guards, events)
}

/// Data on a watch.
pub struct WatcherData<X: Taxonomy> {
    /// What the client asked for.
    pub watch: WatchRequest<X>,
    /// Where the client listens.
    pub on_event: Arc<X::EventSender>,
    /// The key of the watch.
    pub key: usize,
    /// What the adapters handed out for the watch. Releasing these ends the watch.
    pub guards: Vec<X::AdapterWatchGuard>,
    /// The getters to which the watch was attached.
    pub getters: HashSet<GetterId>,
    /// Raised once the client has dropped the watch.
    pub is_dropped: Arc<AtomicBool>,
}

/// What is known of a watch, mathematically.
#[verifier::ext_equal]
pub struct WatcherView<X: Taxonomy> {
    pub watch: Seq<(Vec<X::GetterSelector>, Exactly<Arc<X::Range>>)>,
    pub on_event: Arc<X::EventSender>,
    pub key: usize,
    pub guards: Seq<X::AdapterWatchGuard>,
    pub getters: Set<GetterId>,
    pub is_dropped: Arc<AtomicBool>,
}

impl<X: Taxonomy> WatcherView<X> {
    /// A watch that is attached to no getter, and for which no adapter handed out anything.
    pub open spec fn fresh(
        key: usize,
        watch: Seq<(Vec<X::GetterSelector>, Exactly<Arc<X::Range>>)>,
        is_dropped: Arc<AtomicBool>,
        on_event: Arc<X::EventSender>,
    ) -> Self {
        WatcherView {
            watch,
            on_event,
            key,
            guards: Seq::empty(),
            getters: Set::empty(),
            is_dropped,
        }
    }
}

impl<X: Taxonomy> View for WatcherData<X> {
    type V = WatcherView<X>;

    open spec fn view(&self) -> WatcherView<X> {
        WatcherView {
            watch: self.watch@,
            on_event: self.on_event,
            key: self.key,
            guards: self.guards@,
            getters: self.getters@,
            is_dropped: self.is_dropped,
        }
    }
}

impl<X: Taxonomy> WatcherData<X> {
    /// A watch that is attached to no getter yet.
    pub fn new(
        key: usize,
        watch: WatchRequest<X>,
        is_dropped: &Arc<AtomicBool>,
        on_event: Arc<X::EventSender>,
    ) -> (data: Self)
        ensures
            data@ == WatcherView::<X>::fresh(key, watch@, *is_dropped, on_event),
    {
        WatcherData {
            watch,
            on_event,
            key,
            guards: Vec::new(),
            getters: HashSet::new(),
            is_dropped: is_dropped.clone(),
        }
    }

    /// Keeps the guards that an adapter handed out.
    pub fn push_guards(&mut self, guards: Vec<X::AdapterWatchGuard>)
        ensures
            final(self)@ == (WatcherView { guards: old(self)@.guards + guards@, ..old(self)@ }),
    {
        let mut guards = guards;
        self.guards.append(&mut guards);
    }

    /// Takes note of the getters to which the watch was attached.
    pub fn push_getters(&mut self, getters: &Vec<GetterId>)
        ensures
            final(self)@ == (WatcherView {
                getters: old(self)@.getters.union(getters@.to_set()),
                ..old(self)@
            }),
    {
        insert_all(&mut self.getters, getters);
    }
}

/// The watches that are going on, by key.
pub struct WatchMap<X: Taxonomy> {
    /// A counter of all the watches that there have been. Used to generate unique keys.
    counter: usize,
    watchers: HashMap<usize, WatcherData<X>>,
}

/// The watches that are going on, mathematically.
#[verifier::ext_equal]
pub struct WatchMapView<X: Taxonomy> {
    /// The key of the next watch.
    pub next_key: int,
    /// The watches, by key.
    pub watchers: Map<usize, WatcherView<X>>,
}

impl<X: Taxonomy> WatchMapView<X> {
    /// No watch at all.
    pub open spec fn empty() -> Self {
        WatchMapView { next_key: 0, watchers: Map::empty() }
    }

    /// The counter fits, and each watch is found under its own key, which came from the counter.
    pub open spec fn well_formed(self) -> bool {
        &&& 0 <= self.next_key <= usize::MAX
        &&& forall|k: usize| #[trigger]
            self.watchers.contains_key(k) ==> {
                &&& k < self.next_key
                &&& self.watchers[k].key == k
            }
    }

    /// The same watches and one more, which gets the next key.
    pub open spec fn created(
        self,
        watch: Seq<(Vec<X::GetterSelector>, Exactly<Arc<X::Range>>)>,
        is_dropped: Arc<AtomicBool>,
        on_event: Arc<X::EventSender>,
    ) -> Self {
        let key = self.next_key as usize;
        WatchMapView {
            next_key: self.next_key + 1,
            watchers: self.watchers.insert(
                key,
                WatcherView::fresh(key, watch, is_dropped, on_event),
            ),
        }
    }

    /// The same watches but for the one with this key. The key stays spent.
    pub open spec fn removed(self, key: usize) -> Self {
        WatchMapView { watchers: self.watchers.remove(key), ..self }
    }

    /// The same watches, where the one with this key, if any, is attached to `getters` too.
    pub open spec fn with_getters(self, key: usize, getters: Set<GetterId>) -> Self {
        if self.watchers.contains_key(key) {
            let data = self.watchers[key];
            WatchMapView {
                watchers: self.watchers.insert(
                    key,
                    WatcherView { getters: data.getters.union(getters), ..data },
                ),
                ..self
            }
        } else {
            self
        }
    }

    /// The same watches, where the one with this key, if any, also holds `guards`.
    pub open spec fn with_guards(self, key: usize, guards: Seq<X::AdapterWatchGuard>) -> Self {
        if self.watchers.contains_key(key) {
            let data = self.watchers[key];
            WatchMapView {
                watchers: self.watchers.insert(
                    key,
                    WatcherView { guards: data.guards + guards, ..data },
                ),
                ..self
            }
        } else {
            self
        }
    }
}

impl<X: Taxonomy> View for WatchMap<X> {
    type V = WatchMapView<X>;

    closed spec fn view(&self) -> WatchMapView<X> {
        WatchMapView { next_key: self.counter as int, watchers: view_map(self.watchers@) }
    }
}

impl<X: Taxonomy> WatchMap<X> {
    /// No watch at all.
    pub fn new() -> (map: Self)
        ensures
            map@ == WatchMapView::<X>::empty(),
    {
        broadcast use group_view_map;

        WatchMap { counter: 0, watchers: HashMap::new() }
    }

    /// The key that the next watch will get.
    pub fn next_key(&self) -> (key: usize)
        ensures
            key == self@.next_key,
    {
        self.counter
    }

    /// Starts a watch, and returns its key.
    pub fn create(
        &mut self,
        watch: WatchRequest<X>,
        is_dropped: &Arc<AtomicBool>,
        on_event: Arc<X::EventSender>,
    ) -> (key: usize)
        requires
            old(self)@.next_key < usize::MAX,
        ensures
            key == old(self)@.next_key,
            final(self)@ == old(self)@.created(watch@, *is_dropped, on_event),
    {
        broadcast use group_view_map;

        let key = self.counter;
        self.counter = self.counter + 1;
        self.watchers.insert(key, WatcherData::new(key, watch, is_dropped, on_event));
        key
    }

    /// Ends a watch. Its data is handed back, if there was such a watch.
    pub fn remove(&mut self, key: usize) -> (data: Option<WatcherData<X>>)
        ensures
            match data {
                Some(data) => old(self)@.watchers.contains_key(key) && data@
                    == old(self)@.watchers[key],
                None => !old(self)@.watchers.contains_key(key),
            },
            final(self)@ == old(self)@.removed(key),
    {
        broadcast use group_view_map;

        self.watchers.remove(&key)
    }

    /// Takes note of the getters to which a watch was attached.
    pub fn push_getters(&mut self, key: usize, getters: &Vec<GetterId>)
        ensures
            final(self)@ == old(self)@.with_getters(key, getters@.to_set()),
    {
        broadcast use group_view_map;

        if let Some(data) = self.watchers.remove(&key) {
            let mut data = data;
            data.push_getters(getters);
            self.watchers.insert(key, data);
        }
    }

    /// Keeps the guards that an adapter handed out for a watch. If the watch is over, the guards
    /// are released.
    pub fn push_guards(&mut self, key: usize, guards: Vec<X::AdapterWatchGuard>)
        ensures
            final(self)@ == old(self)@.with_guards(key, guards@),
    {
        broadcast use group_view_map;

        if let Some(data) = self.watchers.remove(&key) {
            let mut data = data;
            data.push_guards(guards);
            self.watchers.insert(key, data);
        }
    }
}

impl<X: Taxonomy> Default for WatchMap<X> {
    fn default() -> (map: Self)
        ensures
            map@ == WatchMapView::<X>::empty(),
    {
        Self::new()
    }
}

} // verus!
