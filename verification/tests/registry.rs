//! The registry, with a small family of made-up devices plugged in.
use std::cell::RefCell;
use std::collections::{HashMap, HashSet};
use std::rc::Rc;
use std::sync::atomic::{AtomicBool, Ordering};
use std::sync::Arc;

use foxbox_backend::adapter::{Adapter, Taxonomy};
use foxbox_backend::backend::AdapterManagerState;
use foxbox_backend::data::ServiceData;
use foxbox_backend::op::{Op, Reply};
use foxbox_backend::selection::{tag_items, untag_items};
use foxbox_backend::types::{
    AdapterWatchEvent, Channel, Error, Exactly, InternalError, Service, WatchEvent,
};
use foxbox_backend::watch::{forward_unless_dropped, WatchMap};

/// Selects by identifier, by tag or not at all.
#[derive(Clone, Debug)]
enum Pick {
    Id(u64),
    Tag(u64),
    All,
}

type Told = WatchEvent<i32, String>;

/// Where an adapter reports: it filters what the client is told.
struct Sink {
    on_event: Arc<RefCell<Vec<Told>>>,
    is_dropped: Arc<AtomicBool>,
}

impl Sink {
    fn report(&self, event: AdapterWatchEvent<i32>) {
        if let Some(told) = forward_unless_dropped(&self.is_dropped, event) {
            self.on_event.borrow_mut().push(told);
        }
    }
}

/// Records its own release.
struct Guard {
    getter: u64,
    log: Rc<RefCell<Log>>,
}

impl Drop for Guard {
    fn drop(&mut self) {
        self.log.borrow_mut().released.push(self.getter);
    }
}

/// What the adapters were asked for.
#[derive(Default)]
struct Log {
    fetched: Vec<(u64, Vec<u64>)>,
    sent: Vec<(u64, Vec<(u64, i32)>)>,
    watched: Vec<(u64, Vec<(u64, Option<(i32, i32)>)>)>,
    released: Vec<u64>,
    sinks: Vec<Sink>,
}

struct Lab;

impl Taxonomy for Lab {
    type Getter = &'static str;
    type Setter = &'static str;
    type Value = i32;
    type Range = (i32, i32);
    type AdapterError = String;
    type EventSender = RefCell<Vec<Told>>;
    type EventSink = Sink;
    type AdapterWatchGuard = Guard;
    type ServiceSelector = Pick;
    type GetterSelector = Pick;
    type SetterSelector = Pick;

    fn service_matches(service: &Service<&'static str, &'static str>, selector: &Pick) -> bool {
        match selector {
            Pick::Id(id) => service.id == *id,
            Pick::Tag(tag) => service.tags.contains(tag),
            Pick::All => true,
        }
    }

    fn getter_matches(getter: &Channel<&'static str>, selector: &Pick) -> bool {
        match selector {
            Pick::Id(id) => getter.id == *id,
            Pick::Tag(tag) => getter.tags.contains(tag),
            Pick::All => true,
        }
    }

    fn setter_matches(setter: &Channel<&'static str>, selector: &Pick) -> bool {
        Self::getter_matches(setter, selector)
    }

    fn sink(on_event: &Arc<RefCell<Vec<Told>>>, is_dropped: &Arc<AtomicBool>) -> Sink {
        Sink { on_event: on_event.clone(), is_dropped: is_dropped.clone() }
    }

    fn notify(on_event: &Arc<RefCell<Vec<Told>>>, events: Vec<Told>) {
        on_event.borrow_mut().extend(events);
    }
}

struct Device {
    id: u64,
    /// Getters and setters that do not work.
    broken: Vec<u64>,
    log: Rc<RefCell<Log>>,
}

impl Adapter<Lab> for Device {
    fn id(&self) -> u64 {
        self.id
    }

    fn fetch_values(&self, getters: Vec<u64>) -> Vec<(u64, Result<Option<i32>, String>)> {
        let reply = getters
            .iter()
            .map(|g| {
                if self.broken.contains(g) {
                    (*g, Err(String::from("broken")))
                } else {
                    (*g, Ok(Some(*g as i32 + 1)))
                }
            })
            .collect();
        self.log.borrow_mut().fetched.push((self.id, getters));
        reply
    }

    fn send_values(&self, values: Vec<(u64, Arc<i32>)>) -> Vec<(u64, Result<(), String>)> {
        let reply = values
            .iter()
            .map(|(t, _)| {
                if self.broken.contains(t) {
                    (*t, Err(String::from("broken")))
                } else {
                    (*t, Ok(()))
                }
            })
            .collect();
        let values = values.iter().map(|(t, value)| (*t, **value)).collect();
        self.log.borrow_mut().sent.push((self.id, values));
        reply
    }

    fn register_watch(
        &self,
        watch: Vec<(u64, Option<Arc<(i32, i32)>>)>,
        on_event: Sink,
    ) -> Vec<(u64, Result<Guard, String>)> {
        let reply = watch
            .iter()
            .map(|(g, _)| {
                if self.broken.contains(g) {
                    (*g, Err(String::from("broken")))
                } else {
                    (*g, Ok(Guard { getter: *g, log: self.log.clone() }))
                }
            })
            .collect();
        let watch = watch.iter().map(|(g, range)| (*g, range.as_ref().map(|r| **r))).collect();
        let mut log = self.log.borrow_mut();
        log.watched.push((self.id, watch));
        log.sinks.push(on_event);
        reply
    }
}

type State = AdapterManagerState<Lab, Device>;

fn device(id: u64, log: &Rc<RefCell<Log>>) -> Device {
    Device { id, broken: Vec::new(), log: log.clone() }
}

fn service(id: u64, adapter: u64) -> Service<&'static str, &'static str> {
    Service {
        tags: HashSet::new(),
        id,
        adapter,
        getters: HashMap::new(),
        setters: HashMap::new(),
    }
}

fn channel(id: u64, service: u64, adapter: u64) -> Channel<&'static str> {
    Channel { tags: HashSet::new(), id, service, adapter, mechanism: Arc::new("light") }
}

fn refusal(error: InternalError) -> Result<(), Error> {
    Err(Error::InternalError(error))
}

/// Adapters 1 and 2. Service 10, of adapter 1, holds getters 100 and 101 and setter 200; service
/// 20, of adapter 2, holds getter 102 and setters 201 and 202. Getter 101 and setter 202 are
/// broken.
fn house() -> (State, Rc<RefCell<Log>>) {
    let log = Rc::new(RefCell::new(Log::default()));
    let mut state = State::new();
    for id in [1, 2] {
        let device = Device { id, broken: vec![101, 202], log: log.clone() };
        assert_eq!(state.add_adapter(device), Ok(()));
    }
    assert_eq!(state.add_service(service(10, 1)), Ok(()));
    assert_eq!(state.add_service(service(20, 2)), Ok(()));
    assert_eq!(state.add_getter(channel(100, 10, 1)), Ok(()));
    assert_eq!(state.add_getter(channel(101, 10, 1)), Ok(()));
    assert_eq!(state.add_getter(channel(102, 20, 2)), Ok(()));
    assert_eq!(state.add_setter(channel(200, 10, 1)), Ok(()));
    assert_eq!(state.add_setter(channel(201, 20, 2)), Ok(()));
    assert_eq!(state.add_setter(channel(202, 20, 2)), Ok(()));
    (state, log)
}

fn services(state: &State, selectors: Vec<Pick>) -> Vec<u64> {
    let mut ids: Vec<u64> = state.get_services(selectors).iter().map(|s| s.id).collect();
    ids.sort();
    ids
}

fn getters(state: &State, selectors: Vec<Pick>) -> Vec<u64> {
    let mut ids: Vec<u64> = state.get_getter_channels(selectors).iter().map(|c| c.id).collect();
    ids.sort();
    ids
}

fn setters(state: &State, selectors: Vec<Pick>) -> Vec<u64> {
    let mut ids: Vec<u64> = state.get_setter_channels(selectors).iter().map(|c| c.id).collect();
    ids.sort();
    ids
}

fn sorted<T: Ord>(mut items: Vec<T>) -> Vec<T> {
    items.sort();
    items
}

fn client() -> Arc<RefCell<Vec<Told>>> {
    Arc::new(RefCell::new(Vec::new()))
}

#[test]
fn a_new_registry_is_empty() {
    let state = State::new();
    assert!(services(&state, vec![Pick::All]).is_empty());
    assert!(getters(&state, vec![Pick::All]).is_empty());
    assert!(setters(&state, vec![Pick::All]).is_empty());
    assert_eq!(state.next_watch_key(), 0);
}

#[test]
fn an_adapter_is_added_once() {
    let log = Rc::new(RefCell::new(Log::default()));
    let mut state = State::new();
    assert_eq!(state.add_adapter(device(1, &log)), Ok(()));
    assert_eq!(state.add_adapter(device(1, &log)), refusal(InternalError::DuplicateAdapter(1)));
    assert_eq!(state.add_adapter(device(2, &log)), Ok(()));
}

#[test]
fn an_adapter_can_be_added_under_a_given_identifier() {
    let log = Rc::new(RefCell::new(Log::default()));
    let mut state = State::new();
    assert_eq!(state.add_adapter_as(7, device(1, &log)), Ok(()));
    assert_eq!(
        state.add_adapter_as(7, device(2, &log)),
        refusal(InternalError::DuplicateAdapter(7))
    );
    assert_eq!(state.add_adapter(device(1, &log)), Ok(()));
    assert_eq!(state.remove_adapter(7), Ok(()));
    assert_eq!(state.remove_adapter(1), Ok(()));
}

#[test]
fn an_adapter_is_added_under_the_identifier_that_it_gives() {
    let log = Rc::new(RefCell::new(Log::default()));
    let mut state = State::new();
    assert_eq!(state.add_adapter(device(4, &log)), Ok(()));
    assert_eq!(state.add_service(service(10, 4)), Ok(()));
    assert_eq!(state.remove_adapter(1), refusal(InternalError::NoSuchAdapter(1)));
    assert_eq!(state.remove_adapter(4), Ok(()));
}

#[test]
fn removing_an_unknown_adapter_is_refused() {
    let (mut state, _) = house();
    assert_eq!(state.remove_adapter(3), refusal(InternalError::NoSuchAdapter(3)));
    assert_eq!(services(&state, vec![Pick::All]), vec![10, 20]);
}

#[test]
fn removing_an_adapter_takes_its_services_and_channels() {
    let (mut state, _) = house();
    assert_eq!(state.remove_adapter(1), Ok(()));
    assert_eq!(services(&state, vec![Pick::All]), vec![20]);
    assert_eq!(getters(&state, vec![Pick::All]), vec![102]);
    assert_eq!(setters(&state, vec![Pick::All]), vec![201, 202]);
    assert_eq!(state.remove_adapter(1), refusal(InternalError::NoSuchAdapter(1)));
}

#[test]
fn an_adapter_can_come_back() {
    let (mut state, log) = house();
    assert_eq!(state.remove_adapter(1), Ok(()));
    assert_eq!(state.add_adapter(device(1, &log)), Ok(()));
    assert_eq!(state.add_service(service(10, 1)), Ok(()));
    assert_eq!(state.add_getter(channel(100, 10, 1)), Ok(()));
    assert_eq!(getters(&state, vec![Pick::All]), vec![100, 102]);
}

#[test]
fn a_service_must_come_without_getters() {
    let (mut state, _) = house();
    let mut early = service(30, 1);
    early.getters.insert(300, channel(300, 30, 1));
    assert_eq!(state.add_service(early), refusal(InternalError::InvalidInitialService));
    assert_eq!(services(&state, vec![Pick::All]), vec![10, 20]);
}

#[test]
fn a_service_must_come_without_setters() {
    let (mut state, _) = house();
    let mut early = service(30, 9);
    early.setters.insert(300, channel(300, 30, 9));
    assert_eq!(state.add_service(early), refusal(InternalError::InvalidInitialService));
}

#[test]
fn a_service_needs_its_adapter() {
    let (mut state, _) = house();
    assert_eq!(state.add_service(service(30, 9)), refusal(InternalError::NoSuchAdapter(9)));
    assert_eq!(state.add_service(service(10, 9)), refusal(InternalError::NoSuchAdapter(9)));
}

#[test]
fn a_service_is_added_once() {
    let (mut state, _) = house();
    assert_eq!(state.add_service(service(10, 1)), refusal(InternalError::DuplicateService(10)));
    assert_eq!(state.add_service(service(10, 2)), refusal(InternalError::DuplicateService(10)));
    assert_eq!(state.remove_adapter(2), Ok(()));
    assert_eq!(services(&state, vec![Pick::All]), vec![10]);
}

#[test]
fn removing_a_service_takes_its_channels() {
    let (mut state, _) = house();
    assert_eq!(state.remove_service(20), Ok(()));
    assert_eq!(services(&state, vec![Pick::All]), vec![10]);
    assert_eq!(getters(&state, vec![Pick::All]), vec![100, 101]);
    assert_eq!(setters(&state, vec![Pick::All]), vec![200]);
    assert_eq!(state.remove_service(20), refusal(InternalError::NoSuchService(20)));
}

#[test]
fn removing_a_service_undoes_adding_it() {
    let (mut state, _) = house();
    assert_eq!(state.add_service(service(30, 1)), Ok(()));
    assert_eq!(state.remove_service(30), Ok(()));
    assert_eq!(services(&state, vec![Pick::All]), vec![10, 20]);
    assert_eq!(state.add_service(service(30, 2)), Ok(()));
}

#[test]
fn a_getter_needs_its_service() {
    let (mut state, _) = house();
    assert_eq!(state.add_getter(channel(300, 30, 1)), refusal(InternalError::NoSuchService(30)));
}

#[test]
fn a_getter_belongs_to_the_adapter_of_its_service() {
    let (mut state, _) = house();
    assert_eq!(
        state.add_getter(channel(300, 10, 2)),
        refusal(InternalError::ConflictingAdapter(1, 2))
    );
    assert_eq!(
        state.add_getter(channel(300, 10, 9)),
        refusal(InternalError::ConflictingAdapter(1, 9))
    );
    assert_eq!(getters(&state, vec![Pick::All]), vec![100, 101, 102]);
}

#[test]
fn a_getter_is_added_once() {
    let (mut state, _) = house();
    assert_eq!(state.add_getter(channel(100, 10, 1)), refusal(InternalError::DuplicateGetter(100)));
    assert_eq!(state.add_getter(channel(100, 20, 2)), refusal(InternalError::DuplicateGetter(100)));
    let listed = state.get_services(vec![Pick::Id(20)]);
    assert_eq!(listed.len(), 1);
    assert!(!listed[0].getters.contains_key(&100));
}

#[test]
fn a_getter_and_a_setter_may_share_an_identifier() {
    let (mut state, _) = house();
    assert_eq!(state.add_setter(channel(100, 10, 1)), Ok(()));
    assert_eq!(setters(&state, vec![Pick::Id(100)]), vec![100]);
    assert_eq!(state.remove_getter(100), Ok(()));
    assert_eq!(setters(&state, vec![Pick::Id(100)]), vec![100]);
}

#[test]
fn removing_a_getter_tells_its_service() {
    let (mut state, _) = house();
    assert_eq!(state.remove_getter(100), Ok(()));
    assert_eq!(getters(&state, vec![Pick::All]), vec![101, 102]);
    let listed = state.get_services(vec![Pick::Id(10)]);
    assert_eq!(listed[0].getters.keys().copied().collect::<Vec<u64>>(), vec![101]);
    assert_eq!(state.remove_getter(100), refusal(InternalError::NoSuchGetter(100)));
    assert_eq!(state.add_getter(channel(100, 10, 1)), Ok(()));
}

#[test]
fn a_setter_needs_its_service() {
    let (mut state, _) = house();
    assert_eq!(state.add_setter(channel(300, 30, 1)), refusal(InternalError::NoSuchService(30)));
}

#[test]
fn a_setter_belongs_to_the_adapter_of_its_service() {
    let (mut state, _) = house();
    assert_eq!(
        state.add_setter(channel(300, 20, 1)),
        refusal(InternalError::ConflictingAdapter(2, 1))
    );
    assert_eq!(setters(&state, vec![Pick::All]), vec![200, 201, 202]);
}

#[test]
fn a_setter_is_added_once() {
    let (mut state, _) = house();
    assert_eq!(state.add_setter(channel(200, 10, 1)), refusal(InternalError::DuplicateSetter(200)));
    assert_eq!(state.add_setter(channel(200, 20, 2)), refusal(InternalError::DuplicateSetter(200)));
}

#[test]
fn removing_a_setter_tells_its_service() {
    let (mut state, _) = house();
    assert_eq!(state.remove_setter(201), Ok(()));
    assert_eq!(setters(&state, vec![Pick::All]), vec![200, 202]);
    let listed = state.get_services(vec![Pick::Id(20)]);
    assert_eq!(listed[0].setters.keys().copied().collect::<Vec<u64>>(), vec![202]);
    assert_eq!(state.remove_setter(201), refusal(InternalError::NoSuchSetter(201)));
    assert_eq!(state.add_setter(channel(201, 20, 2)), Ok(()));
}

#[test]
fn services_list_the_channels_that_are_registered() {
    let (state, _) = house();
    for listed in state.get_services(vec![Pick::All]) {
        for (id, held) in &listed.getters {
            let registered = state.get_getter_channels(vec![Pick::Id(*id)]);
            assert_eq!(registered.len(), 1);
            assert_eq!(registered[0].service, listed.id);
            assert_eq!(registered[0].adapter, listed.adapter);
            assert_eq!(held.mechanism, registered[0].mechanism);
        }
        for id in listed.setters.keys() {
            let registered = state.get_setter_channels(vec![Pick::Id(*id)]);
            assert_eq!(registered.len(), 1);
            assert_eq!(registered[0].service, listed.id);
            assert_eq!(registered[0].adapter, listed.adapter);
        }
    }
}

#[test]
fn selectors_choose_what_any_of_them_chooses() {
    let (state, _) = house();
    assert_eq!(getters(&state, vec![Pick::Id(100), Pick::Id(102)]), vec![100, 102]);
    assert_eq!(getters(&state, vec![Pick::Id(100), Pick::All]), vec![100, 101, 102]);
    assert_eq!(services(&state, vec![Pick::Id(20), Pick::Id(9)]), vec![20]);
    assert_eq!(setters(&state, vec![Pick::Id(9)]), Vec::<u64>::new());
}

#[test]
fn no_selectors_choose_nothing() {
    let (mut state, log) = house();
    assert!(services(&state, Vec::new()).is_empty());
    assert!(getters(&state, Vec::new()).is_empty());
    assert!(setters(&state, Vec::new()).is_empty());
    assert_eq!(state.add_service_tags(Vec::new(), vec![5]), 0);
    assert!(state.fetch_values(Vec::new()).is_empty());
    assert!(log.borrow().fetched.is_empty());
}

#[test]
fn tags_of_services_are_added_and_removed() {
    let (mut state, _) = house();
    assert_eq!(state.add_service_tags(vec![Pick::Id(10)], vec![5, 6]), 1);
    assert_eq!(state.add_service_tags(vec![Pick::All], vec![7]), 2);
    assert_eq!(services(&state, vec![Pick::Tag(5)]), vec![10]);
    assert_eq!(services(&state, vec![Pick::Tag(7)]), vec![10, 20]);
    assert_eq!(state.remove_service_tags(vec![Pick::Tag(6)], vec![5, 8]), 1);
    assert_eq!(services(&state, vec![Pick::Tag(5)]), Vec::<u64>::new());
    assert_eq!(services(&state, vec![Pick::Tag(6)]), vec![10]);
}

#[test]
fn tags_of_getters_are_added_and_removed() {
    let (mut state, _) = house();
    assert_eq!(state.add_getter_tags(vec![Pick::Id(100), Pick::Id(102)], vec![5]), 2);
    assert_eq!(getters(&state, vec![Pick::Tag(5)]), vec![100, 102]);
    assert_eq!(state.remove_getter_tags(vec![Pick::Id(102)], vec![5]), 1);
    assert_eq!(getters(&state, vec![Pick::Tag(5)]), vec![100]);
    assert_eq!(setters(&state, vec![Pick::Tag(5)]), Vec::<u64>::new());
}

#[test]
fn tags_of_setters_are_added_and_removed() {
    let (mut state, _) = house();
    assert_eq!(state.add_setter_tags(vec![Pick::All], vec![5, 5]), 3);
    assert_eq!(setters(&state, vec![Pick::Tag(5)]), vec![200, 201, 202]);
    assert_eq!(state.remove_setter_tags(vec![Pick::Id(201)], vec![5]), 1);
    assert_eq!(setters(&state, vec![Pick::Tag(5)]), vec![200, 202]);
    assert_eq!(getters(&state, vec![Pick::Tag(5)]), Vec::<u64>::new());
}

#[test]
fn tagging_twice_is_tagging_once() {
    let (mut state, _) = house();
    assert_eq!(state.add_getter_tags(vec![Pick::Id(100)], vec![5]), 1);
    assert_eq!(state.add_getter_tags(vec![Pick::Id(100)], vec![5]), 1);
    assert_eq!(state.get_getter_channels(vec![Pick::Id(100)])[0].tags.len(), 1);
    assert_eq!(state.remove_getter_tags(vec![Pick::Id(100)], vec![5]), 1);
    assert_eq!(state.remove_getter_tags(vec![Pick::Id(100)], vec![5]), 1);
    assert!(state.get_getter_channels(vec![Pick::Id(100)])[0].tags.is_empty());
}

#[test]
fn the_copy_in_the_service_keeps_its_tags() {
    let (mut state, _) = house();
    assert_eq!(state.add_getter_tags(vec![Pick::Id(100)], vec![5]), 1);
    let listed = state.get_services(vec![Pick::Id(10)]);
    assert!(listed[0].getters[&100].tags.is_empty());
}

#[test]
fn each_adapter_is_asked_once_for_all_its_getters() {
    let (mut state, log) = house();
    let mut results = state.fetch_values(vec![Pick::All, Pick::Id(100)]);
    results.sort();
    assert_eq!(
        results,
        vec![(100, Ok(Some(101))), (101, Err(String::from("broken"))), (102, Ok(Some(103)))]
    );
    let mut asked: Vec<(u64, Vec<u64>)> =
        log.borrow().fetched.iter().map(|(a, g)| (*a, sorted(g.clone()))).collect();
    asked.sort();
    assert_eq!(asked, vec![(1, vec![100, 101]), (2, vec![102])]);
}

#[test]
fn an_adapter_without_chosen_getters_is_not_asked() {
    let (mut state, log) = house();
    assert_eq!(state.fetch_values(vec![Pick::Id(102)]), vec![(102, Ok(Some(103)))]);
    assert_eq!(log.borrow().fetched, vec![(2, vec![102])]);
}

#[test]
fn a_request_to_a_missing_adapter_is_skipped() {
    let (state, log) = house();
    assert_eq!(
        state.dispatch_fetch(vec![(9, vec![100]), (2, vec![102])]),
        vec![(102, Ok(Some(103)))]
    );
    assert_eq!(log.borrow().fetched, vec![(2, vec![102])]);
    assert!(state.dispatch_send(vec![(9, vec![(200, Arc::new(4))])]).is_empty());
    assert!(log.borrow().sent.is_empty());
}

#[test]
fn values_reach_the_chosen_setters() {
    let (state, log) = house();
    let results = state.send_values(vec![
        (vec![Pick::Id(200), Pick::Id(201)], Arc::new(4)),
        (vec![Pick::Id(201), Pick::Id(202)], Arc::new(8)),
    ]);
    assert_eq!(
        sorted(results),
        vec![(200, Ok(())), (201, Ok(())), (201, Ok(())), (202, Err(String::from("broken")))]
    );
    let mut sent = log.borrow().sent.clone();
    sent.sort();
    assert_eq!(sent.len(), 2);
    assert_eq!(sent[0], (1, vec![(200, 4)]));
    assert_eq!(sent[1].0, 2);
    assert_eq!(sent[1].1[0], (201, 4));
    assert_eq!(sorted(sent[1].1.clone()), vec![(201, 4), (201, 8), (202, 8)]);
}

#[test]
fn sending_nothing_asks_nobody() {
    let (state, log) = house();
    assert!(state.send_values(Vec::new()).is_empty());
    assert!(state.send_values(vec![(vec![Pick::Id(9)], Arc::new(1))]).is_empty());
    assert!(log.borrow().sent.is_empty());
}

#[test]
fn a_watch_is_dispatched_to_the_adapters_in_charge() {
    let (mut state, log) = house();
    let on_event = client();
    let (listener, key, is_dropped) = state.register_channel_watch(
        vec![
            (vec![Pick::Id(100)], Exactly::Exactly(Arc::new((1, 5)))),
            (vec![Pick::Id(100), Pick::Id(102)], Exactly::Always),
        ],
        on_event.clone(),
    );
    assert!(Arc::ptr_eq(&listener, &on_event));
    assert_eq!(key, 0);
    assert!(!is_dropped.load(Ordering::Relaxed));
    assert_eq!(state.next_watch_key(), 1);
    let mut watched = log.borrow().watched.clone();
    watched.sort();
    assert_eq!(
        watched,
        vec![(1, vec![(100, Some((1, 5))), (100, None)]), (2, vec![(102, None)])]
    );
    assert!(on_event.borrow().is_empty());
    assert!(log.borrow().released.is_empty());
}

#[test]
fn a_watch_for_no_values_asks_nobody() {
    let (mut state, log) = house();
    let (_, key, _) =
        state.register_channel_watch(vec![(vec![Pick::All], Exactly::Never)], client());
    assert_eq!(key, 0);
    assert!(log.borrow().watched.is_empty());
    state.unregister_channel_watch(key);
    assert_eq!(getters(&state, vec![Pick::All]), vec![100, 101, 102]);
}

#[test]
fn the_client_is_told_of_getters_that_cannot_be_watched() {
    let (mut state, log) = house();
    let on_event = client();
    let (_, key, _) =
        state.register_channel_watch(vec![(vec![Pick::All], Exactly::Always)], on_event.clone());
    assert_eq!(
        *on_event.borrow(),
        vec![WatchEvent::InitializationError { channel: 101, error: String::from("broken") }]
    );
    assert!(log.borrow().released.is_empty());
    state.unregister_channel_watch(key);
    assert_eq!(sorted(log.borrow().released.clone()), vec![100, 102]);
}

#[test]
fn the_client_is_told_of_values_until_the_watch_is_dropped() {
    let (mut state, log) = house();
    let on_event = client();
    let watch = vec![(vec![Pick::Id(100)], Exactly::Always)];
    let (_, _, is_dropped) = state.register_channel_watch(watch, on_event.clone());
    log.borrow().sinks[0].report(AdapterWatchEvent::Enter { id: 100, value: 3 });
    log.borrow().sinks[0].report(AdapterWatchEvent::Exit { id: 100, value: 9 });
    is_dropped.store(true, Ordering::Relaxed);
    log.borrow().sinks[0].report(AdapterWatchEvent::Enter { id: 100, value: 4 });
    assert_eq!(
        *on_event.borrow(),
        vec![
            WatchEvent::EnterRange { from: 100, value: 3 },
            WatchEvent::ExitRange { from: 100, value: 9 },
        ]
    );
}

#[test]
fn each_watch_has_its_own_key() {
    let (mut state, _) = house();
    let first = state.register_channel_watch(vec![(vec![Pick::All], Exactly::Always)], client()).1;
    let second = state.register_channel_watch(Vec::new(), client()).1;
    state.unregister_channel_watch(first);
    let third = state.register_channel_watch(vec![(vec![Pick::All], Exactly::Always)], client()).1;
    assert_eq!((first, second, third), (0, 1, 2));
}

#[test]
fn ending_a_watch_leaves_the_others_alone() {
    let (mut state, log) = house();
    let first =
        state.register_channel_watch(vec![(vec![Pick::Id(100)], Exactly::Always)], client()).1;
    let second =
        state.register_channel_watch(vec![(vec![Pick::Id(102)], Exactly::Always)], client()).1;
    state.unregister_channel_watch(first);
    assert_eq!(log.borrow().released, vec![100]);
    state.unregister_channel_watch(second);
    assert_eq!(log.borrow().released, vec![100, 102]);
}

#[test]
fn ending_a_watch_twice_is_ending_it_once() {
    let (mut state, log) = house();
    let key =
        state.register_channel_watch(vec![(vec![Pick::Id(100)], Exactly::Always)], client()).1;
    state.unregister_channel_watch(key);
    state.unregister_channel_watch(key);
    state.unregister_channel_watch(77);
    assert_eq!(log.borrow().released, vec![100]);
}

#[test]
fn a_watch_can_end_after_its_getters_are_gone() {
    let (mut state, log) = house();
    let key = state
        .register_channel_watch(
            vec![(vec![Pick::Id(100), Pick::Id(102)], Exactly::Always)],
            client(),
        )
        .1;
    assert_eq!(state.remove_getter(100), Ok(()));
    assert!(log.borrow().released.is_empty());
    state.unregister_channel_watch(key);
    assert_eq!(sorted(log.borrow().released.clone()), vec![100, 102]);
    assert_eq!(getters(&state, vec![Pick::All]), vec![101, 102]);
}

#[test]
fn a_getter_that_comes_later_is_not_watched() {
    let (mut state, log) = house();
    let key = state.register_channel_watch(vec![(vec![Pick::All], Exactly::Always)], client()).1;
    assert_eq!(state.add_getter(channel(103, 20, 2)), Ok(()));
    assert!(log.borrow().watched.iter().all(|(_, w)| w.iter().all(|(g, _)| *g != 103)));
    state.unregister_channel_watch(key);
    assert_eq!(getters(&state, vec![Pick::All]), vec![100, 101, 102, 103]);
}

#[test]
fn starting_a_watch_gives_the_requests_to_dispatch() {
    let (mut state, log) = house();
    let is_dropped = Arc::new(AtomicBool::new(false));
    let on_event = client();
    let (key, requests) = state.start_watch(
        vec![(vec![Pick::Id(102)], Exactly::Exactly(Arc::new((0, 9))))],
        &is_dropped,
        on_event.clone(),
    );
    assert_eq!(key, 0);
    assert_eq!(requests, vec![(2, vec![(102, Some(Arc::new((0, 9))))])]);
    assert!(log.borrow().watched.is_empty());
    for (adapter, request) in requests {
        state.dispatch_watch(key, adapter, request, &is_dropped, &on_event);
    }
    assert_eq!(log.borrow().watched, vec![(2, vec![(102, Some((0, 9)))])]);
    state.unregister_channel_watch(key);
    assert_eq!(log.borrow().released, vec![102]);
}

#[test]
fn a_missing_adapter_takes_no_part_in_a_watch() {
    let (mut state, log) = house();
    let is_dropped = Arc::new(AtomicBool::new(false));
    let on_event = client();
    let (key, _) = state.start_watch(Vec::new(), &is_dropped, on_event.clone());
    state.dispatch_watch(key, 9, vec![(100, None)], &is_dropped, &on_event);
    assert!(log.borrow().watched.is_empty());
    assert!(on_event.borrow().is_empty());
}

#[test]
fn replies_are_sorted_into_guards_and_events() {
    let (mut state, log) = house();
    let is_dropped = Arc::new(AtomicBool::new(false));
    let (key, _) = state.start_watch(Vec::new(), &is_dropped, client());
    let guard = |getter: u64| Guard { getter, log: log.clone() };
    let events = state.complete_watch(
        key,
        vec![
            (100, Ok(guard(100))),
            (101, Err(String::from("no"))),
            (102, Ok(guard(102))),
            (103, Err(String::from("never"))),
        ],
    );
    assert_eq!(
        events,
        vec![
            WatchEvent::InitializationError { channel: 101, error: String::from("no") },
            WatchEvent::InitializationError { channel: 103, error: String::from("never") },
        ]
    );
    assert!(log.borrow().released.is_empty());
    state.unregister_channel_watch(key);
    assert_eq!(log.borrow().released, vec![100, 102]);
}

#[test]
fn guards_for_a_watch_that_is_over_are_released() {
    let (mut state, log) = house();
    let events = state.complete_watch(5, vec![(100, Ok(Guard { getter: 100, log: log.clone() }))]);
    assert!(events.is_empty());
    assert_eq!(log.borrow().released, vec![100]);
}

#[test]
fn requests_to_add_and_remove_are_answered() {
    let log = Rc::new(RefCell::new(Log::default()));
    let mut state = State::new();
    let ok = |reply: Reply<Lab>| matches!(reply, Reply::Outcome(Ok(())));
    assert!(ok(state.execute(Op::AddAdapter { adapter: device(1, &log) })));
    assert!(ok(state.execute(Op::AddService { service: service(10, 1) })));
    assert!(ok(state.execute(Op::AddGetter { getter: channel(100, 10, 1) })));
    assert!(ok(state.execute(Op::AddSetter { setter: channel(200, 10, 1) })));
    assert!(ok(state.execute(Op::RemoveGetter { id: 100 })));
    assert!(ok(state.execute(Op::RemoveSetter { id: 200 })));
    assert!(ok(state.execute(Op::RemoveService { id: 10 })));
    assert!(ok(state.execute(Op::RemoveAdapter { id: 1 })));
    match state.execute(Op::RemoveAdapter { id: 1 }) {
        Reply::Outcome(result) => assert_eq!(result, refusal(InternalError::NoSuchAdapter(1))),
        _ => panic!("a removal is answered by its outcome"),
    }
}

#[test]
fn requests_to_list_are_answered() {
    let (mut state, _) = house();
    match state.execute(Op::GetServices { selectors: vec![Pick::Id(10)] }) {
        Reply::Services(listed) => {
            assert_eq!(listed.len(), 1);
            assert_eq!(listed[0].id, 10);
        }
        _ => panic!("services are listed"),
    }
    match state.execute(Op::GetGetterChannels { selectors: vec![Pick::Id(100)] }) {
        Reply::GetterChannels(listed) => {
            assert_eq!(listed.len(), 1);
            assert_eq!(listed[0].id, 100);
        }
        _ => panic!("getters are listed"),
    }
    match state.execute(Op::GetSetterChannels { selectors: vec![Pick::Id(200)] }) {
        Reply::SetterChannels(listed) => {
            assert_eq!(listed.len(), 1);
            assert_eq!(listed[0].id, 200);
        }
        _ => panic!("setters are listed"),
    }
}

#[test]
fn requests_to_change_tags_are_answered_by_counts() {
    let (mut state, _) = house();
    let count = |reply: Reply<Lab>| match reply {
        Reply::Count(count) => count,
        _ => panic!("a change of tags is answered by a count"),
    };
    let all = || vec![Pick::All];
    assert_eq!(count(state.execute(Op::AddServiceTags { selectors: all(), tags: vec![5] })), 2);
    assert_eq!(count(state.execute(Op::AddGetterTags { selectors: all(), tags: vec![5] })), 3);
    assert_eq!(count(state.execute(Op::AddSetterTags { selectors: all(), tags: vec![5] })), 3);
    assert_eq!(services(&state, vec![Pick::Tag(5)]).len(), 2);
    assert_eq!(getters(&state, vec![Pick::Tag(5)]).len(), 3);
    assert_eq!(setters(&state, vec![Pick::Tag(5)]).len(), 3);
    assert_eq!(count(state.execute(Op::RemoveServiceTags { selectors: all(), tags: vec![5] })), 2);
    assert_eq!(count(state.execute(Op::RemoveGetterTags { selectors: all(), tags: vec![5] })), 3);
    assert_eq!(count(state.execute(Op::RemoveSetterTags { selectors: all(), tags: vec![5] })), 3);
    assert!(services(&state, vec![Pick::Tag(5)]).is_empty());
    assert!(getters(&state, vec![Pick::Tag(5)]).is_empty());
    assert!(setters(&state, vec![Pick::Tag(5)]).is_empty());
}

#[test]
fn requests_for_values_are_answered() {
    let (mut state, _) = house();
    match state.execute(Op::FetchValues { selectors: vec![Pick::Id(100)] }) {
        Reply::Fetched(results) => assert_eq!(results, vec![(100, Ok(Some(101)))]),
        _ => panic!("values are fetched"),
    }
    match state.execute(Op::SendValues { keyvalues: vec![(vec![Pick::Id(202)], Arc::new(2))] }) {
        Reply::Sent(results) => assert_eq!(results, vec![(202, Err(String::from("broken")))]),
        _ => panic!("values are sent"),
    }
}

#[test]
fn requests_to_watch_are_answered() {
    let (mut state, log) = house();
    let watch = vec![(vec![Pick::Id(100)], Exactly::Always)];
    let key = match state.execute(Op::RegisterChannelWatch { watch, on_event: client() }) {
        Reply::WatchStarted { on_event, key, is_dropped } => {
            assert!(on_event.borrow().is_empty());
            assert!(!is_dropped.load(Ordering::Relaxed));
            key
        }
        _ => panic!("a watch is started"),
    };
    assert_eq!(log.borrow().watched, vec![(1, vec![(100, None)])]);
    assert!(matches!(state.execute(Op::UnregisterChannelWatch { key }), Reply::Silence));
    assert_eq!(log.borrow().released, vec![100]);
}

#[test]
fn changes_of_tags_count_what_is_listed() {
    let (mut state, _) = house();
    let pick = || vec![Pick::Id(10), Pick::Tag(5), Pick::Id(10)];
    assert_eq!(services(&state, pick()), vec![10]);
    assert_eq!(state.add_service_tags(pick(), vec![5]), 1);
    assert_eq!(state.add_service_tags(vec![Pick::Id(20)], vec![5]), 1);
    let listed = services(&state, pick());
    assert_eq!(listed, vec![10, 20]);
    assert_eq!(state.add_service_tags(pick(), vec![5, 6]), listed.len());
    assert_eq!(services(&state, vec![Pick::Tag(6)]), listed);
    assert_eq!(state.remove_service_tags(pick(), vec![5, 9]), listed.len());
    assert_eq!(services(&state, vec![Pick::Tag(5)]), Vec::<u64>::new());

    let listed = getters(&state, vec![Pick::All]);
    assert_eq!(state.add_getter_tags(vec![Pick::All], vec![7]), listed.len());
    assert_eq!(getters(&state, vec![Pick::Tag(7)]), listed);
    let listed = setters(&state, vec![Pick::Id(200), Pick::Id(201)]);
    assert_eq!(
        state.add_setter_tags(vec![Pick::Id(200), Pick::Id(201)], vec![7]),
        listed.len()
    );
    assert_eq!(setters(&state, vec![Pick::Tag(7)]), listed);
}

#[test]
fn joined_selectors_list_the_union() {
    let (state, _) = house();
    let first = || vec![Pick::Id(100), Pick::Id(101)];
    let second = || vec![Pick::Id(101), Pick::Id(102)];
    let joined: Vec<Pick> = first().into_iter().chain(second()).collect();
    let mut union = getters(&state, first());
    union.extend(getters(&state, second()));
    union.sort();
    union.dedup();
    assert_eq!(getters(&state, joined), union);
    assert_eq!(union, vec![100, 101, 102]);
}

#[test]
fn the_map_of_watches_never_reuses_a_key() {
    let is_dropped = Arc::new(AtomicBool::new(false));
    let mut map: WatchMap<Lab> = WatchMap::default();
    assert_eq!(map.create(Vec::new(), &is_dropped, client()), 0);
    assert_eq!(map.create(Vec::new(), &is_dropped, client()), 1);
    let removed = map.remove(1);
    assert!(matches!(removed, Some(data) if data.key == 1 && data.guards.is_empty()));
    assert!(map.remove(1).is_none());
    assert_eq!(map.next_key(), 2);
    assert_eq!(map.create(Vec::new(), &is_dropped, client()), 2);
    assert!(matches!(map.remove(0), Some(data) if data.key == 0 && data.getters.is_empty()));
}

#[test]
fn watching_for_nothing_and_for_everything_asks_once() {
    let (mut state, log) = house();
    let (_, key, is_dropped) = state.register_channel_watch(
        vec![
            (vec![Pick::Id(102)], Exactly::Never),
            (vec![Pick::Id(102)], Exactly::Always),
        ],
        client(),
    );
    assert_eq!(log.borrow().watched, vec![(2, vec![(102, None)])]);
    assert_eq!(key, 0);
    assert!(!is_dropped.load(Ordering::Relaxed));
}

#[test]
fn the_client_is_told_of_refusals_in_the_order_of_the_reply() {
    let log = Rc::new(RefCell::new(Log::default()));
    let mut state = State::new();
    let broken = vec![100, 101, 103];
    assert_eq!(state.add_adapter(Device { id: 1, broken, log: log.clone() }), Ok(()));
    assert_eq!(state.add_service(service(10, 1)), Ok(()));
    for id in 100..105 {
        assert_eq!(state.add_getter(channel(id, 10, 1)), Ok(()));
    }
    let on_event = client();
    let key = state
        .register_channel_watch(vec![(vec![Pick::All], Exactly::Always)], on_event.clone())
        .1;
    let asked: Vec<u64> = log.borrow().watched[0].1.iter().map(|(g, _)| *g).collect();
    let refused: Vec<Told> = asked
        .iter()
        .filter(|g| [100, 101, 103].contains(*g))
        .map(|g| WatchEvent::InitializationError { channel: *g, error: String::from("broken") })
        .collect();
    assert_eq!(refused.len(), 3);
    assert_eq!(*on_event.borrow(), refused);
    state.unregister_channel_watch(key);
    let granted: Vec<u64> = asked.into_iter().filter(|g| [102, 104].contains(g)).collect();
    assert_eq!(log.borrow().released, granted);
}

#[test]
fn tagging_an_item_listed_twice_is_tagging_it_once() {
    let mut map: HashMap<u64, ServiceData<Lab>> =
        HashMap::from([(10, ServiceData { service: service(10, 1) })]);
    tag_items(&mut map, &vec![10, 10, 11], &vec![5, 6]);
    assert_eq!(map[&10].service.tags, HashSet::from([5, 6]));
    untag_items(&mut map, &vec![10, 10], &vec![6]);
    assert_eq!(map[&10].service.tags, HashSet::from([5]));
    assert_eq!(map.len(), 1);
}
