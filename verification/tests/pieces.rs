//! The pieces that the registry is made of.
use std::collections::{HashMap, HashSet};
use std::sync::atomic::AtomicBool;

use foxbox_backend::collections::{
    copy_set, elements_of, insert_all, into_entries, keys_of, remove_all,
};
use foxbox_backend::routing::split_by_adapter;
use foxbox_backend::types::{AdapterWatchEvent, Error, InternalError, WatchEvent};
use foxbox_backend::watch::{forward_event, forward_unless_dropped};

type Told = Option<WatchEvent<i32, String>>;

#[test]
fn errors_compare_by_kind_and_identifier() {
    let error = Error::InternalError(InternalError::NoSuchGetter(4));
    assert_eq!(error, Error::InternalError(InternalError::NoSuchGetter(4)));
    assert_ne!(error, Error::InternalError(InternalError::NoSuchGetter(5)));
    assert_ne!(error, Error::InternalError(InternalError::NoSuchSetter(4)));
}

#[test]
fn events_are_forwarded_with_getter_and_value() {
    let told: Told = forward_event(false, AdapterWatchEvent::Enter { id: 4, value: 7 });
    assert_eq!(told, Some(WatchEvent::EnterRange { from: 4, value: 7 }));
    let told: Told = forward_event(false, AdapterWatchEvent::Exit { id: 4, value: 8 });
    assert_eq!(told, Some(WatchEvent::ExitRange { from: 4, value: 8 }));
}

#[test]
fn a_dropped_watch_is_silent() {
    let told: Told = forward_event(true, AdapterWatchEvent::Enter { id: 4, value: 7 });
    assert_eq!(told, None);
    let told: Told = forward_event(true, AdapterWatchEvent::Exit { id: 4, value: 7 });
    assert_eq!(told, None);
}

#[test]
fn the_flag_decides_what_is_forwarded() {
    let event = || AdapterWatchEvent::Enter { id: 4, value: 7 };
    let told: Told = forward_unless_dropped(&AtomicBool::new(false), event());
    assert_eq!(told, Some(WatchEvent::EnterRange { from: 4, value: 7 }));
    let told: Told = forward_unless_dropped(&AtomicBool::new(true), event());
    assert_eq!(told, None);
}

#[test]
fn work_is_split_in_order() {
    let mut batches =
        split_by_adapter(vec![(1, 'a'), (2, 'b'), (1, 'c'), (1, 'a'), (3, 'd'), (2, 'e')]);
    batches.sort();
    assert_eq!(
        batches,
        vec![(1, vec!['a', 'c', 'a']), (2, vec!['b', 'e']), (3, vec!['d'])]
    );
}

#[test]
fn no_work_makes_no_batches() {
    assert!(split_by_adapter(Vec::<(u64, char)>::new()).is_empty());
}

#[test]
fn sets_gain_and_lose_lists() {
    let mut set: HashSet<u64> = HashSet::new();
    insert_all(&mut set, &vec![3, 1, 3]);
    assert_eq!(set, HashSet::from([1, 3]));
    remove_all(&mut set, &vec![3, 9]);
    assert_eq!(set, HashSet::from([1]));
    assert_eq!(copy_set(&set), set);
    assert_eq!(elements_of(&set), vec![1]);
}

#[test]
fn maps_are_listed() {
    let map: HashMap<u64, char> = HashMap::from([(4, 'x'), (2, 'y')]);
    let mut keys = keys_of(&map);
    keys.sort();
    assert_eq!(keys, vec![2, 4]);
    let mut entries = into_entries(map);
    entries.sort();
    assert_eq!(entries, vec![(2, 'y'), (4, 'x')]);
}
