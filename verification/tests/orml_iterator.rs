use integritee_parachain::orml::iterator::{starting_key, starts_with, EntryAction, MapIterator, MapIteratorShim};

#[test]
fn iteration_starts_under_the_prefix() {
    let prefix = vec![1, 2];
    assert_eq!(starting_key(&prefix, None), vec![1, 2]);
    assert_eq!(starting_key(&prefix, Some(vec![1, 2, 7])), vec![1, 2, 7]);
    assert_eq!(starting_key(&prefix, Some(vec![1, 3, 7])), vec![1, 2]);
    assert_eq!(starting_key(&prefix, Some(vec![1])), vec![1, 2]);
    assert!(starts_with(&vec![1, 2], &vec![]));
}

#[test]
fn the_cursor_stops_outside_the_prefix() {
    let mut c = MapIterator::new(vec![9], None, false);
    assert!(c.advance(Some(vec![9, 1])));
    assert_eq!(c.previous_key, vec![9, 1]);
    assert_eq!(c.key_without_prefix(), vec![1]);
    assert!(!c.advance(Some(vec![10])));
    assert_eq!(c.previous_key, vec![9, 1]);
    assert!(!c.advance(None));
}

#[test]
fn entries_without_value_are_skipped_and_drained_ones_removed() {
    let c = MapIterator::new(vec![9], Some(vec![9, 4]), true);
    assert_eq!(c.previous_key, vec![9, 4]);
    assert_eq!(c.entry_action(false), EntryAction::Skip);
    assert_eq!(c.entry_action(true), EntryAction::Decode { remove: true });
    let c = MapIterator::new(vec![9], None, false);
    assert_eq!(c.entry_action(true), EntryAction::Decode { remove: false });
}

#[test]
fn a_limit_stops_the_iteration() {
    let mut l = MapIteratorShim::new(MapIterator::new(vec![1], None, false), Some(2));
    assert!(l.try_take());
    assert!(l.try_take());
    assert!(!l.try_take());
    assert!(!l.try_take());
    assert_eq!(l.remain_iterator_count, Some(0));
    assert!(!l.finished);
    assert_eq!(l.map_iterator.previous_key, vec![1]);
    let mut u = MapIteratorShim::new(MapIterator::new(vec![1], None, true), None);
    for _ in 0..100 {
        assert!(u.try_take());
    }
    u.record(true);
    assert!(!u.finished);
    u.record(false);
    assert!(u.finished);
    u.record(true);
    assert!(u.finished);
}
