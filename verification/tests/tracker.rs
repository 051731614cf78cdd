use emotitle::snapshot::TabInfo;
use emotitle::tab_index_tracker::{PaneKey, TabIndexEventType, TabIndexTracker};
use std::collections::HashMap;

fn tab(position: usize) -> TabInfo {
    TabInfo {
        position,
        name: String::new(),
        active: false,
    }
}

fn key(id: u32) -> PaneKey {
    PaneKey {
        is_plugin: false,
        id,
    }
}

fn panes(tabs: &[(usize, &[u32])]) -> HashMap<usize, Vec<PaneKey>> {
    tabs.iter()
        .map(|(position, ids)| (*position, ids.iter().map(|id| key(*id)).collect()))
        .collect()
}

#[test]
fn tabs_are_numbered_in_the_order_they_are_seen() {
    let mut tracker = TabIndexTracker::default();
    let tabs = vec![tab(5), tab(1), tab(9)];
    let tab_panes = panes(&[(1, &[10]), (5, &[20, 21]), (9, &[])]);
    tracker.update_for_pane_update(&tabs, &tab_panes);

    assert_eq!(tracker.get_rename_target(&tab_panes, 5), Some(1));
    assert_eq!(tracker.get_rename_target(&tab_panes, 1), Some(2));
    assert_eq!(tracker.get_rename_target(&tab_panes, 9), None);
    assert_eq!(tracker.get_rename_target(&tab_panes, 4), None);

    let entries = tracker.get_debug_entries();
    assert_eq!(entries.len(), 2);
    assert_eq!(entries[0].pane_keys, vec![key(20), key(21)]);
    assert_eq!(entries[0].internal_index, 0);
    assert_eq!(entries[1].internal_index, 1);

    let events = tracker.get_event_history();
    assert_eq!(events.len(), 2);
    assert_eq!(events[0].seq, 0);
    assert_eq!(events[0].event_type, TabIndexEventType::TabAdded);
    assert_eq!(events[1].seq, 1);
    assert_eq!(events[1].pane_keys, vec![key(10)]);
    assert_eq!(events[1].internal_index, 1);
}

#[test]
fn a_tab_keeps_its_number_when_it_moves() {
    let mut tracker = TabIndexTracker::new();
    let before = panes(&[(0, &[1]), (1, &[2]), (2, &[7, 8])]);
    tracker.update_for_tab_update(&[tab(0), tab(1), tab(2)], &before);
    assert_eq!(tracker.get_rename_target(&before, 2), Some(3));

    let after = panes(&[(0, &[8, 9]), (1, &[1]), (2, &[2])]);
    tracker.update_for_tab_update(&[tab(0), tab(1), tab(2)], &after);
    assert_eq!(tracker.get_rename_target(&after, 0), Some(3));
    assert_eq!(tracker.get_rename_target(&after, 1), Some(1));
    assert_eq!(tracker.get_rename_target(&after, 2), Some(2));

    let events = tracker.get_event_history();
    assert_eq!(events.len(), 4);
    assert_eq!(events[3].event_type, TabIndexEventType::TabKeyUpdated);
    assert_eq!(events[3].pane_keys, vec![key(8), key(9)]);
    assert_eq!(events[3].internal_index, 2);
    assert_eq!(tracker.get_debug_entries()[2].pane_keys, vec![key(8), key(9)]);
}

#[test]
fn the_same_panes_in_another_order_change_nothing() {
    let mut tracker = TabIndexTracker::new();
    tracker.update_for_pane_update(&[tab(0)], &panes(&[(0, &[1, 2])]));
    tracker.update_for_pane_update(&[tab(3)], &panes(&[(3, &[2, 1, 2])]));
    assert_eq!(tracker.get_event_history().len(), 1);
    assert_eq!(tracker.get_debug_entries()[0].pane_keys, vec![key(1), key(2)]);
}

#[test]
fn a_vanished_tab_is_noted_once_and_its_number_is_not_reused() {
    let mut tracker = TabIndexTracker::new();
    let both = panes(&[(0, &[1]), (1, &[2])]);
    tracker.update_for_tab_update(&[tab(0), tab(1)], &both);

    let one = panes(&[(0, &[2])]);
    tracker.update_for_pane_update(&[tab(0)], &one);
    assert_eq!(tracker.get_event_history().len(), 2);
    tracker.update_for_tab_update(&[tab(0)], &one);
    tracker.update_for_tab_update(&[tab(0)], &one);

    let events = tracker.get_event_history();
    assert_eq!(events.len(), 3);
    assert_eq!(events[2].event_type, TabIndexEventType::TabRemoved);
    assert_eq!(events[2].pane_keys, vec![key(1)]);
    assert_eq!(events[2].internal_index, 0);
    assert_eq!(events[2].seq, 2);

    let more = panes(&[(0, &[2]), (1, &[3])]);
    tracker.update_for_tab_update(&[tab(0), tab(1)], &more);
    assert_eq!(tracker.get_rename_target(&more, 1), Some(3));
    assert_eq!(tracker.get_rename_target(&more, 0), Some(2));
}

#[test]
fn the_log_keeps_the_latest_two_hundred_events() {
    let mut tracker = TabIndexTracker::new();
    for id in 0..205u32 {
        tracker.update_for_pane_update(&[tab(0)], &panes(&[(0, &[id])]));
    }
    let events = tracker.get_event_history();
    assert_eq!(events.len(), 200);
    assert_eq!(events[0].seq, 5);
    assert_eq!(events[199].seq, 204);
    assert_eq!(events[199].internal_index, 204);
    assert_eq!(tracker.get_debug_entries().len(), 205);
}

#[test]
fn sequence_numbers_in_the_log_follow_on_one_another() {
    let mut tracker = TabIndexTracker::new();
    assert!(tracker.get_event_history().is_empty());
    for id in 0..250u32 {
        let tab_panes = panes(&[(0, &[id]), (1, &[1000 + id, 2000])]);
        tracker.update_for_tab_update(&[tab(0), tab(1)], &tab_panes);
    }
    let events = tracker.get_event_history();
    assert_eq!(events.len(), 200);
    for pair in events.windows(2) {
        assert_eq!(pair[1].seq, pair[0].seq + 1);
    }
}

#[test]
fn a_tab_is_renamed_under_its_number_at_any_position() {
    let mut tracker = TabIndexTracker::new();
    tracker.update_for_pane_update(
        &[tab(0), tab(1), tab(2)],
        &panes(&[(0, &[1]), (1, &[2]), (2, &[7, 8])]),
    );
    for position in [0usize, 5, 40] {
        let now = panes(&[(position, &[8, 30])]);
        assert_eq!(tracker.get_rename_target(&now, position), Some(3));
    }
}
