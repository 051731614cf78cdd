use emotitle::command::{Command, Mode, Target};
use emotitle::snapshot::{PaneInfo, PaneManifest, TabInfo};
use emotitle::state::{
    title_with_emojis, title_with_pinned_segments, EmotitleState, PaneRef, RenameRequest,
};

fn pane_info(id: u32, is_plugin: bool, is_focused: bool, title: &str) -> PaneInfo {
    PaneInfo {
        id,
        is_plugin,
        is_focused,
        title: title.to_string(),
    }
}

fn tab_info(position: usize, active: bool, name: &str) -> TabInfo {
    TabInfo {
        position,
        name: name.to_string(),
        active,
    }
}

fn update_tab_pane_manifest(state: &mut EmotitleState, tabs: &[(usize, u32, bool)]) {
    let mut panes = PaneManifest::new();
    for (tab_index, pane_id, focused) in tabs {
        panes.insert(*tab_index, vec![pane_info(*pane_id, false, *focused, "pane")]);
    }
    state.update_pane_manifest(panes);
}

#[test]
fn resolve_tab_index_from_pane_id() {
    let mut state = EmotitleState::default();
    let mut panes = PaneManifest::new();
    panes.insert(0, vec![pane_info(10, false, false, "zsh")]);
    panes.insert(1, vec![pane_info(20, false, false, "vim")]);
    state.update_pane_manifest(panes);

    assert_eq!(state.resolve_tab_index_from_pane_id(20), Some(1));
    assert_eq!(state.resolve_tab_index_from_pane_id(999), None);
}

#[test]
fn resolve_tab_index_from_pane_id_ignores_plugin_panes() {
    let mut state = EmotitleState::default();
    let mut panes = PaneManifest::new();
    panes.insert(
        0,
        vec![
            pane_info(2, false, false, "shell"),
            pane_info(2, true, false, "plugin"),
        ],
    );
    panes.insert(1, vec![pane_info(2, true, true, "plugin-focused")]);
    state.update_pane_manifest(panes);

    assert_eq!(state.resolve_tab_index_from_pane_id(2), Some(0));
}

#[test]
fn resolve_tab_index_from_pane_id_prefers_focused_when_ids_overlap() {
    let mut state = EmotitleState::default();
    state.update_tab_infos(vec![tab_info(0, false, "A"), tab_info(1, true, "B")]);

    let mut panes = PaneManifest::new();
    panes.insert(0, vec![pane_info(0, false, false, "a")]);
    panes.insert(1, vec![pane_info(0, false, true, "b")]);
    state.update_pane_manifest(panes);

    assert_eq!(state.resolve_tab_index_from_pane_id(0), Some(1));
}

#[test]
fn temp_pane_is_restored_when_it_gets_focus() {
    let mut state = EmotitleState::default();
    state.upsert_pane_entry(
        PaneRef::Terminal(10),
        "bash".to_string(),
        "🚀".to_string(),
        Mode::Temp,
    );

    let mut panes = PaneManifest::new();
    panes.insert(0, vec![pane_info(10, false, true, "bash | 🚀")]);
    let set_timer = state.update_pane_manifest(panes);

    assert!(set_timer);
    assert!(state.pane_original_title(&PaneRef::Terminal(10)).is_none());

    let restored = state.take_pending_pane_restores();
    assert_eq!(restored, vec![(PaneRef::Terminal(10), "bash".to_string())]);
}

// Pane 20 is not focused, so its decoration waits until it is looked at.
#[test]
fn all_temp_panes_are_restored_on_focus() {
    let mut state = EmotitleState::default();
    state.upsert_pane_entry(
        PaneRef::Terminal(10),
        "bash".to_string(),
        "🚀".to_string(),
        Mode::Temp,
    );
    state.upsert_pane_entry(
        PaneRef::Terminal(20),
        "vim".to_string(),
        "📚".to_string(),
        Mode::Temp,
    );
    state.upsert_pane_entry(
        PaneRef::Terminal(30),
        "zsh".to_string(),
        "🔥".to_string(),
        Mode::Permanent,
    );

    let mut panes = PaneManifest::new();
    panes.insert(
        0,
        vec![
            pane_info(10, false, true, "bash | 🚀"),
            pane_info(20, false, false, "vim | 📚"),
            pane_info(30, false, false, "zsh | 🔥"),
        ],
    );
    let set_timer = state.update_pane_manifest(panes);

    assert!(set_timer);
    assert!(state.pane_original_title(&PaneRef::Terminal(10)).is_none());
    assert!(state.pane_original_title(&PaneRef::Terminal(20)).is_some());
    assert!(state.pane_original_title(&PaneRef::Terminal(30)).is_some());

    let restored = state.take_pending_pane_restores();
    assert_eq!(restored.len(), 1, "should restore the focused temp pane");
    assert!(restored.iter().any(|(p, _)| *p == PaneRef::Terminal(10)));
    assert!(!restored.iter().any(|(p, _)| *p == PaneRef::Terminal(20)));

    let mut panes = PaneManifest::new();
    panes.insert(
        0,
        vec![
            pane_info(10, false, false, "bash"),
            pane_info(20, false, true, "vim | 📚"),
            pane_info(30, false, false, "zsh | 🔥"),
        ],
    );
    assert!(state.update_pane_manifest(panes));
    assert!(state.pane_original_title(&PaneRef::Terminal(20)).is_none());
    assert_eq!(
        state.take_pending_pane_restores(),
        vec![(PaneRef::Terminal(20), "vim".to_string())]
    );
}

// Pane 20 is not focused, so nothing is due for it yet.
#[test]
fn permanent_panes_preserved_on_focus() {
    let mut state = EmotitleState::default();
    state.upsert_pane_entry(
        PaneRef::Terminal(10),
        "bash".to_string(),
        "📌🚀".to_string(),
        Mode::Permanent,
    );
    state.upsert_pane_entry(
        PaneRef::Terminal(20),
        "vim".to_string(),
        "📚".to_string(),
        Mode::Temp,
    );

    let mut panes = PaneManifest::new();
    panes.insert(
        0,
        vec![
            pane_info(10, false, true, "bash | 📌🚀"),
            pane_info(20, false, false, "vim | 📚"),
        ],
    );
    let set_timer = state.update_pane_manifest(panes);

    assert!(!set_timer);
    assert!(state.pane_original_title(&PaneRef::Terminal(10)).is_some());
    assert!(state.pane_original_title(&PaneRef::Terminal(20)).is_some());

    let restored = state.take_pending_pane_restores();
    assert_eq!(restored, vec![]);
}

#[test]
fn pane_focus_keeps_only_pinned_segments() {
    let mut state = EmotitleState::default();
    state.upsert_pane_entry(
        PaneRef::Terminal(10),
        "bash".to_string(),
        "📌🚀".to_string(),
        Mode::Permanent,
    );

    let mut panes = PaneManifest::new();
    panes.insert(0, vec![pane_info(10, false, true, "bash | 📚 | 📌🚀 | 🚗")]);

    let set_timer = state.update_pane_manifest(panes);

    assert!(set_timer);
    let restored = state.take_pending_pane_restores();
    assert_eq!(
        restored,
        vec![(PaneRef::Terminal(10), "bash | 📌🚀".to_string())]
    );
}

#[test]
fn temp_tab_is_restored_when_it_gets_focus() {
    let mut state = EmotitleState::default();
    update_tab_pane_manifest(&mut state, &[(2, 20, true)]);
    state.upsert_tab_entry(
        2,
        Some(20),
        "build".to_string(),
        "✅".to_string(),
        Mode::Temp,
    );

    let set_timer = state.update_tab_infos(vec![tab_info(2, true, "build | ✅")]);

    assert!(set_timer);
    assert!(state.tab_original_title(2).is_none());

    let restored = state.take_pending_tab_restores();
    assert_eq!(restored, vec![(2, "build".to_string())]);
}

// Tab 2 is not active, so its decoration waits until it is looked at.
#[test]
fn all_temp_tabs_are_restored_on_focus() {
    let mut state = EmotitleState::default();
    update_tab_pane_manifest(&mut state, &[(1, 11, true), (2, 22, false), (3, 33, false)]);
    state.upsert_tab_entry(
        1,
        Some(11),
        "main".to_string(),
        "🚀".to_string(),
        Mode::Temp,
    );
    state.upsert_tab_entry(
        2,
        Some(22),
        "build".to_string(),
        "📚".to_string(),
        Mode::Temp,
    );
    state.upsert_tab_entry(
        3,
        Some(33),
        "test".to_string(),
        "📌✅".to_string(),
        Mode::Permanent,
    );

    let set_timer = state.update_tab_infos(vec![
        tab_info(1, true, "main | 🚀"),
        tab_info(2, false, "build | 📚"),
        tab_info(3, false, "test | 📌✅"),
    ]);

    assert!(set_timer);
    assert!(state.tab_original_title(1).is_none());
    assert!(state.tab_original_title(2).is_some());
    assert!(state.tab_original_title(3).is_some());

    let restored = state.take_pending_tab_restores();
    assert_eq!(restored.len(), 1);
}

// Tab 2 is not active, so nothing is due for it yet.
#[test]
fn permanent_tabs_preserved_on_focus() {
    let mut state = EmotitleState::default();
    update_tab_pane_manifest(&mut state, &[(1, 11, true), (2, 22, false)]);
    state.upsert_tab_entry(
        1,
        Some(11),
        "main".to_string(),
        "📌🚀".to_string(),
        Mode::Permanent,
    );
    state.upsert_tab_entry(
        2,
        Some(22),
        "build".to_string(),
        "📚".to_string(),
        Mode::Temp,
    );

    let set_timer = state.update_tab_infos(vec![
        tab_info(1, true, "main | 📌🚀"),
        tab_info(2, false, "build | 📚"),
    ]);

    assert!(!set_timer);
    assert!(state.tab_original_title(1).is_some());
    assert!(state.tab_original_title(2).is_some());

    let restored = state.take_pending_tab_restores();
    assert_eq!(restored, vec![]);
}

#[test]
fn tab_focus_keeps_only_pinned_segments() {
    let mut state = EmotitleState::default();
    update_tab_pane_manifest(&mut state, &[(1, 11, true)]);
    state.upsert_tab_entry(
        1,
        Some(11),
        "main".to_string(),
        "📌✅".to_string(),
        Mode::Permanent,
    );

    let set_timer = state.update_tab_infos(vec![tab_info(1, true, "main | 🔔 | 📌✅ | 📚")]);

    assert!(set_timer);
    let restored = state.take_pending_tab_restores();
    assert_eq!(restored, vec![(1, "main | 📌✅".to_string())]);
}

#[test]
fn pane_entry_is_cleared_after_focus_cleanup_without_pinned_segments() {
    let mut state = EmotitleState::default();
    state.upsert_pane_entry(
        PaneRef::Terminal(10),
        "bash".to_string(),
        "📚".to_string(),
        Mode::Temp,
    );

    let mut panes = PaneManifest::new();
    panes.insert(0, vec![pane_info(10, false, true, "bash")]);

    let set_timer = state.update_pane_manifest(panes);

    assert!(!set_timer);
    assert!(state.pane_original_title(&PaneRef::Terminal(10)).is_none());
    assert_eq!(
        state.pane_effective_title(&PaneRef::Terminal(10)),
        Some("bash".to_string())
    );
}

#[test]
fn tab_entry_is_cleared_after_focus_cleanup_without_pinned_segments() {
    let mut state = EmotitleState::default();
    update_tab_pane_manifest(&mut state, &[(1, 11, true)]);
    state.upsert_tab_entry(
        1,
        Some(11),
        "main".to_string(),
        "📚".to_string(),
        Mode::Temp,
    );

    let set_timer = state.update_tab_infos(vec![tab_info(1, true, "main")]);

    assert!(!set_timer);
    assert!(state.tab_original_title(1).is_none());
    assert_eq!(state.tab_effective_title(1), Some("main".to_string()));
}

#[test]
fn pane_entry_is_preserved_when_focused_title_is_still_original() {
    let mut state = EmotitleState::default();
    state.upsert_pane_entry(
        PaneRef::Terminal(10),
        "bash".to_string(),
        "📌🚀".to_string(),
        Mode::Permanent,
    );

    let mut panes = PaneManifest::new();
    panes.insert(0, vec![pane_info(10, false, true, "bash")]);

    let set_timer = state.update_pane_manifest(panes);

    assert!(!set_timer);
    assert!(state.pane_original_title(&PaneRef::Terminal(10)).is_some());
    assert_eq!(
        state.pane_effective_title(&PaneRef::Terminal(10)),
        Some("bash | 📌🚀".to_string())
    );
}

#[test]
fn tab_entry_is_preserved_when_focused_title_is_still_original() {
    let mut state = EmotitleState::default();
    update_tab_pane_manifest(&mut state, &[(1, 11, true)]);
    state.upsert_tab_entry(
        1,
        Some(11),
        "main".to_string(),
        "📌🚀".to_string(),
        Mode::Permanent,
    );

    let set_timer = state.update_tab_infos(vec![tab_info(1, true, "main")]);

    assert!(!set_timer);
    assert!(state.tab_original_title(1).is_some());
    assert_eq!(
        state.tab_effective_title(1),
        Some("main | 📌🚀".to_string())
    );
}

#[test]
fn deleted_pane_entry_is_removed_on_manifest_update() {
    let mut state = EmotitleState::default();
    state.upsert_pane_entry(
        PaneRef::Terminal(10),
        "bash".to_string(),
        "🚀".to_string(),
        Mode::Permanent,
    );

    let mut panes = PaneManifest::new();
    panes.insert(0, vec![pane_info(10, false, false, "bash | 🚀")]);
    state.update_pane_manifest(panes.clone());

    assert!(state.pane_original_title(&PaneRef::Terminal(10)).is_some());

    let mut panes_after_delete = PaneManifest::new();
    panes_after_delete.insert(0, vec![pane_info(20, false, true, "zsh")]);
    state.update_pane_manifest(panes_after_delete);

    assert!(
        state.pane_original_title(&PaneRef::Terminal(10)).is_none(),
        "deleted pane entry should be removed from pane_entries"
    );
}

#[test]
fn other_pane_entry_is_preserved_when_pane_is_deleted() {
    let mut state = EmotitleState::default();
    state.upsert_pane_entry(
        PaneRef::Terminal(10),
        "bash".to_string(),
        "🚀".to_string(),
        Mode::Permanent,
    );
    state.upsert_pane_entry(
        PaneRef::Terminal(20),
        "vim".to_string(),
        "📚".to_string(),
        Mode::Permanent,
    );

    let mut panes = PaneManifest::new();
    panes.insert(
        0,
        vec![
            pane_info(10, false, false, "bash | 🚀"),
            pane_info(20, false, true, "vim | 📚"),
        ],
    );
    state.update_pane_manifest(panes);

    let mut panes_after_delete = PaneManifest::new();
    panes_after_delete.insert(0, vec![pane_info(20, false, true, "vim | 📚")]);
    state.update_pane_manifest(panes_after_delete);

    assert!(state.pane_original_title(&PaneRef::Terminal(20)).is_some());
    assert!(
        state.pane_original_title(&PaneRef::Terminal(10)).is_none(),
        "deleted pane entry should be removed"
    );
}

#[test]
fn tab_entry_tracks_anchor_when_tab_is_inserted_before_it() {
    let mut state = EmotitleState::default();
    update_tab_pane_manifest(&mut state, &[(0, 10, false), (1, 20, true)]);
    state.upsert_tab_entry(
        1,
        Some(20),
        "work".to_string(),
        "📚".to_string(),
        Mode::Temp,
    );

    update_tab_pane_manifest(&mut state, &[(0, 99, false), (1, 10, false), (2, 20, true)]);

    let set_timer = state.update_tab_infos(vec![
        tab_info(0, false, "new"),
        tab_info(1, false, "main"),
        tab_info(2, true, "work | 📚"),
    ]);

    assert!(set_timer);
    let restored = state.take_pending_tab_restores();
    assert_eq!(restored, vec![(2, "work".to_string())]);
}

#[test]
fn tab_entry_tracks_anchor_when_tab_before_it_is_deleted() {
    let mut state = EmotitleState::default();
    update_tab_pane_manifest(&mut state, &[(0, 99, false), (1, 20, true)]);
    state.upsert_tab_entry(
        1,
        Some(20),
        "work".to_string(),
        "📚".to_string(),
        Mode::Temp,
    );

    update_tab_pane_manifest(&mut state, &[(0, 20, true)]);

    let set_timer = state.update_tab_infos(vec![tab_info(0, true, "work | 📚")]);

    assert!(set_timer);
    let restored = state.take_pending_tab_restores();
    assert_eq!(restored, vec![(0, "work".to_string())]);
}

#[test]
fn pending_tab_restore_falls_back_to_previous_index_when_anchor_is_stale() {
    let mut state = EmotitleState::default();
    update_tab_pane_manifest(&mut state, &[(0, 10, false), (1, 20, true)]);
    state.upsert_tab_entry(
        0,
        Some(10),
        "work".to_string(),
        "📚".to_string(),
        Mode::Temp,
    );

    let set_timer = state.update_tab_infos(vec![tab_info(0, true, "work | 📚")]);
    assert!(set_timer);

    update_tab_pane_manifest(&mut state, &[(0, 20, true)]);

    let restored = state.take_pending_tab_restores();
    assert_eq!(restored, vec![(0, "work".to_string())]);
}

#[test]
fn tab_entry_original_title_is_replaced_when_anchor_changes() {
    let mut state = EmotitleState::default();

    state.upsert_tab_entry(0, Some(10), "old".to_string(), "📚".to_string(), Mode::Temp);
    state.upsert_tab_entry(0, Some(20), "new".to_string(), "✅".to_string(), Mode::Temp);

    assert_eq!(state.tab_original_title(0), Some("new".to_string()));
}

#[test]
fn clear_pending_tab_restore_removes_matching_resolved_tab() {
    let mut state = EmotitleState::default();
    let mut panes = PaneManifest::new();
    panes.insert(2, vec![pane_info(10, false, false, "work")]);
    panes.insert(1, vec![pane_info(20, false, false, "other")]);
    state.update_pane_manifest(panes);
    state.queue_tab_restore(0, "work".to_string(), Some(10));
    state.queue_tab_restore(1, "other".to_string(), Some(20));

    state.clear_pending_tab_restore(2);
    assert!(state.pending_tab_restore(0).is_none());
    assert!(state.pending_tab_restore(1).is_some());

    state.clear_pending_tab_restore(1);
    assert!(!state.has_pending_tab_restores());
}

#[test]
fn decorating_a_pane_twice_keeps_the_first_original() {
    let mut once = EmotitleState::new();
    once.upsert_pane_entry(PaneRef::Plugin(3), "a".into(), "🚀".into(), Mode::Temp);
    let mut twice = EmotitleState::new();
    twice.upsert_pane_entry(PaneRef::Plugin(3), "a".into(), "🚀".into(), Mode::Temp);
    twice.upsert_pane_entry(PaneRef::Plugin(3), "a | 🚀".into(), "📚".into(), Mode::Temp);
    assert_eq!(
        twice.pane_original_title(&PaneRef::Plugin(3)),
        once.pane_original_title(&PaneRef::Plugin(3))
    );
    assert_eq!(twice.pane_original_title(&PaneRef::Plugin(3)), Some("a".to_string()));
    assert_eq!(twice.pane_original_title(&PaneRef::Terminal(3)), None);
    assert_eq!(
        twice.pane_effective_title(&PaneRef::Plugin(3)),
        Some("a | 📚".to_string())
    );
}

#[test]
fn pruning_leaves_other_panes_alone() {
    let mut state = EmotitleState::new();
    let mut panes = PaneManifest::new();
    panes.insert(
        0,
        vec![
            pane_info(1, false, true, "one | 🚀"),
            pane_info(2, false, false, "two | 🚀"),
        ],
    );
    state.upsert_pane_entry(PaneRef::Terminal(1), "one".into(), "🚀".into(), Mode::Temp);
    state.upsert_pane_entry(PaneRef::Terminal(2), "two".into(), "🚀".into(), Mode::Temp);
    assert!(state.update_pane_manifest(panes));

    let mut panes = PaneManifest::new();
    panes.insert(0, vec![pane_info(2, false, false, "two | 🚀")]);
    assert!(!state.update_pane_manifest(panes));
    assert_eq!(state.take_pending_pane_restores(), vec![]);
    assert_eq!(state.pane_original_title(&PaneRef::Terminal(1)), None);
    assert_eq!(
        state.pane_original_title(&PaneRef::Terminal(2)),
        Some("two".to_string())
    );
}

#[test]
fn tab_restore_waits_while_it_can_go_nowhere() {
    let mut state = EmotitleState::new();
    state.queue_tab_restore(4, "work".to_string(), Some(9));
    assert_eq!(state.take_pending_tab_restores(), vec![]);
    assert!(state.has_pending_tab_restores());

    state.update_tab_infos(vec![tab_info(4, false, "work | x")]);
    assert!(state.has_pending_tab_restores());
    assert_eq!(
        state.take_pending_tab_restores(),
        vec![(4, "work".to_string())]
    );
    assert!(!state.has_pending_tab_restores());

    state.queue_tab_restore(4, "work".to_string(), None);
    state.update_tab_infos(vec![tab_info(5, false, "other")]);
    assert!(!state.has_pending_tab_restores());
}

#[test]
fn positions_are_paired_by_rank_where_the_channels_differ() {
    let mut state = EmotitleState::new();
    state.update_tab_infos(vec![tab_info(7, false, "b"), tab_info(3, true, "a")]);
    let mut panes = PaneManifest::new();
    panes.insert(1, vec![pane_info(20, false, true, "x")]);
    panes.insert(0, vec![pane_info(10, false, false, "y")]);
    state.update_pane_manifest(panes);

    assert_eq!(state.resolve_tab_index_from_pane_id(10), Some(3));
    assert_eq!(state.resolve_tab_index_from_pane_id(20), Some(7));
    assert_eq!(state.focused_tab_index(), Some(3));
    assert_eq!(state.focused_tab_index_from_manifest(), Some(7));
    assert_eq!(state.tab_anchor_pane_id(3), Some(10));
    assert_eq!(state.tab_anchor_pane_id(7), Some(20));
    assert_eq!(state.tab_anchor_pane_id(5), None);
    assert_eq!(state.tab_rename_target(3), Some(1));
    assert_eq!(state.tab_rename_target(7), Some(2));
    assert_eq!(state.tab_rename_target(0), None);
    assert_eq!(state.focused_pane_ref(), Some(PaneRef::Terminal(20)));
    assert_eq!(state.pane_title(&PaneRef::Terminal(10)), Some("y".to_string()));
    assert_eq!(state.pane_title(&PaneRef::Plugin(10)), None);
    assert_eq!(state.tab_title(7), Some("b".to_string()));
    assert_eq!(state.tab_title(1), None);
}

#[test]
fn lowest_position_wins_among_unfocused_candidates() {
    let mut state = EmotitleState::new();
    state.update_tab_infos(vec![
        tab_info(0, false, "a"),
        tab_info(1, false, "b"),
        tab_info(2, false, "c"),
    ]);
    let mut panes = PaneManifest::new();
    panes.insert(2, vec![pane_info(5, false, false, "x")]);
    panes.insert(1, vec![pane_info(5, false, false, "x")]);
    panes.insert(0, vec![pane_info(6, false, false, "y")]);
    state.update_pane_manifest(panes);
    assert_eq!(state.resolve_tab_index_from_pane_id(5), Some(1));

    let mut panes = PaneManifest::new();
    panes.insert(2, vec![pane_info(5, false, true, "x")]);
    panes.insert(1, vec![pane_info(5, false, false, "x")]);
    panes.insert(0, vec![pane_info(6, true, true, "y")]);
    state.update_pane_manifest(panes);
    assert_eq!(state.resolve_tab_index_from_pane_id(5), Some(2));
}

#[test]
fn handle_command_decorates_and_asks_for_the_rename() {
    let mut state = EmotitleState::new();
    let mut panes = PaneManifest::new();
    panes.insert(0, vec![pane_info(10, false, true, "bash")]);
    state.update_pane_manifest(panes);
    state.update_tab_infos(vec![tab_info(0, true, "main")]);

    let command = |target| Command {
        target,
        emojis: "🚀".to_string(),
        mode: Mode::Temp,
    };
    assert_eq!(
        state.handle_command(command(Target::Pane { pane_id: None })),
        Ok(RenameRequest::Pane {
            pane: PaneRef::Terminal(10),
            title: "bash | 🚀".to_string()
        })
    );
    assert_eq!(
        state.pane_original_title(&PaneRef::Terminal(10)),
        Some("bash".to_string())
    );
    assert_eq!(
        state.handle_command(command(Target::Tab {
            pane_id: Some(10),
            tab_index: None
        })),
        Ok(RenameRequest::Tab {
            ordinal: 1,
            title: "main | 🚀".to_string()
        })
    );
    assert_eq!(state.tab_original_title(0), Some("main".to_string()));
    assert_eq!(
        state.handle_command(command(Target::Pane { pane_id: Some(77) })),
        Err("could not find pane title; ensure plugin is loaded and received PaneUpdate".to_string())
    );
    assert_eq!(
        state.handle_command(command(Target::Tab {
            pane_id: Some(77),
            tab_index: None
        })),
        Err(
            "could not resolve tab_index from pane_id=77; ensure plugin received PaneUpdate"
                .to_string()
        )
    );
    assert_eq!(
        state.handle_command(command(Target::Tab {
            pane_id: None,
            tab_index: Some(12)
        })),
        Err("could not find tab title for tab_index=12; ensure plugin received TabUpdate".to_string())
    );
}

#[test]
fn handle_command_without_topology_finds_nothing() {
    let mut state = EmotitleState::new();
    let command = |target| Command {
        target,
        emojis: "🚀".to_string(),
        mode: Mode::Temp,
    };
    assert_eq!(
        state.handle_command(command(Target::Pane { pane_id: None })),
        Err("could not resolve focused pane; ensure plugin received PaneUpdate".to_string())
    );
    assert_eq!(
        state.handle_command(command(Target::Tab {
            pane_id: None,
            tab_index: None
        })),
        Err("could not resolve focused tab; ensure plugin received TabUpdate".to_string())
    );
}

#[test]
fn debug_output_shows_both_channels() {
    let mut state = EmotitleState::new();
    assert_eq!(
        state.tab_resolution_debug(),
        "tab_infos=[] manifest_positions=[none] manifest_panes=[none] focused_tab=None focused_tab_manifest=None focused_pane=None"
    );
    state.update_tab_infos(vec![tab_info(2, false, "b"), tab_info(0, true, "a")]);
    let mut panes = PaneManifest::new();
    panes.insert(
        2,
        vec![pane_info(20, false, false, "x"), pane_info(3, true, true, "p")],
    );
    panes.insert(0, vec![pane_info(10, false, true, "y")]);
    state.update_pane_manifest(panes);
    assert_eq!(
        state.tab_resolution_debug(),
        "tab_infos=[2:false,0:true] manifest_positions=[0,2] manifest_panes=[0=[10:false:true],2=[20:false:false;3:true:true]] focused_tab=Some(0) focused_tab_manifest=Some(0) focused_pane=Some(Terminal(10))"
    );
    let info = state.info_debug();
    assert_eq!(info.focused_tab_index, Some(0));
    assert_eq!(info.focused_pane, Some("Terminal(10)".to_string()));
    assert_eq!(info.tabs.len(), 2);
    assert_eq!(info.tabs[0].position, 0);
    assert_eq!(info.tabs[0].name, "a");
    assert!(info.tabs[0].active);
    assert_eq!(info.tabs[0].panes.len(), 1);
    assert_eq!(info.tabs[0].panes[0].id, 10);
    assert_eq!(info.tabs[1].position, 2);
    assert_eq!(info.tabs[1].panes.len(), 2);
    assert_eq!(info.tabs[1].panes[1].title, "p");
    assert!(info.tabs[1].panes[1].is_plugin);
    assert!(info.tabs[1].panes[1].is_focused);
}

#[test]
fn title_functions_are_reached_through_the_state_module() {
    assert_eq!(title_with_emojis("a", "b"), "a | b");
    assert_eq!(title_with_pinned_segments("a", "a | b"), "a");
}

#[test]
fn the_pane_channel_is_believed_where_the_channels_disagree() {
    let mut state = EmotitleState::new();
    state.update_tab_infos(vec![tab_info(0, true, "A"), tab_info(1, false, "B")]);
    let mut panes = PaneManifest::new();
    panes.insert(0, vec![pane_info(5, false, false, "a")]);
    panes.insert(1, vec![pane_info(5, false, true, "b")]);
    state.update_pane_manifest(panes);
    assert_eq!(state.focused_tab_index(), Some(0));
    assert_eq!(state.focused_tab_index_from_manifest(), Some(1));
    assert_eq!(state.resolve_tab_index_from_pane_id(5), Some(1));
}

#[test]
fn the_active_tab_is_taken_where_the_manifest_shows_no_focus_among_the_candidates() {
    let mut state = EmotitleState::new();
    state.update_tab_infos(vec![
        tab_info(0, false, "A"),
        tab_info(1, false, "B"),
        tab_info(2, true, "C"),
    ]);
    let mut panes = PaneManifest::new();
    panes.insert(0, vec![pane_info(9, false, true, "x")]);
    panes.insert(1, vec![pane_info(5, false, false, "a")]);
    panes.insert(2, vec![pane_info(5, false, false, "b")]);
    state.update_pane_manifest(panes);
    assert_eq!(state.focused_tab_index_from_manifest(), Some(0));
    assert_eq!(state.resolve_tab_index_from_pane_id(5), Some(2));
}

#[test]
fn decorating_one_pane_leaves_the_others_alone() {
    let mut state = EmotitleState::new();
    state.upsert_pane_entry(PaneRef::Terminal(1), "one".into(), "🚀".into(), Mode::Temp);
    state.upsert_pane_entry(PaneRef::Terminal(2), "two".into(), "📚".into(), Mode::Temp);
    state.upsert_pane_entry(PaneRef::Terminal(2), "x".into(), "✅".into(), Mode::Permanent);
    assert_eq!(
        state.pane_original_title(&PaneRef::Terminal(1)),
        Some("one".to_string())
    );
    assert_eq!(
        state.pane_effective_title(&PaneRef::Terminal(1)),
        Some("one | 🚀".to_string())
    );
    assert_eq!(
        state.pane_effective_title(&PaneRef::Terminal(2)),
        Some("two | ✅".to_string())
    );
}
