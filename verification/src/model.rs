//! The model of the decoration state and of every operation on it.
//!
//! A state is six plain values: the two topology snapshots, the decoration
//! entries of panes and of tabs, and the restores that wait for the caller.
//! Each operation of the executable state is stated here as a function from
//! the state before to the state after.

use crate::command::{Mode, Target};
use crate::resolver::{
    anchor_of_tab, focused_pane, focused_tab, pane_present, resolve_tab, tab_name, title_of_first,
};
use crate::snapshot::{has_tab, PaneInfoView, PaneQuery, TabInfoView, TabPanesView};
use crate::text::decimal;
use crate::state::PaneRef;
use crate::store::{keep, lookup, put, without};
use crate::title::{base_title, cleaned_title, decorated, decoration_suffix, pinned_segments};
use vstd::prelude::*;

verus! {

/// The model of a decoration entry.
pub struct EntryView {
    pub original_title: Seq<char>,
    pub emojis: Seq<char>,
    pub mode: Mode,
}

/// The model of a tab's decoration entry.
pub struct TabEntryView {
    pub entry: EntryView,
    pub anchor_pane_id: Option<u32>,
}

/// The model of a tab restore that waits.
pub struct RestoreView {
    pub title: Seq<char>,
    pub anchor_pane_id: Option<u32>,
}

/// The model of the whole state.
pub struct StateView {
    pub manifest: Option<Seq<TabPanesView>>,
    pub tabs: Seq<TabInfoView>,
    pub pane_entries: Seq<(PaneRef, EntryView)>,
    pub tab_entries: Seq<(usize, TabEntryView)>,
    pub pane_restores: Seq<(PaneRef, Seq<char>)>,
    pub tab_restores: Seq<(usize, RestoreView)>,
}

/// The state in which nothing has happened yet.
pub open spec fn initial() -> StateView {
    StateView {
        manifest: None,
        tabs: Seq::empty(),
        pane_entries: Seq::empty(),
        tab_entries: Seq::empty(),
        pane_restores: Seq::empty(),
        tab_restores: Seq::empty(),
    }
}

/// The title to show: the decorated one while the observed title is still
/// the stored original, else the observed title as it is.
pub open spec fn effective_title(observed: Option<Seq<char>>, entry: Option<EntryView>) -> Option<
    Seq<char>,
> {
    match (observed, entry) {
        (Some(title), Some(e)) => if title == e.original_title {
            Some(decorated(e.original_title, e.emojis))
        } else {
            Some(title)
        },
        (Some(title), None) => Some(title),
        (None, Some(e)) => Some(decorated(e.original_title, e.emojis)),
        (None, None) => None,
    }
}

/// The entry that a decoration command leaves: an entry already there keeps
/// its original title.
pub open spec fn upserted(
    present: Option<EntryView>,
    original_title: Seq<char>,
    emojis: Seq<char>,
    mode: Mode,
) -> EntryView {
    EntryView {
        original_title: match present {
            Some(e) => e.original_title,
            None => original_title,
        },
        emojis,
        mode,
    }
}

/// The pane entries after a pane was decorated.
pub open spec fn with_pane_entry(
    s: StateView,
    pane: PaneRef,
    original_title: Seq<char>,
    emojis: Seq<char>,
    mode: Mode,
) -> StateView {
    StateView {
        pane_entries: put(
            s.pane_entries,
            pane,
            upserted(lookup(s.pane_entries, pane), original_title, emojis, mode),
        ),
        ..s
    }
}

/// The entry of a tab that counts as the same decoration target: one with
/// the same anchor.
pub open spec fn same_anchor_entry(present: Option<TabEntryView>, anchor: Option<u32>) -> Option<
    EntryView,
> {
    match present {
        Some(t) => if t.anchor_pane_id == anchor {
            Some(t.entry)
        } else {
            None
        },
        None => None,
    }
}

/// The tab entries after a tab was decorated. An entry with another anchor
/// is replaced as a whole.
pub open spec fn with_tab_entry(
    s: StateView,
    position: usize,
    anchor: Option<u32>,
    original_title: Seq<char>,
    emojis: Seq<char>,
    mode: Mode,
) -> StateView {
    StateView {
        tab_entries: put(
            s.tab_entries,
            position,
            TabEntryView {
                entry: upserted(
                    same_anchor_entry(lookup(s.tab_entries, position), anchor),
                    original_title,
                    emojis,
                    mode,
                ),
                anchor_pane_id: anchor,
            },
        ),
        ..s
    }
}

/// The original title of a focused item: the stored one, else what the
/// observed title shows before its first delimiter.
pub open spec fn original_for(entry: Option<EntryView>, observed: Seq<char>) -> Seq<char> {
    match entry {
        Some(e) => e.original_title,
        None => base_title(observed),
    }
}

/// The title that a focused item should carry.
pub open spec fn wanted_title(entry: Option<EntryView>, observed: Seq<char>) -> Seq<char> {
    cleaned_title(original_for(entry, observed), observed)
}

/// What becomes of an entry when its item is looked at; `None` where the
/// entry is used up.
///
/// While the observed title differs from the original, the pinned segments
/// that it shows become the entry's decoration; where it shows none, a
/// temporary entry is used up and a permanent one stays. Once the observed
/// title is the original again, the entry stays only if its decoration holds
/// a pinned segment.
pub open spec fn reconciled(entry: EntryView, observed: Seq<char>) -> Option<EntryView> {
    let pinned = decoration_suffix(
        entry.original_title,
        cleaned_title(entry.original_title, observed),
    );
    if observed != entry.original_title {
        if pinned.len() > 0 {
            Some(EntryView { emojis: pinned, ..entry })
        } else if entry.mode == Mode::Temp {
            None
        } else {
            Some(entry)
        }
    } else if pinned_segments(entry.emojis).len() > 0 {
        Some(entry)
    } else {
        None
    }
}

/// The pane entries after a focused pane was looked at.
pub open spec fn pane_entries_after(entries: Seq<(PaneRef, EntryView)>, pane: PaneInfoView) -> Seq<
    (PaneRef, EntryView),
> {
    match lookup(entries, pane.pane_ref()) {
        None => entries,
        Some(e) => match reconciled(e, pane.title) {
            Some(next) => put(entries, pane.pane_ref(), next),
            None => without(entries, pane.pane_ref()),
        },
    }
}

/// Whether a focused pane carries another title than it should.
pub open spec fn pane_restore_due(entries: Seq<(PaneRef, EntryView)>, pane: PaneInfoView) -> bool {
    wanted_title(lookup(entries, pane.pane_ref()), pane.title) != pane.title
}

/// The pane restores after a focused pane was looked at.
pub open spec fn pane_restores_after(
    entries: Seq<(PaneRef, EntryView)>,
    restores: Seq<(PaneRef, Seq<char>)>,
    pane: PaneInfoView,
) -> Seq<(PaneRef, Seq<char>)> {
    if pane_restore_due(entries, pane) {
        put(restores, pane.pane_ref(), wanted_title(lookup(entries, pane.pane_ref()), pane.title))
    } else {
        restores
    }
}

/// The state after one focused pane was looked at.
pub open spec fn reconcile_pane(s: StateView, pane: PaneInfoView) -> StateView {
    StateView {
        pane_entries: pane_entries_after(s.pane_entries, pane),
        pane_restores: pane_restores_after(s.pane_entries, s.pane_restores, pane),
        ..s
    }
}

/// The state after the focused ones among the first `n` panes were looked
/// at in order, and whether one of them asked for a restore.
pub open spec fn reconcile_panes(s: StateView, panes: Seq<PaneInfoView>, n: int) -> (
    StateView,
    bool,
)
    decreases n,
{
    if n <= 0 || n > panes.len() {
        (s, false)
    } else {
        let (before, due) = reconcile_panes(s, panes, n - 1);
        if panes[n - 1].is_focused {
            (
                reconcile_pane(before, panes[n - 1]),
                due || pane_restore_due(before.pane_entries, panes[n - 1]),
            )
        } else {
            (before, due)
        }
    }
}

/// The state after the focused panes of the first `n` tabs of a manifest
/// were looked at, and whether one of them asked for a restore.
pub open spec fn reconcile_manifest(s: StateView, m: Seq<TabPanesView>, n: int) -> (
    StateView,
    bool,
)
    decreases n,
{
    if n <= 0 || n > m.len() {
        (s, false)
    } else {
        let (before, due) = reconcile_manifest(s, m, n - 1);
        let (after, more) = reconcile_panes(before, m[n - 1].panes, m[n - 1].panes.len() as int);
        (after, due || more)
    }
}

/// The panes that a manifest shows.
pub open spec fn shown_panes(m: Seq<TabPanesView>) -> Set<PaneRef> {
    Set::new(|pane: PaneRef| pane_present(m, pane))
}

/// The positions that a tab list shows.
pub open spec fn shown_tabs(tabs: Seq<TabInfoView>) -> Set<usize> {
    Set::new(|position: usize| has_tab(tabs, position))
}

/// The pairs whose pane the manifest shows.
pub open spec fn kept_panes<W>(s: Seq<(PaneRef, W)>, m: Seq<TabPanesView>) -> Seq<(PaneRef, W)> {
    keep(s, shown_panes(m))
}

/// The pairs whose position the tab list shows.
pub open spec fn kept_tabs<W>(s: Seq<(usize, W)>, tabs: Seq<TabInfoView>) -> Seq<(usize, W)> {
    keep(s, shown_tabs(tabs))
}

/// The position under which a tab's record belongs: the tab that holds its
/// anchor pane now, else the position it was filed under.
pub open spec fn remap_target(
    manifest: Option<Seq<TabPanesView>>,
    tabs: Seq<TabInfoView>,
    position: usize,
    anchor: Option<u32>,
) -> usize {
    match anchor {
        Some(a) => match resolve_tab(manifest, tabs, a) {
            Some(t) => t,
            None => position,
        },
        None => position,
    }
}

/// The first `n` tab entries, each filed under the position where it
/// belongs now. Of two that meet, the later one stays.
pub open spec fn remap_entries(
    manifest: Option<Seq<TabPanesView>>,
    tabs: Seq<TabInfoView>,
    entries: Seq<(usize, TabEntryView)>,
    n: int,
) -> Seq<(usize, TabEntryView)>
    decreases n,
{
    if n <= 0 || n > entries.len() {
        Seq::empty()
    } else {
        put(
            remap_entries(manifest, tabs, entries, n - 1),
            remap_target(manifest, tabs, entries[n - 1].0, entries[n - 1].1.anchor_pane_id),
            entries[n - 1].1,
        )
    }
}

/// The first `n` tab restores, each filed under the position where it
/// belongs now. Of two that meet, the later one stays.
pub open spec fn remap_restores(
    manifest: Option<Seq<TabPanesView>>,
    tabs: Seq<TabInfoView>,
    restores: Seq<(usize, RestoreView)>,
    n: int,
) -> Seq<(usize, RestoreView)>
    decreases n,
{
    if n <= 0 || n > restores.len() {
        Seq::empty()
    } else {
        put(
            remap_restores(manifest, tabs, restores, n - 1),
            remap_target(manifest, tabs, restores[n - 1].0, restores[n - 1].1.anchor_pane_id),
            restores[n - 1].1,
        )
    }
}

/// The state once a pane manifest has been taken in, before any pane is
/// looked at: what belongs to vanished panes is gone, and the tab records
/// follow their anchors.
pub open spec fn with_manifest(s: StateView, m: Seq<TabPanesView>) -> StateView {
    StateView {
        manifest: Some(m),
        pane_entries: kept_panes(s.pane_entries, m),
        pane_restores: kept_panes(s.pane_restores, m),
        tab_entries: remap_entries(Some(m), s.tabs, s.tab_entries, s.tab_entries.len() as int),
        tab_restores: remap_restores(Some(m), s.tabs, s.tab_restores, s.tab_restores.len() as int),
        ..s
    }
}

/// The state after a pane manifest arrived, and whether a restore is due.
pub open spec fn after_pane_update(s: StateView, m: Seq<TabPanesView>) -> (StateView, bool) {
    reconcile_manifest(with_manifest(s, m), m, m.len() as int)
}

/// The entry of a tab, without its anchor.
pub open spec fn entry_of(present: Option<TabEntryView>) -> Option<EntryView> {
    match present {
        Some(t) => Some(t.entry),
        None => None,
    }
}

/// The tab entries after an active tab was looked at.
pub open spec fn tab_entries_after(entries: Seq<(usize, TabEntryView)>, tab: TabInfoView) -> Seq<
    (usize, TabEntryView),
> {
    match lookup(entries, tab.position) {
        None => entries,
        Some(t) => match reconciled(t.entry, tab.name) {
            Some(next) => put(
                entries,
                tab.position,
                TabEntryView { entry: next, anchor_pane_id: t.anchor_pane_id },
            ),
            None => without(entries, tab.position),
        },
    }
}

/// Whether an active tab carries another name than it should.
pub open spec fn tab_restore_due(entries: Seq<(usize, TabEntryView)>, tab: TabInfoView) -> bool {
    wanted_title(entry_of(lookup(entries, tab.position)), tab.name) != tab.name
}

/// The state after one active tab was looked at. A restore that becomes due
/// is filed with the tab's anchor pane.
pub open spec fn reconcile_tab(s: StateView, tab: TabInfoView) -> StateView {
    StateView {
        tab_entries: tab_entries_after(s.tab_entries, tab),
        tab_restores: if tab_restore_due(s.tab_entries, tab) {
            put(
                s.tab_restores,
                tab.position,
                RestoreView {
                    title: wanted_title(entry_of(lookup(s.tab_entries, tab.position)), tab.name),
                    anchor_pane_id: anchor_of_tab(s.manifest, s.tabs, tab.position),
                },
            )
        } else {
            s.tab_restores
        },
        ..s
    }
}

/// The state after the active ones among the first `n` tabs were looked at
/// in order, and whether one of them asked for a restore.
pub open spec fn reconcile_tabs(s: StateView, tabs: Seq<TabInfoView>, n: int) -> (StateView, bool)
    decreases n,
{
    if n <= 0 || n > tabs.len() {
        (s, false)
    } else {
        let (before, due) = reconcile_tabs(s, tabs, n - 1);
        if tabs[n - 1].active {
            (
                reconcile_tab(before, tabs[n - 1]),
                due || tab_restore_due(before.tab_entries, tabs[n - 1]),
            )
        } else {
            (before, due)
        }
    }
}

/// The state once a tab list has been taken in, before any tab is looked
/// at: what belongs to vanished positions is gone.
pub open spec fn with_tabs(s: StateView, tabs: Seq<TabInfoView>) -> StateView {
    StateView {
        tabs,
        tab_entries: kept_tabs(s.tab_entries, tabs),
        tab_restores: kept_tabs(s.tab_restores, tabs),
        ..s
    }
}

/// The state after a tab list arrived, and whether a restore is due.
pub open spec fn after_tab_update(s: StateView, tabs: Seq<TabInfoView>) -> (StateView, bool) {
    reconcile_tabs(with_tabs(s, tabs), tabs, tabs.len() as int)
}

/// Where a waiting tab restore goes now: to the tab that holds its anchor
/// pane; else to the position it was filed under, if the tab list still has
/// it; else nowhere yet.
pub open spec fn drain_target(
    manifest: Option<Seq<TabPanesView>>,
    tabs: Seq<TabInfoView>,
    position: usize,
    anchor: Option<u32>,
) -> Option<usize> {
    let by_anchor = match anchor {
        Some(a) => resolve_tab(manifest, tabs, a),
        None => None,
    };
    if by_anchor is Some {
        by_anchor
    } else if has_tab(tabs, position) {
        Some(position)
    } else {
        None
    }
}

/// The renames that the first `n` waiting tab restores give, in order.
pub open spec fn drained(
    manifest: Option<Seq<TabPanesView>>,
    tabs: Seq<TabInfoView>,
    restores: Seq<(usize, RestoreView)>,
    n: int,
) -> Seq<(usize, Seq<char>)>
    decreases n,
{
    if n <= 0 || n > restores.len() {
        Seq::empty()
    } else {
        let before = drained(manifest, tabs, restores, n - 1);
        match drain_target(manifest, tabs, restores[n - 1].0, restores[n - 1].1.anchor_pane_id) {
            Some(t) => before.push((t, restores[n - 1].1.title)),
            None => before,
        }
    }
}

/// Those of the first `n` waiting tab restores that go nowhere yet.
pub open spec fn undrained(
    manifest: Option<Seq<TabPanesView>>,
    tabs: Seq<TabInfoView>,
    restores: Seq<(usize, RestoreView)>,
    n: int,
) -> Seq<(usize, RestoreView)>
    decreases n,
{
    if n <= 0 || n > restores.len() {
        Seq::empty()
    } else {
        let before = undrained(manifest, tabs, restores, n - 1);
        match drain_target(manifest, tabs, restores[n - 1].0, restores[n - 1].1.anchor_pane_id) {
            Some(t) => before,
            None => put(before, restores[n - 1].0, restores[n - 1].1),
        }
    }
}

/// Those of the first `n` waiting tab restores that do not belong to the
/// tab at `position`.
pub open spec fn not_for_tab(
    manifest: Option<Seq<TabPanesView>>,
    tabs: Seq<TabInfoView>,
    restores: Seq<(usize, RestoreView)>,
    position: usize,
    n: int,
) -> Seq<(usize, RestoreView)>
    decreases n,
{
    if n <= 0 || n > restores.len() {
        Seq::empty()
    } else {
        let before = not_for_tab(manifest, tabs, restores, position, n - 1);
        if remap_target(manifest, tabs, restores[n - 1].0, restores[n - 1].1.anchor_pane_id)
            != position {
            put(before, restores[n - 1].0, restores[n - 1].1)
        } else {
            before
        }
    }
}

/// The model of a rename that the caller is to ask of the host.
pub enum RenameView {
    /// Give a pane this title.
    Pane { pane: PaneRef, title: Seq<char> },
    /// Give the tab with this one-based number this name.
    Tab { ordinal: u32, title: Seq<char> },
}

/// The title to decorate a pane on: the one the manifest shows, else the
/// stored original.
pub open spec fn known_pane_title(s: StateView, pane: PaneRef) -> Option<Seq<char>> {
    match title_of_first(s.manifest, PaneQuery::Is(pane)) {
        Some(title) => Some(title),
        None => match lookup(s.pane_entries, pane) {
            Some(e) => Some(e.original_title),
            None => None,
        },
    }
}

/// The name to decorate a tab on: the one the tab list shows, else the
/// stored original.
pub open spec fn known_tab_title(s: StateView, position: usize) -> Option<Seq<char>> {
    match tab_name(s.tabs, position) {
        Some(title) => Some(title),
        None => match lookup(s.tab_entries, position) {
            Some(t) => Some(t.entry.original_title),
            None => None,
        },
    }
}

/// The state after a pane was decorated, and the rename to ask for. A pane
/// without any known title is refused and changes nothing.
pub open spec fn applied_to_pane(s: StateView, pane: PaneRef, emojis: Seq<char>, mode: Mode) -> (
    StateView,
    Result<RenameView, Seq<char>>,
) {
    match known_pane_title(s, pane) {
        None => (
            s,
            Err("could not find pane title; ensure plugin is loaded and received PaneUpdate"@),
        ),
        Some(title) => (
            with_pane_entry(s, pane, title, emojis, mode),
            Ok(RenameView::Pane { pane, title: decorated(title, emojis) }),
        ),
    }
}

/// The state after a tab was decorated, and the rename to ask for. The tab
/// is renamed under its position plus one, and its entry is anchored to the
/// pane by which the tab is found again. A tab without any known name, or
/// whose number does not fit, is refused and changes nothing.
pub open spec fn applied_to_tab(s: StateView, position: usize, emojis: Seq<char>, mode: Mode) -> (
    StateView,
    Result<RenameView, Seq<char>>,
) {
    match known_tab_title(s, position) {
        None => (
            s,
            Err(
                "could not find tab title for tab_index="@ + decimal(position as nat)
                    + "; ensure plugin received TabUpdate"@,
            ),
        ),
        Some(title) => if position < u32::MAX {
            (
                with_tab_entry(
                    s,
                    position,
                    anchor_of_tab(s.manifest, s.tabs, position),
                    title,
                    emojis,
                    mode,
                ),
                Ok(RenameView::Tab { ordinal: (position + 1) as u32, title: decorated(title, emojis) }),
            )
        } else {
            (s, Err("tab_index="@ + decimal(position as nat) + " is out of range"@))
        },
    }
}

/// The pane that a command means: the terminal pane it names, else the
/// focused pane.
pub open spec fn target_pane(s: StateView, pane_id: Option<u32>) -> Option<PaneRef> {
    match pane_id {
        Some(id) => Some(PaneRef::Terminal(id)),
        None => focused_pane(s.manifest),
    }
}

/// The tab that a command means, or why none is found: the position it
/// names; else the tab that holds the pane it names; else the active tab.
pub open spec fn target_tab(s: StateView, pane_id: Option<u32>, tab_index: Option<usize>) -> Result<
    usize,
    Seq<char>,
> {
    match (tab_index, pane_id) {
        (Some(position), _) => Ok(position),
        (None, Some(id)) => match resolve_tab(s.manifest, s.tabs, id) {
            Some(position) => Ok(position),
            None => Err(
                "could not resolve tab_index from pane_id="@ + decimal(id as nat)
                    + "; ensure plugin received PaneUpdate"@,
            ),
        },
        (None, None) => match focused_tab(s.tabs) {
            Some(position) => Ok(position),
            None => Err("could not resolve focused tab; ensure plugin received TabUpdate"@),
        },
    }
}

/// The state after a command was carried out, and the rename to ask for.
pub open spec fn handled(s: StateView, target: Target, emojis: Seq<char>, mode: Mode) -> (
    StateView,
    Result<RenameView, Seq<char>>,
) {
    match target {
        Target::Pane { pane_id } => match target_pane(s, pane_id) {
            Some(pane) => applied_to_pane(s, pane, emojis, mode),
            None => (s, Err("could not resolve focused pane; ensure plugin received PaneUpdate"@)),
        },
        Target::Tab { pane_id, tab_index } => match target_tab(s, pane_id, tab_index) {
            Ok(position) => applied_to_tab(s, position, emojis, mode),
            Err(e) => (s, Err(e)),
        },
    }
}

} // verus!
