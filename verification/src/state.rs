//! The decoration state: what is decorated, with what, and what is waiting
//! to be restored.

use crate::command::{Command, Mode, Target};
use crate::debug::{info_of, resolution_text, InfoDebug};
use crate::laws::{
    active_among, law_inactive_tab_is_untouched, law_unfocused_pane_is_untouched,
    law_vanished_pane_is_forgotten, law_vanished_tab_is_forgotten, looked_at,
};
use crate::model::{
    after_pane_update, after_tab_update, applied_to_pane, applied_to_tab, drain_target, drained,
    effective_title, entry_of, handled, initial, kept_panes, kept_tabs, not_for_tab,
    pane_entries_after, pane_restore_due, pane_restores_after, reconcile_manifest, reconcile_panes,
    reconcile_tabs, reconciled, remap_entries, remap_restores, same_anchor_entry,
    tab_entries_after, tab_restore_due, undrained, upserted, wanted_title, with_manifest,
    with_pane_entry, with_tab_entry, with_tabs, EntryView, RenameView, RestoreView, StateView,
    TabEntryView,
};
use crate::resolver;
use crate::resolver::{
    anchor_of_tab, focused_pane, focused_tab, focused_tab_from_manifest, manifest_view,
    pane_present, rank_of_tab, resolve_tab, tab_name, title_of_first,
};
use crate::snapshot::{
    find_tab_at, has_tab, pane_views, tab_views, PaneInfo, PaneManifest, PaneQuery, TabInfo,
};
use crate::store::{distinct_keys, lemma_put, lookup, pairs, put, Key, KeyedList};
use crate::text::{chars_of, decimal, extend_chars, push_decimal, string_of};
use crate::title::{decoration_is_pinned, emojis_suffix_from_title, original_from_title};
pub use crate::title::{title_with_emojis, title_with_pinned_segments};
use vstd::prelude::*;

verus! {

/// The stable identity of a pane.
#[derive(Debug, Clone, Copy, PartialEq, Eq, Hash, Structural)]
pub enum PaneRef {
    Terminal(u32),
    Plugin(u32),
}

impl Key for PaneRef {
    fn same(&self, other: &PaneRef) -> (b: bool) {
        *self == *other
    }
}

/// A decoration and the title it was put on.
#[derive(Debug)]
pub struct Entry {
    pub original_title: String,
    pub emojis: String,
    pub mode: Mode,
}

impl View for Entry {
    type V = EntryView;

    open spec fn view(&self) -> EntryView {
        EntryView {
            original_title: self.original_title@,
            emojis: self.emojis@,
            mode: self.mode,
        }
    }
}

impl Clone for Entry {
    fn clone(&self) -> (copy: Self)
        ensures
            copy@ == self@,
    {
        Entry {
            original_title: self.original_title.clone(),
            emojis: self.emojis.clone(),
            mode: self.mode,
        }
    }
}

/// The decoration of a tab, with the pane by which the tab is found again.
struct TabEntry {
    entry: Entry,
    anchor_pane_id: Option<u32>,
}

impl View for TabEntry {
    type V = TabEntryView;

    closed spec fn view(&self) -> TabEntryView {
        TabEntryView { entry: self.entry@, anchor_pane_id: self.anchor_pane_id }
    }
}

/// A tab title that waits to be written back.
struct PendingTabRestore {
    title: String,
    anchor_pane_id: Option<u32>,
}

impl View for PendingTabRestore {
    type V = RestoreView;

    closed spec fn view(&self) -> RestoreView {
        RestoreView { title: self.title@, anchor_pane_id: self.anchor_pane_id }
    }
}

/// The text of a string that may be missing.
pub open spec fn text_of(s: Option<String>) -> Option<Seq<char>> {
    match s {
        Some(t) => Some(t@),
        None => None,
    }
}

/// The model of an entry that may be missing.
pub open spec fn entry_view(e: Option<Entry>) -> Option<EntryView> {
    match e {
        Some(e) => Some(e@),
        None => None,
    }
}

/// What becomes of an entry when its item is looked at.
fn reconcile_entry(entry: &Entry, observed: &str) -> (next: Option<Entry>)
    ensures
        entry_view(next) == reconciled(entry@, observed@),
{
    let cleaned = title_with_pinned_segments(entry.original_title.as_str(), observed);
    let pinned = emojis_suffix_from_title(entry.original_title.as_str(), cleaned.as_str());
    if !crate::title::same_text(observed, entry.original_title.as_str()) {
        if !pinned.as_str().is_empty() {
            Some(
                Entry {
                    original_title: entry.original_title.clone(),
                    emojis: pinned,
                    mode: entry.mode,
                },
            )
        } else {
            match entry.mode {
                Mode::Temp => None,
                Mode::Permanent => Some(entry.clone()),
            }
        }
    } else if decoration_is_pinned(entry.emojis.as_str()) {
        Some(entry.clone())
    } else {
        None
    }
}

/// Looks at one focused pane.
fn reconcile_focused_pane(
    entries: &mut KeyedList<PaneRef, Entry>,
    restores: &mut KeyedList<PaneRef, String>,
    pane: &PaneInfo,
) -> (due: bool)
    requires
        old(entries).wf(),
        old(restores).wf(),
    ensures
        final(entries).wf(),
        final(restores).wf(),
        final(entries)@ == pane_entries_after(old(entries)@, pane@),
        final(restores)@ == pane_restores_after(old(entries)@, old(restores)@, pane@),
        due == pane_restore_due(old(entries)@, pane@),
{
    let pane_ref = pane.pane_ref();
    let observed = pane.title.as_str();
    let wanted: String;
    match entries.get(&pane_ref) {
        Some(e) => {
            wanted = title_with_pinned_segments(e.original_title.as_str(), observed);
            match reconcile_entry(e, observed) {
                Some(next) => {
                    entries.insert(pane_ref, next);
                },
                None => {
                    entries.remove(&pane_ref);
                },
            }
        },
        None => {
            let original = original_from_title(observed);
            wanted = title_with_pinned_segments(original.as_str(), observed);
        },
    }
    let due = !crate::title::same_text(wanted.as_str(), observed);
    if due {
        restores.insert(pane_ref, wanted);
    }
    due
}

/// Looks at one active tab.
fn reconcile_active_tab(
    entries: &mut KeyedList<usize, TabEntry>,
    restores: &mut KeyedList<usize, PendingTabRestore>,
    tab: &TabInfo,
    anchor_pane_id: Option<u32>,
) -> (due: bool)
    requires
        old(entries).wf(),
        old(restores).wf(),
    ensures
        final(entries).wf(),
        final(restores).wf(),
        final(entries)@ == tab_entries_after(old(entries)@, tab@),
        due == tab_restore_due(old(entries)@, tab@),
        final(restores)@ == if due {
            put(
                old(restores)@,
                tab.position,
                RestoreView {
                    title: wanted_title(entry_of(lookup(old(entries)@, tab.position)), tab@.name),
                    anchor_pane_id,
                },
            )
        } else {
            old(restores)@
        },
{
    let position = tab.position;
    let observed = tab.name.as_str();
    let wanted: String;
    match entries.get(&position) {
        Some(t) => {
            wanted = title_with_pinned_segments(t.entry.original_title.as_str(), observed);
            let anchor = t.anchor_pane_id;
            match reconcile_entry(&t.entry, observed) {
                Some(next) => {
                    entries.insert(position, TabEntry { entry: next, anchor_pane_id: anchor });
                },
                None => {
                    entries.remove(&position);
                },
            }
        },
        None => {
            let original = original_from_title(observed);
            wanted = title_with_pinned_segments(original.as_str(), observed);
        },
    }
    let due = !crate::title::same_text(wanted.as_str(), observed);
    if due {
        restores.insert(position, PendingTabRestore { title: wanted, anchor_pane_id });
    }
    due
}

/// Drops what belongs to panes that the manifest does not show.
fn prune_panes<V: View>(store: &mut KeyedList<PaneRef, V>, m: &PaneManifest)
    requires
        old(store).wf(),
    ensures
        final(store).wf(),
        final(store)@ == kept_panes(old(store)@, m@),
{
    let ghost all = store@;
    let mut i: usize = store.len();
    assert(all.skip(i as int) =~= Seq::empty());
    assert(all.take(i as int) =~= all);
    while i > 0
        invariant
            i <= all.len(),
            store.wf(),
            store@ == all.take(i as int) + kept_panes(all.skip(i as int), m@),
        decreases i,
    {
        i -= 1;
        let key = store.key_at(i);
        assert(all.skip(i as int)[0] == all[i as int]);
        assert(all.skip(i as int).drop_first() =~= all.skip(i + 1));
        if resolver::manifest_has_pane(m, key) {
            assert(store@ =~= all.take(i as int) + kept_panes(all.skip(i as int), m@));
        } else {
            store.remove_at(i);
            assert(store@ =~= all.take(i as int) + kept_panes(all.skip(i as int), m@));
        }
    }
    assert(all.skip(0) =~= all);
}

/// Drops what belongs to positions that the tab list does not show.
fn prune_tabs<V: View>(store: &mut KeyedList<usize, V>, tabs: &Vec<TabInfo>)
    requires
        old(store).wf(),
    ensures
        final(store).wf(),
        final(store)@ == kept_tabs(old(store)@, tab_views(tabs@)),
{
    let ghost all = store@;
    let mut i: usize = store.len();
    assert(all.skip(i as int) =~= Seq::empty());
    assert(all.take(i as int) =~= all);
    while i > 0
        invariant
            i <= all.len(),
            store.wf(),
            store@ == all.take(i as int) + kept_tabs(all.skip(i as int), tab_views(tabs@)),
        decreases i,
    {
        i -= 1;
        let key = store.key_at(i);
        assert(all.skip(i as int)[0] == all[i as int]);
        assert(all.skip(i as int).drop_first() =~= all.skip(i + 1));
        if find_tab_at(tabs, key).is_some() {
            assert(store@ =~= all.take(i as int) + kept_tabs(
                all.skip(i as int),
                tab_views(tabs@),
            ));
        } else {
            store.remove_at(i);
            assert(store@ =~= all.take(i as int) + kept_tabs(
                all.skip(i as int),
                tab_views(tabs@),
            ));
        }
    }
    assert(all.skip(0) =~= all);
}

/// The decorations of panes and tabs, the latest topology, and the restores
/// that wait for the caller.
pub struct EmotitleState {
    pane_manifest: Option<PaneManifest>,
    tab_infos: Vec<TabInfo>,
    pane_entries: KeyedList<PaneRef, Entry>,
    tab_entries: KeyedList<usize, TabEntry>,
    pending_pane_restores: KeyedList<PaneRef, String>,
    pending_tab_restores: KeyedList<usize, PendingTabRestore>,
}

impl View for EmotitleState {
    type V = StateView;

    closed spec fn view(&self) -> StateView {
        StateView {
            manifest: manifest_view(self.pane_manifest),
            tabs: tab_views(self.tab_infos@),
            pane_entries: self.pane_entries@,
            tab_entries: self.tab_entries@,
            pane_restores: self.pending_pane_restores@,
            tab_restores: self.pending_tab_restores@,
        }
    }
}

impl EmotitleState {
    /// No pane and no tab position has two entries or two waiting restores.
    pub closed spec fn wf(&self) -> bool {
        &&& self.pane_entries.wf()
        &&& self.tab_entries.wf()
        &&& self.pending_pane_restores.wf()
        &&& self.pending_tab_restores.wf()
    }

    /// In a valid state no pane and no tab position has two entries or two
    /// waiting restores: each of the four lists of the model reads as a map.
    pub proof fn lemma_valid_state_has_distinct_keys(&self)
        requires
            self.wf(),
        ensures
            distinct_keys(self@.pane_entries),
            distinct_keys(self@.tab_entries),
            distinct_keys(self@.pane_restores),
            distinct_keys(self@.tab_restores),
    {
    }

    /// A state that has seen no topology and holds no decoration.
    pub fn new() -> (state: Self)
        ensures
            state.wf(),
            state@ == initial(),
    {
        let state = EmotitleState {
            pane_manifest: None,
            tab_infos: Vec::new(),
            pane_entries: KeyedList::new(),
            tab_entries: KeyedList::new(),
            pending_pane_restores: KeyedList::new(),
            pending_tab_restores: KeyedList::new(),
        };
        assert(tab_views(state.tab_infos@) =~= Seq::empty());
        state
    }

    /// Takes in the panes of every tab: forgets what belongs to vanished
    /// panes, files the tab records under the positions where their anchor
    /// panes stand now, and looks at each focused pane. Returns whether a
    /// restore is due.
    pub fn update_pane_manifest(&mut self, pane_manifest: PaneManifest) -> (due: bool)
        requires
            old(self).wf(),
        ensures
            final(self).wf(),
            (final(self)@, due) == after_pane_update(old(self)@, pane_manifest@),
            forall|pane: PaneRef|
                !(#[trigger] pane_present(pane_manifest@, pane)) ==> lookup(
                    final(self)@.pane_entries,
                    pane,
                ) is None && lookup(final(self)@.pane_restores, pane) is None,
            forall|pane: PaneRef|
                #[trigger] pane_present(pane_manifest@, pane) && !looked_at(
                    pane_manifest@,
                    pane,
                    pane_manifest@.len() as int,
                ) ==> lookup(final(self)@.pane_entries, pane) == lookup(
                    old(self)@.pane_entries,
                    pane,
                ) && lookup(final(self)@.pane_restores, pane) == lookup(
                    old(self)@.pane_restores,
                    pane,
                ),
    {
        prune_panes(&mut self.pane_entries, &pane_manifest);
        prune_panes(&mut self.pending_pane_restores, &pane_manifest);
        self.pane_manifest = Some(pane_manifest);
        self.remap_tab_state();
        assert(self@ == with_manifest(old(self)@, pane_manifest@));
        let due = self.clean_focused_panes_on_focus();
        proof {
            let before = old(self)@;
            let m = pane_manifest@;
            assert forall|pane: PaneRef| !(#[trigger] pane_present(m, pane)) implies lookup(
                after_pane_update(before, m).0.pane_entries,
                pane,
            ) is None && lookup(after_pane_update(before, m).0.pane_restores, pane) is None by {
                law_vanished_pane_is_forgotten(before, m, pane);
            }
            assert forall|pane: PaneRef|
                #[trigger] pane_present(m, pane) && !looked_at(
                    m,
                    pane,
                    m.len() as int,
                ) implies lookup(after_pane_update(before, m).0.pane_entries, pane) == lookup(
                before.pane_entries,
                pane,
            ) && lookup(after_pane_update(before, m).0.pane_restores, pane) == lookup(
                before.pane_restores,
                pane,
            ) by {
                law_unfocused_pane_is_untouched(before, m, pane);
            }
        }
        due
    }

    /// Files every tab entry and every waiting tab restore under the
    /// position where its anchor pane stands now.
    fn remap_tab_state(&mut self)
        requires
            old(self).wf(),
        ensures
            final(self).wf(),
            final(self)@ == (StateView {
                tab_entries: remap_entries(
                    old(self)@.manifest,
                    old(self)@.tabs,
                    old(self)@.tab_entries,
                    old(self)@.tab_entries.len() as int,
                ),
                tab_restores: remap_restores(
                    old(self)@.manifest,
                    old(self)@.tabs,
                    old(self)@.tab_restores,
                    old(self)@.tab_restores.len() as int,
                ),
                ..old(self)@
            }),
    {
        let ghost start = self@;
        let mut entries = self.tab_entries.take_all();
        let mut i: usize = 0;
        let n = entries.len();
        // The pairs are taken from the back, so turn the list first.
        reverse_pairs(&mut entries);
        while i < n
            invariant
                i <= n,
                n == start.tab_entries.len(),
                entries@.len() == n - i,
                forall|k: int|
                    0 <= k < n - i ==> (#[trigger] pairs(entries@)[k]) == start.tab_entries[n - 1
                        - k],
                self.tab_entries.wf(),
                self.pane_entries.wf(),
                self.pending_pane_restores.wf(),
                self.pending_tab_restores.wf(),
                self@ == (StateView {
                    tab_entries: remap_entries(start.manifest, start.tabs, start.tab_entries, i as int),
                    ..start
                }),
            decreases n - i,
        {
            let ghost before = entries@;
            let ghost last = pairs(entries@)[n - i - 1];
            let pair = entries.pop().unwrap();
            assert((pair.0, pair.1@) == last);
            let target = match pair.1.anchor_pane_id {
                Some(a) => match resolver::resolve_tab_index_from_pane_id(
                    &self.pane_manifest,
                    &self.tab_infos,
                    a,
                ) {
                    Some(t) => t,
                    None => pair.0,
                },
                None => pair.0,
            };
            self.tab_entries.insert(target, pair.1);
            i += 1;
            assert forall|k: int| 0 <= k < n - i implies (#[trigger] pairs(entries@)[k])
                == start.tab_entries[n - 1 - k] by {
                assert(pairs(entries@)[k] == pairs(before)[k]);
            }
        }
        let ghost middle = self@;
        let mut restores = self.pending_tab_restores.take_all();
        let mut j: usize = 0;
        let m = restores.len();
        reverse_pairs(&mut restores);
        while j < m
            invariant
                j <= m,
                m == start.tab_restores.len(),
                restores@.len() == m - j,
                forall|k: int|
                    0 <= k < m - j ==> (#[trigger] pairs(restores@)[k]) == start.tab_restores[m - 1
                        - k],
                self.tab_entries.wf(),
                self.pane_entries.wf(),
                self.pending_pane_restores.wf(),
                self.pending_tab_restores.wf(),
                middle.manifest == start.manifest,
                middle.tabs == start.tabs,
                self@ == (StateView {
                    tab_restores: remap_restores(
                        start.manifest,
                        start.tabs,
                        start.tab_restores,
                        j as int,
                    ),
                    ..middle
                }),
            decreases m - j,
        {
            let ghost before = restores@;
            let ghost last = pairs(restores@)[m - j - 1];
            let pair = restores.pop().unwrap();
            assert((pair.0, pair.1@) == last);
            let target = match pair.1.anchor_pane_id {
                Some(a) => match resolver::resolve_tab_index_from_pane_id(
                    &self.pane_manifest,
                    &self.tab_infos,
                    a,
                ) {
                    Some(t) => t,
                    None => pair.0,
                },
                None => pair.0,
            };
            self.pending_tab_restores.insert(target, pair.1);
            j += 1;
            assert forall|k: int| 0 <= k < m - j implies (#[trigger] pairs(restores@)[k])
                == start.tab_restores[m - 1 - k] by {
                assert(pairs(restores@)[k] == pairs(before)[k]);
            }
        }
    }

    /// Looks at every focused pane of the manifest, tabs in ascending order
    /// of position.
    fn clean_focused_panes_on_focus(&mut self) -> (due: bool)
        requires
            old(self).wf(),
            old(self).pane_manifest is Some,
        ensures
            final(self).wf(),
            (final(self)@, due) == reconcile_manifest(
                old(self)@,
                old(self)@.manifest->0,
                old(self)@.manifest->0.len() as int,
            ),
    {
        let ghost start = self@;
        let mut due = false;
        match &self.pane_manifest {
            None => {},
            Some(m) => {
                let mut t: usize = 0;
                while t < m.len()
                    invariant
                        t <= m@.len(),
                        self.pane_manifest == Some(*m),
                        start.manifest == Some(m@),
                        self.wf(),
                        (self@, due) == reconcile_manifest(start, m@, t as int),
                    decreases m@.len() - t,
                {
                    let panes = m.panes_at(t);
                    let ghost tab_start = self@;
                    let mut tab_due = false;
                    let mut p: usize = 0;
                    while p < panes.len()
                        invariant
                            p <= panes.len(),
                            self.pane_manifest == Some(*m),
                            self.wf(),
                            (self@, tab_due) == reconcile_panes(
                                tab_start,
                                pane_views(panes@),
                                p as int,
                            ),
                        decreases panes.len() - p,
                    {
                        if panes[p].is_focused {
                            let one = reconcile_focused_pane(
                                &mut self.pane_entries,
                                &mut self.pending_pane_restores,
                                &panes[p],
                            );
                            tab_due = tab_due || one;
                        }
                        p += 1;
                    }
                    due = due || tab_due;
                    t += 1;
                }
            },
        }
        due
    }
}

impl EmotitleState {
    /// Takes in the tab list: forgets what belongs to vanished positions and
    /// looks at each active tab. Returns whether a restore is due.
    pub fn update_tab_infos(&mut self, tab_infos: Vec<TabInfo>) -> (due: bool)
        requires
            old(self).wf(),
        ensures
            final(self).wf(),
            (final(self)@, due) == after_tab_update(old(self)@, tab_views(tab_infos@)),
            forall|position: usize|
                !(#[trigger] has_tab(tab_views(tab_infos@), position)) ==> lookup(
                    final(self)@.tab_entries,
                    position,
                ) is None && lookup(final(self)@.tab_restores, position) is None,
            forall|position: usize|
                #[trigger] has_tab(tab_views(tab_infos@), position) && !active_among(
                    tab_views(tab_infos@),
                    position,
                    tab_infos@.len() as int,
                ) ==> lookup(final(self)@.tab_entries, position) == lookup(
                    old(self)@.tab_entries,
                    position,
                ) && lookup(final(self)@.tab_restores, position) == lookup(
                    old(self)@.tab_restores,
                    position,
                ),
    {
        prune_tabs(&mut self.tab_entries, &tab_infos);
        prune_tabs(&mut self.pending_tab_restores, &tab_infos);
        self.tab_infos = tab_infos;
        assert(self@ == with_tabs(old(self)@, tab_views(tab_infos@)));
        let due = self.clean_focused_tabs_on_focus();
        proof {
            let before = old(self)@;
            let tabs = tab_views(tab_infos@);
            assert forall|position: usize| !(#[trigger] has_tab(tabs, position)) implies lookup(
                after_tab_update(before, tabs).0.tab_entries,
                position,
            ) is None && lookup(after_tab_update(before, tabs).0.tab_restores, position) is None by {
                law_vanished_tab_is_forgotten(before, tabs, position);
            }
            assert forall|position: usize|
                #[trigger] has_tab(tabs, position) && !active_among(
                    tabs,
                    position,
                    tabs.len() as int,
                ) implies lookup(after_tab_update(before, tabs).0.tab_entries, position) == lookup(
                before.tab_entries,
                position,
            ) && lookup(after_tab_update(before, tabs).0.tab_restores, position) == lookup(
                before.tab_restores,
                position,
            ) by {
                law_inactive_tab_is_untouched(before, tabs, position);
            }
        }
        due
    }

    /// Looks at every active tab of the tab list, in the order of the list.
    fn clean_focused_tabs_on_focus(&mut self) -> (due: bool)
        requires
            old(self).wf(),
        ensures
            final(self).wf(),
            (final(self)@, due) == reconcile_tabs(
                old(self)@,
                old(self)@.tabs,
                old(self)@.tabs.len() as int,
            ),
    {
        let ghost start = self@;
        let mut due = false;
        let mut i: usize = 0;
        while i < self.tab_infos.len()
            invariant
                i <= self.tab_infos.len(),
                self.wf(),
                self@.tabs == start.tabs,
                (self@, due) == reconcile_tabs(start, start.tabs, i as int),
            decreases self.tab_infos.len() - i,
        {
            if self.tab_infos[i].active {
                let anchor = resolver::tab_anchor_pane_id(
                    &self.pane_manifest,
                    &self.tab_infos,
                    self.tab_infos[i].position,
                );
                let one = reconcile_active_tab(
                    &mut self.tab_entries,
                    &mut self.pending_tab_restores,
                    &self.tab_infos[i],
                    anchor,
                );
                due = due || one;
            }
            i += 1;
        }
        due
    }

    /// The tab that holds the terminal pane `pane_id`.
    pub fn resolve_tab_index_from_pane_id(&self, pane_id: u32) -> (r: Option<usize>)
        ensures
            r == resolve_tab(self@.manifest, self@.tabs, pane_id),
    {
        resolver::resolve_tab_index_from_pane_id(&self.pane_manifest, &self.tab_infos, pane_id)
    }

    /// The first focused pane of the manifest.
    pub fn focused_pane_ref(&self) -> (r: Option<PaneRef>)
        ensures
            r == focused_pane(self@.manifest),
    {
        resolver::focused_pane_ref(&self.pane_manifest)
    }

    /// The position of the first tab that the tab list reports active.
    pub fn focused_tab_index(&self) -> (r: Option<usize>)
        ensures
            r == focused_tab(self@.tabs),
    {
        resolver::focused_tab_index(&self.tab_infos)
    }

    /// The focused tab as the pane manifest shows it.
    pub fn focused_tab_index_from_manifest(&self) -> (r: Option<usize>)
        ensures
            r == focused_tab_from_manifest(self@.manifest, self@.tabs),
    {
        resolver::focused_tab_index_from_manifest(&self.pane_manifest, &self.tab_infos)
    }

    /// The title that the manifest shows for a pane.
    pub fn pane_title(&self, pane_ref: &PaneRef) -> (r: Option<String>)
        ensures
            text_of(r) == title_of_first(self@.manifest, PaneQuery::Is(*pane_ref)),
    {
        resolver::title_of_first_pane(&self.pane_manifest, &PaneQuery::Is(*pane_ref))
    }

    /// The title that a pane should show: decorated while the manifest
    /// still shows the original, else as the manifest shows it.
    pub fn pane_effective_title(&self, pane_ref: &PaneRef) -> (r: Option<String>)
        requires
            self.wf(),
        ensures
            text_of(r) == effective_title(
                title_of_first(self@.manifest, PaneQuery::Is(*pane_ref)),
                lookup(self@.pane_entries, *pane_ref),
            ),
    {
        let observed = self.pane_title(pane_ref);
        match self.pane_entries.get(pane_ref) {
            Some(entry) => effective(observed, Some(entry)),
            None => effective(observed, None),
        }
    }

    /// The name that the tab list shows for a position.
    pub fn tab_title(&self, tab_index: usize) -> (r: Option<String>)
        ensures
            text_of(r) == tab_name(self@.tabs, tab_index),
    {
        resolver::tab_title(&self.tab_infos, tab_index)
    }

    /// The name that a tab should show: decorated while the tab list still
    /// shows the original, else as the tab list shows it.
    pub fn tab_effective_title(&self, tab_index: usize) -> (r: Option<String>)
        requires
            self.wf(),
        ensures
            text_of(r) == effective_title(
                tab_name(self@.tabs, tab_index),
                entry_of(lookup(self@.tab_entries, tab_index)),
            ),
    {
        let observed = self.tab_title(tab_index);
        match self.tab_entries.get(&tab_index) {
            Some(t) => effective(observed, Some(&t.entry)),
            None => effective(observed, None),
        }
    }

    /// The one-based rank of a tab position among the positions of the tab
    /// list.
    pub fn tab_rename_target(&self, tab_index: usize) -> (r: Option<u32>)
        ensures
            r == rank_of_tab(self@.tabs, tab_index),
    {
        resolver::tab_rename_target(&self.tab_infos, tab_index)
    }

    /// Records the decoration of a pane. An entry already there keeps its
    /// original title.
    pub fn upsert_pane_entry(
        &mut self,
        pane_ref: PaneRef,
        original_title: String,
        emojis: String,
        mode: Mode,
    )
        requires
            old(self).wf(),
        ensures
            final(self).wf(),
            final(self)@ == with_pane_entry(old(self)@, pane_ref, original_title@, emojis@, mode),
            lookup(final(self)@.pane_entries, pane_ref) == Some(
                upserted(lookup(old(self)@.pane_entries, pane_ref), original_title@, emojis@, mode),
            ),
            forall|other: PaneRef|
                other != pane_ref ==> #[trigger] lookup(final(self)@.pane_entries, other) == lookup(
                    old(self)@.pane_entries,
                    other,
                ),
    {
        let ghost stored = upserted(
            lookup(self@.pane_entries, pane_ref),
            original_title@,
            emojis@,
            mode,
        );
        let original_title = match self.pane_entries.get(&pane_ref) {
            Some(e) => e.original_title.clone(),
            None => original_title,
        };
        self.pane_entries.insert(pane_ref, Entry { original_title, emojis, mode });
        proof {
            let before = old(self)@.pane_entries;
            lemma_put(before, pane_ref, stored, pane_ref);
            assert forall|other: PaneRef| other != pane_ref implies #[trigger] lookup(
                put(before, pane_ref, stored),
                other,
            ) == lookup(before, other) by {
                lemma_put(before, pane_ref, stored, other);
            }
        }
    }

    /// Records the decoration of a tab. An entry already there keeps its
    /// original title if its anchor is the same, and is else replaced.
    pub fn upsert_tab_entry(
        &mut self,
        tab_index: usize,
        anchor_pane_id: Option<u32>,
        original_title: String,
        emojis: String,
        mode: Mode,
    )
        requires
            old(self).wf(),
        ensures
            final(self).wf(),
            final(self)@ == with_tab_entry(
                old(self)@,
                tab_index,
                anchor_pane_id,
                original_title@,
                emojis@,
                mode,
            ),
            lookup(final(self)@.tab_entries, tab_index) == Some(
                TabEntryView {
                    entry: upserted(
                        same_anchor_entry(
                            lookup(old(self)@.tab_entries, tab_index),
                            anchor_pane_id,
                        ),
                        original_title@,
                        emojis@,
                        mode,
                    ),
                    anchor_pane_id,
                },
            ),
            forall|other: usize|
                other != tab_index ==> #[trigger] lookup(final(self)@.tab_entries, other) == lookup(
                    old(self)@.tab_entries,
                    other,
                ),
    {
        let ghost stored = TabEntryView {
            entry: upserted(
                same_anchor_entry(lookup(self@.tab_entries, tab_index), anchor_pane_id),
                original_title@,
                emojis@,
                mode,
            ),
            anchor_pane_id,
        };
        let original_title = match self.tab_entries.get(&tab_index) {
            Some(t) => if same_anchor(t.anchor_pane_id, anchor_pane_id) {
                t.entry.original_title.clone()
            } else {
                original_title
            },
            None => original_title,
        };
        self.tab_entries.insert(
            tab_index,
            TabEntry { entry: Entry { original_title, emojis, mode }, anchor_pane_id },
        );
        proof {
            let before = old(self)@.tab_entries;
            lemma_put(before, tab_index, stored, tab_index);
            assert forall|other: usize| other != tab_index implies #[trigger] lookup(
                put(before, tab_index, stored),
                other,
            ) == lookup(before, other) by {
                lemma_put(before, tab_index, stored, other);
            }
        }
    }

    /// The original title stored for a pane.
    pub fn pane_original_title(&self, pane_ref: &PaneRef) -> (r: Option<String>)
        requires
            self.wf(),
        ensures
            text_of(r) == match lookup(self@.pane_entries, *pane_ref) {
                Some(e) => Some(e.original_title),
                None => None,
            },
    {
        match self.pane_entries.get(pane_ref) {
            Some(e) => Some(e.original_title.clone()),
            None => None,
        }
    }

    /// The original title stored for a tab.
    pub fn tab_original_title(&self, tab_index: usize) -> (r: Option<String>)
        requires
            self.wf(),
        ensures
            text_of(r) == match lookup(self@.tab_entries, tab_index) {
                Some(t) => Some(t.entry.original_title),
                None => None,
            },
    {
        match self.tab_entries.get(&tab_index) {
            Some(t) => Some(t.entry.original_title.clone()),
            None => None,
        }
    }

    /// The pane by which the tab at a position is found again.
    pub fn tab_anchor_pane_id(&self, tab_index: usize) -> (r: Option<u32>)
        ensures
            r == anchor_of_tab(self@.manifest, self@.tabs, tab_index),
    {
        resolver::tab_anchor_pane_id(&self.pane_manifest, &self.tab_infos, tab_index)
    }

    /// Hands out the pane restores that wait, oldest first, and forgets
    /// them.
    pub fn take_pending_pane_restores(&mut self) -> (restores: Vec<(PaneRef, String)>)
        requires
            old(self).wf(),
        ensures
            final(self).wf(),
            pairs(restores@) == old(self)@.pane_restores,
            final(self)@ == (StateView { pane_restores: Seq::empty(), ..old(self)@ }),
    {
        self.pending_pane_restores.take_all()
    }

    /// Hands out the tab restores that can be applied now, each with the
    /// position it goes to, and keeps the others for a later call.
    pub fn take_pending_tab_restores(&mut self) -> (restores: Vec<(usize, String)>)
        requires
            old(self).wf(),
        ensures
            final(self).wf(),
            pairs(restores@) == drained(
                old(self)@.manifest,
                old(self)@.tabs,
                old(self)@.tab_restores,
                old(self)@.tab_restores.len() as int,
            ),
            final(self)@ == (StateView {
                tab_restores: undrained(
                    old(self)@.manifest,
                    old(self)@.tabs,
                    old(self)@.tab_restores,
                    old(self)@.tab_restores.len() as int,
                ),
                ..old(self)@
            }),
    {
        let ghost start = self@;
        let mut waiting = self.pending_tab_restores.take_all();
        let n = waiting.len();
        reverse_pairs(&mut waiting);
        let mut resolved: Vec<(usize, String)> = Vec::new();
        let mut i: usize = 0;
        while i < n
            invariant
                i <= n,
                n == start.tab_restores.len(),
                waiting@.len() == n - i,
                forall|k: int|
                    0 <= k < n - i ==> (#[trigger] pairs(waiting@)[k]) == start.tab_restores[n - 1
                        - k],
                self.wf(),
                pairs(resolved@) == drained(start.manifest, start.tabs, start.tab_restores, i as int),
                self@ == (StateView {
                    tab_restores: undrained(
                        start.manifest,
                        start.tabs,
                        start.tab_restores,
                        i as int,
                    ),
                    ..start
                }),
            decreases n - i,
        {
            let ghost before = waiting@;
            let ghost done = pairs(resolved@);
            let ghost last = pairs(waiting@)[n - i - 1];
            let pair = waiting.pop().unwrap();
            assert((pair.0, pair.1@) == last);
            let by_anchor = match pair.1.anchor_pane_id {
                Some(a) => self.resolve_tab_index_from_pane_id(a),
                None => None,
            };
            let target = if by_anchor.is_some() {
                by_anchor
            } else if find_tab_at(&self.tab_infos, pair.0).is_some() {
                Some(pair.0)
            } else {
                None
            };
            assert(target == drain_target(
                start.manifest,
                start.tabs,
                pair.0,
                pair.1@.anchor_pane_id,
            ));
            match target {
                Some(t) => {
                    let restore = pair.1;
                    resolved.push((t, restore.title));
                    assert(pairs(resolved@) =~= done.push((t, last.1.title)));
                },
                None => {
                    self.pending_tab_restores.insert(pair.0, pair.1);
                },
            }
            i += 1;
            assert forall|k: int| 0 <= k < n - i implies (#[trigger] pairs(waiting@)[k])
                == start.tab_restores[n - 1 - k] by {
                assert(pairs(waiting@)[k] == pairs(before)[k]);
            }
        }
        resolved
    }

    /// Whether a tab restore waits.
    pub fn has_pending_tab_restores(&self) -> (b: bool)
        ensures
            b == (self@.tab_restores.len() > 0),
    {
        !self.pending_tab_restores.is_empty()
    }

    /// Forgets the waiting restores that belong to the tab at `tab_index`,
    /// by their anchor pane where it is found, else by the position they
    /// were filed under.
    pub fn clear_pending_tab_restore(&mut self, tab_index: usize)
        requires
            old(self).wf(),
        ensures
            final(self).wf(),
            final(self)@ == (StateView {
                tab_restores: not_for_tab(
                    old(self)@.manifest,
                    old(self)@.tabs,
                    old(self)@.tab_restores,
                    tab_index,
                    old(self)@.tab_restores.len() as int,
                ),
                ..old(self)@
            }),
    {
        let ghost start = self@;
        let mut waiting = self.pending_tab_restores.take_all();
        let n = waiting.len();
        reverse_pairs(&mut waiting);
        let mut i: usize = 0;
        while i < n
            invariant
                i <= n,
                n == start.tab_restores.len(),
                waiting@.len() == n - i,
                forall|k: int|
                    0 <= k < n - i ==> (#[trigger] pairs(waiting@)[k]) == start.tab_restores[n - 1
                        - k],
                self.wf(),
                self@ == (StateView {
                    tab_restores: not_for_tab(
                        start.manifest,
                        start.tabs,
                        start.tab_restores,
                        tab_index,
                        i as int,
                    ),
                    ..start
                }),
            decreases n - i,
        {
            let ghost before = waiting@;
            let ghost last = pairs(waiting@)[n - i - 1];
            let pair = waiting.pop().unwrap();
            assert((pair.0, pair.1@) == last);
            let target = match pair.1.anchor_pane_id {
                Some(a) => match self.resolve_tab_index_from_pane_id(a) {
                    Some(t) => t,
                    None => pair.0,
                },
                None => pair.0,
            };
            if target != tab_index {
                self.pending_tab_restores.insert(pair.0, pair.1);
            }
            i += 1;
            assert forall|k: int| 0 <= k < n - i implies (#[trigger] pairs(waiting@)[k])
                == start.tab_restores[n - 1 - k] by {
                assert(pairs(waiting@)[k] == pairs(before)[k]);
            }
        }
    }

    /// Files a tab restore to wait under `tab_index`, in place of one that
    /// waits there.
    pub fn queue_tab_restore(&mut self, tab_index: usize, title: String, anchor_pane_id: Option<u32>)
        requires
            old(self).wf(),
        ensures
            final(self).wf(),
            final(self)@ == (StateView {
                tab_restores: put(
                    old(self)@.tab_restores,
                    tab_index,
                    RestoreView { title: title@, anchor_pane_id },
                ),
                ..old(self)@
            }),
    {
        self.pending_tab_restores.insert(tab_index, PendingTabRestore { title, anchor_pane_id });
    }

    /// The title of the restore that waits under `tab_index`.
    pub fn pending_tab_restore(&self, tab_index: usize) -> (r: Option<String>)
        requires
            self.wf(),
        ensures
            text_of(r) == match lookup(self@.tab_restores, tab_index) {
                Some(restore) => Some(restore.title),
                None => None,
            },
    {
        match self.pending_tab_restores.get(&tab_index) {
            Some(restore) => Some(restore.title.clone()),
            None => None,
        }
    }
}

/// A rename that the caller is to ask of the host.
#[derive(Debug, PartialEq, Eq)]
pub enum RenameRequest {
    /// Give a pane this title.
    Pane { pane: PaneRef, title: String },
    /// Give the tab with this one-based number this name.
    Tab { ordinal: u32, title: String },
}

impl View for RenameRequest {
    type V = RenameView;

    open spec fn view(&self) -> RenameView {
        match self {
            RenameRequest::Pane { pane, title } => RenameView::Pane { pane: *pane, title: title@ },
            RenameRequest::Tab { ordinal, title } => RenameView::Tab {
                ordinal: *ordinal,
                title: title@,
            },
        }
    }
}

/// The model of what a command gives.
pub open spec fn outcome(r: Result<RenameRequest, String>) -> Result<RenameView, Seq<char>> {
    match r {
        Ok(request) => Ok(request@),
        Err(e) => Err(e@),
    }
}

/// A text with a decimal number in it.
fn text_with_number(before: &str, n: u64, after: &str) -> (r: String)
    ensures
        r@ == before@ + decimal(n as nat) + after@,
{
    let mut out = chars_of(before);
    push_decimal(&mut out, n);
    extend_chars(&mut out, &chars_of(after));
    string_of(&out)
}

impl EmotitleState {
    /// Decorates a pane: records the decoration and says which rename to
    /// ask for.
    pub fn apply_to_pane(&mut self, pane_ref: PaneRef, emojis: String, mode: Mode) -> (r: Result<
        RenameRequest,
        String,
    >)
        requires
            old(self).wf(),
        ensures
            final(self).wf(),
            (final(self)@, outcome(r)) == applied_to_pane(old(self)@, pane_ref, emojis@, mode),
    {
        let shown = self.pane_title(&pane_ref);
        let original_title = match shown {
            Some(title) => title,
            None => match self.pane_original_title(&pane_ref) {
                Some(title) => title,
                None => {
                    return Err(
                        "could not find pane title; ensure plugin is loaded and received PaneUpdate".to_owned(),
                    );
                },
            },
        };
        let title = title_with_emojis(original_title.as_str(), emojis.as_str());
        self.upsert_pane_entry(pane_ref, original_title, emojis, mode);
        Ok(RenameRequest::Pane { pane: pane_ref, title })
    }

    /// Decorates a tab: records the decoration and says which rename to ask
    /// for.
    pub fn apply_to_tab(&mut self, tab_index: usize, emojis: String, mode: Mode) -> (r: Result<
        RenameRequest,
        String,
    >)
        requires
            old(self).wf(),
        ensures
            final(self).wf(),
            (final(self)@, outcome(r)) == applied_to_tab(old(self)@, tab_index, emojis@, mode),
    {
        let shown = self.tab_title(tab_index);
        let original_title = match shown {
            Some(title) => title,
            None => match self.tab_original_title(tab_index) {
                Some(title) => title,
                None => {
                    return Err(
                        text_with_number(
                            "could not find tab title for tab_index=",
                            tab_index as u64,
                            "; ensure plugin received TabUpdate",
                        ),
                    );
                },
            },
        };
        if tab_index >= 0xffff_ffff {
            return Err(text_with_number("tab_index=", tab_index as u64, " is out of range"));
        }
        let title = title_with_emojis(original_title.as_str(), emojis.as_str());
        let anchor = self.tab_anchor_pane_id(tab_index);
        self.upsert_tab_entry(tab_index, anchor, original_title, emojis, mode);
        Ok(RenameRequest::Tab { ordinal: (tab_index + 1) as u32, title })
    }

    /// Carries a command out: finds the pane or tab it means, records the
    /// decoration and says which rename to ask for.
    pub fn handle_command(&mut self, command: Command) -> (r: Result<RenameRequest, String>)
        requires
            old(self).wf(),
        ensures
            final(self).wf(),
            (final(self)@, outcome(r)) == handled(
                old(self)@,
                command.target,
                command.emojis@,
                command.mode,
            ),
    {
        match command.target {
            Target::Pane { pane_id } => {
                let pane = match pane_id {
                    Some(id) => Some(PaneRef::Terminal(id)),
                    None => self.focused_pane_ref(),
                };
                match pane {
                    Some(pane_ref) => self.apply_to_pane(pane_ref, command.emojis, command.mode),
                    None => Err(
                        "could not resolve focused pane; ensure plugin received PaneUpdate".to_owned(),
                    ),
                }
            },
            Target::Tab { pane_id, tab_index } => {
                let position = match tab_index {
                    Some(position) => position,
                    None => match pane_id {
                        Some(id) => match self.resolve_tab_index_from_pane_id(id) {
                            Some(position) => position,
                            None => {
                                return Err(
                                    text_with_number(
                                        "could not resolve tab_index from pane_id=",
                                        id as u64,
                                        "; ensure plugin received PaneUpdate",
                                    ),
                                );
                            },
                        },
                        None => match self.focused_tab_index() {
                            Some(position) => position,
                            None => {
                                return Err(
                                    "could not resolve focused tab; ensure plugin received TabUpdate".to_owned(),
                                );
                            },
                        },
                    },
                };
                self.apply_to_tab(position, command.emojis, command.mode)
            },
        }
    }

    /// One line on how the two topology channels were related.
    pub fn tab_resolution_debug(&self) -> (r: String)
        ensures
            r@ == resolution_text(self@.manifest, self@.tabs),
    {
        crate::debug::tab_resolution_debug(&self.pane_manifest, &self.tab_infos)
    }

    /// The tabs with their panes, the active tab and the focused pane.
    pub fn info_debug(&self) -> (info: InfoDebug)
        ensures
            info@ == info_of(self@.manifest, self@.tabs),
    {
        crate::debug::info_debug(&self.pane_manifest, &self.tab_infos)
    }
}

impl Default for EmotitleState {
    fn default() -> (state: Self)
        ensures
            state.wf(),
            state@ == initial(),
    {
        EmotitleState::new()
    }
}

/// Whether two anchors are the same.
fn same_anchor(a: Option<u32>, b: Option<u32>) -> (r: bool)
    ensures
        r == (a == b),
{
    match (a, b) {
        (Some(x), Some(y)) => x == y,
        (None, None) => true,
        _ => false,
    }
}

/// The title to show for an observed title and an entry.
fn effective(observed: Option<String>, entry: Option<&Entry>) -> (r: Option<String>)
    ensures
        text_of(r) == effective_title(
            text_of(observed),
            match entry {
                Some(e) => Some(e@),
                None => None,
            },
        ),
{
    match (observed, entry) {
        (Some(title), Some(e)) => if title == e.original_title {
            Some(title_with_emojis(e.original_title.as_str(), e.emojis.as_str()))
        } else {
            Some(title)
        },
        (Some(title), None) => Some(title),
        (None, Some(e)) => Some(title_with_emojis(e.original_title.as_str(), e.emojis.as_str())),
        (None, None) => None,
    }
}

/// Turns a list of pairs round.
fn reverse_pairs<K: Key, V: View>(items: &mut Vec<(K, V)>)
    ensures
        final(items)@.len() == old(items)@.len(),
        forall|k: int|
            0 <= k < old(items)@.len() ==> (#[trigger] pairs(final(items)@)[k]) == pairs(
                old(items)@,
            )[old(items)@.len() - 1 - k],
{
    let ghost all = items@;
    let mut turned: Vec<(K, V)> = Vec::new();
    while items.len() > 0
        invariant
            items@.len() + turned@.len() == all.len(),
            items@ == all.take(items@.len() as int),
            forall|k: int|
                0 <= k < turned@.len() ==> (#[trigger] turned@[k]) == all[all.len() - 1 - k],
        decreases items.len(),
    {
        let pair = items.pop().unwrap();
        turned.push(pair);
    }
    std::mem::swap(items, &mut turned);
}

} // verus!
