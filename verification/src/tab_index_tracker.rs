//! A numbering of tabs that does not follow their positions.
//!
//! A tab is known by the set of panes it holds. A tab that shares a pane
//! with a tracked set keeps the index of that set, wherever the tab stands
//! now; a tab that shares none gets the next index, which is never handed
//! out again. Every change is noted in a log that keeps the latest events.

use crate::snapshot::{tab_views, TabInfo, TabInfoView};
use std::collections::HashMap;
use std::collections::VecDeque;
use vstd::prelude::*;

verus! {

broadcast use vstd::std_specs::hash::group_hash_axioms;

/// The number of events that the log keeps.
pub const MAX_EVENT_HISTORY: usize = 200;

/// The identity of a pane, as the tracker keys it.
#[derive(Debug, Clone, Copy, PartialEq, Eq, Hash, Structural)]
pub struct PaneKey {
    pub is_plugin: bool,
    pub id: u32,
}

/// What happened to a tracked tab.
#[derive(Debug, Clone, Copy, PartialEq, Eq, Structural)]
pub enum TabIndexEventType {
    TabAdded,
    TabKeyUpdated,
    TabRemoved,
}

/// One entry of the log.
#[derive(Debug)]
pub struct TabIndexEvent {
    pub seq: u64,
    pub event_type: TabIndexEventType,
    pub pane_keys: Vec<PaneKey>,
    pub internal_index: usize,
}

/// The model of a log entry.
pub struct EventView {
    pub seq: u64,
    pub event_type: TabIndexEventType,
    pub pane_keys: Seq<PaneKey>,
    pub internal_index: usize,
}

impl View for TabIndexEvent {
    type V = EventView;

    open spec fn view(&self) -> EventView {
        EventView {
            seq: self.seq,
            event_type: self.event_type,
            pane_keys: self.pane_keys@,
            internal_index: self.internal_index,
        }
    }
}

impl Clone for TabIndexEvent {
    fn clone(&self) -> (copy: Self)
        ensures
            copy@ == self@,
    {
        TabIndexEvent {
            seq: self.seq,
            event_type: self.event_type,
            pane_keys: copy_keys(&self.pane_keys),
            internal_index: self.internal_index,
        }
    }
}

/// One row of the table of tracked tabs.
#[derive(Debug)]
pub struct InternalIndexEntry {
    pub pane_keys: Vec<PaneKey>,
    pub internal_index: usize,
}

/// A tracked tab: its panes when it was last seen, its index, and whether
/// its removal has been noted.
struct TrackedTab {
    pane_keys: Vec<PaneKey>,
    internal_index: usize,
    removed: bool,
}

/// The model of a tracked tab.
pub struct TrackedView {
    pub pane_keys: Seq<PaneKey>,
    pub internal_index: usize,
    pub removed: bool,
}

impl View for TrackedTab {
    type V = TrackedView;

    closed spec fn view(&self) -> TrackedView {
        TrackedView {
            pane_keys: self.pane_keys@,
            internal_index: self.internal_index,
            removed: self.removed,
        }
    }
}

/// The model of the tracker.
pub struct TrackerView {
    pub tabs: Seq<TrackedView>,
    pub next_internal_index: usize,
    pub events: Seq<EventView>,
    pub event_seq: u64,
}

/// Some pane of `a` is a pane of `b`.
pub open spec fn overlaps(a: Seq<PaneKey>, b: Seq<PaneKey>) -> bool {
    exists|i: int| 0 <= i < a.len() && b.contains(#[trigger] a[i])
}

/// Every pane of `a` is a pane of `b`.
pub open spec fn within(a: Seq<PaneKey>, b: Seq<PaneKey>) -> bool {
    forall|i: int| 0 <= i < a.len() ==> b.contains(#[trigger] a[i])
}

/// The two lists hold the same set of panes.
pub open spec fn same_set(a: Seq<PaneKey>, b: Seq<PaneKey>) -> bool {
    within(a, b) && within(b, a)
}

/// The index of the first tracked tab at or after `from` that shares a pane
/// with `keys`.
pub open spec fn first_overlapping(tabs: Seq<TrackedView>, keys: Seq<PaneKey>, from: int) -> Option<
    int,
>
    decreases tabs.len() - from,
{
    if from < 0 || from >= tabs.len() {
        None
    } else if overlaps(tabs[from].pane_keys, keys) {
        Some(from)
    } else {
        first_overlapping(tabs, keys, from + 1)
    }
}

/// The panes that `tab_panes` lists for a position.
pub open spec fn keys_of(tab_panes: Map<usize, Vec<PaneKey>>, position: usize) -> Option<
    Seq<PaneKey>,
> {
    if tab_panes.contains_key(position) {
        Some(tab_panes[position]@)
    } else {
        None
    }
}

/// The sequence number that follows on `seq`: one more, up to the greatest
/// value, where it stops.
pub open spec fn next_seq(seq: u64) -> u64 {
    if seq < u64::MAX {
        (seq + 1) as u64
    } else {
        seq
    }
}

/// The events stand as they were noted: the sequence number of each event
/// follows on that of the event before it, and the number that the next
/// event will get follows on that of the last.
pub open spec fn log_in_order(events: Seq<EventView>, event_seq: u64) -> bool {
    &&& forall|i: int, j: int|
        0 <= i && j == i + 1 && j < events.len() ==> (#[trigger] events[j]).seq == next_seq(
            (#[trigger] events[i]).seq,
        )
    &&& events.len() > 0 ==> event_seq == next_seq(events.last().seq)
}

/// The tracker with one more event in its log. A full log loses its oldest
/// event; the sequence number stops at its greatest value.
pub open spec fn recorded(
    t: TrackerView,
    event_type: TabIndexEventType,
    pane_keys: Seq<PaneKey>,
    internal_index: usize,
) -> TrackerView {
    let kept = if t.events.len() >= MAX_EVENT_HISTORY {
        t.events.drop_first()
    } else {
        t.events
    };
    TrackerView {
        events: kept.push(EventView { seq: t.event_seq, event_type, pane_keys, internal_index }),
        event_seq: next_seq(t.event_seq),
        ..t
    }
}

/// Noting an event keeps the log in order and within its capacity.
pub proof fn lemma_recorded_log(
    t: TrackerView,
    event_type: TabIndexEventType,
    pane_keys: Seq<PaneKey>,
    internal_index: usize,
)
    requires
        log_in_order(t.events, t.event_seq),
        t.events.len() <= MAX_EVENT_HISTORY,
    ensures
        log_in_order(
            recorded(t, event_type, pane_keys, internal_index).events,
            recorded(t, event_type, pane_keys, internal_index).event_seq,
        ),
        recorded(t, event_type, pane_keys, internal_index).events.len() <= MAX_EVENT_HISTORY,
        recorded(t, event_type, pane_keys, internal_index).events.last().seq == t.event_seq,
{
    let after = recorded(t, event_type, pane_keys, internal_index).events;
    let dropped: int = if t.events.len() >= MAX_EVENT_HISTORY {
        1
    } else {
        0
    };
    let kept = if t.events.len() >= MAX_EVENT_HISTORY {
        t.events.drop_first()
    } else {
        t.events
    };
    assert(after.len() == kept.len() + 1);
    assert forall|i: int, j: int| 0 <= i && j == i + 1 && j < after.len() implies (
    #[trigger] after[j]).seq == next_seq((#[trigger] after[i]).seq) by {
        assert(after[i] == t.events[i + dropped]);
        if j < kept.len() {
            assert(after[j] == t.events[j + dropped]);
        } else {
            assert(t.events[i + dropped] == t.events.last());
        }
    }
}

/// The tracker after it has seen a tab that holds `keys`.
///
/// A tab without panes changes nothing. A tab that shares a pane with a
/// tracked set takes over the first such set: nothing changes where the two
/// sets are the same, else the tracked set is replaced and the change is
/// noted. A tab that shares no pane with any tracked set is added under the
/// next index, as long as there is one.
pub open spec fn seen_tab(t: TrackerView, keys: Seq<PaneKey>) -> TrackerView {
    if keys.len() == 0 {
        t
    } else {
        match first_overlapping(t.tabs, keys, 0) {
            Some(i) => if same_set(t.tabs[i].pane_keys, keys) {
                t
            } else {
                recorded(
                    TrackerView {
                        tabs: t.tabs.update(
                            i,
                            TrackedView {
                                pane_keys: keys,
                                internal_index: t.tabs[i].internal_index,
                                removed: false,
                            },
                        ),
                        ..t
                    },
                    TabIndexEventType::TabKeyUpdated,
                    keys,
                    t.tabs[i].internal_index,
                )
            },
            None => if t.next_internal_index < usize::MAX {
                recorded(
                    TrackerView {
                        tabs: t.tabs.push(
                            TrackedView {
                                pane_keys: keys,
                                internal_index: t.next_internal_index,
                                removed: false,
                            },
                        ),
                        next_internal_index: (t.next_internal_index + 1) as usize,
                        ..t
                    },
                    TabIndexEventType::TabAdded,
                    keys,
                    t.next_internal_index,
                )
            } else {
                t
            },
        }
    }
}

/// The tracker after it has seen the first `n` tabs of the list, each with
/// the panes that `tab_panes` lists for its position.
pub open spec fn seen_tabs(
    t: TrackerView,
    tabs: Seq<TabInfoView>,
    tab_panes: Map<usize, Vec<PaneKey>>,
    n: int,
) -> TrackerView
    decreases n,
{
    if n <= 0 || n > tabs.len() {
        t
    } else {
        let before = seen_tabs(t, tabs, tab_panes, n - 1);
        match keys_of(tab_panes, tabs[n - 1].position) {
            Some(keys) => seen_tab(before, keys),
            None => before,
        }
    }
}

/// Some tab of the list holds a pane of `keys`.
pub open spec fn shown(
    tabs: Seq<TabInfoView>,
    tab_panes: Map<usize, Vec<PaneKey>>,
    keys: Seq<PaneKey>,
    n: int,
) -> bool {
    exists|k: int|
        0 <= k < n && k < tabs.len() && tab_panes.contains_key((#[trigger] tabs[k]).position)
            && overlaps(tab_panes[tabs[k].position]@, keys)
}

/// The tracker after the first `n` tracked tabs were held against the tab
/// list: a tab that no listed tab shares a pane with is noted as removed,
/// once.
pub open spec fn swept(
    t: TrackerView,
    tabs: Seq<TabInfoView>,
    tab_panes: Map<usize, Vec<PaneKey>>,
    n: int,
) -> TrackerView
    decreases n,
{
    if n <= 0 || n > t.tabs.len() {
        t
    } else {
        let before = swept(t, tabs, tab_panes, n - 1);
        let tab = before.tabs[n - 1];
        if !tab.removed && !shown(tabs, tab_panes, tab.pane_keys, tabs.len() as int) {
            recorded(
                TrackerView {
                    tabs: before.tabs.update(n - 1, TrackedView { removed: true, ..tab }),
                    ..before
                },
                TabIndexEventType::TabRemoved,
                tab.pane_keys,
                tab.internal_index,
            )
        } else {
            before
        }
    }
}

/// The number under which the host renames the tab at `position`: one more
/// than the index of the first tracked tab that shares a pane with it.
pub open spec fn rename_target(
    t: TrackerView,
    tab_panes: Map<usize, Vec<PaneKey>>,
    position: usize,
) -> Option<u32> {
    match keys_of(tab_panes, position) {
        None => None,
        Some(keys) => match first_overlapping(t.tabs, keys, 0) {
            None => None,
            Some(i) => if t.tabs[i].internal_index < u32::MAX {
                Some((t.tabs[i].internal_index + 1) as u32)
            } else {
                None
            },
        },
    }
}

/// The indices grow along the table, below the next index; the log is not
/// over its capacity and stands in the order in which it was written.
pub open spec fn consistent(t: TrackerView) -> bool {
    &&& forall|i: int, j: int|
        0 <= i < j < t.tabs.len() ==> (#[trigger] t.tabs[i]).internal_index < (
        #[trigger] t.tabs[j]).internal_index
    &&& forall|i: int|
        0 <= i < t.tabs.len() ==> (#[trigger] t.tabs[i]).internal_index < t.next_internal_index
    &&& t.events.len() <= MAX_EVENT_HISTORY
    &&& log_in_order(t.events, t.event_seq)
}

/// The models of a list of events.
pub open spec fn event_views(events: Seq<TabIndexEvent>) -> Seq<EventView> {
    events.map_values(|e: TabIndexEvent| e@)
}

/// A copy of a list of pane keys.
pub fn copy_keys(keys: &Vec<PaneKey>) -> (copy: Vec<PaneKey>)
    ensures
        copy@ == keys@,
{
    let mut copy: Vec<PaneKey> = Vec::new();
    let mut i: usize = 0;
    while i < keys.len()
        invariant
            i <= keys.len(),
            copy@ == keys@.take(i as int),
        decreases keys.len() - i,
    {
        copy.push(keys[i]);
        i += 1;
    }
    copy
}

/// Whether the list holds the pane.
fn holds_key(keys: &Vec<PaneKey>, key: PaneKey) -> (b: bool)
    ensures
        b == keys@.contains(key),
{
    let mut i: usize = 0;
    while i < keys.len()
        invariant
            i <= keys.len(),
            forall|k: int| 0 <= k < i ==> keys@[k] != key,
        decreases keys.len() - i,
    {
        if keys[i] == key {
            return true;
        }
        i += 1;
    }
    false
}

/// Whether some pane of `a` is a pane of `b`.
fn keys_overlap(a: &Vec<PaneKey>, b: &Vec<PaneKey>) -> (r: bool)
    ensures
        r == overlaps(a@, b@),
{
    let mut i: usize = 0;
    while i < a.len()
        invariant
            i <= a.len(),
            forall|k: int| 0 <= k < i ==> !b@.contains(#[trigger] a@[k]),
        decreases a.len() - i,
    {
        if holds_key(b, a[i]) {
            return true;
        }
        i += 1;
    }
    false
}

/// Whether every pane of `a` is a pane of `b`.
fn keys_within(a: &Vec<PaneKey>, b: &Vec<PaneKey>) -> (r: bool)
    ensures
        r == within(a@, b@),
{
    let mut i: usize = 0;
    while i < a.len()
        invariant
            i <= a.len(),
            forall|k: int| 0 <= k < i ==> b@.contains(#[trigger] a@[k]),
        decreases a.len() - i,
    {
        if !holds_key(b, a[i]) {
            return false;
        }
        i += 1;
    }
    true
}

/// The table of tracked tabs and the log of what happened to them.
pub struct TabIndexTracker {
    tabs: Vec<TrackedTab>,
    next_internal_index: usize,
    event_history: VecDeque<TabIndexEvent>,
    event_seq: u64,
}

impl View for TabIndexTracker {
    type V = TrackerView;

    closed spec fn view(&self) -> TrackerView {
        TrackerView {
            tabs: self.tabs@.map_values(|t: TrackedTab| t@),
            next_internal_index: self.next_internal_index,
            events: event_views(self.event_history@),
            event_seq: self.event_seq,
        }
    }
}

impl TabIndexTracker {
    /// The table and the log are consistent.
    pub open spec fn wf(&self) -> bool {
        consistent(self@)
    }

    /// A tracker that has seen no tab.
    pub fn new() -> (tracker: Self)
        ensures
            tracker.wf(),
            tracker@ == (TrackerView {
                tabs: Seq::empty(),
                next_internal_index: 0,
                events: Seq::empty(),
                event_seq: 0,
            }),
    {
        let tracker = TabIndexTracker {
            tabs: Vec::new(),
            next_internal_index: 0,
            event_history: VecDeque::new(),
            event_seq: 0,
        };
        assert(tracker@.tabs =~= Seq::empty());
        assert(tracker@.events =~= Seq::empty());
        tracker
    }

    /// Takes in a tab list: notes the tracked tabs that are gone, then
    /// tracks the tabs of the list.
    pub fn update_for_tab_update(
        &mut self,
        tab_infos: &[TabInfo],
        tab_panes: &HashMap<usize, Vec<PaneKey>>,
    )
        requires
            old(self).wf(),
        ensures
            final(self).wf(),
            final(self)@ == seen_tabs(
                swept(
                    old(self)@,
                    tab_views(tab_infos@),
                    tab_panes@,
                    old(self)@.tabs.len() as int,
                ),
                tab_views(tab_infos@),
                tab_panes@,
                tab_infos@.len() as int,
            ),
    {
        let ghost start = self@;
        let mut i: usize = 0;
        while i < self.tabs.len()
            invariant
                i <= self.tabs.len(),
                self.tabs.len() == start.tabs.len(),
                self.wf(),
                self@ == swept(start, tab_views(tab_infos@), tab_panes@, i as int),
            decreases self.tabs.len() - i,
        {
            let ghost before = self@;
            if !self.tabs[i].removed && !is_shown(tab_infos, tab_panes, &self.tabs[i].pane_keys) {
                let pane_keys = copy_keys(&self.tabs[i].pane_keys);
                let internal_index = self.tabs[i].internal_index;
                let gone = TrackedTab {
                    pane_keys: copy_keys(&self.tabs[i].pane_keys),
                    internal_index,
                    removed: true,
                };
                self.tabs.set(i, gone);
                assert(self@.tabs =~= before.tabs.update(
                    i as int,
                    TrackedView { removed: true, ..before.tabs[i as int] },
                ));
                self.record_event(TabIndexEventType::TabRemoved, pane_keys, internal_index);
            }
            i += 1;
        }
        self.update_common(tab_infos, tab_panes);
    }

    /// Takes in a pane manifest: tracks the tabs of the list.
    pub fn update_for_pane_update(
        &mut self,
        tab_infos: &[TabInfo],
        tab_panes: &HashMap<usize, Vec<PaneKey>>,
    )
        requires
            old(self).wf(),
        ensures
            final(self).wf(),
            final(self)@ == seen_tabs(
                old(self)@,
                tab_views(tab_infos@),
                tab_panes@,
                tab_infos@.len() as int,
            ),
    {
        self.update_common(tab_infos, tab_panes);
    }

    /// Tracks the tabs of the list, each with the panes listed for its
    /// position.
    fn update_common(&mut self, tab_infos: &[TabInfo], tab_panes: &HashMap<usize, Vec<PaneKey>>)
        requires
            old(self).wf(),
        ensures
            final(self).wf(),
            final(self)@ == seen_tabs(
                old(self)@,
                tab_views(tab_infos@),
                tab_panes@,
                tab_infos@.len() as int,
            ),
    {
        let ghost start = self@;
        let mut i: usize = 0;
        while i < tab_infos.len()
            invariant
                i <= tab_infos@.len(),
                self.wf(),
                self@ == seen_tabs(start, tab_views(tab_infos@), tab_panes@, i as int),
            decreases tab_infos@.len() - i,
        {
            match tab_panes.get(&tab_infos[i].position) {
                Some(pane_keys) => {
                    self.track(pane_keys);
                },
                None => {},
            }
            i += 1;
        }
    }

    /// The first tracked tab that shares a pane with `pane_keys`.
    fn find_overlapping(&self, pane_keys: &Vec<PaneKey>) -> (r: Option<usize>)
        ensures
            match r {
                Some(i) => i < self@.tabs.len() && first_overlapping(self@.tabs, pane_keys@, 0)
                    == Some(i as int),
                None => first_overlapping(self@.tabs, pane_keys@, 0) is None,
            },
    {
        let mut i: usize = 0;
        while i < self.tabs.len()
            invariant
                i <= self.tabs.len(),
                first_overlapping(self@.tabs, pane_keys@, 0) == first_overlapping(
                    self@.tabs,
                    pane_keys@,
                    i as int,
                ),
            decreases self.tabs.len() - i,
        {
            if keys_overlap(&self.tabs[i].pane_keys, pane_keys) {
                return Some(i);
            }
            i += 1;
        }
        None
    }

    /// Tracks one tab that holds `pane_keys`.
    fn track(&mut self, pane_keys: &Vec<PaneKey>)
        requires
            old(self).wf(),
        ensures
            final(self).wf(),
            final(self)@ == seen_tab(old(self)@, pane_keys@),
    {
        if pane_keys.len() == 0 {
            return ;
        }
        let ghost before = self@;
        match self.find_overlapping(pane_keys) {
            Some(i) => {
                let known = &self.tabs[i].pane_keys;
                if !(keys_within(known, pane_keys) && keys_within(pane_keys, known)) {
                    let internal_index = self.tabs[i].internal_index;
                    let moved = TrackedTab {
                        pane_keys: copy_keys(pane_keys),
                        internal_index,
                        removed: false,
                    };
                    self.tabs.set(i, moved);
                    assert(self@.tabs =~= before.tabs.update(
                        i as int,
                        TrackedView { pane_keys: pane_keys@, internal_index, removed: false },
                    ));
                    self.record_event(
                        TabIndexEventType::TabKeyUpdated,
                        copy_keys(pane_keys),
                        internal_index,
                    );
                }
            },
            None => {
                if self.next_internal_index < usize::MAX {
                    let internal_index = self.next_internal_index;
                    self.next_internal_index = internal_index + 1;
                    self.tabs.push(
                        TrackedTab { pane_keys: copy_keys(pane_keys), internal_index, removed: false },
                    );
                    assert(self@.tabs =~= before.tabs.push(
                        TrackedView { pane_keys: pane_keys@, internal_index, removed: false },
                    ));
                    self.record_event(
                        TabIndexEventType::TabAdded,
                        copy_keys(pane_keys),
                        internal_index,
                    );
                }
            },
        }
    }

    /// Writes one event into the log.
    fn record_event(
        &mut self,
        event_type: TabIndexEventType,
        pane_keys: Vec<PaneKey>,
        internal_index: usize,
    )
        requires
            old(self)@.events.len() <= MAX_EVENT_HISTORY,
            log_in_order(old(self)@.events, old(self)@.event_seq),
        ensures
            final(self)@ == recorded(old(self)@, event_type, pane_keys@, internal_index),
            final(self)@.events.len() <= MAX_EVENT_HISTORY,
            log_in_order(final(self)@.events, final(self)@.event_seq),
    {
        proof {
            lemma_recorded_log(self@, event_type, pane_keys@, internal_index);
        }
        let event = TabIndexEvent { seq: self.event_seq, event_type, pane_keys, internal_index };
        if self.event_seq < u64::MAX {
            self.event_seq = self.event_seq + 1;
        }
        let ghost kept = self.event_history@;
        if self.event_history.len() >= MAX_EVENT_HISTORY {
            self.event_history.pop_front();
            assert(event_views(self.event_history@) =~= event_views(kept).drop_first());
        }
        let ghost rest = self.event_history@;
        self.event_history.push_back(event);
        assert(event_views(self.event_history@) =~= event_views(rest).push(event@));
    }

    /// The events of the log, oldest first: at most as many as the log
    /// keeps, with sequence numbers that follow on one another.
    pub fn get_event_history(&self) -> (events: Vec<TabIndexEvent>)
        requires
            self.wf(),
        ensures
            event_views(events@) == self@.events,
            events@.len() <= MAX_EVENT_HISTORY,
            log_in_order(event_views(events@), self@.event_seq),
    {
        let mut events: Vec<TabIndexEvent> = Vec::new();
        let mut i: usize = 0;
        while i < self.event_history.len()
            invariant
                i <= self.event_history@.len(),
                event_views(events@) == self@.events.take(i as int),
            decreases self.event_history@.len() - i,
        {
            let ghost done = events@;
            let event = self.event_history[i].clone();
            events.push(event);
            assert(event_views(events@) =~= event_views(done).push(event@));
            assert(self@.events.take(i + 1) =~= self@.events.take(i as int).push(
                self@.events[i as int],
            ));
            i += 1;
        }
        assert(self@.events.take(self.event_history@.len() as int) =~= self@.events);
        events
    }

    /// The number under which the host renames the tab at `tab_index`.
    pub fn get_rename_target(
        &self,
        tab_panes: &HashMap<usize, Vec<PaneKey>>,
        tab_index: usize,
    ) -> (r: Option<u32>)
        ensures
            r == rename_target(self@, tab_panes@, tab_index),
    {
        match tab_panes.get(&tab_index) {
            None => None,
            Some(pane_keys) => match self.find_overlapping(pane_keys) {
                None => None,
                Some(i) => {
                    let internal_index = self.tabs[i].internal_index;
                    if internal_index < 0xffff_ffff {
                        Some((internal_index + 1) as u32)
                    } else {
                        None
                    }
                },
            },
        }
    }

    /// The table of tracked tabs, in the order of their indices.
    pub fn get_debug_entries(&self) -> (entries: Vec<InternalIndexEntry>)
        ensures
            entries@.len() == self@.tabs.len(),
            forall|i: int|
                0 <= i < entries@.len() ==> (#[trigger] entries@[i]).pane_keys@
                    == self@.tabs[i].pane_keys && entries@[i].internal_index
                    == self@.tabs[i].internal_index,
    {
        let mut entries: Vec<InternalIndexEntry> = Vec::new();
        let mut i: usize = 0;
        while i < self.tabs.len()
            invariant
                i <= self.tabs.len(),
                entries@.len() == i,
                forall|k: int|
                    0 <= k < i ==> (#[trigger] entries@[k]).pane_keys@ == self@.tabs[k].pane_keys
                        && entries@[k].internal_index == self@.tabs[k].internal_index,
            decreases self.tabs.len() - i,
        {
            entries.push(
                InternalIndexEntry {
                    pane_keys: copy_keys(&self.tabs[i].pane_keys),
                    internal_index: self.tabs[i].internal_index,
                },
            );
            i += 1;
        }
        entries
    }
}

impl Default for TabIndexTracker {
    fn default() -> (tracker: Self)
        ensures
            tracker.wf(),
            tracker@ == (TrackerView {
                tabs: Seq::empty(),
                next_internal_index: 0,
                events: Seq::empty(),
                event_seq: 0,
            }),
    {
        TabIndexTracker::new()
    }
}

/// Whether some tab of the list holds a pane of `keys`.
fn is_shown(tab_infos: &[TabInfo], tab_panes: &HashMap<usize, Vec<PaneKey>>, keys: &Vec<PaneKey>) -> (r:
    bool)
    ensures
        r == shown(tab_views(tab_infos@), tab_panes@, keys@, tab_infos@.len() as int),
{
    let mut i: usize = 0;
    while i < tab_infos.len()
        invariant
            i <= tab_infos@.len(),
            !shown(tab_views(tab_infos@), tab_panes@, keys@, i as int),
        decreases tab_infos@.len() - i,
    {
        match tab_panes.get(&tab_infos[i].position) {
            Some(current) => {
                if keys_overlap(current, keys) {
                    assert(tab_views(tab_infos@)[i as int].position == tab_infos@[i as int].position);
                    return true;
                }
            },
            None => {},
        }
        i += 1;
    }
    false
}

/// What `first_overlapping` returns shares a pane with `keys`, and nothing
/// before it does.
pub proof fn lemma_first_overlapping(tabs: Seq<TrackedView>, keys: Seq<PaneKey>, from: int)
    requires
        0 <= from,
    ensures
        match first_overlapping(tabs, keys, from) {
            Some(i) => from <= i < tabs.len() && overlaps(tabs[i].pane_keys, keys) && forall|
                k: int,
            |
                from <= k < i ==> !overlaps((#[trigger] tabs[k]).pane_keys, keys),
            None => forall|k: int|
                from <= k < tabs.len() ==> !overlaps((#[trigger] tabs[k]).pane_keys, keys),
        },
    decreases tabs.len() - from,
{
    if from < tabs.len() && !overlaps(tabs[from].pane_keys, keys) {
        lemma_first_overlapping(tabs, keys, from + 1);
    }
}

/// A tracked tab that shares a pane with `keys`, with none before it that
/// does, is what `first_overlapping` returns.
pub proof fn lemma_first_overlapping_is(
    tabs: Seq<TrackedView>,
    keys: Seq<PaneKey>,
    from: int,
    at: int,
)
    requires
        0 <= from <= at < tabs.len(),
        overlaps(tabs[at].pane_keys, keys),
        forall|k: int| from <= k < at ==> !overlaps((#[trigger] tabs[k]).pane_keys, keys),
    ensures
        first_overlapping(tabs, keys, from) == Some(at),
    decreases at - from,
{
    if from < at {
        lemma_first_overlapping_is(tabs, keys, from + 1, at);
    }
}

/// A tab keeps its number while it keeps a pane: after the tracker has seen
/// a tab whose panes `keys` share a pane with a tracked set, the tab is
/// renamed under the number it had before, whatever its position is now.
pub proof fn law_number_is_kept(
    t: TrackerView,
    keys: Seq<PaneKey>,
    tab_panes: Map<usize, Vec<PaneKey>>,
    position: usize,
)
    requires
        first_overlapping(t.tabs, keys, 0) is Some,
        keys_of(tab_panes, position) == Some(keys),
    ensures
        rename_target(seen_tab(t, keys), tab_panes, position) == rename_target(
            t,
            tab_panes,
            position,
        ),
        rename_target(t, tab_panes, position) == if t.tabs[first_overlapping(
            t.tabs,
            keys,
            0,
        )->0].internal_index < u32::MAX {
            Some((t.tabs[first_overlapping(t.tabs, keys, 0)->0].internal_index + 1) as u32)
        } else {
            None
        },
{
    let i = first_overlapping(t.tabs, keys, 0)->0;
    lemma_first_overlapping(t.tabs, keys, 0);
    let w = choose|w: int| 0 <= w < t.tabs[i].pane_keys.len() && keys.contains(
        #[trigger] t.tabs[i].pane_keys[w],
    );
    let x = t.tabs[i].pane_keys[w];
    let j = choose|j: int| 0 <= j < keys.len() && keys[j] == x;
    assert(keys.len() > 0);
    let after = seen_tab(t, keys).tabs;
    if !same_set(t.tabs[i].pane_keys, keys) {
        assert(after == t.tabs.update(
            i,
            TrackedView {
                pane_keys: keys,
                internal_index: t.tabs[i].internal_index,
                removed: false,
            },
        ));
        assert(keys.contains(keys[j]));
        assert(overlaps(after[i].pane_keys, keys));
        assert forall|k: int| 0 <= k < i implies !overlaps(
            (#[trigger] after[k]).pane_keys,
            keys,
        ) by {
            assert(after[k] == t.tabs[k]);
        }
        lemma_first_overlapping_is(after, keys, 0, i);
    }
}

/// A tab is renamed under the number of the one tracked set that it shares
/// a pane with, plus one, wherever the tab stands and whichever of the
/// set's panes it still holds.
pub proof fn law_number_follows_the_panes(
    t: TrackerView,
    row: int,
    tab_panes: Map<usize, Vec<PaneKey>>,
    position: usize,
)
    requires
        0 <= row < t.tabs.len(),
        tab_panes.contains_key(position),
        overlaps(t.tabs[row].pane_keys, tab_panes[position]@),
        forall|k: int|
            0 <= k < t.tabs.len() && k != row ==> !overlaps(
                (#[trigger] t.tabs[k]).pane_keys,
                tab_panes[position]@,
            ),
    ensures
        rename_target(t, tab_panes, position) == if t.tabs[row].internal_index < u32::MAX {
            Some((t.tabs[row].internal_index + 1) as u32)
        } else {
            None
        },
{
    lemma_first_overlapping_is(t.tabs, tab_panes[position]@, 0, row);
}

/// The first `n` rows of two tables hold the same numbers.
pub open spec fn same_numbers(before: Seq<TrackedView>, after: Seq<TrackedView>) -> bool {
    &&& before.len() <= after.len()
    &&& forall|i: int|
        0 <= i < before.len() ==> (#[trigger] after[i]).internal_index
            == before[i].internal_index
}

/// Seeing a tab takes no number back and changes none.
pub proof fn lemma_seen_tab_numbers(t: TrackerView, keys: Seq<PaneKey>)
    ensures
        same_numbers(t.tabs, seen_tab(t, keys).tabs),
        t.next_internal_index <= seen_tab(t, keys).next_internal_index,
{
    lemma_first_overlapping(t.tabs, keys, 0);
}

/// Seeing the tabs of a list takes no number back and changes none.
pub proof fn lemma_seen_tabs_numbers(
    t: TrackerView,
    tabs: Seq<TabInfoView>,
    tab_panes: Map<usize, Vec<PaneKey>>,
    n: int,
)
    ensures
        same_numbers(t.tabs, seen_tabs(t, tabs, tab_panes, n).tabs),
        t.next_internal_index <= seen_tabs(t, tabs, tab_panes, n).next_internal_index,
    decreases n,
{
    if 0 < n <= tabs.len() {
        lemma_seen_tabs_numbers(t, tabs, tab_panes, n - 1);
        let before = seen_tabs(t, tabs, tab_panes, n - 1);
        match keys_of(tab_panes, tabs[n - 1].position) {
            Some(keys) => {
                lemma_seen_tab_numbers(before, keys);
                let after = seen_tab(before, keys);
                assert forall|i: int| 0 <= i < t.tabs.len() implies (
                #[trigger] after.tabs[i]).internal_index == t.tabs[i].internal_index by {
                    assert(before.tabs[i].internal_index == t.tabs[i].internal_index);
                }
            },
            None => {},
        }
    }
}

/// Noting the vanished tabs changes no number.
pub proof fn lemma_swept_numbers(
    t: TrackerView,
    tabs: Seq<TabInfoView>,
    tab_panes: Map<usize, Vec<PaneKey>>,
    n: int,
)
    ensures
        swept(t, tabs, tab_panes, n).tabs.len() == t.tabs.len(),
        same_numbers(t.tabs, swept(t, tabs, tab_panes, n).tabs),
        t.next_internal_index == swept(t, tabs, tab_panes, n).next_internal_index,
    decreases n,
{
    if 0 < n <= t.tabs.len() {
        lemma_swept_numbers(t, tabs, tab_panes, n - 1);
        let before = swept(t, tabs, tab_panes, n - 1);
        let after = swept(t, tabs, tab_panes, n);
        assert forall|i: int| 0 <= i < t.tabs.len() implies (#[trigger] after.tabs[i]).internal_index
            == t.tabs[i].internal_index by {
            assert(before.tabs[i].internal_index == t.tabs[i].internal_index);
        }
    }
}

/// A number, once given, stays with its row of the table through every
/// update, and the next number to give never falls.
pub proof fn law_numbers_are_never_taken_back(
    t: TrackerView,
    tabs: Seq<TabInfoView>,
    tab_panes: Map<usize, Vec<PaneKey>>,
)
    ensures
        same_numbers(t.tabs, seen_tabs(t, tabs, tab_panes, tabs.len() as int).tabs),
        t.next_internal_index <= seen_tabs(
            t,
            tabs,
            tab_panes,
            tabs.len() as int,
        ).next_internal_index,
        same_numbers(
            t.tabs,
            seen_tabs(
                swept(t, tabs, tab_panes, t.tabs.len() as int),
                tabs,
                tab_panes,
                tabs.len() as int,
            ).tabs,
        ),
        t.next_internal_index <= seen_tabs(
            swept(t, tabs, tab_panes, t.tabs.len() as int),
            tabs,
            tab_panes,
            tabs.len() as int,
        ).next_internal_index,
{
    lemma_seen_tabs_numbers(t, tabs, tab_panes, tabs.len() as int);
    let s = swept(t, tabs, tab_panes, t.tabs.len() as int);
    lemma_swept_numbers(t, tabs, tab_panes, t.tabs.len() as int);
    lemma_seen_tabs_numbers(s, tabs, tab_panes, tabs.len() as int);
    let after = seen_tabs(s, tabs, tab_panes, tabs.len() as int);
    assert forall|i: int| 0 <= i < t.tabs.len() implies (#[trigger] after.tabs[i]).internal_index
        == t.tabs[i].internal_index by {
        assert(s.tabs[i].internal_index == t.tabs[i].internal_index);
    }
}

} // verus!
