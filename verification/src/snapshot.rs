//! The two topology snapshots that the host supplies: the panes of every tab
//! and the list of tabs.

use crate::state::PaneRef;
use vstd::prelude::*;

verus! {

/// One pane as the host reports it.
#[derive(Debug)]
pub struct PaneInfo {
    pub id: u32,
    pub is_plugin: bool,
    pub is_focused: bool,
    pub title: String,
}

/// The model of a `PaneInfo`.
pub struct PaneInfoView {
    pub id: u32,
    pub is_plugin: bool,
    pub is_focused: bool,
    pub title: Seq<char>,
}

impl View for PaneInfo {
    type V = PaneInfoView;

    open spec fn view(&self) -> PaneInfoView {
        PaneInfoView {
            id: self.id,
            is_plugin: self.is_plugin,
            is_focused: self.is_focused,
            title: self.title@,
        }
    }
}

impl Clone for PaneInfo {
    fn clone(&self) -> (copy: Self)
        ensures
            copy@ == self@,
    {
        PaneInfo {
            id: self.id,
            is_plugin: self.is_plugin,
            is_focused: self.is_focused,
            title: self.title.clone(),
        }
    }
}

impl PaneInfoView {
    /// The identity of the pane.
    pub open spec fn pane_ref(self) -> PaneRef {
        if self.is_plugin {
            PaneRef::Plugin(self.id)
        } else {
            PaneRef::Terminal(self.id)
        }
    }
}

impl PaneInfo {
    /// The identity of the pane.
    pub fn pane_ref(&self) -> (r: PaneRef)
        ensures
            r == self@.pane_ref(),
    {
        if self.is_plugin {
            PaneRef::Plugin(self.id)
        } else {
            PaneRef::Terminal(self.id)
        }
    }
}

/// The models of a list of panes.
pub open spec fn pane_views(panes: Seq<PaneInfo>) -> Seq<PaneInfoView> {
    panes.map_values(|p: PaneInfo| p@)
}

/// A question asked of a pane.
#[derive(Clone, Copy)]
pub enum PaneQuery {
    /// Is it focused?
    Focused,
    /// Is it a focused terminal pane?
    FocusedTerminal,
    /// Is it a terminal pane?
    Terminal,
    /// Is it the terminal pane with this id?
    TerminalWithId(u32),
    /// Is it this pane?
    Is(PaneRef),
}

impl PaneQuery {
    /// Whether the pane answers the question with yes.
    pub open spec fn admits(self, pane: PaneInfoView) -> bool {
        match self {
            PaneQuery::Focused => pane.is_focused,
            PaneQuery::FocusedTerminal => pane.is_focused && !pane.is_plugin,
            PaneQuery::Terminal => !pane.is_plugin,
            PaneQuery::TerminalWithId(id) => !pane.is_plugin && pane.id == id,
            PaneQuery::Is(r) => pane.pane_ref() == r,
        }
    }

    /// Asks the question of a pane.
    pub fn test(&self, pane: &PaneInfo) -> (b: bool)
        ensures
            b == self.admits(pane@),
    {
        match self {
            PaneQuery::Focused => pane.is_focused,
            PaneQuery::FocusedTerminal => pane.is_focused && !pane.is_plugin,
            PaneQuery::Terminal => !pane.is_plugin,
            PaneQuery::TerminalWithId(id) => !pane.is_plugin && pane.id == *id,
            PaneQuery::Is(r) => match r {
                PaneRef::Terminal(id) => !pane.is_plugin && pane.id == *id,
                PaneRef::Plugin(id) => pane.is_plugin && pane.id == *id,
            },
        }
    }
}

/// The index of the first pane at or after `from` that the query admits.
pub open spec fn first_pane(panes: Seq<PaneInfoView>, q: PaneQuery, from: int) -> Option<int>
    decreases panes.len() - from,
{
    if from < 0 || from >= panes.len() {
        None
    } else if q.admits(panes[from]) {
        Some(from)
    } else {
        first_pane(panes, q, from + 1)
    }
}

/// Some pane of the list is admitted by the query.
pub open spec fn holds_pane(panes: Seq<PaneInfoView>, q: PaneQuery) -> bool {
    first_pane(panes, q, 0) is Some
}

/// What `first_pane` returns is admitted, and nothing before it is.
pub proof fn lemma_first_pane(panes: Seq<PaneInfoView>, q: PaneQuery, from: int)
    requires
        0 <= from,
    ensures
        match first_pane(panes, q, from) {
            Some(i) => from <= i < panes.len() && q.admits(panes[i]) && forall|k: int|
                from <= k < i ==> !q.admits(#[trigger] panes[k]),
            None => forall|k: int| from <= k < panes.len() ==> !q.admits(#[trigger] panes[k]),
        },
    decreases panes.len() - from,
{
    if from < panes.len() && !q.admits(panes[from]) {
        lemma_first_pane(panes, q, from + 1);
    }
}

/// The first pane of the list that the query admits.
pub fn find_pane(panes: &Vec<PaneInfo>, q: &PaneQuery) -> (r: Option<usize>)
    ensures
        match r {
            Some(i) => i < panes.len() && first_pane(pane_views(panes@), *q, 0) == Some(i as int),
            None => first_pane(pane_views(panes@), *q, 0) is None,
        },
{
    let mut i: usize = 0;
    while i < panes.len()
        invariant
            i <= panes.len(),
            first_pane(pane_views(panes@), *q, 0) == first_pane(pane_views(panes@), *q, i as int),
        decreases panes.len() - i,
    {
        if q.test(&panes[i]) {
            return Some(i);
        }
        i += 1;
    }
    None
}

/// One tab as the host reports it.
#[derive(Debug)]
pub struct TabInfo {
    pub position: usize,
    pub name: String,
    pub active: bool,
}

/// The model of a `TabInfo`.
pub struct TabInfoView {
    pub position: usize,
    pub name: Seq<char>,
    pub active: bool,
}

impl View for TabInfo {
    type V = TabInfoView;

    open spec fn view(&self) -> TabInfoView {
        TabInfoView { position: self.position, name: self.name@, active: self.active }
    }
}

impl Clone for TabInfo {
    fn clone(&self) -> (copy: Self)
        ensures
            copy@ == self@,
    {
        TabInfo { position: self.position, name: self.name.clone(), active: self.active }
    }
}

/// The models of a list of tabs.
pub open spec fn tab_views(tabs: Seq<TabInfo>) -> Seq<TabInfoView> {
    tabs.map_values(|t: TabInfo| t@)
}

/// The index of the first tab at or after `from` that stands at `position`.
pub open spec fn first_tab_at(tabs: Seq<TabInfoView>, position: usize, from: int) -> Option<int>
    decreases tabs.len() - from,
{
    if from < 0 || from >= tabs.len() {
        None
    } else if tabs[from].position == position {
        Some(from)
    } else {
        first_tab_at(tabs, position, from + 1)
    }
}

/// The index of the first active tab at or after `from`.
pub open spec fn first_active(tabs: Seq<TabInfoView>, from: int) -> Option<int>
    decreases tabs.len() - from,
{
    if from < 0 || from >= tabs.len() {
        None
    } else if tabs[from].active {
        Some(from)
    } else {
        first_active(tabs, from + 1)
    }
}

/// Some tab of the list stands at `position`.
pub open spec fn has_tab(tabs: Seq<TabInfoView>, position: usize) -> bool {
    first_tab_at(tabs, position, 0) is Some
}

/// What `first_tab_at` returns stands at the position, and no tab before it
/// does.
pub proof fn lemma_first_tab_at(tabs: Seq<TabInfoView>, position: usize, from: int)
    requires
        0 <= from,
    ensures
        match first_tab_at(tabs, position, from) {
            Some(i) => from <= i < tabs.len() && tabs[i].position == position && forall|k: int|
                from <= k < i ==> (#[trigger] tabs[k]).position != position,
            None => forall|k: int|
                from <= k < tabs.len() ==> (#[trigger] tabs[k]).position != position,
        },
    decreases tabs.len() - from,
{
    if from < tabs.len() && tabs[from].position != position {
        lemma_first_tab_at(tabs, position, from + 1);
    }
}

/// The first tab of the list that stands at `position`.
pub fn find_tab_at(tabs: &Vec<TabInfo>, position: usize) -> (r: Option<usize>)
    ensures
        match r {
            Some(i) => i < tabs.len() && first_tab_at(tab_views(tabs@), position, 0) == Some(
                i as int,
            ),
            None => first_tab_at(tab_views(tabs@), position, 0) is None,
        },
{
    let mut i: usize = 0;
    while i < tabs.len()
        invariant
            i <= tabs.len(),
            first_tab_at(tab_views(tabs@), position, 0) == first_tab_at(
                tab_views(tabs@),
                position,
                i as int,
            ),
        decreases tabs.len() - i,
    {
        if tabs[i].position == position {
            return Some(i);
        }
        i += 1;
    }
    None
}

/// The first active tab of the list.
pub fn find_active(tabs: &Vec<TabInfo>) -> (r: Option<usize>)
    ensures
        match r {
            Some(i) => i < tabs.len() && first_active(tab_views(tabs@), 0) == Some(i as int),
            None => first_active(tab_views(tabs@), 0) is None,
        },
{
    let mut i: usize = 0;
    while i < tabs.len()
        invariant
            i <= tabs.len(),
            first_active(tab_views(tabs@), 0) == first_active(tab_views(tabs@), i as int),
        decreases tabs.len() - i,
    {
        if tabs[i].active {
            return Some(i);
        }
        i += 1;
    }
    None
}

/// The positions of the tabs, in the order of the list.
pub open spec fn positions(tabs: Seq<TabInfoView>) -> Seq<usize> {
    tabs.map_values(|t: TabInfoView| t.position)
}

/// The index at or after `from` before which `x` is put into an ascending
/// sequence: behind every element that is not greater.
pub open spec fn slot_after(s: Seq<usize>, x: usize, from: int) -> int
    decreases s.len() - from,
{
    if 0 <= from < s.len() && s[from] <= x {
        slot_after(s, x, from + 1)
    } else {
        from
    }
}

/// The elements of `s` in ascending order.
pub open spec fn ascending(s: Seq<usize>) -> Seq<usize>
    decreases s.len(),
{
    if s.len() == 0 {
        Seq::empty()
    } else {
        let before = ascending(s.drop_last());
        before.insert(slot_after(before, s.last(), 0), s.last())
    }
}

/// The index of the first element at or after `from` that equals `x`.
pub open spec fn first_equal(s: Seq<usize>, x: usize, from: int) -> Option<int>
    decreases s.len() - from,
{
    if from < 0 || from >= s.len() {
        None
    } else if s[from] == x {
        Some(from)
    } else {
        first_equal(s, x, from + 1)
    }
}

/// The slot lies within the sequence.
pub proof fn lemma_slot_after(s: Seq<usize>, x: usize, from: int)
    requires
        0 <= from <= s.len(),
    ensures
        from <= slot_after(s, x, from) <= s.len(),
    decreases s.len() - from,
{
    if from < s.len() && s[from] <= x {
        lemma_slot_after(s, x, from + 1);
    }
}

/// Sorting keeps the length.
pub proof fn lemma_ascending_len(s: Seq<usize>)
    ensures
        ascending(s).len() == s.len(),
    decreases s.len(),
{
    if s.len() > 0 {
        lemma_ascending_len(s.drop_last());
        lemma_slot_after(ascending(s.drop_last()), s.last(), 0);
    }
}

/// What lies before the slot is not greater than `x`, and what lies at it
/// is greater.
pub proof fn lemma_slot_after_parts(s: Seq<usize>, x: usize, from: int)
    requires
        0 <= from <= s.len(),
    ensures
        forall|k: int| from <= k < slot_after(s, x, from) ==> #[trigger] s[k] <= x,
        slot_after(s, x, from) < s.len() ==> s[slot_after(s, x, from)] > x,
    decreases s.len() - from,
{
    if from < s.len() && s[from] <= x {
        lemma_slot_after_parts(s, x, from + 1);
    }
}

/// `ascending` sorts: what it gives has the elements of the list, each as
/// often as the list has it, and no element is followed by a smaller one.
pub proof fn law_ascending_sorts(s: Seq<usize>)
    ensures
        ascending(s).len() == s.len(),
        ascending(s).to_multiset() == s.to_multiset(),
        forall|i: int, j: int|
            0 <= i < j < ascending(s).len() ==> ascending(s)[i] <= ascending(s)[j],
    decreases s.len(),
{
    broadcast use vstd::seq_lib::group_to_multiset_ensures;

    if s.len() > 0 {
        let before = ascending(s.drop_last());
        let x = s.last();
        let at = slot_after(before, x, 0);
        law_ascending_sorts(s.drop_last());
        lemma_slot_after(before, x, 0);
        lemma_slot_after_parts(before, x, 0);
        let after = before.insert(at, x);
        assert(s =~= s.drop_last().push(x));
        assert(after.to_multiset() == s.to_multiset());
        assert forall|i: int, j: int| 0 <= i < j < after.len() implies after[i] <= after[j] by {
            if at < before.len() {
                assert(before[at] > x);
            }
            if i < at && j > at {
                assert(before[i] <= x);
                assert(after[j] == before[j - 1]);
                if at < j - 1 {
                    assert(before[at] <= before[j - 1]);
                }
            } else if i < at && j == at {
                assert(before[i] <= x);
            } else if i < at && j < at {
                assert(before[i] <= before[j]);
            } else if i == at {
                assert(after[j] == before[j - 1]);
                if at < j - 1 {
                    assert(before[at] <= before[j - 1]);
                }
            } else {
                assert(after[i] == before[i - 1]);
                assert(after[j] == before[j - 1]);
                assert(before[i - 1] <= before[j - 1]);
            }
        }
    } else {
        assert(ascending(s) =~= s);
    }
}

/// The positions of the tabs in ascending order.
pub fn sorted_positions(tabs: &Vec<TabInfo>) -> (sorted: Vec<usize>)
    ensures
        sorted@ == ascending(positions(tab_views(tabs@))),
{
    let ghost all = positions(tab_views(tabs@));
    let mut sorted: Vec<usize> = Vec::new();
    let mut i: usize = 0;
    while i < tabs.len()
        invariant
            i <= tabs.len(),
            all == positions(tab_views(tabs@)),
            sorted@ == ascending(all.take(i as int)),
        decreases tabs.len() - i,
    {
        let x = tabs[i].position;
        assert(all.take(i + 1).drop_last() == all.take(i as int));
        assert(all.take(i + 1).last() == x);
        proof {
            lemma_ascending_len(all.take(i as int));
        }
        let mut j: usize = 0;
        while j < sorted.len() && sorted[j] <= x
            invariant
                j <= sorted.len(),
                slot_after(sorted@, x, 0) == slot_after(sorted@, x, j as int),
            decreases sorted.len() - j,
        {
            j += 1;
        }
        sorted.insert(j, x);
        i += 1;
    }
    assert(all.take(tabs.len() as int) == all);
    sorted
}

/// The first index of `s` that holds `x`.
pub fn index_of_position(s: &Vec<usize>, x: usize) -> (r: Option<usize>)
    ensures
        match r {
            Some(i) => i < s.len() && first_equal(s@, x, 0) == Some(i as int),
            None => first_equal(s@, x, 0) is None,
        },
{
    let mut i: usize = 0;
    while i < s.len()
        invariant
            i <= s.len(),
            first_equal(s@, x, 0) == first_equal(s@, x, i as int),
        decreases s.len() - i,
    {
        if s[i] == x {
            return Some(i);
        }
        i += 1;
    }
    None
}

/// The panes of one tab.
struct TabPanes {
    position: usize,
    panes: Vec<PaneInfo>,
}

/// The model of one tab's panes.
pub struct TabPanesView {
    pub position: usize,
    pub panes: Seq<PaneInfoView>,
}

/// Positions grow strictly along the sequence.
pub open spec fn strictly_ascending(m: Seq<TabPanesView>) -> bool {
    forall|i: int, j: int|
        0 <= i < j < m.len() ==> (#[trigger] m[i]).position < (#[trigger] m[j]).position
}

/// The index at or after `from` of the first tab whose position is not below
/// `position`.
pub open spec fn slot_of(m: Seq<TabPanesView>, position: usize, from: int) -> int
    decreases m.len() - from,
{
    if 0 <= from < m.len() && m[from].position < position {
        slot_of(m, position, from + 1)
    } else {
        from
    }
}

/// `m` with the panes of one tab set: in place of what the manifest held for
/// that position, or at the place that keeps the positions ascending.
pub open spec fn with_tab(m: Seq<TabPanesView>, tab: TabPanesView) -> Seq<TabPanesView> {
    let i = slot_of(m, tab.position, 0);
    if 0 <= i < m.len() && m[i].position == tab.position {
        m.update(i, tab)
    } else {
        m.insert(i, tab)
    }
}

/// The index of the tab that stands at `position`.
pub open spec fn index_of_tab(m: Seq<TabPanesView>, position: usize, from: int) -> Option<int>
    decreases m.len() - from,
{
    if from < 0 || from >= m.len() {
        None
    } else if m[from].position == position {
        Some(from)
    } else {
        index_of_tab(m, position, from + 1)
    }
}

/// The index of the first tab at or after `from` that holds a pane which the
/// query admits.
pub open spec fn first_tab_holding(m: Seq<TabPanesView>, q: PaneQuery, from: int) -> Option<int>
    decreases m.len() - from,
{
    if from < 0 || from >= m.len() {
        None
    } else if holds_pane(m[from].panes, q) {
        Some(from)
    } else {
        first_tab_holding(m, q, from + 1)
    }
}

/// The slot lies within the manifest, behind the lower positions and
/// before the others.
pub proof fn lemma_slot_of(m: Seq<TabPanesView>, position: usize, from: int)
    requires
        0 <= from <= m.len(),
    ensures
        from <= slot_of(m, position, from) <= m.len(),
        forall|k: int| from <= k < slot_of(m, position, from) ==> (#[trigger] m[k]).position < position,
        slot_of(m, position, from) < m.len() ==> m[slot_of(m, position, from)].position >= position,
    decreases m.len() - from,
{
    if from < m.len() && m[from].position < position {
        lemma_slot_of(m, position, from + 1);
    }
}

/// What `first_tab_holding` returns holds such a pane, and no tab before
/// it does.
pub proof fn lemma_first_tab_holding(m: Seq<TabPanesView>, q: PaneQuery, from: int)
    requires
        0 <= from,
    ensures
        match first_tab_holding(m, q, from) {
            Some(i) => from <= i < m.len() && holds_pane(m[i].panes, q) && forall|k: int|
                from <= k < i ==> !holds_pane((#[trigger] m[k]).panes, q),
            None => forall|k: int| from <= k < m.len() ==> !holds_pane((#[trigger] m[k]).panes, q),
        },
    decreases m.len() - from,
{
    if from < m.len() && !holds_pane(m[from].panes, q) {
        lemma_first_tab_holding(m, q, from + 1);
    }
}

/// What `index_of_tab` returns stands at the position, and nothing before
/// it does.
pub proof fn lemma_index_of_tab(m: Seq<TabPanesView>, position: usize, from: int)
    requires
        0 <= from,
    ensures
        match index_of_tab(m, position, from) {
            Some(i) => from <= i < m.len() && m[i].position == position && forall|k: int|
                from <= k < i ==> (#[trigger] m[k]).position != position,
            None => forall|k: int| from <= k < m.len() ==> (#[trigger] m[k]).position != position,
        },
    decreases m.len() - from,
{
    if from < m.len() && m[from].position != position {
        lemma_index_of_tab(m, position, from + 1);
    }
}

/// The panes that a manifest lists for a position.
pub open spec fn panes_at_position(m: Seq<TabPanesView>, position: usize) -> Option<
    Seq<PaneInfoView>,
> {
    match index_of_tab(m, position, 0) {
        Some(i) => Some(m[i].panes),
        None => None,
    }
}

/// In a manifest whose positions ascend, the tab at an index is the tab of
/// its position.
pub proof fn lemma_tab_at_index(m: Seq<TabPanesView>, i: int)
    requires
        strictly_ascending(m),
        0 <= i < m.len(),
    ensures
        index_of_tab(m, m[i].position, 0) == Some(i),
{
    lemma_index_of_tab(m, m[i].position, 0);
    let j = index_of_tab(m, m[i].position, 0)->0;
    if j < i {
        assert(m[j].position < m[i].position);
    }
}

/// A manifest reads as a map from positions to panes: setting the panes of
/// one position changes what the manifest lists for that position and for
/// no other, and keeps the positions ascending.
pub proof fn law_with_tab(m: Seq<TabPanesView>, tab: TabPanesView, position: usize)
    requires
        strictly_ascending(m),
    ensures
        strictly_ascending(with_tab(m, tab)),
        panes_at_position(with_tab(m, tab), position) == if position == tab.position {
            Some(tab.panes)
        } else {
            panes_at_position(m, position)
        },
{
    let i = slot_of(m, tab.position, 0);
    let n = with_tab(m, tab);
    lemma_slot_of(m, tab.position, 0);
    let replaced = i < m.len() && m[i].position == tab.position;
    assert forall|a: int, b: int| 0 <= a < b < n.len() implies (#[trigger] n[a]).position < (
    #[trigger] n[b]).position by {
        if replaced {
            assert(n[a].position == m[a].position);
            assert(n[b].position == m[b].position);
        } else {
            let a0 = if a < i {
                a
            } else {
                a - 1
            };
            let b0 = if b < i {
                b
            } else {
                b - 1
            };
            if a != i {
                assert(n[a] == m[a0]);
            }
            if b != i {
                assert(n[b] == m[b0]);
            }
            if a != i && b != i {
                assert(m[a0].position < m[b0].position);
            } else if a == i {
                assert(m[i].position >= tab.position);
                if b0 > i {
                    assert(m[i].position < m[b0].position);
                }
            } else {
                assert(m[a0].position < tab.position);
            }
        }
    }
    assert(n[i] == tab);
    lemma_tab_at_index(n, i);
    if position != tab.position {
        lemma_index_of_tab(m, position, 0);
        lemma_index_of_tab(n, position, 0);
        match index_of_tab(m, position, 0) {
            Some(j) => {
                let j1 = if replaced || j < i {
                    j
                } else {
                    j + 1
                };
                assert(n[j1] == m[j]);
                lemma_tab_at_index(n, j1);
            },
            None => {
                if index_of_tab(n, position, 0) is Some {
                    let k = index_of_tab(n, position, 0)->0;
                    let k0 = if replaced || k < i {
                        k
                    } else {
                        k - 1
                    };
                    assert(n[k] == m[k0]);
                }
            },
        }
    }
}

/// The panes of every tab, by tab position, in ascending order of position.
pub struct PaneManifest {
    tabs: Vec<TabPanes>,
}

impl View for PaneManifest {
    type V = Seq<TabPanesView>;

    closed spec fn view(&self) -> Seq<TabPanesView> {
        self.tabs@.map_values(
            |t: TabPanes| TabPanesView { position: t.position, panes: pane_views(t.panes@) },
        )
    }
}

impl PaneManifest {
    /// No position occurs twice, and the tabs stand in ascending order.
    pub open spec fn wf(&self) -> bool {
        strictly_ascending(self@)
    }

    /// A manifest without tabs.
    pub fn new() -> (m: Self)
        ensures
            m@ == Seq::<TabPanesView>::empty(),
            m.wf(),
    {
        let m = PaneManifest { tabs: Vec::new() };
        assert(m@ =~= Seq::<TabPanesView>::empty());
        m
    }

    /// Sets the panes of the tab at `position`.
    pub fn insert(&mut self, position: usize, panes: Vec<PaneInfo>)
        requires
            old(self).wf(),
        ensures
            final(self)@ == with_tab(
                old(self)@,
                TabPanesView { position, panes: pane_views(panes@) },
            ),
            final(self).wf(),
    {
        let ghost tab = TabPanesView { position, panes: pane_views(panes@) };
        let mut i: usize = 0;
        while i < self.tabs.len() && self.tabs[i].position < position
            invariant
                i <= self.tabs.len(),
                self.tabs == old(self).tabs,
                slot_of(self@, position, 0) == slot_of(self@, position, i as int),
            decreases self.tabs.len() - i,
        {
            i += 1;
        }
        proof {
            lemma_slot_of(self@, position, 0);
        }
        if i < self.tabs.len() && self.tabs[i].position == position {
            self.tabs.set(i, TabPanes { position, panes });
            assert(self@ =~= old(self)@.update(i as int, tab));
        } else {
            self.tabs.insert(i, TabPanes { position, panes });
            assert(self@ =~= old(self)@.insert(i as int, tab));
        }
        proof {
            law_with_tab(old(self)@, tab, position);
        }
    }

    /// The number of tabs.
    pub fn len(&self) -> (n: usize)
        ensures
            n == self@.len(),
    {
        self.tabs.len()
    }

    /// The position of the tab at index `i`.
    pub fn position_at(&self, i: usize) -> (p: usize)
        requires
            i < self@.len(),
        ensures
            p == self@[i as int].position,
    {
        self.tabs[i].position
    }

    /// The panes of the tab at index `i`.
    pub fn panes_at(&self, i: usize) -> (panes: &Vec<PaneInfo>)
        requires
            i < self@.len(),
        ensures
            pane_views(panes@) == self@[i as int].panes,
    {
        &self.tabs[i].panes
    }

    /// The index of the tab that stands at `position`.
    pub fn index_of(&self, position: usize) -> (r: Option<usize>)
        ensures
            match r {
                Some(i) => i < self@.len() && index_of_tab(self@, position, 0) == Some(i as int),
                None => index_of_tab(self@, position, 0) is None,
            },
    {
        let mut i: usize = 0;
        while i < self.tabs.len()
            invariant
                i <= self.tabs.len(),
                index_of_tab(self@, position, 0) == index_of_tab(self@, position, i as int),
            decreases self.tabs.len() - i,
        {
            if self.tabs[i].position == position {
                return Some(i);
            }
            i += 1;
        }
        None
    }

    /// The panes of the tab that stands at `position`.
    pub fn get(&self, position: usize) -> (r: Option<&Vec<PaneInfo>>)
        ensures
            match r {
                Some(panes) => index_of_tab(self@, position, 0) is Some && pane_views(panes@)
                    == self@[index_of_tab(self@, position, 0)->0].panes,
                None => index_of_tab(self@, position, 0) is None,
            },
    {
        match self.index_of(position) {
            Some(i) => Some(&self.tabs[i].panes),
            None => None,
        }
    }

    /// The first tab at or after index `from` that holds a pane which the
    /// query admits.
    pub fn find_tab_holding(&self, q: &PaneQuery, from: usize) -> (r: Option<usize>)
        ensures
            match r {
                Some(i) => i < self@.len() && first_tab_holding(self@, *q, from as int) == Some(
                    i as int,
                ),
                None => first_tab_holding(self@, *q, from as int) is None,
            },
    {
        let mut i: usize = from;
        while i < self.tabs.len()
            invariant
                from <= i,
                first_tab_holding(self@, *q, from as int) == first_tab_holding(
                    self@,
                    *q,
                    i as int,
                ),
            decreases self.tabs.len() - i,
        {
            if find_pane(&self.tabs[i].panes, q).is_some() {
                return Some(i);
            }
            i += 1;
        }
        None
    }
}

impl Clone for PaneManifest {
    fn clone(&self) -> (copy: Self)
        ensures
            copy@ == self@,
    {
        let mut tabs: Vec<TabPanes> = Vec::new();
        let mut i: usize = 0;
        while i < self.tabs.len()
            invariant
                i <= self.tabs.len(),
                tabs@.len() == i,
                forall|k: int|
                    0 <= k < i ==> (#[trigger] tabs@[k]).position == self.tabs@[k].position
                        && pane_views(tabs@[k].panes@) == pane_views(self.tabs@[k].panes@),
            decreases self.tabs.len() - i,
        {
            let source = &self.tabs[i].panes;
            let mut panes: Vec<PaneInfo> = Vec::new();
            let mut j: usize = 0;
            while j < source.len()
                invariant
                    j <= source.len(),
                    pane_views(panes@) == pane_views(source@).take(j as int),
                decreases source.len() - j,
            {
                let ghost before = panes@;
                let pane = source[j].clone();
                panes.push(pane);
                assert(pane_views(panes@) =~= pane_views(before).push(pane@));
                assert(pane_views(source@).take(j + 1) =~= pane_views(source@).take(
                    j as int,
                ).push(source@[j as int]@));
                j += 1;
            }
            assert(pane_views(source@).take(source.len() as int) == pane_views(source@));
            tabs.push(TabPanes { position: self.tabs[i].position, panes });
            i += 1;
        }
        let copy = PaneManifest { tabs };
        assert(copy@ =~= self@);
        copy
    }
}

} // verus!
