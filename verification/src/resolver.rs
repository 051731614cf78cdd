//! Relating the two topology channels.
//!
//! The pane manifest and the tab list both number the tabs by position, but
//! they arrive separately and need not agree. A position of one channel is
//! taken over where the other channel knows it too, and is else paired by
//! rank: the n-th position of one list, in ascending order, with the n-th of
//! the other. A pane found in several tabs is resolved by a fixed order of
//! preference.

use crate::snapshot::{
    ascending, find_active, find_pane, find_tab_at, first_active, first_equal, first_pane,
    first_tab_at, first_tab_holding, has_tab, holds_pane, index_of_position, index_of_tab,
    positions, sorted_positions, tab_views, PaneManifest, PaneQuery, TabInfo, TabInfoView,
    TabPanesView,
};
use crate::state::PaneRef;
use vstd::prelude::*;

verus! {

/// The model of a manifest that may be missing.
pub open spec fn manifest_view(manifest: Option<PaneManifest>) -> Option<Seq<TabPanesView>> {
    match manifest {
        Some(m) => Some(m@),
        None => None,
    }
}

/// The element at index `i`, where there is one.
pub open spec fn nth(s: Seq<usize>, i: int) -> Option<usize> {
    if 0 <= i < s.len() {
        Some(s[i])
    } else {
        None
    }
}

/// The tab position that a position of the pane manifest stands for: itself
/// where the tab list has it; else the position of the same rank in the tab
/// list; itself again while no tab list has arrived.
pub open spec fn tab_for_manifest_position(
    manifest: Option<Seq<TabPanesView>>,
    tabs: Seq<TabInfoView>,
    position: usize,
) -> Option<usize> {
    if has_tab(tabs, position) {
        Some(position)
    } else {
        match manifest {
            None => None,
            Some(m) => match index_of_tab(m, position, 0) {
                None => None,
                Some(rank) => if tabs.len() == 0 {
                    Some(position)
                } else {
                    nth(ascending(positions(tabs)), rank)
                },
            },
        }
    }
}

/// The manifest position that a tab position stands for: itself where the
/// manifest has it, else the manifest position of the same rank.
pub open spec fn manifest_position_for_tab(
    manifest: Option<Seq<TabPanesView>>,
    tabs: Seq<TabInfoView>,
    position: usize,
) -> Option<usize> {
    match manifest {
        None => None,
        Some(m) => if index_of_tab(m, position, 0) is Some {
            Some(position)
        } else {
            match first_equal(ascending(positions(tabs)), position, 0) {
                None => None,
                Some(rank) => if rank < m.len() {
                    Some(m[rank].position)
                } else {
                    None
                },
            }
        },
    }
}

/// The position of the first tab that the tab list reports active.
pub open spec fn focused_tab(tabs: Seq<TabInfoView>) -> Option<usize> {
    match first_active(tabs, 0) {
        Some(i) => Some(tabs[i].position),
        None => None,
    }
}

/// The tab position of the first manifest tab that holds a pane which the
/// query admits.
pub open spec fn tab_of_first_holding(
    m: Seq<TabPanesView>,
    tabs: Seq<TabInfoView>,
    q: PaneQuery,
) -> Option<usize> {
    match first_tab_holding(m, q, 0) {
        Some(i) => tab_for_manifest_position(Some(m), tabs, m[i].position),
        None => None,
    }
}

/// The focused tab as the pane manifest shows it: the first tab with a
/// focused terminal pane, else the first tab with any focused pane.
pub open spec fn focused_tab_from_manifest(
    manifest: Option<Seq<TabPanesView>>,
    tabs: Seq<TabInfoView>,
) -> Option<usize> {
    match manifest {
        None => None,
        Some(m) => {
            let by_terminal = tab_of_first_holding(m, tabs, PaneQuery::FocusedTerminal);
            if by_terminal is Some {
                by_terminal
            } else {
                tab_of_first_holding(m, tabs, PaneQuery::Focused)
            }
        },
    }
}

/// The tab positions of the first `n` manifest tabs that hold the terminal
/// pane `pane_id`, in the order of the manifest.
pub open spec fn candidates(
    m: Seq<TabPanesView>,
    tabs: Seq<TabInfoView>,
    pane_id: u32,
    n: int,
) -> Seq<usize>
    decreases n,
{
    if n <= 0 || n > m.len() {
        Seq::empty()
    } else {
        let before = candidates(m, tabs, pane_id, n - 1);
        if holds_pane(m[n - 1].panes, PaneQuery::TerminalWithId(pane_id)) {
            match tab_for_manifest_position(Some(m), tabs, m[n - 1].position) {
                Some(t) => before.push(t),
                None => before,
            }
        } else {
            before
        }
    }
}

/// The tab that holds the terminal pane `pane_id`. Where the two channels
/// disagree the pane manifest is believed: among several candidates the
/// order of preference is the focused tab as the manifest shows it, then
/// the tab that the tab list reports active, then the candidate of the
/// lowest manifest position.
pub open spec fn resolve_tab(
    manifest: Option<Seq<TabPanesView>>,
    tabs: Seq<TabInfoView>,
    pane_id: u32,
) -> Option<usize> {
    match manifest {
        None => None,
        Some(m) => {
            let found = candidates(m, tabs, pane_id, m.len() as int);
            let active = focused_tab(tabs);
            let focused = focused_tab_from_manifest(manifest, tabs);
            if found.len() == 0 {
                None
            } else if found.len() == 1 {
                Some(found[0])
            } else if focused is Some && found.contains(focused->0) {
                focused
            } else if active is Some && found.contains(active->0) {
                active
            } else {
                Some(found[0])
            }
        },
    }
}

/// The pane by which a tab is found again: its focused terminal pane, else
/// its first terminal pane.
pub open spec fn anchor_of_tab(
    manifest: Option<Seq<TabPanesView>>,
    tabs: Seq<TabInfoView>,
    position: usize,
) -> Option<u32> {
    match (manifest, manifest_position_for_tab(manifest, tabs, position)) {
        (Some(m), Some(p)) => match index_of_tab(m, p, 0) {
            None => None,
            Some(i) => match first_pane(m[i].panes, PaneQuery::FocusedTerminal, 0) {
                Some(j) => Some(m[i].panes[j].id),
                None => match first_pane(m[i].panes, PaneQuery::Terminal, 0) {
                    Some(j) => Some(m[i].panes[j].id),
                    None => None,
                },
            },
        },
        _ => None,
    }
}

/// The title of the first pane that the query admits, tabs taken in
/// ascending order of position.
pub open spec fn title_of_first(manifest: Option<Seq<TabPanesView>>, q: PaneQuery) -> Option<
    Seq<char>,
> {
    match manifest {
        None => None,
        Some(m) => match first_tab_holding(m, q, 0) {
            None => None,
            Some(i) => match first_pane(m[i].panes, q, 0) {
                Some(j) => Some(m[i].panes[j].title),
                None => None,
            },
        },
    }
}

/// The first focused pane, tabs taken in ascending order of position.
pub open spec fn focused_pane(manifest: Option<Seq<TabPanesView>>) -> Option<PaneRef> {
    match manifest {
        None => None,
        Some(m) => match first_tab_holding(m, PaneQuery::Focused, 0) {
            None => None,
            Some(i) => match first_pane(m[i].panes, PaneQuery::Focused, 0) {
                Some(j) => Some(m[i].panes[j].pane_ref()),
                None => None,
            },
        },
    }
}

/// The name of the first tab of the list that stands at `position`.
pub open spec fn tab_name(tabs: Seq<TabInfoView>, position: usize) -> Option<Seq<char>> {
    match first_tab_at(tabs, position, 0) {
        Some(i) => Some(tabs[i].name),
        None => None,
    }
}

/// The one-based rank of `position` among the positions of the tab list,
/// where the list has it and the rank fits.
pub open spec fn rank_of_tab(tabs: Seq<TabInfoView>, position: usize) -> Option<u32> {
    match first_equal(ascending(positions(tabs)), position, 0) {
        Some(rank) => if rank + 1 <= u32::MAX {
            Some((rank + 1) as u32)
        } else {
            None
        },
        None => None,
    }
}

/// The manifest shows the pane.
pub open spec fn pane_present(m: Seq<TabPanesView>, pane: PaneRef) -> bool {
    first_tab_holding(m, PaneQuery::Is(pane), 0) is Some
}

/// The tab position that a position of the pane manifest stands for.
pub fn tab_position_for_manifest_position(
    manifest: &Option<PaneManifest>,
    tabs: &Vec<TabInfo>,
    position: usize,
) -> (r: Option<usize>)
    ensures
        r == tab_for_manifest_position(manifest_view(*manifest), tab_views(tabs@), position),
{
    if find_tab_at(tabs, position).is_some() {
        return Some(position);
    }
    match manifest {
        None => None,
        Some(m) => match m.index_of(position) {
            None => None,
            Some(rank) => {
                if tabs.len() == 0 {
                    Some(position)
                } else {
                    let sorted = sorted_positions(tabs);
                    if rank < sorted.len() {
                        Some(sorted[rank])
                    } else {
                        None
                    }
                }
            },
        },
    }
}

/// The manifest position that a tab position stands for.
pub fn manifest_tab_position_for_tab_position(
    manifest: &Option<PaneManifest>,
    tabs: &Vec<TabInfo>,
    position: usize,
) -> (r: Option<usize>)
    ensures
        r == manifest_position_for_tab(manifest_view(*manifest), tab_views(tabs@), position),
{
    match manifest {
        None => None,
        Some(m) => {
            if m.index_of(position).is_some() {
                return Some(position);
            }
            let sorted = sorted_positions(tabs);
            match index_of_position(&sorted, position) {
                None => None,
                Some(rank) => if rank < m.len() {
                    Some(m.position_at(rank))
                } else {
                    None
                },
            }
        },
    }
}

/// The position of the first tab that the tab list reports active.
pub fn focused_tab_index(tabs: &Vec<TabInfo>) -> (r: Option<usize>)
    ensures
        r == focused_tab(tab_views(tabs@)),
{
    match find_active(tabs) {
        Some(i) => Some(tabs[i].position),
        None => None,
    }
}

/// The tab position of the first manifest tab that holds a pane which the
/// query admits.
fn tab_of_first(manifest: &Option<PaneManifest>, tabs: &Vec<TabInfo>, q: &PaneQuery) -> (r: Option<
    usize,
>)
    requires
        manifest is Some,
    ensures
        r == tab_of_first_holding(manifest->0@, tab_views(tabs@), *q),
{
    match manifest {
        None => None,
        Some(m) => match m.find_tab_holding(q, 0) {
            Some(i) => tab_position_for_manifest_position(manifest, tabs, m.position_at(i)),
            None => None,
        },
    }
}

/// The focused tab as the pane manifest shows it.
pub fn focused_tab_index_from_manifest(manifest: &Option<PaneManifest>, tabs: &Vec<TabInfo>) -> (r:
    Option<usize>)
    ensures
        r == focused_tab_from_manifest(manifest_view(*manifest), tab_views(tabs@)),
{
    if manifest.is_none() {
        return None;
    }
    let by_terminal = tab_of_first(manifest, tabs, &PaneQuery::FocusedTerminal);
    if by_terminal.is_some() {
        by_terminal
    } else {
        tab_of_first(manifest, tabs, &PaneQuery::Focused)
    }
}

/// Whether the list holds the position.
fn contains_position(v: &Vec<usize>, x: usize) -> (b: bool)
    ensures
        b == v@.contains(x),
{
    let mut i: usize = 0;
    while i < v.len()
        invariant
            i <= v.len(),
            forall|k: int| 0 <= k < i ==> v@[k] != x,
        decreases v.len() - i,
    {
        if v[i] == x {
            return true;
        }
        i += 1;
    }
    false
}

/// The tab that holds the terminal pane `pane_id`.
pub fn resolve_tab_index_from_pane_id(
    manifest: &Option<PaneManifest>,
    tabs: &Vec<TabInfo>,
    pane_id: u32,
) -> (r: Option<usize>)
    ensures
        r == resolve_tab(manifest_view(*manifest), tab_views(tabs@), pane_id),
{
    let m = match manifest {
        None => {
            return None;
        },
        Some(m) => m,
    };
    let mut found: Vec<usize> = Vec::new();
    let mut i: usize = 0;
    while i < m.len()
        invariant
            i <= m@.len(),
            *manifest == Some(*m),
            found@ == candidates(m@, tab_views(tabs@), pane_id, i as int),
        decreases m@.len() - i,
    {
        if find_pane(m.panes_at(i), &PaneQuery::TerminalWithId(pane_id)).is_some() {
            match tab_position_for_manifest_position(manifest, tabs, m.position_at(i)) {
                Some(t) => {
                    found.push(t);
                },
                None => {},
            }
        }
        i += 1;
    }
    if found.len() == 0 {
        return None;
    }
    if found.len() == 1 {
        return Some(found[0]);
    }
    let focused = focused_tab_index_from_manifest(manifest, tabs);
    match focused {
        Some(t) => {
            if contains_position(&found, t) {
                return focused;
            }
        },
        None => {},
    }
    let active = focused_tab_index(tabs);
    match active {
        Some(t) => {
            if contains_position(&found, t) {
                return active;
            }
        },
        None => {},
    }
    Some(found[0])
}

/// The pane by which the tab at a position is found again.
pub fn tab_anchor_pane_id(manifest: &Option<PaneManifest>, tabs: &Vec<TabInfo>, position: usize) -> (r:
    Option<u32>)
    ensures
        r == anchor_of_tab(manifest_view(*manifest), tab_views(tabs@), position),
{
    let m = match manifest {
        None => {
            return None;
        },
        Some(m) => m,
    };
    let p = match manifest_tab_position_for_tab_position(manifest, tabs, position) {
        None => {
            return None;
        },
        Some(p) => p,
    };
    match m.index_of(p) {
        None => None,
        Some(i) => {
            let panes = m.panes_at(i);
            match find_pane(panes, &PaneQuery::FocusedTerminal) {
                Some(j) => Some(panes[j].id),
                None => match find_pane(panes, &PaneQuery::Terminal) {
                    Some(j) => Some(panes[j].id),
                    None => None,
                },
            }
        },
    }
}

/// Whether the manifest shows the pane.
pub fn manifest_has_pane(m: &PaneManifest, pane: PaneRef) -> (b: bool)
    ensures
        b == pane_present(m@, pane),
{
    m.find_tab_holding(&PaneQuery::Is(pane), 0).is_some()
}

/// The title of the first pane that the query admits.
pub fn title_of_first_pane(manifest: &Option<PaneManifest>, q: &PaneQuery) -> (r: Option<String>)
    ensures
        match r {
            Some(t) => title_of_first(manifest_view(*manifest), *q) == Some(t@),
            None => title_of_first(manifest_view(*manifest), *q) is None,
        },
{
    match manifest {
        None => None,
        Some(m) => match m.find_tab_holding(q, 0) {
            None => None,
            Some(i) => {
                let panes = m.panes_at(i);
                match find_pane(panes, q) {
                    Some(j) => Some(panes[j].title.clone()),
                    None => None,
                }
            },
        },
    }
}

/// The first focused pane of the manifest.
pub fn focused_pane_ref(manifest: &Option<PaneManifest>) -> (r: Option<PaneRef>)
    ensures
        r == focused_pane(manifest_view(*manifest)),
{
    match manifest {
        None => None,
        Some(m) => match m.find_tab_holding(&PaneQuery::Focused, 0) {
            None => None,
            Some(i) => {
                let panes = m.panes_at(i);
                match find_pane(panes, &PaneQuery::Focused) {
                    Some(j) => Some(panes[j].pane_ref()),
                    None => None,
                }
            },
        },
    }
}

/// The name of the first tab of the list that stands at `position`.
pub fn tab_title(tabs: &Vec<TabInfo>, position: usize) -> (r: Option<String>)
    ensures
        match r {
            Some(t) => tab_name(tab_views(tabs@), position) == Some(t@),
            None => tab_name(tab_views(tabs@), position) is None,
        },
{
    match find_tab_at(tabs, position) {
        Some(i) => Some(tabs[i].name.clone()),
        None => None,
    }
}

/// The one-based rank of `position` among the positions of the tab list.
pub fn tab_rename_target(tabs: &Vec<TabInfo>, position: usize) -> (r: Option<u32>)
    ensures
        r == rank_of_tab(tab_views(tabs@), position),
{
    let sorted = sorted_positions(tabs);
    match index_of_position(&sorted, position) {
        Some(rank) => if rank < 0xffff_ffff {
            Some((rank + 1) as u32)
        } else {
            None
        },
        None => None,
    }
}

} // verus!
