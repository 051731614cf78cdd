//! What the state shows an operator: the tabs with their panes, and one
//! line on how the two topology channels were related.

use crate::resolver::{
    focused_pane, focused_tab, focused_tab_from_manifest, manifest_position_for_tab, manifest_view,
};
use crate::resolver;
use crate::snapshot::{
    index_of_tab, pane_views, tab_views, PaneInfo, PaneInfoView, PaneManifest, TabInfo,
    TabInfoView, TabPanesView,
};
use crate::state::PaneRef;
use crate::text::{
    chars_of, decimal, extend_chars, join, join_chars, push_decimal, string_of, texts,
};
use vstd::prelude::*;

verus! {

/// One pane as the operator sees it.
#[derive(Debug)]
pub struct PaneDebugInfo {
    pub id: u32,
    pub is_plugin: bool,
    pub is_focused: bool,
    pub title: String,
}

impl View for PaneDebugInfo {
    type V = PaneInfoView;

    open spec fn view(&self) -> PaneInfoView {
        PaneInfoView {
            id: self.id,
            is_plugin: self.is_plugin,
            is_focused: self.is_focused,
            title: self.title@,
        }
    }
}

/// One tab as the operator sees it, with the panes that the manifest lists
/// for it.
#[derive(Debug)]
pub struct TabDebugInfo {
    pub position: usize,
    pub name: String,
    pub active: bool,
    pub panes: Vec<PaneDebugInfo>,
}

/// The model of a `TabDebugInfo`.
pub struct TabDebugView {
    pub position: usize,
    pub name: Seq<char>,
    pub active: bool,
    pub panes: Seq<PaneInfoView>,
}

/// The models of a list of panes.
pub open spec fn pane_debug_views(panes: Seq<PaneDebugInfo>) -> Seq<PaneInfoView> {
    panes.map_values(|p: PaneDebugInfo| p@)
}

impl View for TabDebugInfo {
    type V = TabDebugView;

    open spec fn view(&self) -> TabDebugView {
        TabDebugView {
            position: self.position,
            name: self.name@,
            active: self.active,
            panes: pane_debug_views(self.panes@),
        }
    }
}

/// The models of a list of tabs.
pub open spec fn tab_debug_views(tabs: Seq<TabDebugInfo>) -> Seq<TabDebugView> {
    tabs.map_values(|t: TabDebugInfo| t@)
}

/// The whole picture.
#[derive(Debug)]
pub struct InfoDebug {
    pub tabs: Vec<TabDebugInfo>,
    pub focused_tab_index: Option<usize>,
    pub focused_pane: Option<String>,
}

/// The model of an `InfoDebug`.
pub struct InfoDebugView {
    pub tabs: Seq<TabDebugView>,
    pub focused_tab_index: Option<usize>,
    pub focused_pane: Option<Seq<char>>,
}

impl View for InfoDebug {
    type V = InfoDebugView;

    open spec fn view(&self) -> InfoDebugView {
        InfoDebugView {
            tabs: tab_debug_views(self.tabs@),
            focused_tab_index: self.focused_tab_index,
            focused_pane: match self.focused_pane {
                Some(p) => Some(p@),
                None => None,
            },
        }
    }
}

/// The panes that the manifest lists for a tab: those of the manifest
/// position that the tab position stands for, else of the tab position
/// itself.
pub open spec fn panes_of_tab(
    manifest: Option<Seq<TabPanesView>>,
    tabs: Seq<TabInfoView>,
    position: usize,
) -> Seq<PaneInfoView> {
    match manifest {
        None => Seq::empty(),
        Some(m) => {
            let p = match manifest_position_for_tab(manifest, tabs, position) {
                Some(p) => p,
                None => position,
            };
            match index_of_tab(m, p, 0) {
                Some(i) => m[i].panes,
                None => Seq::empty(),
            }
        },
    }
}

/// One tab with its panes.
pub open spec fn tab_shown(
    manifest: Option<Seq<TabPanesView>>,
    tabs: Seq<TabInfoView>,
    tab: TabInfoView,
) -> TabDebugView {
    TabDebugView {
        position: tab.position,
        name: tab.name,
        active: tab.active,
        panes: panes_of_tab(manifest, tabs, tab.position),
    }
}

/// The index at or after `from` before which a tab at `position` is put:
/// behind every tab whose position is not greater.
pub open spec fn place_of(sorted: Seq<TabDebugView>, position: usize, from: int) -> int
    decreases sorted.len() - from,
{
    if 0 <= from < sorted.len() && sorted[from].position <= position {
        place_of(sorted, position, from + 1)
    } else {
        from
    }
}

/// The first `n` tabs of the list with their panes, in ascending order of
/// position; tabs of one position keep the order of the list.
pub open spec fn tabs_shown(
    manifest: Option<Seq<TabPanesView>>,
    tabs: Seq<TabInfoView>,
    n: int,
) -> Seq<TabDebugView>
    decreases n,
{
    if n <= 0 || n > tabs.len() {
        Seq::empty()
    } else {
        let before = tabs_shown(manifest, tabs, n - 1);
        before.insert(
            place_of(before, tabs[n - 1].position, 0),
            tab_shown(manifest, tabs, tabs[n - 1]),
        )
    }
}

/// How a pane identity is written.
pub open spec fn pane_ref_text(pane: PaneRef) -> Seq<char> {
    match pane {
        PaneRef::Terminal(id) => "Terminal("@ + decimal(id as nat) + ")"@,
        PaneRef::Plugin(id) => "Plugin("@ + decimal(id as nat) + ")"@,
    }
}

/// The whole picture of a topology.
pub open spec fn info_of(manifest: Option<Seq<TabPanesView>>, tabs: Seq<TabInfoView>) -> InfoDebugView {
    InfoDebugView {
        tabs: tabs_shown(manifest, tabs, tabs.len() as int),
        focused_tab_index: focused_tab(tabs),
        focused_pane: match focused_pane(manifest) {
            Some(p) => Some(pane_ref_text(p)),
            None => None,
        },
    }
}

/// How a truth value is written.
pub open spec fn bool_text(b: bool) -> Seq<char> {
    if b {
        "true"@
    } else {
        "false"@
    }
}

/// How a position that may be missing is written.
pub open spec fn position_text(p: Option<usize>) -> Seq<char> {
    match p {
        Some(v) => "Some("@ + decimal(v as nat) + ")"@,
        None => "None"@,
    }
}

/// How a pane identity that may be missing is written.
pub open spec fn pane_text(p: Option<PaneRef>) -> Seq<char> {
    match p {
        Some(r) => "Some("@ + pane_ref_text(r) + ")"@,
        None => "None"@,
    }
}

/// One tab of the tab list: position and whether it is active.
pub open spec fn tab_item(t: TabInfoView) -> Seq<char> {
    decimal(t.position as nat) + ":"@ + bool_text(t.active)
}

/// One pane of the manifest: id, whether it is a plugin, whether it is
/// focused.
pub open spec fn pane_item(p: PaneInfoView) -> Seq<char> {
    decimal(p.id as nat) + ":"@ + bool_text(p.is_plugin) + ":"@ + bool_text(p.is_focused)
}

/// One tab of the manifest: its position and its panes.
pub open spec fn manifest_item(t: TabPanesView) -> Seq<char> {
    decimal(t.position as nat) + "=["@ + join(
        t.panes.map_values(|p: PaneInfoView| pane_item(p)),
        ";"@,
    ) + "]"@
}

/// The tab list, item by item.
pub open spec fn tab_list_text(tabs: Seq<TabInfoView>) -> Seq<char> {
    join(tabs.map_values(|t: TabInfoView| tab_item(t)), ","@)
}

/// The positions of the manifest, in ascending order.
pub open spec fn manifest_positions_text(manifest: Option<Seq<TabPanesView>>) -> Seq<char> {
    match manifest {
        None => "none"@,
        Some(m) => join(m.map_values(|t: TabPanesView| decimal(t.position as nat)), ","@),
    }
}

/// The panes of the manifest, tab by tab in ascending order of position.
pub open spec fn manifest_panes_text(manifest: Option<Seq<TabPanesView>>) -> Seq<char> {
    match manifest {
        None => "none"@,
        Some(m) => join(m.map_values(|t: TabPanesView| manifest_item(t)), ","@),
    }
}

/// The line on how the two channels were related.
pub open spec fn resolution_text(manifest: Option<Seq<TabPanesView>>, tabs: Seq<TabInfoView>) -> Seq<
    char,
> {
    "tab_infos=["@ + tab_list_text(tabs) + "] manifest_positions=["@ + manifest_positions_text(
        manifest,
    ) + "] manifest_panes=["@ + manifest_panes_text(manifest) + "] focused_tab="@ + position_text(
        focused_tab(tabs),
    ) + " focused_tab_manifest="@ + position_text(focused_tab_from_manifest(manifest, tabs))
        + " focused_pane="@ + pane_text(focused_pane(manifest))
}

/// Appends a text.
fn push_text(out: &mut Vec<char>, s: &str)
    ensures
        final(out)@ == old(out)@ + s@,
{
    extend_chars(out, &chars_of(s));
}

/// Appends a truth value.
fn push_bool(out: &mut Vec<char>, b: bool)
    ensures
        final(out)@ == old(out)@ + bool_text(b),
{
    if b {
        push_text(out, "true");
    } else {
        push_text(out, "false");
    }
}

/// Appends a pane identity.
fn push_pane_ref(out: &mut Vec<char>, pane: PaneRef)
    ensures
        final(out)@ == old(out)@ + pane_ref_text(pane),
{
    match pane {
        PaneRef::Terminal(id) => {
            push_text(out, "Terminal(");
            push_decimal(out, id as u64);
            push_text(out, ")");
            assert(out@ =~= old(out)@ + pane_ref_text(pane));
        },
        PaneRef::Plugin(id) => {
            push_text(out, "Plugin(");
            push_decimal(out, id as u64);
            push_text(out, ")");
            assert(out@ =~= old(out)@ + pane_ref_text(pane));
        },
    }
}

/// Appends a position that may be missing.
fn push_position(out: &mut Vec<char>, p: Option<usize>)
    ensures
        final(out)@ == old(out)@ + position_text(p),
{
    match p {
        Some(v) => {
            push_text(out, "Some(");
            push_decimal(out, v as u64);
            push_text(out, ")");
            assert(out@ =~= old(out)@ + position_text(p));
        },
        None => {
            push_text(out, "None");
        },
    }
}

/// Appends a pane identity that may be missing.
fn push_pane(out: &mut Vec<char>, p: Option<PaneRef>)
    ensures
        final(out)@ == old(out)@ + pane_text(p),
{
    match p {
        Some(r) => {
            push_text(out, "Some(");
            push_pane_ref(out, r);
            push_text(out, ")");
            assert(out@ =~= old(out)@ + pane_text(p));
        },
        None => {
            push_text(out, "None");
        },
    }
}

/// The separator of list items.
fn comma() -> (c: Vec<char>)
    ensures
        c@ == ","@,
{
    chars_of(",")
}

/// The tab list, item by item.
fn tab_list_chars(tabs: &Vec<TabInfo>) -> (r: Vec<char>)
    ensures
        r@ == tab_list_text(tab_views(tabs@)),
{
    let ghost items = tab_views(tabs@).map_values(|t: TabInfoView| tab_item(t));
    let mut parts: Vec<Vec<char>> = Vec::new();
    let mut i: usize = 0;
    while i < tabs.len()
        invariant
            i <= tabs.len(),
            items == tab_views(tabs@).map_values(|t: TabInfoView| tab_item(t)),
            texts(parts@) == items.take(i as int),
        decreases tabs.len() - i,
    {
        let mut item: Vec<char> = Vec::new();
        push_decimal(&mut item, tabs[i].position as u64);
        push_text(&mut item, ":");
        push_bool(&mut item, tabs[i].active);
        assert(item@ =~= tab_item(tabs@[i as int]@));
        let ghost before = texts(parts@);
        parts.push(item);
        assert(texts(parts@) =~= before.push(item@));
        assert(items.take(i + 1) =~= items.take(i as int).push(items[i as int]));
        i += 1;
    }
    assert(items.take(tabs.len() as int) =~= items);
    join_chars(&parts, &comma())
}

/// The panes of one tab, item by item.
fn pane_list_chars(panes: &Vec<PaneInfo>) -> (r: Vec<char>)
    ensures
        r@ == join(pane_views(panes@).map_values(|p: PaneInfoView| pane_item(p)), ";"@),
{
    let ghost items = pane_views(panes@).map_values(|p: PaneInfoView| pane_item(p));
    let mut parts: Vec<Vec<char>> = Vec::new();
    let mut i: usize = 0;
    while i < panes.len()
        invariant
            i <= panes.len(),
            items == pane_views(panes@).map_values(|p: PaneInfoView| pane_item(p)),
            texts(parts@) == items.take(i as int),
        decreases panes.len() - i,
    {
        let mut item: Vec<char> = Vec::new();
        push_decimal(&mut item, panes[i].id as u64);
        push_text(&mut item, ":");
        push_bool(&mut item, panes[i].is_plugin);
        push_text(&mut item, ":");
        push_bool(&mut item, panes[i].is_focused);
        assert(item@ =~= pane_item(panes@[i as int]@));
        let ghost before = texts(parts@);
        parts.push(item);
        assert(texts(parts@) =~= before.push(item@));
        assert(items.take(i + 1) =~= items.take(i as int).push(items[i as int]));
        i += 1;
    }
    assert(items.take(panes.len() as int) =~= items);
    join_chars(&parts, &chars_of(";"))
}

/// The positions of the manifest.
fn manifest_positions_chars(manifest: &Option<PaneManifest>) -> (r: Vec<char>)
    ensures
        r@ == manifest_positions_text(manifest_view(*manifest)),
{
    match manifest {
        None => chars_of("none"),
        Some(m) => {
            let ghost items = m@.map_values(|t: TabPanesView| decimal(t.position as nat));
            let mut parts: Vec<Vec<char>> = Vec::new();
            let mut i: usize = 0;
            while i < m.len()
                invariant
                    i <= m@.len(),
                    items == m@.map_values(|t: TabPanesView| decimal(t.position as nat)),
                    texts(parts@) == items.take(i as int),
                decreases m@.len() - i,
            {
                let mut item: Vec<char> = Vec::new();
                push_decimal(&mut item, m.position_at(i) as u64);
                assert(item@ =~= decimal(m@[i as int].position as nat));
                let ghost before = texts(parts@);
                parts.push(item);
                assert(texts(parts@) =~= before.push(item@));
                assert(items.take(i + 1) =~= items.take(i as int).push(items[i as int]));
                i += 1;
            }
            assert(items.take(m@.len() as int) =~= items);
            join_chars(&parts, &comma())
        },
    }
}

/// The panes of the manifest, tab by tab.
fn manifest_panes_chars(manifest: &Option<PaneManifest>) -> (r: Vec<char>)
    ensures
        r@ == manifest_panes_text(manifest_view(*manifest)),
{
    match manifest {
        None => chars_of("none"),
        Some(m) => {
            let ghost items = m@.map_values(|t: TabPanesView| manifest_item(t));
            let mut parts: Vec<Vec<char>> = Vec::new();
            let mut i: usize = 0;
            while i < m.len()
                invariant
                    i <= m@.len(),
                    items == m@.map_values(|t: TabPanesView| manifest_item(t)),
                    texts(parts@) == items.take(i as int),
                decreases m@.len() - i,
            {
                let mut item: Vec<char> = Vec::new();
                push_decimal(&mut item, m.position_at(i) as u64);
                push_text(&mut item, "=[");
                extend_chars(&mut item, &pane_list_chars(m.panes_at(i)));
                push_text(&mut item, "]");
                assert(item@ =~= manifest_item(m@[i as int]));
                let ghost before = texts(parts@);
                parts.push(item);
                assert(texts(parts@) =~= before.push(item@));
                assert(items.take(i + 1) =~= items.take(i as int).push(items[i as int]));
                i += 1;
            }
            assert(items.take(m@.len() as int) =~= items);
            join_chars(&parts, &comma())
        },
    }
}

/// One line on how the two channels were related.
pub fn tab_resolution_debug(manifest: &Option<PaneManifest>, tabs: &Vec<TabInfo>) -> (r: String)
    ensures
        r@ == resolution_text(manifest_view(*manifest), tab_views(tabs@)),
{
    let mut out: Vec<char> = Vec::new();
    push_text(&mut out, "tab_infos=[");
    extend_chars(&mut out, &tab_list_chars(tabs));
    push_text(&mut out, "] manifest_positions=[");
    extend_chars(&mut out, &manifest_positions_chars(manifest));
    push_text(&mut out, "] manifest_panes=[");
    extend_chars(&mut out, &manifest_panes_chars(manifest));
    push_text(&mut out, "] focused_tab=");
    push_position(&mut out, resolver::focused_tab_index(tabs));
    push_text(&mut out, " focused_tab_manifest=");
    push_position(&mut out, resolver::focused_tab_index_from_manifest(manifest, tabs));
    push_text(&mut out, " focused_pane=");
    push_pane(&mut out, resolver::focused_pane_ref(manifest));
    assert(out@ =~= resolution_text(manifest_view(*manifest), tab_views(tabs@)));
    string_of(&out)
}

/// The panes that the manifest lists for a tab.
fn panes_for_tab(manifest: &Option<PaneManifest>, tabs: &Vec<TabInfo>, position: usize) -> (r: Vec<
    PaneDebugInfo,
>)
    ensures
        pane_debug_views(r@) == panes_of_tab(manifest_view(*manifest), tab_views(tabs@), position),
{
    let mut shown: Vec<PaneDebugInfo> = Vec::new();
    assert(pane_debug_views(shown@) =~= Seq::empty());
    match manifest {
        None => {},
        Some(m) => {
            let p = match resolver::manifest_tab_position_for_tab_position(
                manifest,
                tabs,
                position,
            ) {
                Some(p) => p,
                None => position,
            };
            match m.index_of(p) {
                None => {},
                Some(i) => {
                    let panes = m.panes_at(i);
                    let mut k: usize = 0;
                    while k < panes.len()
                        invariant
                            k <= panes.len(),
                            pane_debug_views(shown@) == pane_views(panes@).take(k as int),
                        decreases panes.len() - k,
                    {
                        let ghost before = shown@;
                        let pane = PaneDebugInfo {
                            id: panes[k].id,
                            is_plugin: panes[k].is_plugin,
                            is_focused: panes[k].is_focused,
                            title: panes[k].title.clone(),
                        };
                        shown.push(pane);
                        assert(pane_debug_views(shown@) =~= pane_debug_views(before).push(pane@));
                        assert(pane_views(panes@).take(k + 1) =~= pane_views(panes@).take(
                            k as int,
                        ).push(panes@[k as int]@));
                        k += 1;
                    }
                    assert(pane_views(panes@).take(panes.len() as int) =~= pane_views(panes@));
                },
            }
        },
    }
    shown
}

/// The tabs with their panes, the active tab and the focused pane.
pub fn info_debug(manifest: &Option<PaneManifest>, tabs: &Vec<TabInfo>) -> (info: InfoDebug)
    ensures
        info@ == info_of(manifest_view(*manifest), tab_views(tabs@)),
{
    let mut shown: Vec<TabDebugInfo> = Vec::new();
    assert(tab_debug_views(shown@) =~= Seq::empty());
    let mut i: usize = 0;
    while i < tabs.len()
        invariant
            i <= tabs.len(),
            tab_debug_views(shown@) == tabs_shown(
                manifest_view(*manifest),
                tab_views(tabs@),
                i as int,
            ),
        decreases tabs.len() - i,
    {
        let tab = TabDebugInfo {
            position: tabs[i].position,
            name: tabs[i].name.clone(),
            active: tabs[i].active,
            panes: panes_for_tab(manifest, tabs, tabs[i].position),
        };
        assert(tab@ == tab_shown(manifest_view(*manifest), tab_views(tabs@), tabs@[i as int]@));
        let ghost before = tab_debug_views(shown@);
        let mut j: usize = 0;
        while j < shown.len() && shown[j].position <= tab.position
            invariant
                j <= shown.len(),
                before == tab_debug_views(shown@),
                place_of(before, tab.position, 0) == place_of(before, tab.position, j as int),
            decreases shown.len() - j,
        {
            j += 1;
        }
        shown.insert(j, tab);
        assert(tab_debug_views(shown@) =~= before.insert(j as int, tab@));
        i += 1;
    }
    let pane = match resolver::focused_pane_ref(manifest) {
        Some(p) => {
            let mut text: Vec<char> = Vec::new();
            push_pane_ref(&mut text, p);
            assert(text@ =~= pane_ref_text(p));
            Some(string_of(&text))
        },
        None => None,
    };
    InfoDebug {
        tabs: shown,
        focused_tab_index: resolver::focused_tab_index(tabs),
        focused_pane: pane,
    }
}

} // verus!
