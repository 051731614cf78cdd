//! What holds of the decoration state, whatever its inputs. Each law is
//! stated over the model of the state and proved from the definitions of
//! the operations.

use crate::command::Mode;
use crate::model::{
    after_pane_update, after_tab_update, drain_target, drained, entry_of, reconcile_manifest,
    reconcile_pane, reconcile_panes, reconcile_tab, reconcile_tabs, reconciled, same_anchor_entry,
    shown_panes, shown_tabs, undrained, upserted, wanted_title, with_manifest, with_pane_entry,
    with_tab_entry, with_tabs, RestoreView, StateView, TabEntryView,
};
use crate::resolver::{anchor_of_tab, pane_present, resolve_tab};
use crate::snapshot::{
    has_tab, holds_pane, lemma_first_pane, lemma_first_tab_at, lemma_first_tab_holding,
    PaneInfoView, PaneQuery, TabInfoView, TabPanesView,
};
use crate::state::PaneRef;
use crate::store::{distinct_keys, lemma_keep, lemma_put, lemma_without, lookup, put, without};
use crate::text::{
    find, lemma_find_is, lemma_find_none, lemma_find_some, lemma_skip_space_back_bounds,
    lemma_skip_space_bounds, occurs_at, split, split_from, trim,
};
use crate::title::{
    base_title, cleaned_title, decorated, delimiter, is_pinned, pinned_among, pinned_segments,
};
use vstd::prelude::*;

verus! {

/// Decorating a pane a second time leaves the original title that the first
/// decoration stored.
pub proof fn law_pane_original_is_kept(
    s: StateView,
    pane: PaneRef,
    first_title: Seq<char>,
    first_emojis: Seq<char>,
    first_mode: Mode,
    second_title: Seq<char>,
    second_emojis: Seq<char>,
    second_mode: Mode,
)
    requires
        distinct_keys(s.pane_entries),
    ensures
        ({
            let once = with_pane_entry(s, pane, first_title, first_emojis, first_mode);
            let twice = with_pane_entry(once, pane, second_title, second_emojis, second_mode);
            &&& lookup(once.pane_entries, pane) is Some
            &&& lookup(twice.pane_entries, pane) is Some
            &&& lookup(twice.pane_entries, pane)->0.original_title == lookup(
                once.pane_entries,
                pane,
            )->0.original_title
            &&& lookup(twice.pane_entries, pane)->0.emojis == second_emojis
        }),
{
    let first = upserted(lookup(s.pane_entries, pane), first_title, first_emojis, first_mode);
    lemma_put(s.pane_entries, pane, first, pane);
    let once = with_pane_entry(s, pane, first_title, first_emojis, first_mode);
    let second = upserted(lookup(once.pane_entries, pane), second_title, second_emojis, second_mode);
    lemma_put(once.pane_entries, pane, second, pane);
}

/// Decorating a tab a second time under the same anchor leaves the original
/// title that the first decoration stored; under another anchor the entry
/// starts afresh.
pub proof fn law_tab_original_is_kept(
    s: StateView,
    position: usize,
    first_anchor: Option<u32>,
    first_title: Seq<char>,
    first_emojis: Seq<char>,
    first_mode: Mode,
    second_anchor: Option<u32>,
    second_title: Seq<char>,
    second_emojis: Seq<char>,
    second_mode: Mode,
)
    requires
        distinct_keys(s.tab_entries),
    ensures
        ({
            let once = with_tab_entry(
                s,
                position,
                first_anchor,
                first_title,
                first_emojis,
                first_mode,
            );
            let twice = with_tab_entry(
                once,
                position,
                second_anchor,
                second_title,
                second_emojis,
                second_mode,
            );
            &&& lookup(once.tab_entries, position) is Some
            &&& lookup(twice.tab_entries, position) is Some
            &&& lookup(twice.tab_entries, position)->0.entry.original_title == if second_anchor
                == first_anchor {
                lookup(once.tab_entries, position)->0.entry.original_title
            } else {
                second_title
            }
        }),
{
    let first = TabEntryView {
        entry: upserted(
            same_anchor_entry(lookup(s.tab_entries, position), first_anchor),
            first_title,
            first_emojis,
            first_mode,
        ),
        anchor_pane_id: first_anchor,
    };
    lemma_put(s.tab_entries, position, first, position);
    let once = with_tab_entry(s, position, first_anchor, first_title, first_emojis, first_mode);
    let second = TabEntryView {
        entry: upserted(
            same_anchor_entry(lookup(once.tab_entries, position), second_anchor),
            second_title,
            second_emojis,
            second_mode,
        ),
        anchor_pane_id: second_anchor,
    };
    lemma_put(once.tab_entries, position, second, position);
}

/// The text ends with a blank and a bar, the first two characters of the
/// delimiter.
pub open spec fn ends_in_half_delimiter(s: Seq<char>) -> bool {
    s.len() >= 2 && s[s.len() - 2] == ' ' && s[s.len() - 1] == '|'
}

/// The original title is read back from a decorated title, if the original
/// holds no delimiter and does not end in the first half of one.
pub proof fn law_original_is_recovered(original: Seq<char>, emojis: Seq<char>)
    requires
        find(original, delimiter(), 0) is None,
        !ends_in_half_delimiter(original),
    ensures
        base_title(decorated(original, emojis)) == original,
{
    let d = delimiter();
    let s = decorated(original, emojis);
    let n = original.len() as int;
    lemma_find_none(original, d, 0);
    assert(s.subrange(n, n + 3) =~= d);
    assert forall|k: int| 0 <= k < n implies !occurs_at(s, d, k) by {
        if occurs_at(s, d, k) {
            let at = s.subrange(k, k + 3);
            assert(at[0] == ' ' && at[1] == '|' && at[2] == ' ');
            assert(at[0] == s[k] && at[1] == s[k + 1] && at[2] == s[k + 2]);
            if k + 3 <= n {
                assert(original.subrange(k, k + 3) =~= d);
                assert(occurs_at(original, d, k));
            } else if k + 2 == n {
                assert(s[k] == original[n - 2] && s[k + 1] == original[n - 1]);
            } else {
                assert(s[k + 1] == d[0]);
            }
        }
    }
    lemma_find_is(s, d, 0, n);
    assert(s.take(n) =~= original);
}

/// Looking at a focused pane concerns that pane only.
pub proof fn lemma_reconcile_pane(s: StateView, pane: PaneInfoView, other: PaneRef)
    requires
        distinct_keys(s.pane_entries),
        distinct_keys(s.pane_restores),
    ensures
        distinct_keys(reconcile_pane(s, pane).pane_entries),
        distinct_keys(reconcile_pane(s, pane).pane_restores),
        other != pane.pane_ref() ==> lookup(reconcile_pane(s, pane).pane_entries, other) == lookup(
            s.pane_entries,
            other,
        ) && lookup(reconcile_pane(s, pane).pane_restores, other) == lookup(
            s.pane_restores,
            other,
        ),
{
    let r = pane.pane_ref();
    let wanted = wanted_title(lookup(s.pane_entries, r), pane.title);
    lemma_put(s.pane_restores, r, wanted, other);
    lemma_without(s.pane_entries, r, other);
    match lookup(s.pane_entries, r) {
        Some(e) => match reconciled(e, pane.title) {
            Some(next) => {
                lemma_put(s.pane_entries, r, next, other);
            },
            None => {},
        },
        None => {},
    }
}

/// One of the first `n` panes of the list is focused and is the pane
/// `pane`.
pub open spec fn looked_at_among(panes: Seq<PaneInfoView>, pane: PaneRef, n: int) -> bool {
    exists|k: int|
        0 <= k < n && k < panes.len() && (#[trigger] panes[k]).is_focused && panes[k].pane_ref()
            == pane
}

/// The manifest shows the pane `pane` focused in one of its first `n` tabs.
pub open spec fn looked_at(m: Seq<TabPanesView>, pane: PaneRef, n: int) -> bool {
    exists|t: int|
        0 <= t < n && t < m.len() && looked_at_among(
            (#[trigger] m[t]).panes,
            pane,
            m[t].panes.len() as int,
        )
}

/// Looking at the focused panes of a list concerns those panes only.
pub proof fn lemma_reconcile_panes(s: StateView, panes: Seq<PaneInfoView>, n: int, other: PaneRef)
    requires
        distinct_keys(s.pane_entries),
        distinct_keys(s.pane_restores),
    ensures
        distinct_keys(reconcile_panes(s, panes, n).0.pane_entries),
        distinct_keys(reconcile_panes(s, panes, n).0.pane_restores),
        !looked_at_among(panes, other, n) ==> lookup(
            reconcile_panes(s, panes, n).0.pane_entries,
            other,
        ) == lookup(s.pane_entries, other) && lookup(
            reconcile_panes(s, panes, n).0.pane_restores,
            other,
        ) == lookup(s.pane_restores, other),
    decreases n,
{
    if 0 < n <= panes.len() {
        lemma_reconcile_panes(s, panes, n - 1, other);
        let before = reconcile_panes(s, panes, n - 1).0;
        lemma_reconcile_pane(before, panes[n - 1], other);
        if !looked_at_among(panes, other, n) {
            assert(!(panes[n - 1].is_focused && panes[n - 1].pane_ref() == other));
            assert(!looked_at_among(panes, other, n - 1)) by {
                if looked_at_among(panes, other, n - 1) {
                    let k = choose|k: int|
                        0 <= k < n - 1 && k < panes.len() && (#[trigger] panes[k]).is_focused
                            && panes[k].pane_ref() == other;
                    assert(0 <= k < n && panes[k].is_focused);
                }
            }
        }
    }
}

/// Looking at the focused panes of a manifest concerns those panes only.
pub proof fn lemma_reconcile_manifest(s: StateView, m: Seq<TabPanesView>, n: int, other: PaneRef)
    requires
        distinct_keys(s.pane_entries),
        distinct_keys(s.pane_restores),
    ensures
        distinct_keys(reconcile_manifest(s, m, n).0.pane_entries),
        distinct_keys(reconcile_manifest(s, m, n).0.pane_restores),
        !looked_at(m, other, n) ==> lookup(reconcile_manifest(s, m, n).0.pane_entries, other)
            == lookup(s.pane_entries, other) && lookup(
            reconcile_manifest(s, m, n).0.pane_restores,
            other,
        ) == lookup(s.pane_restores, other),
    decreases n,
{
    if 0 < n <= m.len() {
        lemma_reconcile_manifest(s, m, n - 1, other);
        let before = reconcile_manifest(s, m, n - 1).0;
        lemma_reconcile_panes(before, m[n - 1].panes, m[n - 1].panes.len() as int, other);
        if !looked_at(m, other, n) {
            assert(!looked_at_among(m[n - 1].panes, other, m[n - 1].panes.len() as int));
            assert(!looked_at(m, other, n - 1)) by {
                if looked_at(m, other, n - 1) {
                    let t = choose|t: int|
                        0 <= t < n - 1 && t < m.len() && looked_at_among(
                            (#[trigger] m[t]).panes,
                            other,
                            m[t].panes.len() as int,
                        );
                    assert(0 <= t < n);
                }
            }
        }
    }
}

/// A pane that a manifest shows focused is a pane that the manifest shows.
pub proof fn lemma_looked_at_is_present(m: Seq<TabPanesView>, pane: PaneRef)
    requires
        looked_at(m, pane, m.len() as int),
    ensures
        pane_present(m, pane),
{
    let q = PaneQuery::Is(pane);
    let t = choose|t: int|
        0 <= t < m.len() && t < m.len() && looked_at_among(
            (#[trigger] m[t]).panes,
            pane,
            m[t].panes.len() as int,
        );
    let panes = m[t].panes;
    let k = choose|k: int|
        0 <= k < panes.len() && k < panes.len() && (#[trigger] panes[k]).is_focused
            && panes[k].pane_ref() == pane;
    assert(q.admits(panes[k]));
    lemma_first_pane(panes, q, 0);
    assert(holds_pane(panes, q));
    lemma_first_tab_holding(m, q, 0);
}

/// Once a manifest has been taken in, a pane that it does not show has no
/// entry and no restore waiting.
pub proof fn law_vanished_pane_is_forgotten(s: StateView, m: Seq<TabPanesView>, pane: PaneRef)
    requires
        distinct_keys(s.pane_entries),
        distinct_keys(s.pane_restores),
        !pane_present(m, pane),
    ensures
        lookup(after_pane_update(s, m).0.pane_entries, pane) is None,
        lookup(after_pane_update(s, m).0.pane_restores, pane) is None,
{
    let taken = with_manifest(s, m);
    lemma_keep(s.pane_entries, shown_panes(m), pane);
    lemma_keep(s.pane_restores, shown_panes(m), pane);
    if looked_at(m, pane, m.len() as int) {
        lemma_looked_at_is_present(m, pane);
    }
    lemma_reconcile_manifest(taken, m, m.len() as int, pane);
}

/// Taking a manifest in leaves the entry and the waiting restore of every
/// pane that it shows without focus as they were.
pub proof fn law_unfocused_pane_is_untouched(s: StateView, m: Seq<TabPanesView>, pane: PaneRef)
    requires
        distinct_keys(s.pane_entries),
        distinct_keys(s.pane_restores),
        pane_present(m, pane),
        !looked_at(m, pane, m.len() as int),
    ensures
        lookup(after_pane_update(s, m).0.pane_entries, pane) == lookup(s.pane_entries, pane),
        lookup(after_pane_update(s, m).0.pane_restores, pane) == lookup(s.pane_restores, pane),
{
    let taken = with_manifest(s, m);
    lemma_keep(s.pane_entries, shown_panes(m), pane);
    lemma_keep(s.pane_restores, shown_panes(m), pane);
    lemma_reconcile_manifest(taken, m, m.len() as int, pane);
}

/// Looking at an active tab concerns the position of that tab only.
pub proof fn lemma_reconcile_tab(s: StateView, tab: TabInfoView, other: usize)
    requires
        distinct_keys(s.tab_entries),
        distinct_keys(s.tab_restores),
    ensures
        distinct_keys(reconcile_tab(s, tab).tab_entries),
        distinct_keys(reconcile_tab(s, tab).tab_restores),
        other != tab.position ==> lookup(reconcile_tab(s, tab).tab_entries, other) == lookup(
            s.tab_entries,
            other,
        ) && lookup(reconcile_tab(s, tab).tab_restores, other) == lookup(s.tab_restores, other),
{
    let p = tab.position;
    let restore = RestoreView {
        title: wanted_title(entry_of(lookup(s.tab_entries, p)), tab.name),
        anchor_pane_id: anchor_of_tab(s.manifest, s.tabs, p),
    };
    lemma_put(s.tab_restores, p, restore, other);
    lemma_without(s.tab_entries, p, other);
    match lookup(s.tab_entries, p) {
        Some(t) => match reconciled(t.entry, tab.name) {
            Some(next) => {
                lemma_put(
                    s.tab_entries,
                    p,
                    TabEntryView { entry: next, anchor_pane_id: t.anchor_pane_id },
                    other,
                );
            },
            None => {},
        },
        None => {},
    }
}

/// One of the first `n` tabs of the list is active and stands at
/// `position`.
pub open spec fn active_among(tabs: Seq<TabInfoView>, position: usize, n: int) -> bool {
    exists|k: int|
        0 <= k < n && k < tabs.len() && (#[trigger] tabs[k]).active && tabs[k].position
            == position
}

/// Looking at the active tabs of a list concerns their positions only.
pub proof fn lemma_reconcile_tabs(s: StateView, tabs: Seq<TabInfoView>, n: int, other: usize)
    requires
        distinct_keys(s.tab_entries),
        distinct_keys(s.tab_restores),
    ensures
        distinct_keys(reconcile_tabs(s, tabs, n).0.tab_entries),
        distinct_keys(reconcile_tabs(s, tabs, n).0.tab_restores),
        !active_among(tabs, other, n) ==> lookup(reconcile_tabs(s, tabs, n).0.tab_entries, other)
            == lookup(s.tab_entries, other) && lookup(
            reconcile_tabs(s, tabs, n).0.tab_restores,
            other,
        ) == lookup(s.tab_restores, other),
    decreases n,
{
    if 0 < n <= tabs.len() {
        lemma_reconcile_tabs(s, tabs, n - 1, other);
        let before = reconcile_tabs(s, tabs, n - 1).0;
        lemma_reconcile_tab(before, tabs[n - 1], other);
        if !active_among(tabs, other, n) {
            assert(!(tabs[n - 1].active && tabs[n - 1].position == other));
            assert(!active_among(tabs, other, n - 1)) by {
                if active_among(tabs, other, n - 1) {
                    let k = choose|k: int|
                        0 <= k < n - 1 && k < tabs.len() && (#[trigger] tabs[k]).active
                            && tabs[k].position == other;
                    assert(0 <= k < n && tabs[k].active);
                }
            }
        }
    }
}

/// Once a tab list has been taken in, a position that it does not show has
/// no entry and no restore waiting.
pub proof fn law_vanished_tab_is_forgotten(s: StateView, tabs: Seq<TabInfoView>, position: usize)
    requires
        distinct_keys(s.tab_entries),
        distinct_keys(s.tab_restores),
        !has_tab(tabs, position),
    ensures
        lookup(after_tab_update(s, tabs).0.tab_entries, position) is None,
        lookup(after_tab_update(s, tabs).0.tab_restores, position) is None,
{
    let taken = with_tabs(s, tabs);
    lemma_keep(s.tab_entries, shown_tabs(tabs), position);
    lemma_keep(s.tab_restores, shown_tabs(tabs), position);
    lemma_first_tab_at(tabs, position, 0);
    lemma_reconcile_tabs(taken, tabs, tabs.len() as int, position);
}

/// Taking a tab list in leaves the entry and the waiting restore of every
/// position that it shows without activity as they were.
pub proof fn law_inactive_tab_is_untouched(s: StateView, tabs: Seq<TabInfoView>, position: usize)
    requires
        distinct_keys(s.tab_entries),
        distinct_keys(s.tab_restores),
        has_tab(tabs, position),
        !active_among(tabs, position, tabs.len() as int),
    ensures
        lookup(after_tab_update(s, tabs).0.tab_entries, position) == lookup(
            s.tab_entries,
            position,
        ),
        lookup(after_tab_update(s, tabs).0.tab_restores, position) == lookup(
            s.tab_restores,
            position,
        ),
{
    let taken = with_tabs(s, tabs);
    lemma_keep(s.tab_entries, shown_tabs(tabs), position);
    lemma_keep(s.tab_restores, shown_tabs(tabs), position);
    lemma_reconcile_tabs(taken, tabs, tabs.len() as int, position);
}

/// Looking at a focused pane uses a temporary entry up, if the title shows
/// no pinned segment and the decoration holds none: the entry is gone, and
/// where the title is not the original yet, the original waits as the
/// pane's restore.
pub proof fn law_temporary_entry_is_used_up(s: StateView, pane: PaneInfoView)
    requires
        distinct_keys(s.pane_entries),
        distinct_keys(s.pane_restores),
        lookup(s.pane_entries, pane.pane_ref()) is Some,
        lookup(s.pane_entries, pane.pane_ref())->0.mode == Mode::Temp,
        cleaned_title(lookup(s.pane_entries, pane.pane_ref())->0.original_title, pane.title)
            == lookup(s.pane_entries, pane.pane_ref())->0.original_title,
        pinned_segments(lookup(s.pane_entries, pane.pane_ref())->0.emojis).len() == 0,
    ensures
        lookup(reconcile_pane(s, pane).pane_entries, pane.pane_ref()) is None,
        pane.title != lookup(s.pane_entries, pane.pane_ref())->0.original_title ==> lookup(
            reconcile_pane(s, pane).pane_restores,
            pane.pane_ref(),
        ) == Some(lookup(s.pane_entries, pane.pane_ref())->0.original_title),
        pane.title == lookup(s.pane_entries, pane.pane_ref())->0.original_title ==> lookup(
            reconcile_pane(s, pane).pane_restores,
            pane.pane_ref(),
        ) == lookup(s.pane_restores, pane.pane_ref()),
{
    let r = pane.pane_ref();
    let e = lookup(s.pane_entries, r)->0;
    lemma_without(s.pane_entries, r, r);
    lemma_put(s.pane_restores, r, e.original_title, r);
    let prefix = e.original_title + delimiter();
    assert(prefix.len() == e.original_title.len() + 3);
}

/// The renames that `drained` gives hold the rename of every restore that
/// goes somewhere.
pub proof fn lemma_drained(
    manifest: Option<Seq<TabPanesView>>,
    tabs: Seq<TabInfoView>,
    restores: Seq<(usize, RestoreView)>,
    n: int,
    i: int,
)
    requires
        0 <= i < n <= restores.len(),
        drain_target(manifest, tabs, restores[i].0, restores[i].1.anchor_pane_id) is Some,
    ensures
        drained(manifest, tabs, restores, n).contains(
            (
                drain_target(manifest, tabs, restores[i].0, restores[i].1.anchor_pane_id)->0,
                restores[i].1.title,
            ),
        ),
    decreases n,
{
    let before = drained(manifest, tabs, restores, n - 1);
    let all = drained(manifest, tabs, restores, n);
    let item = (
        drain_target(manifest, tabs, restores[i].0, restores[i].1.anchor_pane_id)->0,
        restores[i].1.title,
    );
    if i == n - 1 {
        assert(all == before.push(item));
        assert(all[before.len() as int] == item);
    } else {
        lemma_drained(manifest, tabs, restores, n - 1, i);
        let k = choose|k: int| 0 <= k < before.len() && before[k] == item;
        if drain_target(
            manifest,
            tabs,
            restores[n - 1].0,
            restores[n - 1].1.anchor_pane_id,
        ) is Some {
            assert(all[k] == before[k]);
        }
    }
}

/// The restores that `undrained` keeps are those that go nowhere yet, under
/// the positions they were filed under.
pub proof fn lemma_undrained(
    manifest: Option<Seq<TabPanesView>>,
    tabs: Seq<TabInfoView>,
    restores: Seq<(usize, RestoreView)>,
    n: int,
    position: usize,
)
    requires
        0 <= n <= restores.len(),
        distinct_keys(restores),
    ensures
        distinct_keys(undrained(manifest, tabs, restores, n)),
        match lookup(undrained(manifest, tabs, restores, n), position) {
            Some(r) => exists|i: int|
                0 <= i < n && #[trigger] restores[i] == (position, r) && drain_target(
                    manifest,
                    tabs,
                    position,
                    r.anchor_pane_id,
                ) is None,
            None => forall|i: int|
                0 <= i < n && (#[trigger] restores[i]).0 == position ==> drain_target(
                    manifest,
                    tabs,
                    position,
                    restores[i].1.anchor_pane_id,
                ) is Some,
        },
    decreases n,
{
    if n > 0 {
        let before = undrained(manifest, tabs, restores, n - 1);
        let last = restores[n - 1];
        lemma_undrained(manifest, tabs, restores, n - 1, position);
        lemma_undrained(manifest, tabs, restores, n - 1, last.0);
        lemma_put(before, last.0, last.1, position);
        if lookup(before, last.0) is Some {
            let i = choose|i: int|
                0 <= i < n - 1 && #[trigger] restores[i] == (last.0, lookup(before, last.0)->0);
            assert(restores[i].0 != restores[n - 1].0);
        }
        if drain_target(manifest, tabs, last.0, last.1.anchor_pane_id) is None {
            if position == last.0 {
                assert(restores[n - 1] == (position, last.1));
            } else {
                match lookup(before, position) {
                    Some(r) => {
                        let i = choose|i: int|
                            0 <= i < n - 1 && #[trigger] restores[i] == (position, r)
                                && drain_target(manifest, tabs, position, r.anchor_pane_id) is None;
                        assert(0 <= i < n && restores[i] == (position, r));
                    },
                    None => {},
                }
            }
        } else {
            match lookup(before, position) {
                Some(r) => {
                    let i = choose|i: int|
                        0 <= i < n - 1 && #[trigger] restores[i] == (position, r) && drain_target(
                            manifest,
                            tabs,
                            position,
                            r.anchor_pane_id,
                        ) is None;
                    assert(0 <= i < n && restores[i] == (position, r));
                },
                None => {},
            }
        }
    }
}

/// A waiting tab restore whose anchor pane is not found goes to the
/// position it was filed under, if the tab list still has that position.
pub proof fn law_restore_falls_back_to_its_position(
    manifest: Option<Seq<TabPanesView>>,
    tabs: Seq<TabInfoView>,
    restores: Seq<(usize, RestoreView)>,
    i: int,
)
    requires
        0 <= i < restores.len(),
        restores[i].1.anchor_pane_id matches Some(a) ==> resolve_tab(manifest, tabs, a) is None,
        has_tab(tabs, restores[i].0),
    ensures
        drained(manifest, tabs, restores, restores.len() as int).contains(
            (restores[i].0, restores[i].1.title),
        ),
{
    lemma_drained(manifest, tabs, restores, restores.len() as int, i);
}

/// No waiting tab restore is lost: each one is handed out with the position
/// it goes to, or is kept under the position it was filed under.
pub proof fn law_no_restore_is_lost(
    manifest: Option<Seq<TabPanesView>>,
    tabs: Seq<TabInfoView>,
    restores: Seq<(usize, RestoreView)>,
    i: int,
)
    requires
        0 <= i < restores.len(),
        distinct_keys(restores),
    ensures
        match drain_target(manifest, tabs, restores[i].0, restores[i].1.anchor_pane_id) {
            Some(t) => drained(manifest, tabs, restores, restores.len() as int).contains(
                (t, restores[i].1.title),
            ),
            None => lookup(
                undrained(manifest, tabs, restores, restores.len() as int),
                restores[i].0,
            ) == Some(restores[i].1),
        },
{
    let n = restores.len() as int;
    if drain_target(manifest, tabs, restores[i].0, restores[i].1.anchor_pane_id) is Some {
        lemma_drained(manifest, tabs, restores, n, i);
    } else {
        lemma_undrained(manifest, tabs, restores, n, restores[i].0);
        match lookup(undrained(manifest, tabs, restores, n), restores[i].0) {
            Some(r) => {
                let j = choose|j: int|
                    0 <= j < n && #[trigger] restores[j] == (restores[i].0, r) && drain_target(
                        manifest,
                        tabs,
                        restores[i].0,
                        r.anchor_pane_id,
                    ) is None;
                if j != i {
                    if j < i {
                        assert(restores[j].0 != restores[i].0);
                    } else {
                        assert(restores[i].0 != restores[j].0);
                    }
                }
            },
            None => {
                assert(restores[i].0 == restores[i].0);
            },
        }
    }
}

/// Text put in front moves every occurrence by the length of that text.
pub proof fn lemma_find_behind(front: Seq<char>, s: Seq<char>, pat: Seq<char>, from: int)
    requires
        0 <= from,
    ensures
        find(front + s, pat, front.len() + from) == match find(s, pat, from) {
            Some(i) => Some(front.len() + i),
            None => None,
        },
    decreases s.len() - from,
{
    let all = front + s;
    let n = front.len() as int;
    if from + pat.len() <= s.len() {
        assert(all.subrange(n + from, n + from + pat.len()) =~= s.subrange(from, from + pat.len()));
        if !occurs_at(s, pat, from) && from < s.len() {
            lemma_find_behind(front, s, pat, from + 1);
        }
    }
}

/// Text put in front does not change the pieces behind it.
pub proof fn lemma_split_behind(front: Seq<char>, s: Seq<char>, pat: Seq<char>, from: int)
    requires
        0 <= from <= s.len(),
    ensures
        split_from(front + s, pat, front.len() + from) == split_from(s, pat, from),
    decreases s.len() - from,
{
    let all = front + s;
    let n = front.len() as int;
    lemma_find_behind(front, s, pat, from);
    assert(all.subrange(n + from, all.len() as int) =~= s.subrange(from, s.len() as int));
    match find(s, pat, from) {
        Some(i) => {
            lemma_find_some(s, pat, from);
            if pat.len() > 0 {
                assert(all.subrange(n + from, n + i) =~= s.subrange(from, i));
                lemma_split_behind(front, s, pat, i + pat.len());
            }
        },
        None => {},
    }
}

/// The pinned segments among two lists of pieces are those of the first
/// list, then those of the second.
pub proof fn lemma_pinned_among(a: Seq<Seq<char>>, b: Seq<Seq<char>>)
    ensures
        pinned_among(a + b) == pinned_among(a) + pinned_among(b),
    decreases b.len(),
{
    if b.len() == 0 {
        assert(a + b =~= a);
        assert(pinned_among(a) + pinned_among(b) =~= pinned_among(a));
    } else {
        lemma_pinned_among(a, b.drop_last());
        assert((a + b).drop_last() =~= a + b.drop_last());
        assert((a + b).last() == b.last());
        assert(pinned_among(a + b) =~= pinned_among(a) + pinned_among(b));
    }
}

/// Cleaning a title that carries a decoration without pinned segments
/// gives the original.
pub proof fn lemma_plain_decoration_is_cleaned(original: Seq<char>, emojis: Seq<char>)
    requires
        pinned_segments(emojis).len() == 0,
    ensures
        cleaned_title(original, decorated(original, emojis)) == original,
        decorated(original, emojis) != original,
{
    let d = delimiter();
    let title = decorated(original, emojis);
    let n = original.len() as int;
    assert(title.subrange(0, n) =~= original);
    let rest = title.skip(n);
    assert(rest =~= d + emojis);
    assert(rest.subrange(0, 3) =~= d);
    lemma_find_is(rest, d, 0, 0);
    lemma_split_behind(d, emojis, d, 0);
    let first = seq![rest.subrange(0, 0)];
    assert(split(rest, d) == first + split(emojis, d));
    lemma_pinned_among(first, split(emojis, d));
    assert(first.drop_last() =~= Seq::<Seq<char>>::empty());
    assert(trim(first.last()).len() == 0) by {
        lemma_skip_space_bounds(first.last(), 0);
        lemma_skip_space_back_bounds(first.last(), 0, 0);
    }
    assert(pinned_among(first.drop_last()) =~= Seq::<Seq<char>>::empty());
    assert(!is_pinned(trim(first.last())));
    assert(pinned_among(first) =~= Seq::<Seq<char>>::empty());
    assert(title.len() == n + 3 + emojis.len());
}

/// A temporary entry whose pane is focused while its title is the original
/// with the entry's decoration, none of it pinned, is used up: the entry is
/// gone and the original waits as the pane's restore.
pub proof fn law_temporary_decoration_is_stripped(s: StateView, pane: PaneInfoView)
    requires
        distinct_keys(s.pane_entries),
        distinct_keys(s.pane_restores),
        lookup(s.pane_entries, pane.pane_ref()) is Some,
        lookup(s.pane_entries, pane.pane_ref())->0.mode == Mode::Temp,
        pinned_segments(lookup(s.pane_entries, pane.pane_ref())->0.emojis).len() == 0,
        pane.title == decorated(
            lookup(s.pane_entries, pane.pane_ref())->0.original_title,
            lookup(s.pane_entries, pane.pane_ref())->0.emojis,
        ),
    ensures
        lookup(reconcile_pane(s, pane).pane_entries, pane.pane_ref()) is None,
        lookup(reconcile_pane(s, pane).pane_restores, pane.pane_ref()) == Some(
            lookup(s.pane_entries, pane.pane_ref())->0.original_title,
        ),
{
    let e = lookup(s.pane_entries, pane.pane_ref())->0;
    lemma_plain_decoration_is_cleaned(e.original_title, e.emojis);
    law_temporary_entry_is_used_up(s, pane);
}

} // verus!
