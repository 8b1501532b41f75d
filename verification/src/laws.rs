//! Laws that relate several operations.
use crate::config::AppWorkspaceRule;
use crate::ids::{SpaceId, WindowId, WindowServerId};
use crate::manager_state::{Direction, ManagerView};
use crate::rules::WindowTraits;
use crate::window::Frame;
use crate::window_registry::{RegistryView, WindowRecord, WindowServerRecord};
use crate::workspace_id::VirtualWorkspaceId;
use vstd::prelude::*;

verus! {

/// What is recorded of a window is read back, and nothing changes of others.
pub proof fn law_window_record_read_back(
    v: RegistryView,
    w: WindowId,
    record: WindowRecord,
    other: WindowId,
)
    requires
        other != w,
    ensures
        v.put_window(w, record).window(w) == record,
        v.settle_window(w, record).window(w) == record,
        v.put_window(w, record).window(other) == v.window(other),
        v.settle_window(w, record).window(other) == v.window(other),
        v.put_window(w, record).servers == v.servers,
        v.settle_window(w, record).servers == v.servers,
{
}

/// What is recorded of a window of the window server is read back, and nothing
/// changes of others.
pub proof fn law_server_record_read_back(
    v: RegistryView,
    s: WindowServerId,
    record: WindowServerRecord,
    other: WindowServerId,
)
    requires
        other != s,
    ensures
        v.put_server(s, record).server(s) == record,
        v.settle_server(s, record).server(s) == record,
        v.put_server(s, record).server(other) == v.server(other),
        v.settle_server(s, record).server(other) == v.server(other),
        v.put_server(s, record).windows == v.windows,
        v.settle_server(s, record).windows == v.windows,
{
}

/// A record is kept exactly as long as it says something.
pub proof fn law_records_that_say_nothing_are_dropped(
    v: RegistryView,
    s: WindowServerId,
    w: WindowId,
    server: WindowServerRecord,
    window: WindowRecord,
)
    ensures
        v.settle_server(s, server).servers.contains_key(s) <==> server
            != WindowServerRecord::blank(),
        v.settle_window(w, window).windows.contains_key(w) <==> window != WindowRecord::blank(),
{
}

/// A record that gives only a space is kept, and is dropped when the space is
/// cleared.
pub proof fn law_space_alone_keeps_a_record(v: RegistryView, s: WindowServerId, space: SpaceId)
    requires
        v.server(s) == WindowServerRecord::blank(),
    ensures
        ({
            let set = v.settle_server(
                s,
                WindowServerRecord { space: Some(space), ..v.server(s) },
            );
            let cleared = set.settle_server(s, WindowServerRecord { space: None, ..set.server(s) });
            &&& set.servers.contains_key(s)
            &&& set.server(s).space == Some(space)
            &&& !cleared.servers.contains_key(s)
            &&& cleared.server(s).space is None
        }),
{
}

/// No server record says nothing.
pub open spec fn server_records_speak(v: RegistryView) -> bool {
    forall|s: WindowServerId| #[trigger]
        v.servers.contains_key(s) ==> v.servers[s] != WindowServerRecord::blank()
}

/// No operation on server records leaves a record that says nothing.
pub proof fn law_server_records_always_speak(
    v: RegistryView,
    s: WindowServerId,
    record: WindowServerRecord,
    wsids: Seq<WindowServerId>,
    f: spec_fn(WindowServerRecord) -> WindowServerRecord,
    gone: Set<WindowId>,
)
    requires
        server_records_speak(v),
    ensures
        server_records_speak(RegistryView::empty()),
        server_records_speak(v.settle_server(s, record)),
        server_records_speak(v.settle_servers(f)),
        server_records_speak(v.without_windows(gone)),
        record != WindowServerRecord::blank() ==> server_records_speak(v.put_server(s, record)),
        (forall|r: WindowServerRecord| #[trigger] f(r) != WindowServerRecord::blank())
            ==> server_records_speak(v.put_servers(wsids, f)),
{
    assert forall|x: WindowServerId| #[trigger]
        v.settle_server(s, record).servers.contains_key(x) implies v.settle_server(
        s,
        record,
    ).servers[x] != WindowServerRecord::blank() by {
        assert(x == s || v.servers.contains_key(x));
    }
    assert forall|x: WindowServerId| #[trigger]
        v.without_windows(gone).servers.contains_key(x) implies v.without_windows(gone).servers[x]
        != WindowServerRecord::blank() by {
        assert(v.servers.contains_key(x));
    }
    assert forall|x: WindowServerId| record != WindowServerRecord::blank() && #[trigger] v.put_server(
        s,
        record,
    ).servers.contains_key(x) implies v.put_server(s, record).servers[x]
        != WindowServerRecord::blank() by {
        assert(x == s || v.servers.contains_key(x));
    }
    if forall|r: WindowServerRecord| #[trigger] f(r) != WindowServerRecord::blank() {
        assert forall|x: WindowServerId| #[trigger]
            v.put_servers(wsids, f).servers.contains_key(x) implies v.put_servers(wsids, f).servers[x]
            != WindowServerRecord::blank() by {
            assert(wsids.contains(x) || v.servers.contains_key(x));
        }
    }
}

/// Once all windows have been marked hidden, none is visible, and nothing else
/// that is known of them has changed.
pub proof fn law_cleared_windows_are_hidden(v: RegistryView, s: WindowServerId)
    ensures
        ({
            let next = v.settle_servers(
                |r: WindowServerRecord| WindowServerRecord { visible: false, ..r },
            );
            &&& next.shown() == Set::<WindowServerId>::empty()
            &&& next.server(s) == (WindowServerRecord { visible: false, ..v.server(s) })
            &&& next.windows == v.windows
        }),
{
    let hide = |r: WindowServerRecord| WindowServerRecord { visible: false, ..r };
    assert(v.settle_servers(hide).shown() =~= Set::empty());
}

/// Forgetting the sightings that have expired changes nothing about which
/// windows are recent, and nothing else that is known of them.
pub proof fn law_purge_keeps_recent_sightings(
    v: RegistryView,
    s: WindowServerId,
    ttl_ms: u64,
    now: std::time::Instant,
)
    ensures
        ({
            let next = v.settle_servers(crate::window_registry::purged_at(now, ttl_ms));
            &&& next.is_recent(s, ttl_ms, now) == v.is_recent(s, ttl_ms, now)
            &&& next.server(s).recent_at is Some ==> next.is_recent(s, ttl_ms, now)
            &&& next.server(s) == (WindowServerRecord {
                recent_at: next.server(s).recent_at,
                ..v.server(s)
            })
        }),
{
}

/// A window that is removed from the registry is forgotten: nothing is known of
/// it, and no window of the window server stands for it.
pub proof fn law_removed_window_is_forgotten(v: RegistryView, w: WindowId, s: WindowServerId)
    ensures
        v.without_windows(set![w]).window(w) == WindowRecord::blank(),
        v.without_windows(set![w]).server(s).window_id != Some(w),
        v.server(s).window_id != Some(w) ==> v.without_windows(set![w]).server(s) == v.server(s),
{
}

/// After the assignments to a space have been moved to another, none is left
/// to the first, and those to a third are as they were.
pub proof fn law_registry_remap_moves_assignments(
    v: RegistryView,
    old_space: SpaceId,
    new_space: SpaceId,
    third: SpaceId,
    w: WindowId,
)
    requires
        old_space != new_space,
        third != old_space,
        third != new_space,
    ensures
        ({
            let next = v.with_space_renamed(old_space, new_space);
            &&& next.workspace_in(old_space, w) is None
            &&& v.workspace_in(old_space, w) is Some ==> next.workspace_in(new_space, w)
                == v.workspace_in(old_space, w)
            &&& v.workspace_in(old_space, w) is None ==> next.workspace_in(new_space, w)
                == v.workspace_in(new_space, w)
            &&& next.workspace_in(third, w) == v.workspace_in(third, w)
        }),
{
}

/// A rule that applies to a window is one of the rules and is met by it, and
/// some rule applies if any is met.
pub proof fn law_rule_applies_if_any_is_met(rules: Seq<AppWorkspaceRule>, t: WindowTraits)
    ensures
        match crate::rules::rule_for(rules, t) {
            Some(rule) => rules.contains(rule) && crate::rules::rule_met(rule, t),
            None => forall|i: int|
                0 <= i < rules.len() ==> !crate::rules::rule_met(#[trigger] rules[i], t),
        },
{
    let met = crate::rules::met_by(rules, t);
    match crate::rules::rule_for(rules, t) {
        Some(rule) => {
            let i = choose|i: int| #[trigger] crate::rules::applies(rules, met, i);
            assert(rules[i] == rule && met[i]);
        },
        None => {
            assert forall|i: int| 0 <= i < rules.len() implies !crate::rules::rule_met(
                #[trigger] rules[i],
                t,
            ) by {
                if crate::rules::rule_met(rules[i], t) {
                    assert(met[i]);
                    crate::rules::lemma_some_rule_applies(rules, met, i);
                }
            }
        },
    }
}

/// Where no two rules that are met are for the same app, no rule that is met is
/// more specific than the one that applies, and none before it is as specific.
pub proof fn law_most_specific_rule_applies(
    rules: Seq<AppWorkspaceRule>,
    t: WindowTraits,
    i: int,
    j: int,
)
    requires
        crate::rules::applies(rules, crate::rules::met_by(rules, t), i),
        forall|k: int| !#[trigger] crate::rules::leads(rules, crate::rules::met_by(rules, t), k),
        0 <= j < rules.len(),
        crate::rules::rule_met(rules[j], t),
    ensures
        crate::rules::specificity(rules[j]) <= crate::rules::specificity(rules[i]),
        j < i ==> crate::rules::specificity(rules[j]) < crate::rules::specificity(rules[i]),
{
    let met = crate::rules::met_by(rules, t);
    assert(met[j]);
    assert(crate::rules::in_question(rules, met, j));
    assert(crate::rules::preferred(rules, i, j));
}

/// Where several rules that are met are for the same app, the rule that applies
/// is for an app with several of them.
pub proof fn law_rivals_are_settled_first(
    rules: Seq<AppWorkspaceRule>,
    t: WindowTraits,
    i: int,
    leader: int,
)
    requires
        crate::rules::applies(rules, crate::rules::met_by(rules, t), i),
        crate::rules::leads(rules, crate::rules::met_by(rules, t), leader),
    ensures
        crate::rules::app_of(rules[i]) == crate::rules::app_of(rules[leader]),
        crate::rules::app_of(rules[i]) is Some,
        crate::rules::specificity(rules[leader]) <= crate::rules::specificity(rules[i]),
{
    let met = crate::rules::met_by(rules, t);
    assert(crate::rules::in_question(rules, met, i));
    assert(crate::rules::in_question(rules, met, leader)) by {
        assert forall|k: int| #[trigger] crate::rules::leads(rules, met, k) implies k == leader by {
            assert(crate::rules::has_rival(rules, met, k));
            assert(crate::rules::has_rival(rules, met, leader));
        }
    }
    assert(crate::rules::preferred(rules, i, leader));
}

/// Going one step on and one step back leads back, in either direction.
pub proof fn law_steps_are_undone(
    m: ManagerView,
    space: SpaceId,
    current: VirtualWorkspaceId,
    dir: Direction,
    back: Direction,
    occupied: bool,
)
    requires
        m.ids_of(space).no_duplicates(),
        dir != back,
        occupied ==> m.filtered(space, true).contains(current),
        !occupied ==> m.ids_of(space).contains(current),
    ensures
        ({
            let next = m.stepped_from(space, current, occupied, dir);
            &&& next is Some
            &&& m.stepped_from(space, next->0, occupied, back) == Some(current)
        }),
{
    let base = if occupied {
        m.filtered(space, true)
    } else {
        m.ids_of(space)
    };
    if occupied {
        lemma_filter_no_duplicates(m.ids_of(space), m.can_be_stepped_to(true));
    }
    assert(base.no_duplicates());
    let p = choose|i: int| 0 <= i < base.len() && base[i] == current;
    assert(crate::manager_state::first_at(base, current, p));
    let chosen = choose|i: int| #[trigger] crate::manager_state::first_at(base, current, i);
    crate::manager_state::lemma_first_at(base, current, p, chosen);
    let q = dir.stepped(p as nat, base.len()) as int;
    let next = base[q];
    assert(crate::manager_state::first_at(base, next, q));
    let chosen_next = choose|i: int| #[trigger] crate::manager_state::first_at(base, next, i);
    crate::manager_state::lemma_first_at(base, next, q, chosen_next);
}

proof fn lemma_filter_no_duplicates(
    ids: Seq<VirtualWorkspaceId>,
    p: spec_fn(VirtualWorkspaceId) -> bool,
)
    requires
        ids.no_duplicates(),
    ensures
        ids.filter(p).no_duplicates(),
        forall|id: VirtualWorkspaceId| #[trigger] ids.filter(p).contains(id) ==> ids.contains(id),
    decreases ids.len(),
{
    reveal(Seq::filter);
    if ids.len() > 0 {
        let before = ids.drop_last();
        lemma_filter_no_duplicates(before, p);
        assert(ids =~= before.push(ids.last()));
        crate::id_map::lemma_contains_push(before, ids.last());
        crate::id_map::lemma_contains_push(before.filter(p), ids.last());
        assert(!before.contains(ids.last()));
    }
}

/// A step goes to a workspace of the same space; one that skips empty
/// workspaces goes to one with windows.
pub proof fn law_steps_stay_in_the_space(
    m: ManagerView,
    space: SpaceId,
    current: VirtualWorkspaceId,
    dir: Direction,
    occupied: bool,
)
    ensures
        match m.stepped_from(space, current, occupied, dir) {
            Some(next) => {
                &&& m.ids_of(space).contains(next)
                &&& occupied ==> m.workspaces.contains_key(next)
                    && m.workspaces[next].windows.len() > 0
            },
            None => true,
        },
{
    let p_occupied = m.can_be_stepped_to(true);
    let p_existing = m.can_be_stepped_to(false);
    let ids = m.ids_of(space);
    let base = if occupied {
        m.filtered(space, true)
    } else {
        ids
    };
    let existing = m.filtered(space, false);
    if base.contains(current) {
        let k = choose|k: int| 0 <= k < base.len() && base[k] == current;
        lemma_has_first(base, current, k);
        let p = choose|i: int| #[trigger] crate::manager_state::first_at(base, current, i);
        let next = base[dir.stepped(p as nat, base.len()) as int];
        assert(base.contains(next));
        if occupied {
            ids.lemma_filter_contains_rev(p_occupied, next);
            let q = choose|q: int| 0 <= q < base.len() && base[q] == next;
            ids.lemma_filter_pred(p_occupied, q);
        }
    } else if base.len() > 0 && existing.contains(current) {
        let k = choose|k: int| 0 <= k < existing.len() && existing[k] == current;
        lemma_has_first(existing, current, k);
        let p = choose|i: int| #[trigger] crate::manager_state::first_at(existing, current, i);
        let q = dir.stepped(p as nat, existing.len());
        assert forall|id: VirtualWorkspaceId| existing.contains(id) implies ids.contains(id) by {
            ids.lemma_filter_contains_rev(p_existing, id);
        }
        if occupied {
            lemma_next_occupied(m, existing, q, dir, existing.len());
        } else {
            assert(existing.contains(existing[q as int]));
        }
    }
}

proof fn lemma_has_first(ids: Seq<VirtualWorkspaceId>, id: VirtualWorkspaceId, k: int)
    requires
        0 <= k < ids.len(),
        ids[k] == id,
    ensures
        exists|i: int| #[trigger] crate::manager_state::first_at(ids, id, i),
    decreases k,
{
    if exists|j: int| 0 <= j < k && #[trigger] ids[j] == id {
        let j = choose|j: int| 0 <= j < k && #[trigger] ids[j] == id;
        lemma_has_first(ids, id, j);
    } else {
        assert(crate::manager_state::first_at(ids, id, k));
    }
}

proof fn lemma_next_occupied(
    m: ManagerView,
    list: Seq<VirtualWorkspaceId>,
    i: nat,
    dir: Direction,
    n: nat,
)
    requires
        i < list.len(),
    ensures
        match m.next_occupied(list, i, dir, n) {
            Some(next) => list.contains(next) && m.workspaces.contains_key(next)
                && m.workspaces[next].windows.len() > 0,
            None => true,
        },
    decreases n,
{
    if n > 0 {
        assert(list.contains(list[i as int]));
        lemma_next_occupied(m, list, dir.stepped(i, list.len()), dir, (n - 1) as nat);
    }
}

/// A stored position is read back, for that window of that workspace alone, and
/// storing it only where none is stored keeps one that is.
pub proof fn law_stored_position_is_read_back(
    m: ManagerView,
    space: SpaceId,
    id: VirtualWorkspaceId,
    w: WindowId,
    position: Frame,
    later: Frame,
    other_space: SpaceId,
    other_id: VirtualWorkspaceId,
    other: WindowId,
)
    requires
        (other_space, other_id) != (space, id),
        other != w,
    ensures
        ({
            let next = m.with_positions(space, id, m.positions_of(space, id).insert(w, position));
            &&& next.positions_of(space, id).contains_key(w)
            &&& next.positions_of(space, id)[w] == position
            &&& next.positions_of(space, id).contains_key(other) == m.positions_of(
                space,
                id,
            ).contains_key(other)
            &&& m.positions_of(space, id).contains_key(other) ==> next.positions_of(space, id)[other]
                == m.positions_of(space, id)[other]
            &&& next.positions_of(other_space, other_id) == m.positions_of(other_space, other_id)
            &&& crate::floating::with_absent(next.positions_of(space, id), w, later)
                == next.positions_of(space, id)
            &&& !m.positions_of(space, id).contains_key(w) ==> crate::floating::with_absent(
                m.positions_of(space, id),
                w,
                position,
            ) == next.positions_of(space, id)
        }),
{
}

/// The positions of the floating windows of a space go with its workspaces when
/// they are moved to another space.
pub proof fn law_remap_moves_positions(
    m: ManagerView,
    old_space: SpaceId,
    new_space: SpaceId,
    id: VirtualWorkspaceId,
)
    requires
        old_space != new_space,
        m.by_space.contains_key(old_space),
    ensures
        m.with_space_renamed(old_space, new_space).positions_of(new_space, id) == m.positions_of(
            old_space,
            id,
        ),
        m.with_space_renamed(old_space, new_space).positions_of(old_space, id) == Map::<
            WindowId,
            Frame,
        >::empty(),
{
}

/// A window that is assigned in its space stays in its workspace when it is
/// looked at again: whatever rule applies that lets it be managed, no workspace
/// gains or loses a window.
pub proof fn law_existing_assignment_is_preserved(
    m: ManagerView,
    w: WindowId,
    space: SpaceId,
    rule: Option<AppWorkspaceRule>,
    id: VirtualWorkspaceId,
)
    requires
        m.ids_of(space).len() > 0,
        m.records().workspace_in(space, w) == Some(id),
    ensures
        m.assigned_by_rule(w, space, rule).0.workspaces == m.workspaces,
        m.assigned_by_rule(w, space, rule).0.records().workspace_of(w) == m.records().workspace_of(
            w,
        ),
        match m.assigned_by_rule(w, space, rule).1 {
            Ok(crate::manager_state::AppRuleResult::Managed(a)) => a.workspace_id == id,
            _ => rule is Some,
        },
        rule is None ==> m.assigned_by_rule(w, space, rule).1 is Ok,
{
}

} // verus!
