//! What the records of windows, their positions and the listings say.
use crate::config::{LayoutSettings, VirtualWorkspaceSettings};
use crate::hiding::HiddenPositions;
use crate::ids::{SpaceId, WindowId, WindowServerId};
use crate::manager_state::{ErrorView, ManagerView};
use crate::window::Frame;
use crate::window_registry::{RegistryView, WindowServerRecord};
use crate::workspace::HideCorner;
use crate::workspace_id::VirtualWorkspaceId;
use std::time::Instant;
use vstd::prelude::*;

verus! {

/// Windows are known if their record has a state, and assigned if it has a
/// workspace. Windows of the window server are shown if their record says that
/// they are visible.
pub proof fn law_windows_are_listed_by_their_records(
    v: RegistryView,
    w: WindowId,
    s: WindowServerId,
)
    ensures
        v.known().contains(w) <==> v.windows.contains_key(w) && v.windows[w].state is Some,
        v.assigned().contains(w) <==> v.windows.contains_key(w) && v.windows[w].workspace is Some,
        v.shown().contains(s) <==> v.servers.contains_key(s) && v.servers[s].visible,
{
}

/// A window is assigned to a workspace of a space exactly if its record gives
/// that workspace and that space.
pub proof fn law_assignments_are_read_off_the_records(
    v: RegistryView,
    space: SpaceId,
    w: WindowId,
    id: VirtualWorkspaceId,
)
    ensures
        v.workspace_in(space, w) == Some(id) <==> v.windows.contains_key(w) && (
        v.windows[w].workspace matches Some(info) && info.space == space && info.workspace_id
            == id),
        v.workspace_of(w) is Some <==> v.windows.contains_key(w) && v.windows[w].workspace is Some,
        v.workspace_of(w) is Some ==> v.workspace_of(w) == v.windows[w].workspace,
{
}

/// A window of the window server is recent while fewer than `ttl_ms`
/// milliseconds have passed since it was last seen.
pub proof fn law_sightings_are_recent_for_a_time(
    v: RegistryView,
    s: WindowServerId,
    ttl_ms: u64,
    now: Instant,
)
    ensures
        v.is_recent(s, ttl_ms, now) <==> v.servers.contains_key(s) && (
        v.servers[s].recent_at matches Some(ts) && crate::clock::whole_millis(
            crate::clock::time_between(now, ts),
        ) < ttl_ms),
{
}

/// `next` says of a window of the window server what `v` says, but for when it
/// was last seen and whether it is visible.
pub open spec fn says_the_same_else(v: RegistryView, next: RegistryView, s: WindowServerId) -> bool {
    let a = next.servers[s];
    if v.servers.contains_key(s) {
        let b = v.servers[s];
        &&& a.window_id == b.window_id
        &&& a.observed == b.observed
        &&& a.space == b.space
        &&& a.info == b.info
    } else {
        &&& a.window_id is None
        &&& !a.observed
        &&& a.space is None
        &&& a.info is None
    }
}

/// The windows that have been seen are on record as seen then, and nothing else
/// changes.
pub proof fn law_sightings_are_recorded(
    v: RegistryView,
    seen: Seq<WindowServerId>,
    now: Instant,
    s: WindowServerId,
)
    ensures
        ({
            let next = v.put_servers(seen, crate::window_registry::recent_since(now));
            &&& seen.contains(s) ==> {
                &&& next.servers.contains_key(s)
                &&& next.servers[s].recent_at == Some(now)
                &&& next.servers[s].visible <==> v.servers.contains_key(s) && v.servers[s].visible
                &&& says_the_same_else(v, next, s)
            }
            &&& !seen.contains(s) ==> {
                &&& next.servers.contains_key(s) <==> v.servers.contains_key(s)
                &&& next.servers[s] == v.servers[s] || !v.servers.contains_key(s)
            }
            &&& next.windows == v.windows
        }),
{
}

/// The windows that are shown are on record as visible, and nothing else
/// changes: others that are visible stay so.
pub proof fn law_shown_windows_are_recorded(
    v: RegistryView,
    wsids: Seq<WindowServerId>,
    s: WindowServerId,
)
    ensures
        ({
            let next = v.put_servers(
                wsids,
                |r: WindowServerRecord| WindowServerRecord { visible: true, ..r },
            );
            &&& next.shown().contains(s) <==> wsids.contains(s) || v.shown().contains(s)
            &&& wsids.contains(s) ==> {
                &&& says_the_same_else(v, next, s)
                &&& v.servers.contains_key(s) ==> next.servers[s].recent_at
                    == v.servers[s].recent_at
                &&& !v.servers.contains_key(s) ==> next.servers[s].recent_at is None
            }
            &&& next.windows == v.windows
        }),
{
}

/// Of a record only its sighting is left.
pub open spec fn has_only_a_sighting(r: WindowServerRecord) -> bool {
    &&& r.window_id is None
    &&& !r.visible
    &&& !r.observed
    &&& r.space is None
    &&& r.info is None
}

/// A purge forgets the sightings that are `ttl_ms` milliseconds old or older,
/// and drops the records that then say nothing. The other records stay as they
/// are.
pub proof fn law_purge_forgets_old_sightings(
    v: RegistryView,
    s: WindowServerId,
    ttl_ms: u64,
    now: Instant,
)
    requires
        v.servers.contains_key(s),
        has_only_a_sighting(v.servers[s]) ==> v.servers[s].recent_at is Some,
    ensures
        ({
            let next = v.settle_servers(crate::window_registry::purged_at(now, ttl_ms));
            let is_old = v.servers[s].recent_at matches Some(ts) && crate::clock::whole_millis(
                crate::clock::time_between(now, ts),
            ) >= ttl_ms;
            &&& !is_old ==> next.servers.contains_key(s) && next.servers[s] == v.servers[s]
            &&& is_old && has_only_a_sighting(v.servers[s]) ==> !next.servers.contains_key(s)
            &&& is_old && !has_only_a_sighting(v.servers[s]) ==> {
                &&& next.servers.contains_key(s)
                &&& next.servers[s] == (WindowServerRecord { recent_at: None, ..v.servers[s] })
            }
            &&& next.windows == v.windows
        }),
{
}

/// Windows that are removed are forgotten, with every record of the window
/// server that names one of them. All other records stay as they are.
pub proof fn law_removed_windows_are_forgotten(
    v: RegistryView,
    gone: Set<WindowId>,
    w: WindowId,
    s: WindowServerId,
)
    ensures
        ({
            let next = v.without_windows(gone);
            let names_one = v.servers[s].window_id matches Some(x) && gone.contains(x);
            &&& next.windows.contains_key(w) <==> v.windows.contains_key(w) && !gone.contains(w)
            &&& next.windows.contains_key(w) ==> next.windows[w] == v.windows[w]
            &&& next.servers.contains_key(s) <==> v.servers.contains_key(s) && !names_one
            &&& next.servers.contains_key(s) ==> next.servers[s] == v.servers[s]
        }),
{
}

/// Without the windows of a process, the positions of all others are as they
/// were, and none of that process is left.
pub proof fn law_positions_of_a_process_are_forgotten(
    positions: Map<WindowId, Frame>,
    pid: i32,
    w: WindowId,
)
    ensures
        ({
            let next = crate::floating::without_app(positions, pid);
            &&& next.contains_key(w) <==> positions.contains_key(w) && w.pid != pid
            &&& next.contains_key(w) ==> next[w] == positions[w]
        }),
{
}

/// A position that is stored only where there is none never replaces one.
pub proof fn law_present_position_is_kept(
    positions: Map<WindowId, Frame>,
    w: WindowId,
    position: Frame,
    v: WindowId,
)
    ensures
        ({
            let next = crate::floating::with_absent(positions, w, position);
            &&& next.contains_key(v) <==> positions.contains_key(v) || v == w
            &&& positions.contains_key(v) ==> next[v] == positions[v]
            &&& !positions.contains_key(w) ==> next[w] == position
        }),
{
}

/// The last of the positions that are stored for a window is the one that is
/// remembered. A window for which none is stored keeps the one that it had.
pub proof fn law_last_position_is_remembered(
    positions: Map<WindowId, Frame>,
    more: Seq<(WindowId, Frame)>,
    w: WindowId,
)
    ensures
        ({
            let next = crate::manager_state::stored(positions, more);
            &&& forall|k: int|
                0 <= k < more.len() && (#[trigger] more[k]).0 == w && (forall|j: int|
                    k < j < more.len() ==> (#[trigger] more[j]).0 != w) ==> next.contains_key(w)
                    && next[w] == more[k].1
            &&& (forall|k: int| 0 <= k < more.len() ==> (#[trigger] more[k]).0 != w) ==> (
            next.contains_key(w) <==> positions.contains_key(w)) && next[w] == positions[w]
        }),
    decreases more.len(),
{
    if more.len() > 0 {
        let before = more.drop_last();
        law_last_position_is_remembered(positions, before, w);
        let next = crate::manager_state::stored(positions, more);
        let last = more.len() - 1;
        assert(more[last] == more.last());
        if more[last].0 != w {
            assert forall|k: int|
                0 <= k < more.len() && (#[trigger] more[k]).0 == w && (forall|j: int|
                    k < j < more.len() ==> (#[trigger] more[j]).0 != w) implies next.contains_key(w)
                && next[w] == more[k].1 by {
                assert(before[k] == more[k]);
                assert forall|j: int| k < j < before.len() implies (#[trigger] before[j]).0
                    != w by {
                    assert(before[j] == more[j]);
                }
            }
            if forall|k: int| 0 <= k < more.len() ==> (#[trigger] more[k]).0 != w {
                assert forall|k: int| 0 <= k < before.len() implies (#[trigger] before[k]).0
                    != w by {
                    assert(before[k] == more[k]);
                }
            }
        }
    }
}

/// The positions that are stored for a workspace are the ones that are found for
/// it, and those of other workspaces and spaces stay as they are.
pub proof fn law_positions_are_those_of_one_workspace(
    m: ManagerView,
    space: SpaceId,
    id: VirtualWorkspaceId,
    positions: Map<WindowId, Frame>,
    other: (SpaceId, VirtualWorkspaceId),
)
    requires
        other != (space, id),
    ensures
        ({
            let next = m.with_positions(space, id, positions);
            &&& next.floating.contains_key((space, id))
            &&& next.floating[(space, id)] == positions
            &&& next.positions_of(space, id) == positions
            &&& next.floating.contains_key(other) <==> m.floating.contains_key(other)
            &&& next.floating[other] == m.floating[other]
            &&& next == (ManagerView { floating: next.floating, ..m })
        }),
{
}

/// Hidden windows of Zoom are not set off from the corner. All others are set
/// off by one pixel across and by one pixel down, or up in the left corner.
pub proof fn law_hidden_windows_are_set_off_by_a_pixel(corner: HideCorner, app: Option<&str>)
    ensures
        ({
            let (across, down) = crate::hiding::pixel_offset(corner, app);
            let is_zoom = app matches Some(id) && id@ == "us.zoom.xos"@;
            &&& is_zoom ==> across == 0 && down == 0
            &&& !is_zoom ==> across == 1 && (down == 1 || down == -1)
            &&& !is_zoom ==> (down == 1 <==> corner is BottomRight)
        }),
{
}

/// A position that is anchored is preferred to one that is not. Of two that are,
/// the one that overlaps other screens by less is preferred, and if they cannot
/// be told apart by that, the wanted one if it keeps no more of the window on
/// the screen. Of two that are not, the wanted one is taken if it overlaps by no
/// more.
pub proof fn law_anchored_position_is_preferred(h: HiddenPositions)
    ensures
        h.primary_anchored && !h.fallback_anchored ==> h.takes_primary(),
        !h.primary_anchored && h.fallback_anchored ==> !h.takes_primary(),
        h.primary_anchored && h.fallback_anchored && h.overlaps_differ ==> (h.takes_primary()
            <==> h.primary_overlaps_less),
        h.primary_anchored && h.fallback_anchored && !h.overlaps_differ ==> (h.takes_primary()
            <==> h.primary_anchor_no_more),
        !h.primary_anchored && !h.fallback_anchored ==> (h.takes_primary()
            <==> h.primary_overlaps_no_more),
{
}

/// A manager with the standard settings has four workspaces to a space, without
/// names of their own, the first of them active, and no rules. Workspaces are
/// laid out in the traditional way, stacks stand across, there is one master,
/// which takes the ratio 0.6, and columns take the ratio 0.7.
pub proof fn law_standard_manager(settings: VirtualWorkspaceSettings)
    requires
        crate::manager_state::are_standard(settings),
    ensures
        ({
            let m = ManagerView::with_config(settings, LayoutSettings::standard());
            &&& m.default_count == 4
            &&& m.default_names.len() == 0
            &&& m.default_workspace == 0
            &&& !m.auto_back_and_forth
            &&& m.rules.len() == 0
            &&& m.workspace_rules.len() == 0
            &&& m.default_mode is Traditional
            &&& m.layout_settings.mode is Traditional
            &&& m.layout_settings.stack.default_orientation is Perpendicular
            &&& m.layout_settings.master_stack.master_count == 1
            &&& m.layout_settings.master_stack.master_ratio == 0x3FE3_3333_3333_3333
            &&& m.layout_settings.scrolling.column_width_ratio == 0x3FE6_6666_6666_6666
        }),
{
}

/// In a consistent manager the workspaces of a space are listed in their order,
/// all of them, each with its name.
pub proof fn law_workspaces_are_listed_in_order(
    m: ManagerView,
    space: SpaceId,
    list: Seq<(VirtualWorkspaceId, String)>,
)
    requires
        m.is_consistent(),
        m.by_space.contains_key(space),
        m.lists(space, list),
    ensures
        list.len() == m.by_space[space].len(),
        forall|i: int|
            0 <= i < list.len() ==> (#[trigger] list[i]).0 == m.by_space[space][i] && list[i].1@
                == m.workspaces[m.by_space[space][i]].name,
{
    crate::consistency::law_listing_is_complete(m, space);
    let ids = list.map_values(|entry: (VirtualWorkspaceId, String)| entry.0);
    assert(ids == m.by_space[space]);
    assert forall|i: int| 0 <= i < list.len() implies (#[trigger] list[i]).0
        == m.by_space[space][i] && list[i].1@ == m.workspaces[m.by_space[space][i]].name by {
        assert(ids[i] == list[i].0);
    }
}

/// The locations of a window are the workspaces that have it, each once and with
/// its space.
pub proof fn law_locations_are_the_workspaces_that_have_the_window(
    m: ManagerView,
    w: WindowId,
    locations: Seq<(VirtualWorkspaceId, SpaceId)>,
    id: VirtualWorkspaceId,
    space: SpaceId,
)
    requires
        m.locates(w, locations),
    ensures
        locations.contains((id, space)) <==> m.workspaces.contains_key(id)
            && m.workspaces[id].windows.contains(w) && m.workspaces[id].space == space,
        locations.no_duplicates(),
{
    let ids = locations.map_values(|entry: (VirtualWorkspaceId, SpaceId)| entry.0);
    assert forall|i: int, j: int|
        0 <= i < locations.len() && 0 <= j < locations.len() && i != j implies locations[i]
        != locations[j] by {
        assert(ids[i] != ids[j]);
    }
    if locations.contains((id, space)) {
        let i = choose|i: int| 0 <= i < locations.len() && locations[i] == (id, space);
        assert(ids[i] == id);
        assert(ids.to_set().contains(id));
    }
    if m.workspaces.contains_key(id) && m.workspaces[id].windows.contains(w)
        && m.workspaces[id].space == space {
        assert(m.holders(w).contains(id));
        assert(ids.to_set().contains(id));
        let i = choose|i: int| 0 <= i < ids.len() && ids[i] == id;
        assert(locations[i] == (id, space));
    }
}

/// A window that is in two workspaces is found out, and in a consistent manager
/// there is none.
pub proof fn law_consistent_manager_has_no_duplicates(m: ManagerView, w: WindowId)
    requires
        m.is_consistent(),
        m.workspaces.dom().finite(),
    ensures
        m.holders(w).len() <= 1,
        m.holders(w).len() == 1 <==> exists|id: VirtualWorkspaceId|
            #![trigger m.workspaces[id]]
            m.workspaces.contains_key(id) && m.workspaces[id].windows.contains(w),
{
    let holders = m.holders(w);
    vstd::set_lib::lemma_set_subset_finite(m.workspaces.dom(), holders);
    if holders.len() > 0 {
        let a = holders.choose();
        assert(holders.contains(a));
        assert(m.holds(a, w));
        assert forall|b: VirtualWorkspaceId| holders.contains(b) implies b == a by {
            assert(m.holds(b, w));
            crate::consistency::law_window_is_in_one_workspace(m, a, b, w);
        }
        assert(holders =~= set![a]);
        assert(m.workspaces.contains_key(a) && m.workspaces[a].windows.contains(w));
    }
    if exists|id: VirtualWorkspaceId|
        #![trigger m.workspaces[id]]
        m.workspaces.contains_key(id) && m.workspaces[id].windows.contains(w) {
        let id = choose|id: VirtualWorkspaceId|
            #![trigger m.workspaces[id]]
            m.workspaces.contains_key(id) && m.workspaces[id].windows.contains(w);
        assert(m.holds(id, w));
        assert(holders.contains(id));
        assert(holders.len() > 0);
    }
}

/// The error of a space that takes no further workspace names the limit, 32, and
/// the space.
pub proof fn law_limit_error_names_limit_and_space(space: SpaceId)
    ensures
        crate::manager_state::limit_reached(space) == ErrorView::InconsistentState(
            "Maximum workspace limit (32) reached for space SpaceId("@ + crate::text::decimal(
                space.raw as nat,
            ) + ")"@,
        ),
{
    reveal_strlit("Maximum workspace limit (");
    reveal_strlit(") reached for space SpaceId(");
    reveal_strlit("Maximum workspace limit (32) reached for space SpaceId(");
    let limit = crate::text::decimal(32);
    assert(limit =~= seq!['3', '2']) by {
        reveal_with_fuel(crate::text::decimal, 3);
        assert(crate::text::decimal(3) =~= seq!['3']);
    }
    assert("Maximum workspace limit ("@ + limit + ") reached for space SpaceId("@
        =~= "Maximum workspace limit (32) reached for space SpaceId("@);
}

/// There is room for the workspaces of a space that has them already, and for 32
/// more while the slots for workspaces suffice. Spare room is also bounded by the
/// numbers for names.
pub proof fn law_room_is_bounded_by_slots_and_numbers(m: ManagerView, space: SpaceId, n: nat)
    ensures
        m.by_space.contains_key(space) ==> m.has_room(space),
        !m.by_space.contains_key(space) ==> (m.has_room(space) <==> m.workspaces.len()
            <= 0xFFFF_FFFE - 32),
        m.has_spare_room(n) <==> m.workspaces.len() + n <= 0xFFFF_FFFE && m.counter + n
            <= usize::MAX,
{
}

} // verus!
