//! What the workspaces of a space look like, which windows they hide, and where
//! a step from one of them leads.
use crate::config::{LayoutMode, WorkspaceLayoutRule, WorkspaceSelector};
use crate::ids::{SpaceId, WindowId};
use crate::manager_state::{Direction, ManagerView};
use crate::workspace::{LayoutSystemKind, WorkspaceView};
use crate::workspace_id::VirtualWorkspaceId;
use vstd::prelude::*;

verus! {

/// The rule names the position or the name of a workspace.
pub open spec fn names_workspace(rule: WorkspaceLayoutRule, i: int, name: Seq<char>) -> bool {
    (rule.workspace matches WorkspaceSelector::Index(n) && n == i) || (
    rule.workspace matches WorkspaceSelector::Name(n) && n@ == name)
}

/// `mode` is the layout of the last of the rules that name the workspace, or
/// `default` if none does.
pub open spec fn is_mode_asked_for(
    mode: LayoutMode,
    rules: Seq<WorkspaceLayoutRule>,
    default: LayoutMode,
    i: int,
    name: Seq<char>,
) -> bool {
    &&& forall|k: int|
        0 <= k < rules.len() && names_workspace(#[trigger] rules[k], i, name) && (forall|j: int|
            k < j < rules.len() ==> !names_workspace(#[trigger] rules[j], i, name)) ==> mode
            == rules[k].layout
    &&& (forall|k: int| 0 <= k < rules.len() ==> !names_workspace(#[trigger] rules[k], i, name))
        ==> mode == default
}

/// The layout system goes with the mode.
pub open spec fn fits_mode(system: LayoutSystemKind, mode: LayoutMode) -> bool {
    match mode {
        LayoutMode::Traditional => system is Traditional,
        LayoutMode::Bsp => system is Bsp,
        LayoutMode::Stack => system is Stack,
        LayoutMode::MasterStack => system is MasterStack,
        LayoutMode::Scrolling => system is Scrolling,
    }
}

/// `w` is an empty workspace of `space` as the settings of `m` ask for it at
/// position `i`, under the given name.
pub open spec fn is_new_workspace(
    w: WorkspaceView,
    m: ManagerView,
    space: SpaceId,
    i: int,
    name: Seq<char>,
) -> bool {
    &&& w.name == name
    &&& w.space == space
    &&& forall|x: WindowId| !#[trigger] w.windows.contains(x)
    &&& w.last_focused is None
    &&& is_mode_asked_for(w.layout_mode, m.workspace_rules, m.default_mode, i, name)
    &&& fits_mode(w.layout_system, w.layout_mode)
    &&& w.layout_system matches LayoutSystemKind::Stack(o) ==> o
        == m.layout_settings.stack.default_orientation
    &&& w.layout_system matches LayoutSystemKind::MasterStack(s) ==> s
        == m.layout_settings.master_stack
    &&& w.layout_system matches LayoutSystemKind::Scrolling(s) ==> s == m.layout_settings.scrolling
}

proof fn lemma_mode(
    rules: Seq<WorkspaceLayoutRule>,
    default: LayoutMode,
    i: nat,
    name: Seq<char>,
)
    ensures
        is_mode_asked_for(
            crate::manager_state::mode_by_rules(rules, default, i, name),
            rules,
            default,
            i as int,
            name,
        ),
    decreases rules.len(),
{
    if rules.len() > 0 {
        let before = rules.drop_last();
        let mode = crate::manager_state::mode_by_rules(rules, default, i, name);
        lemma_mode(before, default, i, name);
        let last = rules.len() - 1;
        assert(rules[last] == rules.last());
        if !names_workspace(rules[last], i as int, name) {
            assert forall|k: int|
                0 <= k < rules.len() && names_workspace(#[trigger] rules[k], i as int, name) && (
                forall|j: int|
                    k < j < rules.len() ==> !names_workspace(
                        #[trigger] rules[j],
                        i as int,
                        name,
                    )) implies mode == rules[k].layout by {
                assert(before[k] == rules[k]);
                assert forall|j: int| k < j < before.len() implies !names_workspace(
                    #[trigger] before[j],
                    i as int,
                    name,
                ) by {
                    assert(before[j] == rules[j]);
                }
            }
            if forall|k: int|
                0 <= k < rules.len() ==> !names_workspace(#[trigger] rules[k], i as int, name) {
                assert forall|k: int| 0 <= k < before.len() implies !names_workspace(
                    #[trigger] before[k],
                    i as int,
                    name,
                ) by {
                    assert(before[k] == rules[k]);
                }
            }
        }
    }
}

/// The layout mode that is wanted for a workspace is the one of the last rule
/// that names it by position or by name, and the default mode where none does.
pub proof fn law_last_layout_rule_wins(m: ManagerView, i: nat, name: Seq<char>)
    ensures
        is_mode_asked_for(m.mode_for(i, name), m.workspace_rules, m.default_mode, i as int, name),
{
    lemma_mode(m.workspace_rules, m.default_mode, i, name);
}

/// The first workspaces of a space: as many as the settings say, but at least
/// one and at most 32; each under the name that the settings give for its
/// position, or else under the number of the position; each with the layout that
/// the rules ask for at that position. The one at the default position is
/// active, or the last one where there are fewer, and none was active before.
pub proof fn law_first_workspaces_are_as_asked_for(
    m: ManagerView,
    next: ManagerView,
    space: SpaceId,
    i: int,
)
    requires
        m.starts_space(next, space),
        !m.by_space.contains_key(space),
    ensures
        next.by_space.contains_key(space),
        next.by_space[space].len() == if m.default_count == 0 {
            1
        } else if m.default_count > 32 {
            32
        } else {
            m.default_count
        },
        next.by_space[space].no_duplicates(),
        0 <= i < next.by_space[space].len() ==> {
            let id = next.by_space[space][i];
            &&& !m.workspaces.contains_key(id)
            &&& next.workspaces.contains_key(id)
            &&& is_new_workspace(
                next.workspaces[id],
                m,
                space,
                i,
                if i < m.default_names.len() {
                    m.default_names[i]
                } else {
                    "Workspace "@ + crate::text::decimal((i + 1) as nat)
                },
            )
        },
        next.active.contains_key(space),
        next.active[space].0 is None,
        next.active[space].1 == if m.default_workspace < next.by_space[space].len() {
            next.by_space[space][m.default_workspace as int]
        } else {
            next.by_space[space].last()
        },
        next.counter == m.counter,
{
    let ids = next.by_space[space];
    let given = choose|ids: Seq<VirtualWorkspaceId>| #[trigger]
        m.are_free(ids) && ids.len() == crate::manager_state::start_count(m.default_count) && next
            == m.with_space(space, ids);
    assert(given == ids);
    crate::consistency::lemma_start_workspaces(m, space, ids);
    if 0 <= i < ids.len() {
        let name = m.start_name(i as nat);
        lemma_mode(m.workspace_rules, m.default_mode, i as nat, name);
        assert(ids.contains(ids[i]));
        assert(next.workspaces[ids[i]] == m.new_workspace(space, i as nat, name));
    }
}

/// A workspace that is created stands last in its space, empty, under the name
/// that was given or else under the next number, which is then used up. Its
/// layout is the one that the rules ask for at its position. Every other
/// workspace is as it was.
pub proof fn law_created_workspace_is_as_asked_for(
    m: ManagerView,
    space: SpaceId,
    id: VirtualWorkspaceId,
    name: Option<Seq<char>>,
    other: VirtualWorkspaceId,
)
    requires
        m.by_space.contains_key(space),
        other != id,
    ensures
        ({
            let next = m.with_created(space, id, name);
            let n = m.by_space[space].len();
            &&& next.by_space[space].len() == n + 1
            &&& next.by_space[space][n as int] == id
            &&& next.workspaces.contains_key(id)
            &&& is_new_workspace(
                next.workspaces[id],
                m,
                space,
                n as int,
                match name {
                    Some(text) => text,
                    None => "Workspace "@ + crate::text::decimal(m.counter),
                },
            )
            &&& next.counter == m.counter + if name is Some {
                0int
            } else {
                1int
            }
            &&& next.workspaces.contains_key(other) == m.workspaces.contains_key(other)
            &&& m.workspaces.contains_key(other) ==> next.workspaces[other] == m.workspaces[other]
            &&& next.active == m.active
            &&& next.registry == m.registry
        }),
{
    let text = match name {
        Some(text) => text,
        None => "Workspace "@ + crate::text::decimal(m.counter),
    };
    lemma_mode(m.workspace_rules, m.default_mode, m.by_space[space].len(), text);
}

/// A workspace that new settings add stands last in its space, empty, under the
/// name that they give for its position or else under the next number, with the
/// layout that they ask for at its position.
pub proof fn law_added_workspace_is_as_asked_for(
    m: ManagerView,
    space: SpaceId,
    id: VirtualWorkspaceId,
)
    requires
        m.by_space.contains_key(space),
    ensures
        ({
            let next = m.extended_by(space, id);
            let n = m.by_space[space].len() as int;
            &&& next.by_space[space] == m.by_space[space].push(id)
            &&& next.workspaces.contains_key(id)
            &&& is_new_workspace(
                next.workspaces[id],
                m,
                space,
                n,
                if n < m.default_names.len() {
                    m.default_names[n]
                } else {
                    "Workspace "@ + crate::text::decimal(m.counter)
                },
            )
            &&& next.counter == m.counter + if n < m.default_names.len() {
                0int
            } else {
                1int
            }
        }),
{
    let n = m.by_space[space].len();
    let text = if n < m.default_names.len() {
        m.default_names[n as int]
    } else {
        "Workspace "@ + crate::text::decimal(m.counter)
    };
    lemma_mode(m.workspace_rules, m.default_mode, n, text);
}

/// The position `k` places from `p` in a ring of `n`.
pub open spec fn ring(p: int, k: int, n: int, dir: Direction) -> int {
    match dir {
        Direction::Right => if p + k < n {
            p + k
        } else {
            p + k - n
        },
        Direction::Left => if p - k >= 0 {
            p - k
        } else {
            p - k + n
        },
    }
}

/// In a consistent manager a step that skips nothing leads to the neighbour of a
/// workspace in its space, with the ends of the list joined.
pub proof fn law_step_leads_to_the_neighbour(
    m: ManagerView,
    space: SpaceId,
    p: int,
    dir: Direction,
)
    requires
        m.is_consistent(),
        m.by_space.contains_key(space),
        0 <= p < m.by_space[space].len(),
    ensures
        m.stepped_from(space, m.by_space[space][p], false, dir) == Some(
            m.by_space[space][ring(p, 1, m.by_space[space].len() as int, dir)],
        ),
{
    let ids = m.by_space[space];
    assert(m.list_is_sound(space));
    assert(crate::manager_state::first_at(ids, ids[p], p));
    let chosen = choose|i: int| #[trigger] crate::manager_state::first_at(ids, ids[p], i);
    crate::manager_state::lemma_first_at(ids, ids[p], p, chosen);
    assert(ids.contains(ids[p]));
}

/// The workspace at `i` of the list has windows.
spec fn occupied_at(m: ManagerView, ids: Seq<VirtualWorkspaceId>, i: int) -> bool {
    m.workspaces[ids[i]].windows.len() != 0
}

/// Where the elements that a filter keeps stand.
proof fn lemma_filter_positions(
    ids: Seq<VirtualWorkspaceId>,
    f: spec_fn(VirtualWorkspaceId) -> bool,
) -> (at: Seq<int>)
    ensures
        at.len() == ids.filter(f).len(),
        forall|a: int|
            0 <= a < at.len() ==> 0 <= #[trigger] at[a] < ids.len() && ids[at[a]] == ids.filter(
                f,
            )[a] && f(ids[at[a]]),
        forall|a: int, b: int| 0 <= a < b < at.len() ==> #[trigger] at[a] < #[trigger] at[b],
        forall|i: int|
            0 <= i < ids.len() && f(#[trigger] ids[i]) ==> exists|a: int|
                0 <= a < at.len() && #[trigger] at[a] == i,
    decreases ids.len(),
{
    reveal(Seq::filter);
    if ids.len() == 0 {
        Seq::empty()
    } else {
        let before = ids.drop_last();
        let at = lemma_filter_positions(before, f);
        let last = ids.len() - 1;
        let r = if f(ids[last]) {
            at.push(last)
        } else {
            at
        };
        assert forall|a: int| 0 <= a < r.len() implies 0 <= #[trigger] r[a] < ids.len()
            && ids[r[a]] == ids.filter(f)[a] && f(ids[r[a]]) by {
            if a < at.len() {
                assert(r[a] == at[a]);
                assert(before[at[a]] == ids[at[a]]);
            }
        }
        assert forall|i: int| 0 <= i < ids.len() && f(#[trigger] ids[i]) implies exists|a: int|
            0 <= a < r.len() && #[trigger] r[a] == i by {
            if i < last {
                assert(before[i] == ids[i]);
                let a = choose|a: int| 0 <= a < at.len() && #[trigger] at[a] == i;
                assert(r[a] == i);
            } else {
                assert(r[at.len() as int] == last);
            }
        }
        r
    }
}

/// The search for a workspace with windows finds the first one, if there is one
/// within reach.
proof fn lemma_search(
    m: ManagerView,
    list: Seq<VirtualWorkspaceId>,
    p: int,
    k: int,
    dir: Direction,
    left: nat,
)
    requires
        0 <= p < list.len(),
        1 <= k,
        k + left == list.len() + 1,
        forall|i: int| 0 <= i < list.len() ==> m.workspaces.contains_key(#[trigger] list[i]),
        forall|j: int|
            1 <= j < k ==> !occupied_at(m, list, #[trigger] ring(p, j, list.len() as int, dir)),
    ensures
        match m.next_occupied(
            list,
            ring(p, if k > list.len() { 1 } else { k }, list.len() as int, dir) as nat,
            dir,
            left,
        ) {
            Some(next) => exists|d: int|
                1 <= d <= list.len() && next == list[#[trigger] ring(
                    p,
                    d,
                    list.len() as int,
                    dir,
                )] && occupied_at(m, list, ring(p, d, list.len() as int, dir)) && forall|j: int|
                    1 <= j < d ==> !occupied_at(
                        m,
                        list,
                        #[trigger] ring(p, j, list.len() as int, dir),
                    ),
            None => forall|j: int|
                1 <= j <= list.len() ==> !occupied_at(
                    m,
                    list,
                    #[trigger] ring(p, j, list.len() as int, dir),
                ),
        },
    decreases left,
{
    let n = list.len() as int;
    if left > 0 {
        let i = ring(p, k, n, dir);
        assert(m.workspaces.contains_key(list[i]));
        if occupied_at(m, list, i) {
            assert(m.next_occupied(list, i as nat, dir, left) == Some(list[i]));
            assert(1 <= k <= n && list[i] == list[ring(p, k, n, dir)]);
        } else {
            assert(dir.stepped(i as nat, list.len()) == ring(p, if k + 1 > n { 1 } else { k + 1 }, n, dir));
            lemma_search(m, list, p, k + 1, dir, (left - 1) as nat);
        }
    }
}

/// How far it is round a ring of `n` from `p` to `q`, a whole round where they
/// are the same.
spec fn distance(p: int, q: int, n: int, dir: Direction) -> int {
    match dir {
        Direction::Right => if q > p {
            q - p
        } else {
            q - p + n
        },
        Direction::Left => if q < p {
            p - q
        } else {
            p - q + n
        },
    }
}

/// Between neighbours in a list of ascending positions there is no other of
/// them, on the way round.
proof fn lemma_none_between(at: Seq<int>, n: int, a: int, c: int, j: int, dir: Direction)
    requires
        0 <= a < at.len(),
        0 <= c < at.len(),
        forall|x: int| 0 <= x < at.len() ==> 0 <= #[trigger] at[x] < n,
        forall|x: int, y: int| 0 <= x < y < at.len() ==> #[trigger] at[x] < #[trigger] at[y],
        1 <= j < distance(at[a], at[ring(a, 1, at.len() as int, dir)], n, dir),
    ensures
        at[c] != ring(at[a], j, n, dir),
{
    let b = ring(a, 1, at.len() as int, dir);
    let last = at.len() - 1;
    if c > 0 {
        assert(at[0] < at[c]);
    }
    if c < last {
        assert(at[c] < at[last]);
    }
    if c < a {
        assert(at[c] < at[a]);
    }
    if c > a {
        assert(at[a] < at[c]);
    }
    if c < b {
        assert(at[c] < at[b]);
    }
    if c > b {
        assert(at[b] < at[c]);
    }
}

/// From a workspace with windows, a step that skips empty ones leads to the next
/// one with windows.
proof fn lemma_step_from_windows(m: ManagerView, space: SpaceId, p: int, dir: Direction)
    requires
        m.by_space.contains_key(space),
        m.list_is_sound(space),
        0 <= p < m.by_space[space].len(),
        occupied_at(m, m.by_space[space], p),
    ensures
        ({
            let ids = m.by_space[space];
            let n = ids.len() as int;
            let next = m.stepped_from(space, ids[p], true, dir);
            &&& next is Some
            &&& exists|d: int|
                1 <= d <= n && next == Some(ids[#[trigger] ring(p, d, n, dir)]) && occupied_at(
                    m,
                    ids,
                    ring(p, d, n, dir),
                ) && forall|j: int|
                    1 <= j < d ==> !occupied_at(m, ids, #[trigger] ring(p, j, n, dir))
        }),
{
    let ids = m.by_space[space];
    let n = ids.len() as int;
    let current = ids[p];
    let keep = m.can_be_stepped_to(true);
    let base = m.filtered(space, true);
    assert(m.belongs(ids[p], space));
    assert(base == ids.filter(keep));
    let at = lemma_filter_positions(ids, keep);
    assert(keep(ids[p]));
    let a = choose|a: int| 0 <= a < at.len() && #[trigger] at[a] == p;
    assert(base[a] == current);
    assert forall|k: int| 0 <= k < a implies #[trigger] base[k] != current by {
        assert(at[k] < at[a]);
        assert(ids[at[k]] != ids[at[a]]);
    }
    assert(crate::manager_state::first_at(base, current, a));
    let chosen = choose|i: int| #[trigger] crate::manager_state::first_at(base, current, i);
    crate::manager_state::lemma_first_at(base, current, a, chosen);
    assert(base.contains(current));
    let b = ring(a, 1, base.len() as int, dir);
    assert(dir.stepped(a as nat, base.len()) == b);
    let q = at[b];
    assert(ids[q] == base[b] && keep(ids[q]));
    let d = distance(p, q, n, dir);
    assert(ring(p, d, n, dir) == q);
    assert(1 <= d <= n);
    assert forall|j: int| 1 <= j < d implies !occupied_at(m, ids, #[trigger] ring(p, j, n, dir)) by {
        let z = ring(p, j, n, dir);
        if occupied_at(m, ids, z) {
            assert(m.belongs(ids[z], space));
            assert(keep(ids[z]));
            let c = choose|c: int| 0 <= c < at.len() && #[trigger] at[c] == z;
            lemma_none_between(at, n, a, c, j, dir);
        }
    }
}

/// From an empty workspace, a step that skips empty ones leads to the next one
/// with windows, if there is one.
proof fn lemma_step_from_no_windows(m: ManagerView, space: SpaceId, p: int, dir: Direction)
    requires
        m.by_space.contains_key(space),
        m.list_is_sound(space),
        0 <= p < m.by_space[space].len(),
        !occupied_at(m, m.by_space[space], p),
    ensures
        ({
            let ids = m.by_space[space];
            let n = ids.len() as int;
            match m.stepped_from(space, ids[p], true, dir) {
                Some(next) => exists|d: int|
                    1 <= d <= n && next == ids[#[trigger] ring(p, d, n, dir)] && occupied_at(
                        m,
                        ids,
                        ring(p, d, n, dir),
                    ) && forall|j: int|
                        1 <= j < d ==> !occupied_at(m, ids, #[trigger] ring(p, j, n, dir)),
                None => forall|i: int| 0 <= i < n ==> !occupied_at(m, ids, i),
            }
        }),
{
    let ids = m.by_space[space];
    let n = ids.len() as int;
    let current = ids[p];
    let keep = m.can_be_stepped_to(true);
    let base = m.filtered(space, true);
    assert(base == ids.filter(keep));
    assert forall|i: int| 0 <= i < n implies m.workspaces.contains_key(#[trigger] ids[i]) by {
        assert(m.belongs(ids[i], space));
    }
    let at = lemma_filter_positions(ids, keep);
    assert(!base.contains(current)) by {
        if base.contains(current) {
            let a = choose|a: int| 0 <= a < base.len() && base[a] == current;
            assert(keep(ids[at[a]]));
        }
    }
    if base.len() == 0 {
        assert forall|i: int| 0 <= i < n implies !occupied_at(m, ids, i) by {
            if occupied_at(m, ids, i) {
                assert(keep(ids[i]));
            }
        }
    } else {
        let any = m.can_be_stepped_to(false);
        assert forall|i: int| 0 <= i < n implies any(#[trigger] ids[i]) by {}
        crate::consistency::lemma_filter_keeps_all(ids, any);
        assert(m.filtered(space, false) == ids);
        assert(crate::manager_state::first_at(ids, current, p));
        let chosen = choose|i: int| #[trigger] crate::manager_state::first_at(ids, current, i);
        crate::manager_state::lemma_first_at(ids, current, p, chosen);
        assert(ids.contains(current));
        lemma_search(m, ids, p, 1, dir, ids.len());
        assert(dir.stepped(p as nat, ids.len()) == ring(p, 1, n, dir));
        if m.stepped_from(space, current, true, dir) is None {
            assert forall|i: int| 0 <= i < n implies !occupied_at(m, ids, i) by {
                assert(!occupied_at(m, ids, ring(p, distance(p, i, n, dir), n, dir)));
            }
        }
    }
}

/// In a consistent manager a step that skips empty workspaces leads to the first
/// workspace with windows that is met on the way round the space, ending with
/// the workspace that is left; it leads nowhere only where no workspace of the
/// space has windows.
pub proof fn law_step_finds_the_next_windows(
    m: ManagerView,
    space: SpaceId,
    p: int,
    dir: Direction,
)
    requires
        m.is_consistent(),
        m.by_space.contains_key(space),
        0 <= p < m.by_space[space].len(),
    ensures
        ({
            let ids = m.by_space[space];
            let n = ids.len() as int;
            match m.stepped_from(space, ids[p], true, dir) {
                Some(next) => exists|d: int|
                    1 <= d <= n && next == ids[#[trigger] ring(p, d, n, dir)]
                        && m.workspaces[next].windows.len() != 0 && forall|j: int|
                        1 <= j < d ==> m.workspaces[ids[#[trigger] ring(
                            p,
                            j,
                            n,
                            dir,
                        )]].windows.len() == 0,
                None => forall|i: int|
                    0 <= i < n ==> m.workspaces[#[trigger] ids[i]].windows.len() == 0,
            }
        }),
{
    let ids = m.by_space[space];
    let n = ids.len() as int;
    assert(m.list_is_sound(space));
    if occupied_at(m, ids, p) {
        lemma_step_from_windows(m, space, p, dir);
    } else {
        lemma_step_from_no_windows(m, space, p, dir);
    }
    match m.stepped_from(space, ids[p], true, dir) {
        Some(next) => {
            let d = choose|d: int|
                1 <= d <= n && next == ids[#[trigger] ring(p, d, n, dir)] && occupied_at(
                    m,
                    ids,
                    ring(p, d, n, dir),
                ) && forall|j: int|
                    1 <= j < d ==> !occupied_at(m, ids, #[trigger] ring(p, j, n, dir));
            assert(next == ids[ring(p, d, n, dir)]);
            assert forall|j: int| 1 <= j < d implies m.workspaces[ids[#[trigger] ring(
                p,
                j,
                n,
                dir,
            )]].windows.len() == 0 by {
                assert(!occupied_at(m, ids, ring(p, j, n, dir)));
            }
        },
        None => {
            assert forall|i: int| 0 <= i < n implies m.workspaces[#[trigger] ids[i]].windows.len()
                == 0 by {
                assert(!occupied_at(m, ids, i));
            }
        },
    }
}

/// A window is hidden in a space exactly if some workspace of that space other
/// than its active one has it. In a consistent manager no such window is in the
/// active workspace of that space, nor in any workspace of another.
pub proof fn law_hidden_windows_are_in_inactive_workspaces(
    m: ManagerView,
    space: SpaceId,
    w: WindowId,
    id: VirtualWorkspaceId,
)
    ensures
        m.inactive_holders(space, w).contains(id) <==> m.workspaces.contains_key(id)
            && m.workspaces[id].space == space && m.workspaces[id].windows.contains(w) && !(
        m.active.contains_key(space) && m.active[space].1 == id),
        m.is_consistent() && m.inactive_holders(space, w).contains(id) ==> forall|
            other: VirtualWorkspaceId,
        |
            m.workspaces.contains_key(other) && #[trigger] m.workspaces[other].windows.contains(w)
                ==> other == id,
        m.is_consistent() && m.inactive_holders(space, w).contains(id) ==> forall|
            elsewhere: SpaceId,
        |
            #[trigger] m.active.contains_key(elsewhere) ==> !m.workspaces[m.active[elsewhere].1]
                .windows.contains(w),
{
    if m.is_consistent() && m.inactive_holders(space, w).contains(id) {
        assert(m.holds(id, w));
        assert forall|other: VirtualWorkspaceId|
            m.workspaces.contains_key(other)
                && #[trigger] m.workspaces[other].windows.contains(w) implies other == id by {
            assert(m.holds(other, w));
        }
        assert forall|elsewhere: SpaceId| #[trigger]
            m.active.contains_key(elsewhere) implies !m.workspaces[m.active[elsewhere].1]
            .windows.contains(w) by {
            let a = m.active[elsewhere].1;
            assert(m.belongs(a, elsewhere));
            if m.workspaces[a].windows.contains(w) {
                assert(a == id);
                assert(elsewhere == space);
            }
        }
    }
}

} // verus!
