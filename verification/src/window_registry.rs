//! Everything that is known of single windows: their state, the workspace each
//! is assigned to, and what the window server says of them.
use crate::clock::is_expired;
use crate::id_map::IdMap;
use crate::ids::{SpaceId, WindowId, WindowServerId};
use crate::window::{WindowServerInfo, WindowState};
use crate::workspace_id::VirtualWorkspaceId;
use std::time::Instant;
use vstd::prelude::*;

verus! {

/// The workspace that a window is assigned to.
#[derive(Clone, Copy, Debug)]
pub struct WindowWorkspaceInfo {
    pub space: SpaceId,
    pub workspace_id: VirtualWorkspaceId,
}

impl PartialEq for WindowWorkspaceInfo {
    fn eq(&self, other: &Self) -> (r: bool) {
        self.space == other.space && self.workspace_id == other.workspace_id
    }
}

impl vstd::std_specs::cmp::PartialEqSpecImpl for WindowWorkspaceInfo {
    open spec fn obeys_eq_spec() -> bool {
        true
    }

    open spec fn eq_spec(&self, other: &Self) -> bool {
        *self == *other
    }
}

impl Eq for WindowWorkspaceInfo {

}

/// What is known of a window.
#[derive(Debug)]
pub struct WindowRecord {
    pub state: Option<WindowState>,
    pub workspace: Option<WindowWorkspaceInfo>,
    pub rule_floating: bool,
    pub last_rule_decision: bool,
}

impl WindowRecord {
    /// The record that says nothing.
    pub open spec fn blank() -> Self {
        WindowRecord {
            state: None,
            workspace: None,
            rule_floating: false,
            last_rule_decision: false,
        }
    }

    fn new() -> (r: Self)
        ensures
            r == WindowRecord::blank(),
    {
        WindowRecord {
            state: None,
            workspace: None,
            rule_floating: false,
            last_rule_decision: false,
        }
    }

    fn is_blank(&self) -> (r: bool)
        ensures
            r == (*self == WindowRecord::blank()),
    {
        self.state.is_none() && self.workspace.is_none() && !self.rule_floating
            && !self.last_rule_decision
    }
}

/// What is known of a window of the window server.
#[derive(Debug)]
pub struct WindowServerRecord {
    pub window_id: Option<WindowId>,
    pub visible: bool,
    pub observed: bool,
    pub space: Option<SpaceId>,
    pub info: Option<WindowServerInfo>,
    pub recent_at: Option<Instant>,
}

impl WindowServerRecord {
    /// The record that says nothing.
    pub open spec fn blank() -> Self {
        WindowServerRecord {
            window_id: None,
            visible: false,
            observed: false,
            space: None,
            info: None,
            recent_at: None,
        }
    }

    fn new() -> (r: Self)
        ensures
            r == WindowServerRecord::blank(),
    {
        WindowServerRecord {
            window_id: None,
            visible: false,
            observed: false,
            space: None,
            info: None,
            recent_at: None,
        }
    }

    fn is_blank(&self) -> (r: bool)
        ensures
            r == (*self == WindowServerRecord::blank()),
    {
        self.window_id.is_none() && !self.visible && !self.observed && self.space.is_none()
            && self.info.is_none() && self.recent_at.is_none()
    }
}

/// The contents of a registry.
#[verifier::ext_equal]
pub struct RegistryView {
    pub windows: Map<WindowId, WindowRecord>,
    pub servers: Map<WindowServerId, WindowServerRecord>,
}

impl RegistryView {
    pub open spec fn empty() -> Self {
        RegistryView { windows: Map::empty(), servers: Map::empty() }
    }

    /// The record of a window; the blank one where there is none.
    pub open spec fn window(self, window_id: WindowId) -> WindowRecord {
        if self.windows.contains_key(window_id) {
            self.windows[window_id]
        } else {
            WindowRecord::blank()
        }
    }

    /// The record of a window of the window server; the blank one where there
    /// is none.
    pub open spec fn server(self, wsid: WindowServerId) -> WindowServerRecord {
        if self.servers.contains_key(wsid) {
            self.servers[wsid]
        } else {
            WindowServerRecord::blank()
        }
    }

    pub open spec fn put_window(self, window_id: WindowId, record: WindowRecord) -> Self {
        RegistryView { windows: self.windows.insert(window_id, record), ..self }
    }

    /// The record stored, or dropped where it is blank.
    pub open spec fn settle_window(self, window_id: WindowId, record: WindowRecord) -> Self {
        if record == WindowRecord::blank() {
            RegistryView { windows: self.windows.remove(window_id), ..self }
        } else {
            self.put_window(window_id, record)
        }
    }

    pub open spec fn put_server(self, wsid: WindowServerId, record: WindowServerRecord) -> Self {
        RegistryView { servers: self.servers.insert(wsid, record), ..self }
    }

    /// The record stored, or dropped where it is blank.
    pub open spec fn settle_server(self, wsid: WindowServerId, record: WindowServerRecord) -> Self {
        if record == WindowServerRecord::blank() {
            RegistryView { servers: self.servers.remove(wsid), ..self }
        } else {
            self.put_server(wsid, record)
        }
    }

    /// Every server record changed by `f`, and those dropped that it makes
    /// blank.
    pub open spec fn settle_servers(
        self,
        f: spec_fn(WindowServerRecord) -> WindowServerRecord,
    ) -> Self {
        RegistryView {
            servers: Map::new(
                |s: WindowServerId|
                    self.servers.contains_key(s) && f(self.servers[s])
                        != WindowServerRecord::blank(),
                |s: WindowServerId| f(self.servers[s]),
            ),
            ..self
        }
    }

    /// The records of `wsids` changed by `f`, made where there were none.
    pub open spec fn put_servers(
        self,
        wsids: Seq<WindowServerId>,
        f: spec_fn(WindowServerRecord) -> WindowServerRecord,
    ) -> Self {
        RegistryView {
            servers: Map::new(
                |s: WindowServerId| self.servers.contains_key(s) || wsids.contains(s),
                |s: WindowServerId|
                    if wsids.contains(s) {
                        f(self.server(s))
                    } else {
                        self.servers[s]
                    },
            ),
            ..self
        }
    }

    pub open spec fn workspace_of(self, window_id: WindowId) -> Option<WindowWorkspaceInfo> {
        self.window(window_id).workspace
    }

    /// The windows with a state.
    pub open spec fn known(self) -> Set<WindowId> {
        self.windows.dom().filter(|w: WindowId| self.windows[w].state is Some)
    }

    /// The workspace of `space` that a window is assigned to.
    pub open spec fn workspace_in(self, space: SpaceId, window_id: WindowId) -> Option<
        VirtualWorkspaceId,
    > {
        match self.workspace_of(window_id) {
            Some(info) if info.space == space => Some(info.workspace_id),
            _ => None,
        }
    }

    /// The window was seen less than `ttl_ms` milliseconds before `now`.
    pub open spec fn is_recent(self, wsid: WindowServerId, ttl_ms: u64, now: Instant) -> bool {
        self.server(wsid).recent_at matches Some(ts) && !crate::clock::has_expired(now, ts, ttl_ms)
    }

    /// The visible windows of the window server.
    pub open spec fn shown(self) -> Set<WindowServerId> {
        self.servers.dom().filter(|s: WindowServerId| self.servers[s].visible)
    }

    /// `from`, with the server records of `done` changed by `f` and those of
    /// them dropped that it made blank.
    spec fn settled_in_part(
        self,
        from: RegistryView,
        done: Seq<WindowServerId>,
        f: spec_fn(WindowServerRecord) -> WindowServerRecord,
    ) -> bool {
        &&& self.windows == from.windows
        &&& forall|s: WindowServerId| #[trigger]
            self.servers.contains_key(s) <==> from.servers.contains_key(s) && (done.contains(s)
                ==> f(from.servers[s]) != WindowServerRecord::blank())
        &&& forall|s: WindowServerId| #[trigger]
            self.servers.contains_key(s) ==> self.servers[s] == if done.contains(s) {
                f(from.servers[s])
            } else {
                from.servers[s]
            }
    }

    /// The windows with an assignment.
    pub open spec fn assigned(self) -> Set<WindowId> {
        self.windows.dom().filter(|w: WindowId| self.windows[w].workspace is Some)
    }

    /// The registry without the given windows and without what the window
    /// server says of them.
    pub open spec fn without_windows(self, gone: Set<WindowId>) -> Self {
        RegistryView {
            windows: self.windows.remove_keys(gone),
            servers: self.servers.remove_keys(
                Set::new(
                    |s: WindowServerId|
                        self.server(s).window_id matches Some(w) && gone.contains(w),
                ),
            ),
        }
    }

    /// Every assignment to `old_space` turned into one to `new_space`.
    pub open spec fn with_space_renamed(self, old_space: SpaceId, new_space: SpaceId) -> Self {
        RegistryView {
            windows: self.windows.map_values(
                |r: WindowRecord| with_record_moved(r, old_space, new_space),
            ),
            ..self
        }
    }
}

pub open spec fn with_record_moved(
    r: WindowRecord,
    old_space: SpaceId,
    new_space: SpaceId,
) -> WindowRecord {
    match r.workspace {
        Some(info) if info.space == old_space => WindowRecord {
            workspace: Some(WindowWorkspaceInfo { space: new_space, ..info }),
            ..r
        },
        _ => r,
    }
}

/// The change of a server record whose window was seen at `now`.
pub open spec fn recent_since(now: Instant) -> spec_fn(WindowServerRecord) -> WindowServerRecord {
    |r: WindowServerRecord| WindowServerRecord { recent_at: Some(now), ..r }
}

/// The change of a server record when sightings expire at the age `ttl_ms`.
pub open spec fn purged_at(now: Instant, ttl_ms: u64) -> spec_fn(
    WindowServerRecord,
) -> WindowServerRecord {
    |r: WindowServerRecord|
        match r.recent_at {
            Some(ts) if crate::clock::has_expired(now, ts, ttl_ms) => WindowServerRecord {
                recent_at: None,
                ..r
            },
            _ => r,
        }
}

/// What is known of windows.
#[derive(Debug)]
pub struct WindowRegistry {
    windows: IdMap<WindowId, WindowRecord>,
    window_servers: IdMap<WindowServerId, WindowServerRecord>,
}

impl View for WindowRegistry {
    type V = RegistryView;

    closed spec fn view(&self) -> RegistryView {
        RegistryView { windows: self.windows@, servers: self.window_servers@ }
    }
}

impl Default for WindowRegistry {
    fn default() -> (r: Self)
        ensures
            r@ == RegistryView::empty(),
    {
        WindowRegistry { windows: IdMap::new(), window_servers: IdMap::new() }
    }
}

impl WindowRegistry {
    pub fn window(&self, window_id: WindowId) -> (r: Option<&WindowState>)
        ensures
            match r {
                Some(state) => self@.window(window_id).state == Some(*state),
                None => self@.window(window_id).state is None,
            },
    {
        match self.windows.get(window_id) {
            Some(record) => record.state.as_ref(),
            None => None,
        }
    }

    pub fn window_mut(&mut self, window_id: WindowId) -> (r: Option<&mut WindowState>)
        ensures
            match r {
                Some(state) => old(self)@.window(window_id).state == Some(*state) && final(self)@
                    == old(self)@.put_window(
                    window_id,
                    (WindowRecord {
                        state: Some(*final(state)),
                        ..old(self)@.window(window_id)
                    }),
                ),
                None => old(self)@.window(window_id).state is None && final(self)@ == old(self)@,
            },
    {
        match self.windows.get_mut(window_id) {
            Some(record) => record.state.as_mut(),
            None => None,
        }
    }

    pub fn insert_window(&mut self, window_id: WindowId, window: WindowState)
        ensures
            final(self)@ == old(self)@.put_window(
                window_id,
                (WindowRecord { state: Some(window), ..old(self)@.window(window_id) }),
            ),
    {
        let record = self.windows.get_or_insert(window_id, WindowRecord::new());
        record.state = Some(window);
    }

    pub fn contains_window(&self, window_id: WindowId) -> (r: bool)
        ensures
            r == self@.window(window_id).state is Some,
    {
        self.window(window_id).is_some()
    }

    pub fn tracked_window_count(&self) -> (r: usize)
        ensures
            r == self@.known().len(),
    {
        self.tracked_window_ids().len()
    }

    /// The windows with a state, each once, in no particular order.
    fn tracked_window_ids(&self) -> (r: Vec<WindowId>)
        ensures
            r@.no_duplicates(),
            r@.to_set() == self@.known(),
            r@.len() == self@.known().len(),
    {
        let ghost wanted = |_w: WindowId, record: WindowRecord| record.state is Some;
        let test = |_w: WindowId, record: &WindowRecord| -> (b: bool)
            ensures
                b == record.state is Some,
        {
            record.state.is_some()
        };
        let r = self.windows.keys_where(test, Ghost(wanted));
        assert(r@.to_set() =~= self@.known());
        r
    }

    /// The windows with a state, each once with its state, in no particular
    /// order.
    pub fn iter_windows(&self) -> (r: Vec<(WindowId, &WindowState)>)
        ensures
            r@.map_values(|entry: (WindowId, &WindowState)| entry.0).no_duplicates(),
            r@.map_values(|entry: (WindowId, &WindowState)| entry.0).to_set() == self@.known(),
            forall|i: int|
                0 <= i < r@.len() ==> self@.window((#[trigger] r@[i]).0).state == Some(*r@[i].1),
    {
        let ids = self.tracked_window_ids();
        let mut r: Vec<(WindowId, &WindowState)> = Vec::new();
        for i in 0..ids.len()
            invariant
                ids@.to_set() == self@.known(),
                r@.map_values(|entry: (WindowId, &WindowState)| entry.0) =~= ids@.take(i as int),
                forall|j: int|
                    0 <= j < r@.len() ==> self@.window((#[trigger] r@[j]).0).state == Some(
                        *r@[j].1,
                    ),
        {
            assert(ids@.to_set().contains(ids@[i as int]));
            assert(self@.known().contains(ids@[i as int]));
            match self.window(ids[i]) {
                Some(state) => {
                    let ghost before = r@;
                    r.push((ids[i], state));
                    assert(r@.map_values(|entry: (WindowId, &WindowState)| entry.0)
                        =~= before.map_values(|entry: (WindowId, &WindowState)| entry.0).push(
                        ids@[i as int],
                    ));
                },
                None => {},
            }
        }
        assert(ids@.take(ids@.len() as int) =~= ids@);
        r
    }

    /// The windows of a process that have a state, each once, in no
    /// particular order.
    pub fn window_ids_for_pid(&self, pid: i32) -> (r: Vec<WindowId>)
        ensures
            r@.no_duplicates(),
            r@.to_set() == self@.known().filter(|w: WindowId| w.pid == pid),
    {
        let ghost wanted = |w: WindowId, record: WindowRecord| record.state is Some && w.pid == pid;
        let test = |w: WindowId, record: &WindowRecord| -> (b: bool)
            ensures
                b == (record.state is Some && w.pid == pid),
        {
            record.state.is_some() && w.pid == pid
        };
        let r = self.windows.keys_where(test, Ghost(wanted));
        assert(r@.to_set() =~= self@.known().filter(|w: WindowId| w.pid == pid));
        r
    }

    /// The windows of the window server that have a record, each once, in no
    /// particular order.
    pub fn iter_window_server_ids(&self) -> (r: Vec<WindowServerId>)
        ensures
            r@.no_duplicates(),
            r@.to_set() == self@.servers.dom(),
    {
        self.window_servers.keys()
    }

    /// The windows of the window server that stand for a known window, each
    /// once, in no particular order.
    pub fn iter_tracked_window_server_ids(&self) -> (r: Vec<WindowServerId>)
        ensures
            r@.no_duplicates(),
            r@.to_set() == self@.servers.dom().filter(
                |s: WindowServerId| self@.servers[s].window_id is Some,
            ),
    {
        let ghost wanted = |_s: WindowServerId, record: WindowServerRecord|
            record.window_id is Some;
        let test = |_s: WindowServerId, record: &WindowServerRecord| -> (b: bool)
            ensures
                b == record.window_id is Some,
        {
            record.window_id.is_some()
        };
        let r = self.window_servers.keys_where(test, Ghost(wanted));
        assert(r@.to_set() =~= self@.servers.dom().filter(
            |s: WindowServerId| self@.servers[s].window_id is Some,
        ));
        r
    }

    /// The visible windows of the window server, each once, in no particular
    /// order.
    pub fn iter_visible_window_server_ids(&self) -> (r: Vec<WindowServerId>)
        ensures
            r@.no_duplicates(),
            r@.to_set() == self@.shown(),
            r@.len() == self@.shown().len(),
    {
        let ghost wanted = |_s: WindowServerId, record: WindowServerRecord| record.visible;
        let test = |_s: WindowServerId, record: &WindowServerRecord| -> (b: bool)
            ensures
                b == record.visible,
        {
            record.visible
        };
        let r = self.window_servers.keys_where(test, Ghost(wanted));
        assert(r@.to_set() =~= self@.shown());
        r
    }

    pub fn window_server_info_count(&self) -> (r: usize)
        ensures
            r == self@.servers.dom().filter(
                |s: WindowServerId| self@.servers[s].info is Some,
            ).len(),
    {
        let ghost wanted = |_s: WindowServerId, record: WindowServerRecord| record.info is Some;
        let test = |_s: WindowServerId, record: &WindowServerRecord| -> (b: bool)
            ensures
                b == record.info is Some,
        {
            record.info.is_some()
        };
        let ids = self.window_servers.keys_where(test, Ghost(wanted));
        assert(ids@.to_set() =~= self@.servers.dom().filter(
            |s: WindowServerId| self@.servers[s].info is Some,
        ));
        ids.len()
    }

    pub fn visible_window_server_count(&self) -> (r: usize)
        ensures
            r == self@.shown().len(),
    {
        self.iter_visible_window_server_ids().len()
    }

    fn server_record_mut(&mut self, wsid: WindowServerId) -> (r: &mut WindowServerRecord)
        ensures
            *r == old(self)@.server(wsid),
            final(self)@ == old(self)@.put_server(wsid, *final(r)),
    {
        self.window_servers.get_or_insert(wsid, WindowServerRecord::new())
    }

    fn prune_window_record(&mut self, window_id: WindowId)
        ensures
            final(self)@ == old(self)@.settle_window(window_id, old(self)@.window(window_id)),
    {
        let should_remove = match self.windows.get(window_id) {
            Some(record) => record.is_blank(),
            None => false,
        };
        if should_remove {
            self.windows.remove(window_id);
        }
        assert(self@ =~= old(self)@.settle_window(window_id, old(self)@.window(window_id)));
    }

    fn prune_window_server_record(&mut self, wsid: WindowServerId)
        ensures
            final(self)@ == old(self)@.settle_server(wsid, old(self)@.server(wsid)),
    {
        let should_remove = match self.window_servers.get(wsid) {
            Some(record) => record.is_blank(),
            None => false,
        };
        if should_remove {
            self.window_servers.remove(wsid);
        }
        assert(self@ =~= old(self)@.settle_server(wsid, old(self)@.server(wsid)));
    }

    pub fn tracked_window_id(&self, wsid: WindowServerId) -> (r: Option<WindowId>)
        ensures
            r == self@.server(wsid).window_id,
    {
        match self.window_servers.get(wsid) {
            Some(record) => record.window_id,
            None => None,
        }
    }

    pub fn track_window_server_id(
        &mut self,
        wsid: WindowServerId,
        window_id: WindowId,
    ) -> (r: Option<WindowId>)
        ensures
            final(self)@ == old(self)@.put_server(
                wsid,
                (WindowServerRecord {
                    window_id: Some(window_id),
                    ..old(self)@.server(wsid)
                }),
            ),
            r == old(self)@.server(wsid).window_id,
    {
        let record = self.server_record_mut(wsid);
        let old_id = record.window_id;
        record.window_id = Some(window_id);
        old_id
    }

    pub fn track_window_server_info(&mut self, info: WindowServerInfo) -> (r: Option<
        WindowServerInfo,
    >)
        ensures
            final(self)@ == old(self)@.put_server(
                info.id,
                (WindowServerRecord { info: Some(info), ..old(self)@.server(info.id) }),
            ),
            r == old(self)@.server(info.id).info,
    {
        let record = self.server_record_mut(info.id);
        let old_info = record.info;
        record.info = Some(info);
        old_info
    }

    pub fn get_window_server_info(&self, wsid: WindowServerId) -> (r: Option<WindowServerInfo>)
        ensures
            r == self@.server(wsid).info,
    {
        match self.window_servers.get(wsid) {
            Some(record) => record.info,
            None => None,
        }
    }

    pub fn knows_window_server_id(&self, wsid: WindowServerId) -> (r: bool)
        ensures
            r == self@.server(wsid).info is Some,
    {
        self.get_window_server_info(wsid).is_some()
    }

    pub fn mark_window_visible(&mut self, wsid: WindowServerId) -> (r: bool)
        ensures
            final(self)@ == old(self)@.put_server(
                wsid,
                (WindowServerRecord { visible: true, ..old(self)@.server(wsid) }),
            ),
            r == !old(self)@.server(wsid).visible,
    {
        let record = self.server_record_mut(wsid);
        let changed = !record.visible;
        record.visible = true;
        changed
    }

    pub fn set_visible_windows(&mut self, wsids: Vec<WindowServerId>)
        ensures
            final(self)@ == old(self)@.put_servers(
                wsids@,
                |r: WindowServerRecord| (WindowServerRecord { visible: true, ..r }),
            ),
    {
        let ghost f = |r: WindowServerRecord| (WindowServerRecord { visible: true, ..r });
        assert(self@ =~= old(self)@.put_servers(wsids@.take(0), f));
        for i in 0..wsids.len()
            invariant
                f == (|r: WindowServerRecord| (WindowServerRecord { visible: true, ..r })),
                self@ == old(self)@.put_servers(wsids@.take(i as int), f),
        {
            proof {
                assert(wsids@.take(i + 1) =~= wsids@.take(i as int).push(wsids@[i as int]));
                crate::id_map::lemma_contains_push(wsids@.take(i as int), wsids@[i as int]);
            }
            self.mark_window_visible(wsids[i]);
            assert(self@ =~= old(self)@.put_servers(wsids@.take(i + 1), f));
        }
        assert(wsids@.take(wsids@.len() as int) =~= wsids@);
    }

    pub fn clear_visible_windows(&mut self)
        ensures
            final(self)@ == old(self)@.settle_servers(
                |r: WindowServerRecord| (WindowServerRecord { visible: false, ..r }),
            ),
    {
        let wsids = self.window_servers.keys();
        let ghost f = |r: WindowServerRecord| (WindowServerRecord { visible: false, ..r });
        for i in 0..wsids.len()
            invariant
                f == (|r: WindowServerRecord| (WindowServerRecord { visible: false, ..r })),
                wsids@.no_duplicates(),
                wsids@.to_set() == old(self)@.servers.dom(),
                self@.settled_in_part(old(self)@, wsids@.take(i as int), f),
        {
            proof {
                assert(wsids@.to_set().contains(wsids@[i as int]));
                assert(wsids@.take(i + 1) =~= wsids@.take(i as int).push(wsids@[i as int]));
                crate::id_map::lemma_contains_push(wsids@.take(i as int), wsids@[i as int]);
                assert(!wsids@.take(i as int).contains(wsids@[i as int]));
            }
            self.mark_window_hidden(wsids[i]);
        }
        proof {
            assert(wsids@.take(wsids@.len() as int) =~= wsids@);
            assert forall|s: WindowServerId| wsids@.contains(s) == old(self)@.servers.contains_key(
                s,
            ) by {
                assert(wsids@.to_set().contains(s) == wsids@.contains(s));
            }
            assert(self@ =~= old(self)@.settle_servers(f));
        }
    }

    pub fn mark_window_hidden(&mut self, wsid: WindowServerId) -> (r: bool)
        ensures
            final(self)@ == old(self)@.settle_server(
                wsid,
                (WindowServerRecord { visible: false, ..old(self)@.server(wsid) }),
            ),
            r == old(self)@.server(wsid).visible,
    {
        let mut changed = false;
        if let Some(record) = self.window_servers.get_mut(wsid) {
            changed = record.visible;
            record.visible = false;
        }
        self.prune_window_server_record(wsid);
        assert(self@ =~= old(self)@.settle_server(
            wsid,
            WindowServerRecord { visible: false, ..old(self)@.server(wsid) },
        ));
        changed
    }

    pub fn is_window_visible(&self, wsid: WindowServerId) -> (r: bool)
        ensures
            r == self@.server(wsid).visible,
    {
        match self.window_servers.get(wsid) {
            Some(record) => record.visible,
            None => false,
        }
    }

    pub fn mark_window_server_observed(&mut self, wsid: WindowServerId) -> (r: bool)
        ensures
            final(self)@ == old(self)@.put_server(
                wsid,
                (WindowServerRecord { observed: true, ..old(self)@.server(wsid) }),
            ),
            r == !old(self)@.server(wsid).observed,
    {
        let record = self.server_record_mut(wsid);
        let changed = !record.observed;
        record.observed = true;
        changed
    }

    pub fn clear_window_server_observed(&mut self, wsid: WindowServerId) -> (r: bool)
        ensures
            final(self)@ == old(self)@.settle_server(
                wsid,
                (WindowServerRecord { observed: false, ..old(self)@.server(wsid) }),
            ),
            r == old(self)@.server(wsid).observed,
    {
        let mut changed = false;
        if let Some(record) = self.window_servers.get_mut(wsid) {
            changed = record.observed;
            record.observed = false;
        }
        self.prune_window_server_record(wsid);
        assert(self@ =~= old(self)@.settle_server(
            wsid,
            WindowServerRecord { observed: false, ..old(self)@.server(wsid) },
        ));
        changed
    }

    pub fn is_window_server_observed(&self, wsid: WindowServerId) -> (r: bool)
        ensures
            r == self@.server(wsid).observed,
    {
        match self.window_servers.get(wsid) {
            Some(record) => record.observed,
            None => false,
        }
    }

    pub fn set_window_server_space(&mut self, wsid: WindowServerId, space: Option<SpaceId>)
        ensures
            final(self)@ == old(self)@.settle_server(
                wsid,
                (WindowServerRecord { space, ..old(self)@.server(wsid) }),
            ),
    {
        let record = self.server_record_mut(wsid);
        record.space = space;
        self.prune_window_server_record(wsid);
        assert(self@ =~= old(self)@.settle_server(
            wsid,
            WindowServerRecord { space, ..old(self)@.server(wsid) },
        ));
    }

    pub fn window_server_space(&self, wsid: WindowServerId) -> (r: Option<SpaceId>)
        ensures
            r == self@.server(wsid).space,
    {
        match self.window_servers.get(wsid) {
            Some(record) => record.space,
            None => None,
        }
    }

    pub fn remove_window_server_state(&mut self, wsid: WindowServerId) -> (r: Option<WindowId>)
        ensures
            final(self)@ == old(self)@.settle_server(wsid, WindowServerRecord::blank()),
            r == old(self)@.server(wsid).window_id,
    {
        let wid = self.tracked_window_id(wsid);
        if let Some(record) = self.window_servers.get_mut(wsid) {
            record.window_id = None;
            record.visible = false;
            record.observed = false;
            record.space = None;
            record.info = None;
            record.recent_at = None;
        }
        self.prune_window_server_record(wsid);
        assert(self@ =~= old(self)@.settle_server(wsid, WindowServerRecord::blank()));
        wid
    }

    pub fn assign_window_to_workspace(
        &mut self,
        window_id: WindowId,
        assignment: WindowWorkspaceInfo,
    ) -> (r: Option<WindowWorkspaceInfo>)
        ensures
            final(self)@ == old(self)@.put_window(
                window_id,
                (WindowRecord {
                    workspace: Some(assignment),
                    ..old(self)@.window(window_id)
                }),
            ),
            r == old(self)@.workspace_of(window_id),
    {
        let record = self.windows.get_or_insert(window_id, WindowRecord::new());
        let old_assignment = record.workspace;
        record.workspace = Some(assignment);
        old_assignment
    }

    pub fn workspace_info_for_window(&self, window_id: WindowId) -> (r: Option<
        WindowWorkspaceInfo,
    >)
        ensures
            r == self@.workspace_of(window_id),
    {
        match self.windows.get(window_id) {
            Some(record) => record.workspace,
            None => None,
        }
    }

    pub fn workspace_for_window(&self, space: SpaceId, window_id: WindowId) -> (r: Option<
        VirtualWorkspaceId,
    >)
        ensures
            r == self@.workspace_in(space, window_id),
    {
        match self.workspace_info_for_window(window_id) {
            Some(assignment) => {
                if assignment.space == space {
                    Some(assignment.workspace_id)
                } else {
                    None
                }
            },
            None => None,
        }
    }

    pub fn workspaces_for_window(&self, window_id: WindowId) -> (r: Vec<VirtualWorkspaceId>)
        ensures
            r@ == match self@.workspace_of(window_id) {
                Some(info) => seq![info.workspace_id],
                None => Seq::empty(),
            },
    {
        match self.workspace_info_for_window(window_id) {
            Some(assignment) => vec![assignment.workspace_id],
            None => Vec::new(),
        }
    }

    pub fn remove_window_assignment(&mut self, window_id: WindowId) -> (r: Option<
        WindowWorkspaceInfo,
    >)
        ensures
            final(self)@ == old(self)@.settle_window(
                window_id,
                (WindowRecord { workspace: None, ..old(self)@.window(window_id) }),
            ),
            r == old(self)@.workspace_of(window_id),
    {
        let mut old_assignment: Option<WindowWorkspaceInfo> = None;
        if let Some(record) = self.windows.get_mut(window_id) {
            old_assignment = record.workspace;
            record.workspace = None;
        }
        self.prune_window_record(window_id);
        assert(self@ =~= old(self)@.settle_window(
            window_id,
            WindowRecord { workspace: None, ..old(self)@.window(window_id) },
        ));
        old_assignment
    }

    pub fn set_rule_floating(&mut self, window_id: WindowId, value: bool)
        ensures
            final(self)@ == old(self)@.settle_window(
                window_id,
                (WindowRecord { rule_floating: value, ..old(self)@.window(window_id) }),
            ),
    {
        let record = self.windows.get_or_insert(window_id, WindowRecord::new());
        record.rule_floating = value;
        self.prune_window_record(window_id);
        assert(self@ =~= old(self)@.settle_window(
            window_id,
            WindowRecord { rule_floating: value, ..old(self)@.window(window_id) },
        ));
    }

    pub fn clear_rule_floating(&mut self, window_id: WindowId)
        ensures
            final(self)@ == old(self)@.settle_window(
                window_id,
                (WindowRecord { rule_floating: false, ..old(self)@.window(window_id) }),
            ),
    {
        if let Some(record) = self.windows.get_mut(window_id) {
            record.rule_floating = false;
        }
        self.prune_window_record(window_id);
        assert(self@ =~= old(self)@.settle_window(
            window_id,
            WindowRecord { rule_floating: false, ..old(self)@.window(window_id) },
        ));
    }

    pub fn rule_floating(&self, window_id: WindowId) -> (r: bool)
        ensures
            r == self@.window(window_id).rule_floating,
    {
        match self.windows.get(window_id) {
            Some(record) => record.rule_floating,
            None => false,
        }
    }

    pub fn set_last_rule_decision(&mut self, window_id: WindowId, value: bool)
        ensures
            final(self)@ == old(self)@.put_window(
                window_id,
                (WindowRecord {
                    last_rule_decision: value,
                    ..old(self)@.window(window_id)
                }),
            ),
    {
        let record = self.windows.get_or_insert(window_id, WindowRecord::new());
        record.last_rule_decision = value;
    }

    pub fn last_rule_decision(&self, window_id: WindowId) -> (r: bool)
        ensures
            r == self@.window(window_id).last_rule_decision,
    {
        match self.windows.get(window_id) {
            Some(record) => record.last_rule_decision,
            None => false,
        }
    }

    pub fn clear_rule_metadata(&mut self, window_id: WindowId)
        ensures
            final(self)@ == old(self)@.settle_window(
                window_id,
                (WindowRecord {
                    rule_floating: false,
                    last_rule_decision: false,
                    ..old(self)@.window(window_id)
                }),
            ),
    {
        if let Some(record) = self.windows.get_mut(window_id) {
            record.rule_floating = false;
            record.last_rule_decision = false;
        }
        self.prune_window_record(window_id);
        assert(self@ =~= old(self)@.settle_window(
            window_id,
            WindowRecord {
                rule_floating: false,
                last_rule_decision: false,
                ..old(self)@.window(window_id)
            },
        ));
    }

    pub fn remove_window(&mut self, window_id: WindowId)
        ensures
            final(self)@ == old(self)@.without_windows(set![window_id]),
    {
        self.windows.remove(window_id);
        let ghost wanted = |_s: WindowServerId, record: WindowServerRecord|
            record.window_id == Some(window_id);
        let test = |_s: WindowServerId, record: &WindowServerRecord| -> (b: bool)
            ensures
                b == (record.window_id == Some(window_id)),
        {
            record.window_id == Some(window_id)
        };
        let server_ids = self.window_servers.keys_where(test, Ghost(wanted));
        let ghost start = self@;
        for i in 0..server_ids.len()
            invariant
                self@.windows == start.windows,
                self@.servers =~= start.servers.remove_keys(server_ids@.take(i as int).to_set()),
        {
            let ghost before = self@.servers;
            self.remove_window_server_state(server_ids[i]);
            proof {
                let wsid = server_ids@[i as int];
                assert(server_ids@.take(i + 1) =~= server_ids@.take(i as int).push(wsid));
                crate::id_map::lemma_contains_push(server_ids@.take(i as int), wsid);
                assert(server_ids@.take(i + 1).to_set() =~= server_ids@.take(
                    i as int,
                ).to_set().insert(wsid));
                assert(self@.servers =~= before.remove(wsid));
            }
        }
        proof {
            assert(server_ids@.take(server_ids@.len() as int) =~= server_ids@);
            assert(self@ =~= old(self)@.without_windows(set![window_id]));
        }
    }

    pub fn remove_windows_for_app(&mut self, pid: i32)
        ensures
            final(self)@ == old(self)@.without_windows(
                old(self)@.windows.dom().filter(|w: WindowId| w.pid == pid),
            ),
    {
        let ghost wanted = |w: WindowId, _record: WindowRecord| w.pid == pid;
        let test = |w: WindowId, _record: &WindowRecord| -> (b: bool)
            ensures
                b == (w.pid == pid),
        {
            w.pid == pid
        };
        let window_ids = self.windows.keys_where(test, Ghost(wanted));
        assert(self@ =~= old(self)@.without_windows(window_ids@.take(0).to_set()));
        for i in 0..window_ids.len()
            invariant
                self@ == old(self)@.without_windows(window_ids@.take(i as int).to_set()),
        {
            self.remove_window(window_ids[i]);
            proof {
                let wid = window_ids@[i as int];
                assert(window_ids@.take(i + 1) =~= window_ids@.take(i as int).push(wid));
                crate::id_map::lemma_contains_push(window_ids@.take(i as int), wid);
                assert(window_ids@.take(i + 1).to_set() =~= window_ids@.take(
                    i as int,
                ).to_set().insert(wid));
                assert(self@ =~= old(self)@.without_windows(window_ids@.take(i + 1).to_set()));
            }
        }
        proof {
            assert(window_ids@.take(window_ids@.len() as int) =~= window_ids@);
            assert(window_ids@.to_set() =~= old(self)@.windows.dom().filter(
                |w: WindowId| w.pid == pid,
            ));
        }
    }

    /// The windows with an assignment, each once, in no particular order.
    pub(crate) fn assigned_window_ids(&self) -> (r: Vec<WindowId>)
        ensures
            r@.no_duplicates(),
            r@.to_set() == self@.assigned(),
            r@.len() == self@.assigned().len(),
    {
        let ghost wanted = |_w: WindowId, record: WindowRecord| record.workspace is Some;
        let test = |_w: WindowId, record: &WindowRecord| -> (b: bool)
            ensures
                b == record.workspace is Some,
        {
            record.workspace.is_some()
        };
        let r = self.windows.keys_where(test, Ghost(wanted));
        assert(r@.to_set() =~= self@.assigned());
        r
    }

    /// The windows with an assignment, each once with its assignment, in no
    /// particular order.
    pub fn iter_workspace_assignments(&self) -> (r: Vec<(WindowId, WindowWorkspaceInfo)>)
        ensures
            r@.map_values(|entry: (WindowId, WindowWorkspaceInfo)| entry.0).no_duplicates(),
            r@.map_values(|entry: (WindowId, WindowWorkspaceInfo)| entry.0).to_set()
                == self@.assigned(),
            forall|i: int|
                0 <= i < r@.len() ==> self@.workspace_of((#[trigger] r@[i]).0) == Some(r@[i].1),
    {
        let ids = self.assigned_window_ids();
        let mut r: Vec<(WindowId, WindowWorkspaceInfo)> = Vec::new();
        for i in 0..ids.len()
            invariant
                ids@.to_set() == self@.assigned(),
                r@.map_values(|entry: (WindowId, WindowWorkspaceInfo)| entry.0) =~= ids@.take(
                    i as int,
                ),
                forall|j: int|
                    0 <= j < r@.len() ==> self@.workspace_of((#[trigger] r@[j]).0) == Some(
                        r@[j].1,
                    ),
        {
            assert(ids@.to_set().contains(ids@[i as int]));
            assert(self@.assigned().contains(ids@[i as int]));
            match self.workspace_info_for_window(ids[i]) {
                Some(info) => {
                    let ghost before = r@;
                    r.push((ids[i], info));
                    assert(r@.map_values(|entry: (WindowId, WindowWorkspaceInfo)| entry.0)
                        =~= before.map_values(
                        |entry: (WindowId, WindowWorkspaceInfo)| entry.0,
                    ).push(ids@[i as int]));
                },
                None => {},
            }
        }
        assert(ids@.take(ids@.len() as int) =~= ids@);
        r
    }

    pub fn workspace_assignment_count(&self) -> (r: usize)
        ensures
            r == self@.assigned().len(),
    {
        self.assigned_window_ids().len()
    }

    pub fn remap_space(&mut self, old_space: SpaceId, new_space: SpaceId)
        ensures
            final(self)@ == old(self)@.with_space_renamed(old_space, new_space),
    {
        if old_space == new_space {
            proof {
                assert forall|r: WindowRecord| with_record_moved(r, old_space, new_space) == r by {
                }
                assert(self@ =~= old(self)@.with_space_renamed(old_space, new_space));
            }
            return;
        }
        let ids = self.windows.keys();
        for i in 0..ids.len()
            invariant
                ids@.no_duplicates(),
                ids@.to_set() == old(self)@.windows.dom(),
                self@.servers == old(self)@.servers,
                self@.windows.dom() == old(self)@.windows.dom(),
                forall|w: WindowId| #[trigger]
                    self@.windows.contains_key(w) ==> self@.windows[w] == if ids@.take(
                        i as int,
                    ).contains(w) {
                        with_record_moved(old(self)@.windows[w], old_space, new_space)
                    } else {
                        old(self)@.windows[w]
                    },
        {
            proof {
                assert(ids@.to_set().contains(ids@[i as int]));
                assert(ids@.take(i + 1) =~= ids@.take(i as int).push(ids@[i as int]));
                crate::id_map::lemma_contains_push(ids@.take(i as int), ids@[i as int]);
                assert(!ids@.take(i as int).contains(ids@[i as int]));
            }
            let ghost before = self@.windows;
            if let Some(record) = self.windows.get_mut(ids[i]) {
                match record.workspace {
                    Some(assignment) => {
                        if assignment.space == old_space {
                            record.workspace = Some(
                                WindowWorkspaceInfo {
                                    space: new_space,
                                    workspace_id: assignment.workspace_id,
                                },
                            );
                        }
                    },
                    None => {},
                }
            }
            assert(self@.windows.dom() =~= old(self)@.windows.dom());
        }
        proof {
            assert(ids@.take(ids@.len() as int) =~= ids@);
            assert forall|w: WindowId| ids@.contains(w) == old(self)@.windows.contains_key(w) by {
                assert(ids@.to_set().contains(w) == ids@.contains(w));
            }
            assert(self@ =~= old(self)@.with_space_renamed(old_space, new_space));
        }
    }

    /// Marks the windows as recently seen, now.
    pub fn mark_wsids_recent(&mut self, wsids: Vec<WindowServerId>)
        ensures
            exists|now: Instant|
                final(self)@ == #[trigger] old(self)@.put_servers(wsids@, recent_since(now)),
    {
        let now = Instant::now();
        self.mark_wsids_recent_at(wsids, now);
    }

    /// Marks the windows as seen at `now`.
    pub fn mark_wsids_recent_at(&mut self, wsids: Vec<WindowServerId>, now: Instant)
        ensures
            final(self)@ == old(self)@.put_servers(wsids@, recent_since(now)),
    {
        assert(self@ =~= old(self)@.put_servers(wsids@.take(0), recent_since(now)));
        for i in 0..wsids.len()
            invariant
                self@ == old(self)@.put_servers(wsids@.take(i as int), recent_since(now)),
        {
            proof {
                assert(wsids@.take(i + 1) =~= wsids@.take(i as int).push(wsids@[i as int]));
                crate::id_map::lemma_contains_push(wsids@.take(i as int), wsids@[i as int]);
            }
            let record = self.server_record_mut(wsids[i]);
            record.recent_at = Some(now);
            assert(self@ =~= old(self)@.put_servers(wsids@.take(i + 1), recent_since(now)));
        }
        assert(wsids@.take(wsids@.len() as int) =~= wsids@);
    }

    /// The window was seen less than `ttl_ms` milliseconds ago.
    pub fn is_wsid_recent(&self, wsid: WindowServerId, ttl_ms: u64) -> (r: bool)
        ensures
            exists|now: Instant| r == #[trigger] self@.is_recent(wsid, ttl_ms, now),
    {
        let now = Instant::now();
        self.is_wsid_recent_at(wsid, ttl_ms, now)
    }

    /// The window was seen less than `ttl_ms` milliseconds before `now`.
    pub fn is_wsid_recent_at(&self, wsid: WindowServerId, ttl_ms: u64, now: Instant) -> (r: bool)
        ensures
            r == self@.is_recent(wsid, ttl_ms, now),
    {
        match self.window_servers.get(wsid) {
            Some(record) => match record.recent_at {
                Some(ts) => !is_expired(now, ts, ttl_ms),
                None => false,
            },
            None => false,
        }
    }

    /// Forgets the sightings that are `ttl_ms` milliseconds old or older.
    pub fn purge_expired(&mut self, ttl_ms: u64)
        ensures
            exists|now: Instant|
                final(self)@ == #[trigger] old(self)@.settle_servers(purged_at(now, ttl_ms)),
    {
        let now = Instant::now();
        self.purge_expired_at(ttl_ms, now);
    }

    /// Forgets the sightings that were `ttl_ms` milliseconds old or older at
    /// `now`.
    pub fn purge_expired_at(&mut self, ttl_ms: u64, now: Instant)
        ensures
            final(self)@ == old(self)@.settle_servers(purged_at(now, ttl_ms)),
    {
        let wsids = self.window_servers.keys();
        let ghost f = purged_at(now, ttl_ms);
        for i in 0..wsids.len()
            invariant
                f == purged_at(now, ttl_ms),
                wsids@.no_duplicates(),
                wsids@.to_set() == old(self)@.servers.dom(),
                self@.settled_in_part(old(self)@, wsids@.take(i as int), f),
        {
            proof {
                assert(wsids@.to_set().contains(wsids@[i as int]));
                assert(wsids@.take(i + 1) =~= wsids@.take(i as int).push(wsids@[i as int]));
                crate::id_map::lemma_contains_push(wsids@.take(i as int), wsids@[i as int]);
                assert(!wsids@.take(i as int).contains(wsids@[i as int]));
            }
            let ghost before = self@;
            if let Some(record) = self.window_servers.get_mut(wsids[i]) {
                match record.recent_at {
                    Some(ts) => {
                        if is_expired(now, ts, ttl_ms) {
                            record.recent_at = None;
                        }
                    },
                    None => {},
                }
            }
            assert(self@ =~= before.put_server(
                wsids@[i as int],
                f(before.server(wsids@[i as int])),
            ));
            self.prune_window_server_record(wsids[i]);
        }
        proof {
            assert(wsids@.take(wsids@.len() as int) =~= wsids@);
            assert forall|s: WindowServerId| wsids@.contains(s) == old(self)@.servers.contains_key(
                s,
            ) by {
                assert(wsids@.to_set().contains(s) == wsids@.contains(s));
            }
            assert(self@ =~= old(self)@.settle_servers(f));
        }
    }
}

/// A place for the registry that others work on: empty until one is attached.
#[derive(Debug)]
pub struct WindowRegistryHandle {
    registry: Option<WindowRegistry>,
}

impl View for WindowRegistryHandle {
    type V = Option<RegistryView>;

    closed spec fn view(&self) -> Option<RegistryView> {
        match self.registry {
            Some(registry) => Some(registry@),
            None => None,
        }
    }
}

impl Default for WindowRegistryHandle {
    fn default() -> (r: Self)
        ensures
            r@ is None,
    {
        WindowRegistryHandle { registry: None }
    }
}

impl WindowRegistryHandle {
    pub fn new() -> (r: Self)
        ensures
            r@ is None,
    {
        WindowRegistryHandle { registry: None }
    }

    /// Attaches `registry` in place of whatever was attached.
    pub fn attach(&mut self, registry: WindowRegistry)
        ensures
            final(self)@ == Some(registry@),
    {
        self.registry = Some(registry);
    }

    pub fn is_attached(&self) -> (r: bool)
        ensures
            r == self@ is Some,
    {
        self.registry.is_some()
    }

    pub fn get(&self) -> (r: &WindowRegistry)
        requires
            self@ is Some,
        ensures
            self@ == Some(r@),
    {
        self.registry.as_ref().unwrap()
    }

    pub fn get_mut(&mut self) -> (r: &mut WindowRegistry)
        requires
            old(self)@ is Some,
        ensures
            old(self)@ == Some(r@),
            final(self)@ == Some(final(r)@),
    {
        self.registry.as_mut().unwrap()
    }
}

} // verus!
