//! The remembered positions of floating windows.
use crate::id_map::IdMap;
use crate::ids::{SpaceId, WindowId};
use crate::window::Frame;
use crate::workspace_id::VirtualWorkspaceId;
use vstd::prelude::*;

verus! {

/// Where the floating windows of one workspace are.
#[derive(Debug)]
pub struct FloatingWindowPositions {
    positions: IdMap<WindowId, Frame>,
}

impl View for FloatingWindowPositions {
    type V = Map<WindowId, Frame>;

    closed spec fn view(&self) -> Map<WindowId, Frame> {
        self.positions@
    }
}

impl Default for FloatingWindowPositions {
    fn default() -> (r: Self)
        ensures
            r@ == Map::<WindowId, Frame>::empty(),
    {
        FloatingWindowPositions { positions: IdMap::new() }
    }
}

/// The positions without those of the windows of a process.
pub open spec fn without_app(positions: Map<WindowId, Frame>, pid: i32) -> Map<WindowId, Frame> {
    positions.remove_keys(Set::new(|w: WindowId| w.pid == pid))
}

/// The positions with one stored for the window, where it has none.
pub open spec fn with_absent(
    positions: Map<WindowId, Frame>,
    window_id: WindowId,
    position: Frame,
) -> Map<WindowId, Frame> {
    if positions.contains_key(window_id) {
        positions
    } else {
        positions.insert(window_id, position)
    }
}

impl FloatingWindowPositions {
    pub fn store_position(&mut self, window_id: WindowId, position: Frame)
        ensures
            final(self)@ == old(self)@.insert(window_id, position),
    {
        self.positions.insert(window_id, position);
    }

    pub fn store_if_absent(&mut self, window_id: WindowId, position: Frame)
        ensures
            final(self)@ == with_absent(old(self)@, window_id, position),
    {
        if !self.positions.contains_key(window_id) {
            self.positions.insert(window_id, position);
        }
    }

    pub fn get_position(&self, window_id: WindowId) -> (r: Option<Frame>)
        ensures
            r == (if self@.contains_key(window_id) {
                Some(self@[window_id])
            } else {
                None
            }),
    {
        match self.positions.get(window_id) {
            Some(position) => Some(*position),
            None => None,
        }
    }

    pub fn remove_position(&mut self, window_id: WindowId) -> (r: Option<Frame>)
        ensures
            final(self)@ == old(self)@.remove(window_id),
            r == (if old(self)@.contains_key(window_id) {
                Some(old(self)@[window_id])
            } else {
                None
            }),
    {
        self.positions.remove(window_id)
    }

    /// The windows with a position, each once, in no particular order.
    pub fn windows(&self) -> (r: Vec<WindowId>)
        ensures
            r@.no_duplicates(),
            r@.to_set() == self@.dom(),
    {
        self.positions.keys()
    }

    pub fn remove_app_windows(&mut self, pid: i32)
        ensures
            final(self)@ == without_app(old(self)@, pid),
    {
        let ids = self.positions.keys();
        for i in 0..ids.len()
            invariant
                self@ =~= old(self)@.remove_keys(
                    Set::new(|w: WindowId| w.pid == pid && ids@.take(i as int).contains(w)),
                ),
        {
            proof {
                assert(ids@.take(i + 1) =~= ids@.take(i as int).push(ids@[i as int]));
                crate::id_map::lemma_contains_push(ids@.take(i as int), ids@[i as int]);
            }
            if ids[i].pid == pid {
                self.positions.remove(ids[i]);
            }
        }
        proof {
            assert(ids@.take(ids@.len() as int) =~= ids@);
            assert forall|w: WindowId| old(self)@.contains_key(w) implies ids@.contains(w) by {
                assert(ids@.to_set().contains(w));
            }
            assert(self@ =~= without_app(old(self)@, pid));
        }
    }
}

impl Clone for FloatingWindowPositions {
    fn clone(&self) -> (r: Self)
        ensures
            r@ == self@,
    {
        let windows = self.positions.keys();
        let mut r: FloatingWindowPositions = Default::default();
        for i in 0..windows.len()
            invariant
                windows@.to_set() == self@.dom(),
                r@ =~= self@.restrict(windows@.take(i as int).to_set()),
        {
            proof {
                assert(windows@.to_set().contains(windows@[i as int]));
                assert(windows@.take(i + 1) =~= windows@.take(i as int).push(windows@[i as int]));
                crate::id_map::lemma_contains_push(
                    windows@.take(i as int),
                    windows@[i as int],
                );
                assert(windows@.take(i + 1).to_set() =~= windows@.take(i as int).to_set().insert(
                    windows@[i as int],
                ));
            }
            if let Some(position) = self.positions.get(windows[i]) {
                r.positions.insert(windows[i], *position);
            }
        }
        assert(windows@.take(windows@.len() as int) =~= windows@);
        assert(r@ =~= self@);
        r
    }
}

/// The positions of one workspace of one space.
#[derive(Debug)]
pub struct FloatingEntry {
    space: SpaceId,
    workspace_id: VirtualWorkspaceId,
    positions: FloatingWindowPositions,
}

impl FloatingEntry {
    spec fn key(self) -> (SpaceId, VirtualWorkspaceId) {
        (self.space, self.workspace_id)
    }
}

spec fn is_entry(entries: Seq<FloatingEntry>, key: (SpaceId, VirtualWorkspaceId), i: int) -> bool {
    0 <= i < entries.len() && entries[i].key() == key
}

spec fn distinct(entries: Seq<FloatingEntry>) -> bool {
    forall|i: int, j: int|
        0 <= i < j < entries.len() ==> (#[trigger] entries[i]).key() != (
        #[trigger] entries[j]).key()
}

/// The table that a list of entries makes up.
spec fn table_of(entries: Seq<FloatingEntry>) -> Map<
    (SpaceId, VirtualWorkspaceId),
    Map<WindowId, Frame>,
> {
    Map::new(
        |key: (SpaceId, VirtualWorkspaceId)| exists|i: int| #[trigger] is_entry(entries, key, i),
        |key: (SpaceId, VirtualWorkspaceId)|
            entries[choose|i: int| #[trigger] is_entry(entries, key, i)].positions@,
    )
}

proof fn lemma_entry(entries: Seq<FloatingEntry>, i: int)
    requires
        distinct(entries),
        0 <= i < entries.len(),
    ensures
        table_of(entries).contains_key(entries[i].key()),
        table_of(entries)[entries[i].key()] == entries[i].positions@,
{
    let key = entries[i].key();
    assert(is_entry(entries, key, i));
    let j = choose|j: int| #[trigger] is_entry(entries, key, j);
    assert(entries[i].key() == entries[j].key());
}

/// The positions of the floating windows of every workspace.
#[derive(Debug)]
pub struct FloatingTable {
    entries: Vec<FloatingEntry>,
}

impl View for FloatingTable {
    type V = Map<(SpaceId, VirtualWorkspaceId), Map<WindowId, Frame>>;

    closed spec fn view(&self) -> Map<(SpaceId, VirtualWorkspaceId), Map<WindowId, Frame>> {
        table_of(self.entries@)
    }
}

impl FloatingTable {
    #[verifier::type_invariant]
    spec fn keys_distinct(self) -> bool {
        distinct(self.entries@)
    }

    pub fn new() -> (r: Self)
        ensures
            r@ == Map::<(SpaceId, VirtualWorkspaceId), Map<WindowId, Frame>>::empty(),
    {
        let r = FloatingTable { entries: Vec::new() };
        assert(r@ =~= Map::<(SpaceId, VirtualWorkspaceId), Map<WindowId, Frame>>::empty());
        r
    }

    fn position_of(&self, space: SpaceId, workspace_id: VirtualWorkspaceId) -> (r: Option<usize>)
        ensures
            match r {
                Some(i) => is_entry(self.entries@, (space, workspace_id), i as int),
                None => !self@.contains_key((space, workspace_id)),
            },
    {
        for i in 0..self.entries.len()
            invariant
                forall|j: int|
                    0 <= j < i ==> !#[trigger] is_entry(self.entries@, (space, workspace_id), j),
        {
            if self.entries[i].space == space && self.entries[i].workspace_id == workspace_id {
                return Some(i);
            }
        }
        None
    }

    pub fn get(&self, space: SpaceId, workspace_id: VirtualWorkspaceId) -> (r: Option<
        &FloatingWindowPositions,
    >)
        ensures
            match r {
                Some(positions) => self@.contains_key((space, workspace_id)) && positions@
                    == self@[(space, workspace_id)],
                None => !self@.contains_key((space, workspace_id)),
            },
    {
        match self.position_of(space, workspace_id) {
            Some(i) => {
                proof {
                    use_type_invariant(self);
                    lemma_entry(self.entries@, i as int);
                }
                Some(&self.entries[i].positions)
            },
            None => None,
        }
    }

    /// Takes the positions of a workspace out; none where it has none.
    pub fn take(&mut self, space: SpaceId, workspace_id: VirtualWorkspaceId) -> (r:
        FloatingWindowPositions)
        ensures
            final(self)@ == old(self)@.remove((space, workspace_id)),
            r@ == (if old(self)@.contains_key((space, workspace_id)) {
                old(self)@[(space, workspace_id)]
            } else {
                Map::empty()
            }),
    {
        proof {
            use_type_invariant(&*self);
        }
        match self.position_of(space, workspace_id) {
            Some(i) => {
                let mut entries: Vec<FloatingEntry> = Vec::new();
                std::mem::swap(&mut entries, &mut self.entries);
                let ghost before = entries@;
                let entry = entries.remove(i);
                proof {
                    lemma_entry(before, i as int);
                    lemma_removed(before, entries@, i as int);
                }
                self.entries = entries;
                entry.positions
            },
            None => {
                assert(self@ =~= old(self)@.remove((space, workspace_id)));
                Default::default()
            },
        }
    }

    /// Gives a workspace the positions.
    pub fn put(
        &mut self,
        space: SpaceId,
        workspace_id: VirtualWorkspaceId,
        positions: FloatingWindowPositions,
    )
        ensures
            final(self)@ == old(self)@.insert((space, workspace_id), positions@),
    {
        let _gone = self.take(space, workspace_id);
        proof {
            use_type_invariant(&*self);
        }
        let mut entries: Vec<FloatingEntry> = Vec::new();
        std::mem::swap(&mut entries, &mut self.entries);
        let ghost before = entries@;
        let entry = FloatingEntry { space, workspace_id, positions };
        entries.push(entry);
        proof {
            lemma_pushed(before, entry);
        }
        self.entries = entries;
        assert(self@ =~= old(self)@.insert((space, workspace_id), positions@));
    }

    /// Forgets the positions of a window in every workspace.
    pub fn remove_window(&mut self, window_id: WindowId)
        ensures
            final(self)@ == old(self)@.map_values(
                |positions: Map<WindowId, Frame>| positions.remove(window_id),
            ),
    {
        proof {
            use_type_invariant(&*self);
        }
        let mut entries: Vec<FloatingEntry> = Vec::new();
        std::mem::swap(&mut entries, &mut self.entries);
        let ghost before = entries@;
        let ghost f = |positions: Map<WindowId, Frame>| positions.remove(window_id);
        let n: usize = entries.len();
        for i in 0..n
            invariant
                n == before.len(),
                f == (|positions: Map<WindowId, Frame>| positions.remove(window_id)),
                changed_in_part(before, entries@, i as int, f),
        {
            entries[i].positions.remove_position(window_id);
        }
        proof {
            lemma_mapped(before, entries@, f);
        }
        self.entries = entries;
    }

    /// Forgets the positions of the windows of a process in every workspace.
    pub fn remove_app(&mut self, pid: i32)
        ensures
            final(self)@ == old(self)@.map_values(
                |positions: Map<WindowId, Frame>| without_app(positions, pid),
            ),
    {
        proof {
            use_type_invariant(&*self);
        }
        let mut entries: Vec<FloatingEntry> = Vec::new();
        std::mem::swap(&mut entries, &mut self.entries);
        let ghost before = entries@;
        let ghost f = |positions: Map<WindowId, Frame>| without_app(positions, pid);
        let n: usize = entries.len();
        for i in 0..n
            invariant
                n == before.len(),
                f == (|positions: Map<WindowId, Frame>| without_app(positions, pid)),
                changed_in_part(before, entries@, i as int, f),
        {
            entries[i].positions.remove_app_windows(pid);
        }
        proof {
            lemma_mapped(before, entries@, f);
        }
        self.entries = entries;
    }

    /// Moves the positions of `old_space` to `new_space`, in place of those
    /// that were there.
    pub fn rename_space(&mut self, old_space: SpaceId, new_space: SpaceId)
        requires
            old_space != new_space,
        ensures
            final(self)@ == with_space_moved(old(self)@, old_space, new_space),
    {
        proof {
            use_type_invariant(&*self);
        }
        let mut rest: Vec<FloatingEntry> = Vec::new();
        std::mem::swap(&mut rest, &mut self.entries);
        let ghost before = rest@;
        let ghost all = table_of(before);
        let mut kept: Vec<FloatingEntry> = Vec::new();
        assert(before.take(before.len() as int) =~= before);
        assert(table_of(kept@) =~= with_space_moved(
            all.remove_keys(table_of(rest@).dom()),
            old_space,
            new_space,
        ));
        while rest.len() > 0
            invariant
                old_space != new_space,
                distinct(before),
                all == table_of(before),
                rest@.len() <= before.len(),
                rest@ == before.take(rest@.len() as int),
                distinct(kept@),
                table_of(kept@) == with_space_moved(
                    all.remove_keys(table_of(rest@).dom()),
                    old_space,
                    new_space,
                ),
            decreases rest@.len(),
        {
            let ghost n = rest@.len();
            let ghost with_last = rest@;
            match rest.pop() {
                Some(mut entry) => {
                    let ghost key = entry.key();
                    let ghost done = all.remove_keys(table_of(with_last).dom());
                    let ghost next = all.remove_keys(table_of(rest@).dom());
                    proof {
                        assert(rest@ =~= before.take(n - 1));
                        assert(with_last =~= rest@.push(entry));
                        assert(entry == before[n - 1]);
                        assert(distinct(rest@));
                        assert(!table_of(rest@).contains_key(key)) by {
                            if table_of(rest@).contains_key(key) {
                                let j = choose|j: int| #[trigger] is_entry(rest@, key, j);
                                assert(before[j].key() == before[n - 1].key());
                            }
                        }
                        lemma_pushed(rest@, entry);
                        lemma_entry(before, n - 1);
                        assert(next =~= done.insert(key, entry.positions@));
                    }
                    if entry.space == new_space {
                        assert(with_space_moved(next, old_space, new_space) =~= with_space_moved(
                            done,
                            old_space,
                            new_space,
                        ));
                    } else {
                        if entry.space == old_space {
                            entry.space = new_space;
                        }
                        proof {
                            assert(!table_of(kept@).contains_key(entry.key()));
                            lemma_pushed(kept@, entry);
                            assert(with_space_moved(next, old_space, new_space)
                                =~= with_space_moved(done, old_space, new_space).insert(
                                entry.key(),
                                entry.positions@,
                            ));
                        }
                        kept.push(entry);
                    }
                },
                None => {},
            }
        }
        proof {
            assert(all.remove_keys(table_of(rest@).dom()) =~= all) by {
                assert forall|k: (SpaceId, VirtualWorkspaceId)| !#[trigger] table_of(
                    rest@,
                ).contains_key(k) by {}
            }
        }
        self.entries = kept;
    }
}

/// A table with the positions of `old_space` moved to `new_space`, in place of
/// those that were there.
pub open spec fn with_space_moved(
    table: Map<(SpaceId, VirtualWorkspaceId), Map<WindowId, Frame>>,
    old_space: SpaceId,
    new_space: SpaceId,
) -> Map<(SpaceId, VirtualWorkspaceId), Map<WindowId, Frame>> {
    Map::new(
        |key: (SpaceId, VirtualWorkspaceId)|
            key.0 != old_space && if key.0 == new_space {
                table.contains_key((old_space, key.1))
            } else {
                table.contains_key(key)
            },
        |key: (SpaceId, VirtualWorkspaceId)|
            if key.0 == new_space {
                table[(old_space, key.1)]
            } else {
                table[key]
            },
    )
}

/// The first `n` entries changed by `f`, the others as they were.
spec fn changed_in_part(
    before: Seq<FloatingEntry>,
    after: Seq<FloatingEntry>,
    n: int,
    f: spec_fn(Map<WindowId, Frame>) -> Map<WindowId, Frame>,
) -> bool {
    &&& after.len() == before.len()
    &&& forall|i: int|
        0 <= i < before.len() ==> (#[trigger] after[i]).key() == before[i].key()
            && after[i].positions@ == if i < n {
            f(before[i].positions@)
        } else {
            before[i].positions@
        }
}

proof fn lemma_mapped(
    before: Seq<FloatingEntry>,
    after: Seq<FloatingEntry>,
    f: spec_fn(Map<WindowId, Frame>) -> Map<WindowId, Frame>,
)
    requires
        distinct(before),
        changed_in_part(before, after, before.len() as int, f),
    ensures
        distinct(after),
        table_of(after) == table_of(before).map_values(f),
{
    assert forall|a: int, b: int| 0 <= a < b < after.len() implies (#[trigger] after[a]).key() != (
    #[trigger] after[b]).key() by {
        assert(before[a].key() != before[b].key());
    }
    assert forall|k: (SpaceId, VirtualWorkspaceId)|
        table_of(after).contains_key(k) == table_of(before).contains_key(k) by {
        if table_of(after).contains_key(k) {
            let a = choose|a: int| #[trigger] is_entry(after, k, a);
            assert(is_entry(before, k, a));
        }
        if table_of(before).contains_key(k) {
            let a = choose|a: int| #[trigger] is_entry(before, k, a);
            assert(is_entry(after, k, a));
        }
    }
    assert forall|k: (SpaceId, VirtualWorkspaceId)| #[trigger]
        table_of(after).contains_key(k) implies table_of(after)[k] == f(table_of(before)[k]) by {
        let a = choose|a: int| #[trigger] is_entry(after, k, a);
        lemma_entry(after, a);
        lemma_entry(before, a);
    }
    assert(table_of(after) =~= table_of(before).map_values(f));
}

proof fn lemma_removed(before: Seq<FloatingEntry>, after: Seq<FloatingEntry>, i: int)
    requires
        distinct(before),
        0 <= i < before.len(),
        after == before.remove(i),
    ensures
        distinct(after),
        table_of(after) == table_of(before).remove(before[i].key()),
{
    assert forall|a: int, b: int| 0 <= a < b < after.len() implies (#[trigger] after[a]).key() != (
    #[trigger] after[b]).key() by {
        let x = if a < i {
            a
        } else {
            a + 1
        };
        let y = if b < i {
            b
        } else {
            b + 1
        };
        assert(after[a] == before[x] && after[b] == before[y]);
    }
    let key = before[i].key();
    assert forall|k: (SpaceId, VirtualWorkspaceId)|
        table_of(after).contains_key(k) == table_of(before).remove(key).contains_key(k) by {
        if table_of(after).contains_key(k) {
            let a = choose|a: int| #[trigger] is_entry(after, k, a);
            let x = if a < i {
                a
            } else {
                a + 1
            };
            assert(after[a] == before[x]);
            assert(is_entry(before, k, x));
            assert(before[x].key() != before[i].key());
        }
        if table_of(before).contains_key(k) && k != key {
            let x = choose|x: int| #[trigger] is_entry(before, k, x);
            let a = if x < i {
                x
            } else {
                x - 1
            };
            assert(after[a] == before[x]);
            assert(is_entry(after, k, a));
        }
    }
    assert forall|k: (SpaceId, VirtualWorkspaceId)| #[trigger]
        table_of(after).contains_key(k) implies table_of(after)[k] == table_of(before)[k] by {
        let a = choose|a: int| #[trigger] is_entry(after, k, a);
        let x = if a < i {
            a
        } else {
            a + 1
        };
        assert(after[a] == before[x]);
        lemma_entry(after, a);
        lemma_entry(before, x);
    }
    assert(table_of(after) =~= table_of(before).remove(key));
}

proof fn lemma_pushed(before: Seq<FloatingEntry>, entry: FloatingEntry)
    requires
        distinct(before),
        !table_of(before).contains_key(entry.key()),
    ensures
        distinct(before.push(entry)),
        table_of(before.push(entry)) == table_of(before).insert(entry.key(), entry.positions@),
{
    let after = before.push(entry);
    assert forall|a: int, b: int| 0 <= a < b < after.len() implies (#[trigger] after[a]).key() != (
    #[trigger] after[b]).key() by {
        if b == before.len() {
            assert(!is_entry(before, entry.key(), a));
            assert(after[a] == before[a]);
        } else {
            assert(after[a] == before[a] && after[b] == before[b]);
        }
    }
    assert forall|k: (SpaceId, VirtualWorkspaceId)|
        table_of(after).contains_key(k) == table_of(before).insert(
            entry.key(),
            entry.positions@,
        ).contains_key(k) by {
        if table_of(after).contains_key(k) {
            let a = choose|a: int| #[trigger] is_entry(after, k, a);
            if a < before.len() {
                assert(is_entry(before, k, a));
            }
        }
        if table_of(before).contains_key(k) {
            let a = choose|a: int| #[trigger] is_entry(before, k, a);
            assert(is_entry(after, k, a));
        }
        assert(is_entry(after, entry.key(), before.len() as int));
    }
    assert forall|k: (SpaceId, VirtualWorkspaceId)| #[trigger]
        table_of(after).contains_key(k) implies table_of(after)[k] == table_of(before).insert(
        entry.key(),
        entry.positions@,
    )[k] by {
        let a = choose|a: int| #[trigger] is_entry(after, k, a);
        lemma_entry(after, a);
        if a < before.len() {
            assert(is_entry(before, k, a));
            lemma_entry(before, a);
        }
    }
    assert(table_of(after) =~= table_of(before).insert(entry.key(), entry.positions@));
}

} // verus!
