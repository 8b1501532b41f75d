//! Identifiers of windows, window-server windows and native spaces.
use crate::id_map::MapKey;
use vstd::prelude::*;

verus! {

/// A window as the accessibility layer knows it: the owning process and a
/// per-process index.
#[derive(Clone, Copy, Debug, PartialEq, Eq, Structural, Hash)]
pub struct WindowId {
    pub pid: i32,
    pub idx: u32,
}

impl WindowId {
    pub fn new(pid: i32, idx: u32) -> (r: Self)
        ensures
            r == (WindowId { pid, idx }),
    {
        WindowId { pid, idx }
    }
}

/// A window as the window server knows it.
#[derive(Clone, Copy, Debug, PartialEq, Eq, Structural, Hash)]
pub struct WindowServerId {
    pub raw: u32,
}

impl WindowServerId {
    pub fn new(raw: u32) -> (r: Self)
        ensures
            r == (WindowServerId { raw }),
    {
        WindowServerId { raw }
    }

    pub fn as_u32(self) -> (r: u32)
        ensures
            r == self.raw,
    {
        self.raw
    }
}

/// A native space (one desktop of one display).
#[derive(Clone, Copy, Debug, PartialEq, Eq, Structural, Hash)]
pub struct SpaceId {
    pub raw: u64,
}

impl SpaceId {
    pub fn new(raw: u64) -> (r: Self)
        ensures
            r == (SpaceId { raw }),
    {
        SpaceId { raw }
    }

    pub fn get(self) -> (r: u64)
        ensures
            r == self.raw,
    {
        self.raw
    }
}

/// A process.
#[derive(Clone, Copy, Debug, PartialEq, Eq, Structural, Hash)]
pub struct Pid {
    pub raw: i32,
}

/// The two halves of a window's code, one per 32 bits.
pub open spec fn window_code(id: WindowId) -> u64 {
    ((id.pid + 0x8000_0000) * 0x1_0000_0000 + id.idx) as u64
}

pub open spec fn window_of_code(code: u64) -> WindowId {
    WindowId {
        pid: (code as int / 0x1_0000_0000 - 0x8000_0000) as i32,
        idx: (code as int % 0x1_0000_0000) as u32,
    }
}

impl MapKey for WindowId {
    type Raw = u64;

    open spec fn code(self) -> u64 {
        window_code(self)
    }

    open spec fn of_code(code: u64) -> Self {
        window_of_code(code)
    }

    fn to_code(self) -> (r: u64) {
        (self.pid as i64 + 0x8000_0000) as u64 * 0x1_0000_0000 + self.idx as u64
    }

    fn from_code(code: u64) -> (r: Self) {
        WindowId {
            pid: ((code / 0x1_0000_0000) as i64 - 0x8000_0000) as i32,
            idx: (code % 0x1_0000_0000) as u32,
        }
    }

    proof fn codes() {
        broadcast use vstd::std_specs::hash::group_hash_axioms;

    }
}

impl MapKey for WindowServerId {
    type Raw = u32;

    open spec fn code(self) -> u32 {
        self.raw
    }

    open spec fn of_code(code: u32) -> Self {
        WindowServerId { raw: code }
    }

    fn to_code(self) -> (r: u32) {
        self.raw
    }

    fn from_code(code: u32) -> (r: Self) {
        WindowServerId { raw: code }
    }

    proof fn codes() {
        broadcast use vstd::std_specs::hash::group_hash_axioms;

    }
}

impl MapKey for SpaceId {
    type Raw = u64;

    open spec fn code(self) -> u64 {
        self.raw
    }

    open spec fn of_code(code: u64) -> Self {
        SpaceId { raw: code }
    }

    fn to_code(self) -> (r: u64) {
        self.raw
    }

    fn from_code(code: u64) -> (r: Self) {
        SpaceId { raw: code }
    }

    proof fn codes() {
        broadcast use vstd::std_specs::hash::group_hash_axioms;

    }
}

impl MapKey for Pid {
    type Raw = i32;

    open spec fn code(self) -> i32 {
        self.raw
    }

    open spec fn of_code(code: i32) -> Self {
        Pid { raw: code }
    }

    fn to_code(self) -> (r: i32) {
        self.raw
    }

    fn from_code(code: i32) -> (r: Self) {
        Pid { raw: code }
    }

    proof fn codes() {
        broadcast use vstd::std_specs::hash::group_hash_axioms;

    }
}

} // verus!
