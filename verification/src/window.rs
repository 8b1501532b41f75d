//! Windows as the accessibility layer and the window server describe them.
use crate::ids::WindowServerId;
use vstd::prelude::*;

verus! {

/// A rectangle. Each coordinate is the bit pattern of a double.
#[derive(Clone, Copy, Debug, PartialEq, Eq, Structural)]
pub struct Frame {
    pub x: u64,
    pub y: u64,
    pub width: u64,
    pub height: u64,
}

/// A width and a height, each the bit pattern of a double.
#[derive(Clone, Copy, Debug, PartialEq, Eq, Structural)]
pub struct Extent {
    pub width: u64,
    pub height: u64,
}

/// What the window server says of a window.
#[derive(Clone, Copy, Debug, PartialEq, Eq, Structural)]
pub struct WindowServerInfo {
    pub id: WindowServerId,
    pub pid: i32,
    pub layer: i32,
    pub frame: Frame,
    pub min_frame: Extent,
    pub max_frame: Extent,
}

/// What the accessibility layer says of a window.
#[derive(Debug)]
pub struct WindowInfo {
    pub is_standard: bool,
    pub is_root: bool,
    pub is_minimized: bool,
    pub is_resizable: bool,
    pub min_size: Option<Extent>,
    pub max_size: Option<Extent>,
    pub title: String,
    pub frame: Frame,
    pub sys_id: Option<WindowServerId>,
    pub bundle_id: Option<String>,
    pub path: Option<String>,
    pub ax_role: Option<String>,
    pub ax_subrole: Option<String>,
}

/// A window that is kept track of.
#[derive(Debug)]
pub struct WindowState {
    pub info: WindowInfo,
    pub frame_monotonic: Frame,
    pub is_manageable: bool,
    pub ignore_app_rule: bool,
}

} // verus!
