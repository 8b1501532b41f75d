//! One virtual workspace.
use crate::config::{
    LayoutMode, LayoutSettings, MasterStackSettings, ScrollingSettings, StackOrientation,
};
use crate::id_map::IdSet;
use crate::ids::{SpaceId, WindowId};
use vstd::prelude::*;

verus! {

/// The layout of a workspace, with the settings that it was made with.
#[derive(Clone, Copy, Debug, PartialEq, Eq, Structural)]
pub enum LayoutSystemKind {
    Traditional,
    Bsp,
    Stack(StackOrientation),
    MasterStack(MasterStackSettings),
    Scrolling(ScrollingSettings),
}

/// The layout that `mode` and `settings` ask for.
pub open spec fn layout_for(mode: LayoutMode, settings: LayoutSettings) -> LayoutSystemKind {
    match mode {
        LayoutMode::Traditional => LayoutSystemKind::Traditional,
        LayoutMode::Bsp => LayoutSystemKind::Bsp,
        LayoutMode::Stack => LayoutSystemKind::Stack(settings.stack.default_orientation),
        LayoutMode::MasterStack => LayoutSystemKind::MasterStack(settings.master_stack),
        LayoutMode::Scrolling => LayoutSystemKind::Scrolling(settings.scrolling),
    }
}

/// The contents of a workspace.
#[verifier::ext_equal]
pub struct WorkspaceView {
    pub name: Seq<char>,
    pub space: SpaceId,
    pub windows: Set<WindowId>,
    pub last_focused: Option<WindowId>,
    pub layout_system: LayoutSystemKind,
    pub layout_mode: LayoutMode,
}

impl WorkspaceView {
    /// A workspace without windows.
    pub open spec fn fresh(
        name: Seq<char>,
        space: SpaceId,
        mode: LayoutMode,
        settings: LayoutSettings,
    ) -> Self {
        WorkspaceView {
            name,
            space,
            windows: Set::empty(),
            last_focused: None,
            layout_system: layout_for(mode, settings),
            layout_mode: mode,
        }
    }

    pub open spec fn with_window(self, window_id: WindowId) -> Self {
        WorkspaceView { windows: self.windows.insert(window_id), ..self }
    }

    /// The workspace without the window, which no longer has its focus.
    pub open spec fn without_window(self, window_id: WindowId) -> Self {
        WorkspaceView {
            windows: self.windows.remove(window_id),
            last_focused: if self.last_focused == Some(window_id) {
                None
            } else {
                self.last_focused
            },
            ..self
        }
    }
}

/// A named set of windows of a native space, with a layout of its own.
#[derive(Debug)]
pub struct VirtualWorkspace {
    pub name: String,
    pub space: SpaceId,
    windows: IdSet<WindowId>,
    last_focused: Option<WindowId>,
    pub layout_system: LayoutSystemKind,
    pub layout_mode: LayoutMode,
}

impl View for VirtualWorkspace {
    type V = WorkspaceView;

    closed spec fn view(&self) -> WorkspaceView {
        WorkspaceView {
            name: self.name@,
            space: self.space,
            windows: self.windows@,
            last_focused: self.last_focused,
            layout_system: self.layout_system,
            layout_mode: self.layout_mode,
        }
    }
}

impl VirtualWorkspace {
    pub fn new(name: String, space: SpaceId, mode: LayoutMode, settings: &LayoutSettings) -> (r:
        Self)
        ensures
            r@ == WorkspaceView::fresh(name@, space, mode, *settings),
    {
        let layout_system = Self::create_layout_system(mode, settings);
        VirtualWorkspace {
            name,
            space,
            windows: IdSet::new(),
            last_focused: None,
            layout_system,
            layout_mode: mode,
        }
    }

    pub fn name(&self) -> (r: &str)
        ensures
            r@ == self@.name,
    {
        self.name.as_str()
    }

    pub fn space(&self) -> (r: SpaceId)
        ensures
            r == self@.space,
    {
        self.space
    }

    pub fn set_name(&mut self, name: String)
        ensures
            final(self)@ == (WorkspaceView { name: name@, ..old(self)@ }),
    {
        self.name = name;
    }

    pub fn set_space(&mut self, space: SpaceId)
        ensures
            final(self)@ == (WorkspaceView { space, ..old(self)@ }),
    {
        self.space = space;
    }

    pub fn tree(&self) -> (r: &LayoutSystemKind)
        ensures
            *r == self@.layout_system,
    {
        &self.layout_system
    }

    pub fn tree_mut(&mut self) -> (r: &mut LayoutSystemKind)
        ensures
            *r == old(self)@.layout_system,
            final(self)@ == (WorkspaceView { layout_system: *final(r), ..old(self)@ }),
    {
        &mut self.layout_system
    }

    pub fn layout_mode(&self) -> (r: LayoutMode)
        ensures
            r == self@.layout_mode,
    {
        self.layout_mode
    }

    pub fn create_layout_system(mode: LayoutMode, settings: &LayoutSettings) -> (r:
        LayoutSystemKind)
        ensures
            r == layout_for(mode, *settings),
    {
        match mode {
            LayoutMode::Traditional => LayoutSystemKind::Traditional,
            LayoutMode::Bsp => LayoutSystemKind::Bsp,
            LayoutMode::Stack => LayoutSystemKind::Stack(settings.stack.default_orientation),
            LayoutMode::MasterStack => LayoutSystemKind::MasterStack(settings.master_stack),
            LayoutMode::Scrolling => LayoutSystemKind::Scrolling(settings.scrolling),
        }
    }

    pub fn contains_window(&self, window_id: WindowId) -> (r: bool)
        ensures
            r == self@.windows.contains(window_id),
    {
        self.windows.contains(window_id)
    }

    /// The windows, each once, in no particular order.
    pub fn windows(&self) -> (r: Vec<WindowId>)
        ensures
            r@.no_duplicates(),
            r@.to_set() == self@.windows,
            r@.len() == self@.windows.len(),
    {
        self.windows.to_vec()
    }

    pub fn add_window(&mut self, window_id: WindowId)
        ensures
            final(self)@ == old(self)@.with_window(window_id),
    {
        self.windows.insert(window_id);
    }

    pub fn remove_window(&mut self, window_id: WindowId) -> (r: bool)
        ensures
            final(self)@ == old(self)@.without_window(window_id),
            r == old(self)@.windows.contains(window_id),
    {
        if self.last_focused == Some(window_id) {
            self.last_focused = None;
        }
        self.windows.remove(window_id)
    }

    pub fn set_last_focused(&mut self, window_id: Option<WindowId>)
        ensures
            final(self)@ == (WorkspaceView { last_focused: window_id, ..old(self)@ }),
    {
        self.last_focused = window_id;
    }

    pub fn last_focused(&self) -> (r: Option<WindowId>)
        ensures
            r == self@.last_focused,
    {
        self.last_focused
    }

    pub fn window_count(&self) -> (r: usize)
        ensures
            r == self@.windows.len(),
    {
        self.windows.len()
    }
}

/// The layout of a workspace for which nothing else is said.
pub fn default_layout_system_kind() -> (r: LayoutSystemKind)
    ensures
        r == LayoutSystemKind::Traditional,
{
    let mode: LayoutMode = Default::default();
    let settings: LayoutSettings = Default::default();
    VirtualWorkspace::create_layout_system(mode, &settings)
}

/// The corner of the screen that a hidden window is moved to.
#[derive(Clone, Copy, Debug, PartialEq, Eq, Structural)]
pub enum HideCorner {
    BottomLeft,
    BottomRight,
}

impl Default for HideCorner {
    fn default() -> (r: Self)
        ensures
            r == HideCorner::BottomRight,
    {
        HideCorner::BottomRight
    }
}

} // verus!
