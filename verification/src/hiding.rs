//! Where hidden windows go: the decisions apart from the geometry.
use crate::text::text_eq;
use crate::workspace::HideCorner;
use vstd::prelude::*;

verus! {

/// The app whose hidden windows keep the whole pixel.
pub open spec fn keeps_whole_pixel(app_bundle_id: Option<&str>) -> bool {
    app_bundle_id matches Some(id) && id@ == "us.zoom.xos"@
}

/// By how many pixels, across and down, a hidden window is set off from the
/// corner.
pub open spec fn pixel_offset(corner: HideCorner, app_bundle_id: Option<&str>) -> (int, int) {
    if keeps_whole_pixel(app_bundle_id) {
        (0, 0)
    } else {
        match corner {
            HideCorner::BottomLeft => (1, -1),
            HideCorner::BottomRight => (1, 1),
        }
    }
}

impl HideCorner {
    pub open spec fn other(self) -> Self {
        match self {
            HideCorner::BottomLeft => HideCorner::BottomRight,
            HideCorner::BottomRight => HideCorner::BottomLeft,
        }
    }

    pub fn opposite(self) -> (r: Self)
        ensures
            r == self.other(),
    {
        match self {
            HideCorner::BottomLeft => HideCorner::BottomRight,
            HideCorner::BottomRight => HideCorner::BottomLeft,
        }
    }

    pub fn offset_for(self, app_bundle_id: Option<&str>) -> (r: (i8, i8))
        ensures
            (r.0 as int, r.1 as int) == pixel_offset(self, app_bundle_id),
    {
        if let Some(bundle_id) = app_bundle_id {
            if text_eq(bundle_id, "us.zoom.xos") {
                return (0, 0);
            }
        }
        match self {
            HideCorner::BottomLeft => (1, -1),
            HideCorner::BottomRight => (1, 1),
        }
    }
}

/// How the position in the wanted corner compares with the one in the opposite
/// corner.
#[derive(Clone, Copy, Debug, PartialEq, Eq, Structural)]
pub struct HiddenPositions {
    /// The wanted position keeps enough of the window on the screen.
    pub primary_anchored: bool,
    /// The opposite position does.
    pub fallback_anchored: bool,
    /// The two overlap other screens by amounts that can be told apart.
    pub overlaps_differ: bool,
    /// The wanted position overlaps other screens by less.
    pub primary_overlaps_less: bool,
    /// The wanted position overlaps other screens by no more.
    pub primary_overlaps_no_more: bool,
    /// The wanted position keeps no more of the window on the screen.
    pub primary_anchor_no_more: bool,
}

impl HiddenPositions {
    /// The wanted position is taken: where it alone is anchored; where both are,
    /// if it overlaps other screens by less, or by as much and keeps no more of
    /// the window on the screen; where neither is, if it overlaps by no more.
    pub open spec fn takes_primary(self) -> bool {
        if self.primary_anchored != self.fallback_anchored {
            self.primary_anchored
        } else if self.primary_anchored {
            if self.overlaps_differ {
                self.primary_overlaps_less
            } else {
                self.primary_anchor_no_more
            }
        } else {
            self.primary_overlaps_no_more
        }
    }

    pub fn is_primary_taken(self) -> (r: bool)
        ensures
            r == self.takes_primary(),
    {
        match (self.primary_anchored, self.fallback_anchored) {
            (true, false) => true,
            (false, true) => false,
            (true, true) => {
                if self.overlaps_differ {
                    self.primary_overlaps_less
                } else {
                    self.primary_anchor_no_more
                }
            },
            (false, false) => self.primary_overlaps_no_more,
        }
    }
}

/// The corner opposite to the opposite corner is the corner.
pub proof fn law_opposite_twice(corner: HideCorner)
    ensures
        corner.other().other() == corner,
        corner.other() != corner,
{
}

} // verus!
