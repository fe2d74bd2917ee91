use vstd::prelude::*;

verus! {

/// Whether a pointer button went down or came up.
#[derive(Copy, Clone, Debug, PartialEq, Eq, Structural)]
pub enum ButtonState {
    PRESSED,
    RELEASED,
}

/// One pointer event on the bar's surface, in whole pixels.
///
/// A motion event carries no button state. An event that says that the
/// pointer has left the surface has negative coordinates; it is known by its
/// column.
#[derive(Copy, Clone, Debug, PartialEq, Eq, Structural)]
pub struct MouseEvent {
    pub state: Option<ButtonState>,
    pub button: Option<u32>,
    pub x: i32,
    pub y: i32,
}

impl MouseEvent {
    /// The event says that the pointer is no longer over the bar: its column
    /// is negative. The row plays no part, as it plays none in finding the
    /// block under the pointer.
    pub open spec fn left_surface(self) -> bool {
        self.x < 0
    }

    /// Tells whether the event says that the pointer has left the bar.

    pub fn has_left_surface(&self) -> (r: bool)
        ensures
            r == self.left_surface(),
    {
        self.x < 0
    }
}

} // verus!
