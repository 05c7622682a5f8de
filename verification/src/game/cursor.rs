//! Whether the cursor is held by the window.

use vstd::prelude::*;

verus! {

/// How the window holds the cursor.
#[derive(Clone, Copy, Debug, PartialEq, Eq, Structural)]
pub enum CursorGrabMode {
    /// The cursor is free to leave the window.
    Free,
    /// The cursor is held where it is.
    Locked,
}

/// What the window is told about the cursor.
#[derive(Clone, Copy, Debug, PartialEq, Eq, Structural)]
pub struct CursorOptions {
    pub grab_mode: CursorGrabMode,
    pub visible: bool,
}

/// Whether the cursor is locked to the window.
#[derive(Clone, Copy, Debug, PartialEq, Eq, Structural)]
pub struct Cursor {
    locked: bool,
}

impl Cursor {
    pub closed spec fn is_locked(self) -> bool {
        self.locked
    }

    /// What the window is told while the cursor is locked or free: a locked
    /// cursor is held and hidden, a free one is neither.
    pub open spec fn options(locked: bool) -> CursorOptions {
        if locked {
            CursorOptions { grab_mode: CursorGrabMode::Locked, visible: false }
        } else {
            CursorOptions { grab_mode: CursorGrabMode::Free, visible: true }
        }
    }

    /// Whether the cursor is locked.
    pub fn locked(&self) -> (locked: bool)
        ensures
            locked == self.is_locked(),
    {
        self.locked
    }

    /// Locks a free cursor and frees a locked one, and tells the window.
    pub fn invert_lock(&mut self, cursor_options: &mut CursorOptions)
        ensures
            final(self).is_locked() == !old(self).is_locked(),
            *final(cursor_options) == Cursor::options(final(self).is_locked()),
    {
        self.locked = !self.locked;
        if self.locked {
            cursor_options.grab_mode = CursorGrabMode::Locked;
            cursor_options.visible = false;
        } else {
            cursor_options.grab_mode = CursorGrabMode::Free;
            cursor_options.visible = true;
        }
    }
}

impl Default for Cursor {
    fn default() -> (cursor: Cursor)
        ensures
            !cursor.is_locked(),
    {
        Cursor { locked: false }
    }
}

} // verus!
