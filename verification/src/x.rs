use vstd::prelude::*;
use crate::keys::KeyCombo;

verus! {

/// The handle by which the display server names a window.
#[derive(Clone, Copy, Debug, PartialEq, Eq, Hash, Structural)]
pub struct WindowId(pub u64);

/// One request to the display server.
///
/// The window manager decides which requests are made and in which order; it
/// is for the holder of the connection to send them.
#[derive(Clone, Copy, Debug, PartialEq, Eq, Structural)]
pub enum Request {
    /// Report the window's events to the window manager and grab the bound
    /// keys on it.
    RegisterWindowEvents(WindowId),
    /// Show the window.
    MapWindow(WindowId),
    /// Hide the window.
    UnmapWindow(WindowId),
    /// Move the window to `(x, y)` and give it the size `width` by `height`.
    ConfigureWindow { id: WindowId, x: u32, y: u32, width: u32, height: u32 },
    /// Give the window the input focus.
    FocusWindow(WindowId),
    /// Take the input focus from every window.
    FocusNothing,
    /// Report the window's events again.
    EnableWindowTracking(WindowId),
    /// Stop reporting the window's events.
    DisableWindowTracking(WindowId),
    /// Ask the window to close.
    CloseWindow(WindowId),
    /// Start the command that the configuration lists under this number. The
    /// window manager starts no program itself.
    Spawn(u32),
}

/// What the display server reports to the window manager.
#[derive(Clone, Copy, Debug, PartialEq, Eq, Structural)]
pub enum Event {
    /// A window asks to be shown.
    MapRequest(WindowId),
    /// A window is gone.
    DestroyNotify(WindowId),
    /// A bound key combination was pressed.
    KeyPress(KeyCombo),
    /// The pointer has moved into a window.
    EnterNotify(WindowId),
}

/// Hiding a window without hearing of it: its events are switched off while
/// it is unmapped, so that the unmapping is not taken for the window's own
/// doing.
pub open spec fn unmap_untracked(id: WindowId) -> Seq<Request> {
    seq![
        Request::DisableWindowTracking(id),
        Request::UnmapWindow(id),
        Request::EnableWindowTracking(id),
    ]
}

} // verus!
