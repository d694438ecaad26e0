//! What the window host does with what happens to it.
//!
//! The host owns the window, the drawing surface and the event loop. What
//! it decides on the way is decided here, over plain values: which events
//! start a frame, end the program or resize the surface, which sizes a
//! surface can take, and how a failed presentation is answered.

use vstd::prelude::*;

verus! {

/// A size in physical pixels.
#[derive(Clone, Copy, Debug, PartialEq, Eq)]
pub struct Size {
    pub width: u32,
    pub height: u32,
}

/// What a window tells the host.
#[derive(Clone, Copy, Debug, PartialEq, Eq)]
pub enum WindowInput {
    /// The user asked to close the window.
    CloseRequested,
    /// The escape key went down.
    EscapePressed,
    /// The window has a new size.
    Resized(Size),
    /// The window's scale factor changed, and with it the size.
    ScaleFactorChanged(Size),
    /// Anything else.
    Other,
}

/// What the event loop hands to the host.
#[derive(Clone, Copy, Debug, PartialEq, Eq)]
pub enum HostEvent {
    /// A window must be redrawn; `own` tells whether it is the host's.
    RedrawRequested { own: bool },
    /// All pending events have been handled.
    MainEventsCleared,
    /// A window reports `input`. `own` tells whether the window is the
    /// host's, `consumed` whether the simulation took the input for itself.
    Window { own: bool, consumed: bool, input: WindowInput },
    /// Anything else.
    Other,
}

/// What the host does about an event.
#[derive(Clone, Copy, Debug, PartialEq, Eq)]
pub enum HostAction {
    /// Update the simulation by one frame, then draw it.
    RunFrame,
    /// Ask for the window to be redrawn.
    RequestRedraw,
    /// Leave the event loop.
    Exit,
    /// Take this size for the surface.
    Resize(Size),
    /// Nothing.
    Ignore,
}

/// Why a frame could not be presented.
#[derive(Clone, Copy, Debug, PartialEq, Eq)]
pub enum SurfaceFault {
    /// The surface was lost.
    Lost,
    /// The device is out of memory.
    OutOfMemory,
    /// The surface no longer fits the window.
    Outdated,
    /// No frame came in time.
    Timeout,
}

/// How the host answers a failed presentation.
#[derive(Clone, Copy, Debug, PartialEq, Eq)]
pub enum Recovery {
    /// Configure the surface anew, with the size it has.
    Reconfigure,
    /// Leave the event loop.
    Exit,
    /// Report the fault and try again with the next frame.
    Retry,
}

/// What a window's input asks of the host.
pub open spec fn request(input: WindowInput) -> HostAction {
    match input {
        WindowInput::CloseRequested | WindowInput::EscapePressed => HostAction::Exit,
        WindowInput::Resized(size) | WindowInput::ScaleFactorChanged(size) => HostAction::Resize(
            size,
        ),
        WindowInput::Other => HostAction::Ignore,
    }
}

/// The answer to an event. A window is heard only if it is the host's own
/// and the simulation left its input alone.
pub open spec fn reaction(event: HostEvent) -> HostAction {
    match event {
        HostEvent::RedrawRequested { own } => if own {
            HostAction::RunFrame
        } else {
            HostAction::Ignore
        },
        HostEvent::MainEventsCleared => HostAction::RequestRedraw,
        HostEvent::Window { own, consumed, input } => if own && !consumed {
            request(input)
        } else {
            HostAction::Ignore
        },
        HostEvent::Other => HostAction::Ignore,
    }
}

/// The answer to a failed presentation.
pub open spec fn remedy(fault: SurfaceFault) -> Recovery {
    match fault {
        SurfaceFault::Lost => Recovery::Reconfigure,
        SurfaceFault::OutOfMemory => Recovery::Exit,
        SurfaceFault::Outdated | SurfaceFault::Timeout => Recovery::Retry,
    }
}

/// Whether a surface can take `size`: neither side may be zero.
pub open spec fn drawable(size: Size) -> bool {
    size.width > 0 && size.height > 0
}

/// Decides what the host does about `event`.
pub fn dispatch(event: HostEvent) -> (action: HostAction)
    ensures
        action == reaction(event),
{
    match event {
        HostEvent::RedrawRequested { own } => {
            if own {
                HostAction::RunFrame
            } else {
                HostAction::Ignore
            }
        },
        HostEvent::MainEventsCleared => HostAction::RequestRedraw,
        HostEvent::Window { own, consumed, input } => {
            if !own || consumed {
                HostAction::Ignore
            } else {
                match input {
                    WindowInput::CloseRequested => HostAction::Exit,
                    WindowInput::EscapePressed => HostAction::Exit,
                    WindowInput::Resized(size) => HostAction::Resize(size),
                    WindowInput::ScaleFactorChanged(size) => HostAction::Resize(size),
                    WindowInput::Other => HostAction::Ignore,
                }
            }
        },
        HostEvent::Other => HostAction::Ignore,
    }
}

/// Decides how the host answers a failed presentation.
pub fn recover(fault: SurfaceFault) -> (recovery: Recovery)
    ensures
        recovery == remedy(fault),
{
    match fault {
        SurfaceFault::Lost => Recovery::Reconfigure,
        SurfaceFault::OutOfMemory => Recovery::Exit,
        SurfaceFault::Outdated => Recovery::Retry,
        SurfaceFault::Timeout => Recovery::Retry,
    }
}

/// The size that the host draws at.
#[derive(Clone, Copy, Debug, PartialEq, Eq)]
pub struct Viewport {
    pub size: Size,
}

impl Viewport {
    /// A viewport of the given size.
    pub fn new(size: Size) -> (viewport: Viewport)
        ensures
            viewport.size == size,
    {
        Viewport { size }
    }

    /// Takes `new_size` if a surface can take it, and says whether it did:
    /// if so, the surface must be configured anew. A size with a zero side
    /// is passed over and the viewport stays as it is, so a viewport that
    /// a surface can take stays one.
    pub fn resize(&mut self, new_size: Size) -> (taken: bool)
        ensures
            taken == drawable(new_size),
            final(self).size == if taken {
                new_size
            } else {
                old(self).size
            },
            drawable(old(self).size) ==> drawable(final(self).size),
    {
        if new_size.width > 0 && new_size.height > 0 {
            self.size = new_size;
            true
        } else {
            false
        }
    }
}

/// Only the host's own window, and only input that the simulation left
/// alone, ends the program or resizes the surface.
pub proof fn lemma_foreign_input_is_ignored(event: HostEvent)
    requires
        event matches HostEvent::Window { own, consumed, .. } && (!own || consumed),
    ensures
        reaction(event) == HostAction::Ignore,
{
}

/// The program ends on an event only when the host's window was asked to
/// close or the escape key went down in it.
pub proof fn lemma_exit_is_asked_for(event: HostEvent)
    requires
        reaction(event) == HostAction::Exit,
    ensures
        event matches HostEvent::Window { own: true, consumed: false, input }
            && (input is CloseRequested || input is EscapePressed),
{
}

} // verus!
