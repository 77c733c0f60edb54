//! What the program does on each event of its window: the decisions of the
//! event loop, apart from the loop itself.

use crate::constant::MAX_FRAMES_IN_FLIGHT;
use vstd::prelude::*;

verus! {

/// An event of the window, as far as the program tells events apart.
#[derive(Clone, Copy, Debug, PartialEq, Eq)]
pub enum WindowInput {
    /// The window was asked to close.
    CloseRequested,
    /// A key went down or up.
    Key { escape: bool, pressed: bool },
    /// All events that were waiting have been handled.
    MainEventsCleared,
    /// The window wants to be drawn again.
    RedrawRequested,
    /// The event loop is about to end.
    LoopDestroyed,
    /// Any other event.
    Other,
}

/// What the event loop does next.
#[derive(Clone, Copy, Debug, PartialEq, Eq)]
pub enum LoopAction {
    /// End the loop.
    Exit,
    /// Ask the window to be drawn again.
    RequestRedraw,
    /// Draw one frame.
    DrawFrame,
    /// Wait until the device has finished its work.
    WaitIdle,
    /// Nothing.
    Continue,
}

/// What follows from `input`: the loop ends when the window is asked to
/// close or the escape key goes down.
pub open spec fn action_for(input: WindowInput) -> LoopAction {
    match input {
        WindowInput::CloseRequested => LoopAction::Exit,
        WindowInput::Key { escape, pressed } => if escape && pressed {
            LoopAction::Exit
        } else {
            LoopAction::Continue
        },
        WindowInput::MainEventsCleared => LoopAction::RequestRedraw,
        WindowInput::RedrawRequested => LoopAction::DrawFrame,
        WindowInput::LoopDestroyed => LoopAction::WaitIdle,
        WindowInput::Other => LoopAction::Continue,
    }
}

/// Decides what the event loop does on `input`.
pub fn on_event(input: WindowInput) -> (r: LoopAction)
    ensures
        r == action_for(input),
{
    match input {
        WindowInput::CloseRequested => LoopAction::Exit,
        WindowInput::Key { escape, pressed } => {
            if escape && pressed {
                LoopAction::Exit
            } else {
                LoopAction::Continue
            }
        },
        WindowInput::MainEventsCleared => LoopAction::RequestRedraw,
        WindowInput::RedrawRequested => LoopAction::DrawFrame,
        WindowInput::LoopDestroyed => LoopAction::WaitIdle,
        WindowInput::Other => LoopAction::Continue,
    }
}

/// The frame that follows `current_frame` among those in work at once.
pub fn next_frame(current_frame: usize) -> (r: usize)
    requires
        current_frame < usize::MAX,
    ensures
        r == (current_frame + 1) % (MAX_FRAMES_IN_FLIGHT as int),
        r < MAX_FRAMES_IN_FLIGHT,
{
    (current_frame + 1) % MAX_FRAMES_IN_FLIGHT
}

} // verus!
