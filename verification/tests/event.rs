use entity_arena::constant::MAX_FRAMES_IN_FLIGHT;
use entity_arena::event::{next_frame, on_event, LoopAction, WindowInput};

#[test]
fn escape_and_close_end_the_loop() {
    assert_eq!(on_event(WindowInput::CloseRequested), LoopAction::Exit);
    assert_eq!(on_event(WindowInput::Key { escape: true, pressed: true }), LoopAction::Exit);
    assert_eq!(on_event(WindowInput::Key { escape: true, pressed: false }), LoopAction::Continue);
    assert_eq!(on_event(WindowInput::Key { escape: false, pressed: true }), LoopAction::Continue);
    assert_eq!(on_event(WindowInput::MainEventsCleared), LoopAction::RequestRedraw);
    assert_eq!(on_event(WindowInput::RedrawRequested), LoopAction::DrawFrame);
    assert_eq!(on_event(WindowInput::LoopDestroyed), LoopAction::WaitIdle);
    assert_eq!(on_event(WindowInput::Other), LoopAction::Continue);
}

#[test]
fn frames_take_turns() {
    assert_eq!(MAX_FRAMES_IN_FLIGHT, 2);
    assert_eq!(next_frame(0), 1);
    assert_eq!(next_frame(1), 0);
    assert_eq!(next_frame(6), 1);
}
