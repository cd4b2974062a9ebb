use round_cat::event_loop::{on_event, on_frame_event, FrameAction, FrameEvent, LoopAction, LoopEvent, LoopState, KEY_ESCAPE};
use round_cat::input_map::{InputMap, MouseButton};

#[test]
fn close_and_escape_leave_the_loop() {
    let mut state = LoopState::new();
    let mut input = InputMap::new();
    assert_eq!(on_event(&mut state, &mut input, LoopEvent::CloseRequested, true), LoopAction::Exit);
    let escape = LoopEvent::Key { key: Some(KEY_ESCAPE), pressed: true };
    assert_eq!(on_event(&mut state, &mut input, escape, false), LoopAction::Exit);
    assert!(input.is_pressed(KEY_ESCAPE));
}

#[test]
fn consumed_input_changes_nothing() {
    let mut state = LoopState::new();
    let mut input = InputMap::new();
    let escape = LoopEvent::Key { key: Some(KEY_ESCAPE), pressed: true };
    assert_eq!(on_event(&mut state, &mut input, escape, true), LoopAction::Nothing);
    assert!(!input.is_pressed(KEY_ESCAPE));
    let right = LoopEvent::Mouse { button: MouseButton::Right, pressed: true };
    assert_eq!(on_event(&mut state, &mut input, right, true), LoopAction::Nothing);
    assert!(!input.is_mouse_pressed(MouseButton::Right));
}

#[test]
fn resizing_asks_for_a_new_swapchain() {
    let mut state = LoopState::new();
    let mut input = InputMap::new();
    let resized = LoopEvent::Resized { width: 800, height: 600 };
    assert_eq!(on_event(&mut state, &mut input, resized, true), LoopAction::UpdateAspectRatio { width: 800, height: 600 });
    assert!(state.should_recreate_swapchain);
}

#[test]
fn right_button_captures_and_releases_the_mouse() {
    let mut state = LoopState::new();
    let mut input = InputMap::new();
    let press = LoopEvent::Mouse { button: MouseButton::Right, pressed: true };
    assert_eq!(on_event(&mut state, &mut input, press, false), LoopAction::CaptureMouse);
    assert!(input.is_mouse_pressed(MouseButton::Right));
    let release = LoopEvent::Mouse { button: MouseButton::Right, pressed: false };
    assert_eq!(on_event(&mut state, &mut input, release, false), LoopAction::ReleaseMouse);
    assert!(!input.is_mouse_pressed(MouseButton::Right));
    let left = LoopEvent::Mouse { button: MouseButton::Left, pressed: true };
    assert_eq!(on_event(&mut state, &mut input, left, false), LoopAction::Nothing);
    assert!(input.is_mouse_pressed(MouseButton::Left));
}

#[test]
fn frames_follow_redraw_requests() {
    let mut state = LoopState::new();
    let mut input = InputMap::new();
    assert_eq!(on_event(&mut state, &mut input, LoopEvent::MainEventsCleared, false), LoopAction::RequestRedraw);
    assert_eq!(on_event(&mut state, &mut input, LoopEvent::RedrawRequested, false), LoopAction::RunFrame);
    assert_eq!(on_event(&mut state, &mut input, LoopEvent::MouseMotion, false), LoopAction::AccumulateMouseDelta);
    assert_eq!(on_event(&mut state, &mut input, LoopEvent::CursorMoved, false), LoopAction::TrackCursor);
    assert!(!state.should_recreate_swapchain);
}

#[test]
fn a_window_without_area_draws_nothing() {
    let mut state = LoopState { should_recreate_swapchain: true };
    assert_eq!(on_frame_event(&mut state, FrameEvent::Due { width: 0, height: 600 }), FrameAction::Skip);
    assert!(state.should_recreate_swapchain);
}

#[test]
fn a_resized_window_makes_the_swapchain_anew_once() {
    let mut state = LoopState::new();
    let mut input = InputMap::new();
    let _ = on_event(&mut state, &mut input, LoopEvent::Resized { width: 640, height: 480 }, false);
    assert_eq!(
        on_frame_event(&mut state, FrameEvent::Due { width: 640, height: 480 }),
        FrameAction::Acquire { recreate_swapchain: true }
    );
    assert_eq!(
        on_frame_event(&mut state, FrameEvent::Acquired { image_index: 2, suboptimal: false }),
        FrameAction::Record { image_index: 2 }
    );
    assert_eq!(on_frame_event(&mut state, FrameEvent::Presented { suboptimal: false }), FrameAction::Done);
    assert_eq!(
        on_frame_event(&mut state, FrameEvent::Due { width: 640, height: 480 }),
        FrameAction::Acquire { recreate_swapchain: false }
    );
}

#[test]
fn an_out_of_date_swapchain_is_made_anew_for_the_next_frame() {
    let mut state = LoopState::new();
    assert_eq!(on_frame_event(&mut state, FrameEvent::AcquireOutOfDate), FrameAction::Abandon);
    assert!(state.should_recreate_swapchain);
    let mut state = LoopState::new();
    assert_eq!(on_frame_event(&mut state, FrameEvent::PresentOutOfDate), FrameAction::Done);
    assert!(state.should_recreate_swapchain);
    let mut state = LoopState::new();
    assert_eq!(
        on_frame_event(&mut state, FrameEvent::Acquired { image_index: 0, suboptimal: true }),
        FrameAction::Record { image_index: 0 }
    );
    assert!(state.should_recreate_swapchain);
    assert_eq!(on_frame_event(&mut state, FrameEvent::AcquireFailed), FrameAction::FailAcquire);
    assert_eq!(on_frame_event(&mut state, FrameEvent::PresentFailed), FrameAction::FailPresent);
}
