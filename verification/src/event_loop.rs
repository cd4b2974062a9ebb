//! The decisions of the window's event loop: what each event does to the held keys and
//! buttons, and what the window has to do next; and those of drawing a frame.
use vstd::prelude::*;

use crate::input_map::{button_slot, InputMap, MouseButton, NUM_KEYS};

verus! {

/// The key code of Escape.
pub const KEY_ESCAPE: usize = 36;

/// An event of the window, with what the loop reads of it. Positions and movements stay with
/// the window.
#[derive(Clone, Copy, Debug, PartialEq, Eq, Structural)]
pub enum LoopEvent {
    CloseRequested,
    Resized { width: u32, height: u32 },
    Key { key: Option<usize>, pressed: bool },
    Mouse { button: MouseButton, pressed: bool },
    CursorMoved,
    MouseMotion,
    MainEventsCleared,
    RedrawRequested,
    Other,
}

/// What the window has to do after an event.
#[derive(Clone, Copy, Debug, PartialEq, Eq, Structural)]
pub enum LoopAction {
    Nothing,
    /// Leave the loop.
    Exit,
    /// Give the camera the new aspect ratio of the window.
    UpdateAspectRatio { width: u32, height: u32 },
    /// Keep the mouse where it is and hide it, remembering where it was.
    CaptureMouse,
    /// Give the mouse back where it was captured.
    ReleaseMouse,
    /// Remember where the mouse is.
    TrackCursor,
    /// Add the mouse movement to this frame's movement.
    AccumulateMouseDelta,
    RequestRedraw,
    /// Update the scene, forget the frame's mouse movement and draw the frame.
    RunFrame,
}

/// What the loop keeps between events.
#[derive(Clone, Copy, Debug, PartialEq, Eq, Structural)]
pub struct LoopState {
    /// The window changed size, so the swapchain has to be made anew.
    pub should_recreate_swapchain: bool,
}

/// What the window does after `event`; events the user interface consumed do nothing to
/// the keys and buttons.
pub open spec fn spec_action(event: LoopEvent, ui_consumed: bool) -> LoopAction {
    match event {
        LoopEvent::CloseRequested => LoopAction::Exit,
        LoopEvent::Resized { width, height } => LoopAction::UpdateAspectRatio { width, height },
        LoopEvent::Key { key, pressed } => {
            if !ui_consumed && pressed && key == Some(KEY_ESCAPE) {
                LoopAction::Exit
            } else {
                LoopAction::Nothing
            }
        },
        LoopEvent::Mouse { button, pressed } => {
            if ui_consumed || button != MouseButton::Right {
                LoopAction::Nothing
            } else if pressed {
                LoopAction::CaptureMouse
            } else {
                LoopAction::ReleaseMouse
            }
        },
        LoopEvent::CursorMoved => LoopAction::TrackCursor,
        LoopEvent::MouseMotion => LoopAction::AccumulateMouseDelta,
        LoopEvent::MainEventsCleared => LoopAction::RequestRedraw,
        LoopEvent::RedrawRequested => LoopAction::RunFrame,
        LoopEvent::Other => LoopAction::Nothing,
    }
}

/// The held keys after `event`: a key event the user interface did not consume sets its key.
pub open spec fn spec_keys(keys: Seq<bool>, event: LoopEvent, ui_consumed: bool) -> Seq<bool> {
    match event {
        LoopEvent::Key { key: Some(k), pressed } => if ui_consumed {
            keys
        } else {
            keys.update(k as int, pressed)
        },
        _ => keys,
    }
}

/// The held buttons after `event`: a button event the user interface did not consume sets
/// its button, if it is tracked.
pub open spec fn spec_buttons(buttons: Seq<bool>, event: LoopEvent, ui_consumed: bool) -> Seq<bool> {
    match event {
        LoopEvent::Mouse { button, pressed } => if ui_consumed {
            buttons
        } else {
            match button_slot(button) {
                Some(i) => buttons.update(i, pressed),
                None => buttons,
            }
        },
        _ => buttons,
    }
}

impl LoopState {
    pub fn new() -> (r: Self)
        ensures
            !r.should_recreate_swapchain,
    {
        LoopState { should_recreate_swapchain: false }
    }
}

/// Handles one event of the window: updates the held keys and buttons and the loop's state,
/// and returns what the window has to do.
pub fn on_event(state: &mut LoopState, input: &mut InputMap, event: LoopEvent, ui_consumed: bool) -> (r: LoopAction)
    requires
        old(input).wf(),
        event matches LoopEvent::Key { key: Some(k), .. } ==> k < NUM_KEYS,
    ensures
        final(input).wf(),
        r == spec_action(event, ui_consumed),
        final(state).should_recreate_swapchain == (old(state).should_recreate_swapchain || event is Resized),
        final(input).keys() == spec_keys(old(input).keys(), event, ui_consumed),
        final(input).buttons() == spec_buttons(old(input).buttons(), event, ui_consumed),
{
    match event {
        LoopEvent::CloseRequested => LoopAction::Exit,
        LoopEvent::Resized { width, height } => {
            state.should_recreate_swapchain = true;
            LoopAction::UpdateAspectRatio { width, height }
        },
        LoopEvent::Key { key, pressed } => {
            if ui_consumed {
                return LoopAction::Nothing;
            }
            let exit = pressed && key == Some(KEY_ESCAPE);
            match key {
                Some(k) => {
                    if pressed {
                        input.update_key_press(k);
                    } else {
                        input.update_key_release(k);
                    }
                },
                None => {},
            }
            if exit {
                LoopAction::Exit
            } else {
                LoopAction::Nothing
            }
        },
        LoopEvent::Mouse { button, pressed } => {
            if ui_consumed {
                return LoopAction::Nothing;
            }
            if pressed {
                input.update_mouse_press(button);
            } else {
                input.update_mouse_release(button);
            }
            match button {
                MouseButton::Right => if pressed {
                    LoopAction::CaptureMouse
                } else {
                    LoopAction::ReleaseMouse
                },
                _ => LoopAction::Nothing,
            }
        },
        LoopEvent::CursorMoved => LoopAction::TrackCursor,
        LoopEvent::MouseMotion => LoopAction::AccumulateMouseDelta,
        LoopEvent::MainEventsCleared => LoopAction::RequestRedraw,
        LoopEvent::RedrawRequested => LoopAction::RunFrame,
        LoopEvent::Other => LoopAction::Nothing,
    }
}


/// What the renderer reports while it draws a frame.
#[derive(Clone, Copy, Debug, PartialEq, Eq, Structural)]
pub enum FrameEvent {
    /// A frame is due, in a window of this size.
    Due { width: u32, height: u32 },
    /// The next swapchain image was acquired; `suboptimal` when the swapchain no longer
    /// matches the surface exactly.
    Acquired { image_index: u32, suboptimal: bool },
    /// The swapchain no longer fits the surface, so no image was acquired.
    AcquireOutOfDate,
    /// Acquiring failed otherwise.
    AcquireFailed,
    /// The frame was presented; `suboptimal` as for an acquired image.
    Presented { suboptimal: bool },
    /// The swapchain no longer fits the surface when the frame was presented.
    PresentOutOfDate,
    /// Presenting failed otherwise.
    PresentFailed,
}

/// What the renderer does next while it draws a frame.
#[derive(Clone, Copy, Debug, PartialEq, Eq, Structural)]
pub enum FrameAction {
    /// Draw nothing: the window has no area.
    Skip,
    /// Wait for the last frame's fence, make the swapchain anew first when `recreate_swapchain`,
    /// reset the fence and acquire the next image.
    Acquire { recreate_swapchain: bool },
    /// Record the frame into the command buffer of swapchain image `image_index`, submit it and
    /// present it.
    Record { image_index: u32 },
    /// Give up this frame.
    Abandon,
    /// The frame is done.
    Done,
    /// Stop with "Could not accquire next image".
    FailAcquire,
    /// Stop with "Could not present queue".
    FailPresent,
}

/// What the renderer does after `event` while `recreate` says whether the swapchain is to be
/// made anew.
pub open spec fn spec_frame_action(recreate: bool, event: FrameEvent) -> FrameAction {
    match event {
        FrameEvent::Due { width, height } => if width == 0 || height == 0 {
            FrameAction::Skip
        } else {
            FrameAction::Acquire { recreate_swapchain: recreate }
        },
        FrameEvent::Acquired { image_index, .. } => FrameAction::Record { image_index },
        FrameEvent::AcquireOutOfDate => FrameAction::Abandon,
        FrameEvent::AcquireFailed => FrameAction::FailAcquire,
        FrameEvent::Presented { .. } => FrameAction::Done,
        FrameEvent::PresentOutOfDate => FrameAction::Done,
        FrameEvent::PresentFailed => FrameAction::FailPresent,
    }
}

/// Whether the swapchain is to be made anew after `event`: no longer once a frame sets out to
/// make it, and again once the swapchain is found out of date or suboptimal.
pub open spec fn spec_frame_recreate(recreate: bool, event: FrameEvent) -> bool {
    match event {
        FrameEvent::Due { width, height } => if width == 0 || height == 0 {
            recreate
        } else {
            false
        },
        FrameEvent::Acquired { suboptimal, .. } => recreate || suboptimal,
        FrameEvent::AcquireOutOfDate => true,
        FrameEvent::AcquireFailed => recreate,
        FrameEvent::Presented { suboptimal } => recreate || suboptimal,
        FrameEvent::PresentOutOfDate => true,
        FrameEvent::PresentFailed => recreate,
    }
}

/// Decides the next step of drawing a frame after `event`, and keeps whether the swapchain is
/// to be made anew.
pub fn on_frame_event(state: &mut LoopState, event: FrameEvent) -> (r: FrameAction)
    ensures
        r == spec_frame_action(old(state).should_recreate_swapchain, event),
        final(state).should_recreate_swapchain == spec_frame_recreate(old(state).should_recreate_swapchain, event),
{
    match event {
        FrameEvent::Due { width, height } => {
            if width == 0 || height == 0 {
                FrameAction::Skip
            } else {
                let recreate = state.should_recreate_swapchain;
                state.should_recreate_swapchain = false;
                FrameAction::Acquire { recreate_swapchain: recreate }
            }
        },
        FrameEvent::Acquired { image_index, suboptimal } => {
            if suboptimal {
                state.should_recreate_swapchain = true;
            }
            FrameAction::Record { image_index }
        },
        FrameEvent::AcquireOutOfDate => {
            state.should_recreate_swapchain = true;
            FrameAction::Abandon
        },
        FrameEvent::AcquireFailed => FrameAction::FailAcquire,
        FrameEvent::Presented { suboptimal } => {
            if suboptimal {
                state.should_recreate_swapchain = true;
            }
            FrameAction::Done
        },
        FrameEvent::PresentOutOfDate => {
            state.should_recreate_swapchain = true;
            FrameAction::Done
        },
        FrameEvent::PresentFailed => FrameAction::FailPresent,
    }
}


/// Only the right mouse button captures the mouse: a mouse event the user interface did not
/// consume captures the mouse when the right button is pressed and releases it when the right
/// button is released, and asks for nothing for the left, the middle or any other button;
/// a consumed one asks for nothing at all. The left and right buttons are held as they were
/// last pressed or released, and other buttons are not tracked.
pub proof fn lemma_right_button_captures(button: MouseButton, pressed: bool, ui_consumed: bool, buttons: Seq<bool>)
    requires
        buttons.len() == 2,
    ensures
        !ui_consumed && button is Right && pressed ==> spec_action(LoopEvent::Mouse { button, pressed }, ui_consumed)
            == LoopAction::CaptureMouse,
        !ui_consumed && button is Right && !pressed ==> spec_action(LoopEvent::Mouse { button, pressed }, ui_consumed)
            == LoopAction::ReleaseMouse,
        !(button is Right) || ui_consumed ==> spec_action(LoopEvent::Mouse { button, pressed }, ui_consumed)
            == LoopAction::Nothing,
        !ui_consumed && button is Left ==> spec_buttons(buttons, LoopEvent::Mouse { button, pressed }, ui_consumed)
            == seq![pressed, buttons[1]],
        !ui_consumed && button is Right ==> spec_buttons(buttons, LoopEvent::Mouse { button, pressed }, ui_consumed)
            == seq![buttons[0], pressed],
        ui_consumed || button is Middle || button is Other ==> spec_buttons(
            buttons,
            LoopEvent::Mouse { button, pressed },
            ui_consumed,
        ) == buttons,
{
    assert(buttons.update(0, pressed) =~= seq![pressed, buttons[1]]);
    assert(buttons.update(1, pressed) =~= seq![buttons[0], pressed]);
}

/// The loop is left when the window is closed, and when Escape (key code 36) is pressed and
/// the user interface did not consume it; for no other event.
pub proof fn lemma_exit(event: LoopEvent, ui_consumed: bool)
    ensures
        (spec_action(event, ui_consumed) == LoopAction::Exit) <==> (event is CloseRequested || (!ui_consumed
            && event == LoopEvent::Key { key: Some(36), pressed: true })),
{
}

/// A key event the user interface did not consume sets its key to whether it was pressed, and
/// leaves every other key; nothing else changes the keys.
pub proof fn lemma_keys(keys: Seq<bool>, event: LoopEvent, ui_consumed: bool, other: int)
    requires
        0 <= other < keys.len(),
    ensures
        event matches LoopEvent::Key { key: Some(k), pressed } ==> (!ui_consumed && k < keys.len() ==> spec_keys(
            keys,
            event,
            ui_consumed,
        )[k as int] == pressed) && (k < keys.len() && (k != other || ui_consumed) ==> spec_keys(keys, event, ui_consumed)[other]
            == keys[other]),
        !(event matches LoopEvent::Key { key: Some(_), .. }) ==> spec_keys(keys, event, ui_consumed) == keys,
{
}

/// Drawing a frame: a window without area draws nothing and keeps what it knew; a frame that
/// is drawn makes the swapchain anew first exactly when the window changed or the swapchain
/// was found out of date or suboptimal since, and then forgets it; an acquired image is
/// recorded; a swapchain found out of date abandons the frame when acquiring and ends it when
/// presenting, and is made anew for the next frame, as is a suboptimal one.
pub proof fn lemma_frame_steps(recreate: bool, event: FrameEvent)
    ensures
        event matches FrameEvent::Due { width, height } ==> ((width == 0 || height == 0) ==> spec_frame_action(
            recreate,
            event,
        ) == FrameAction::Skip && spec_frame_recreate(recreate, event) == recreate) && (width > 0 && height > 0
            ==> spec_frame_action(recreate, event) == (FrameAction::Acquire { recreate_swapchain: recreate })
            && !spec_frame_recreate(recreate, event)),
        event matches FrameEvent::Acquired { image_index, suboptimal } ==> spec_frame_action(recreate, event) == (
        FrameAction::Record { image_index }) && spec_frame_recreate(recreate, event) == (recreate || suboptimal),
        event is AcquireOutOfDate ==> spec_frame_action(recreate, event) == FrameAction::Abandon && spec_frame_recreate(
            recreate,
            event,
        ),
        event is PresentOutOfDate ==> spec_frame_action(recreate, event) == FrameAction::Done && spec_frame_recreate(
            recreate,
            event,
        ),
        event matches FrameEvent::Presented { suboptimal } ==> spec_frame_action(recreate, event) == FrameAction::Done
            && spec_frame_recreate(recreate, event) == (recreate || suboptimal),
        event is AcquireFailed ==> spec_frame_action(recreate, event) == FrameAction::FailAcquire,
        event is PresentFailed ==> spec_frame_action(recreate, event) == FrameAction::FailPresent,
{
}

} // verus!
