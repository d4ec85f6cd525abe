use vstd::prelude::*;

verus! {

/// The window that the engine opens.
#[derive(Clone, Debug, PartialEq, Eq)]
pub struct EngineConfig {
    pub title: String,
    pub width: u32,
    pub height: u32,
}

impl Default for EngineConfig {
    /// A 1024 by 768 window titled "Turbo Engine".
    fn default() -> (r: Self)
        ensures
            r.title@ == "Turbo Engine"@,
            r.width == 1024,
            r.height == 768,
    {
        EngineConfig { title: "Turbo Engine".to_owned(), width: 1024, height: 768 }
    }
}

/// What the event loop does with a window event.
#[derive(Clone, Copy, Debug, PartialEq, Eq, Structural)]
pub enum WindowEventKind {
    RedrawRequested,
    Resized { width: u32, height: u32 },
    CloseRequested,
    Other,
}

/// What the event loop must do after an event.
#[derive(Clone, Copy, Debug, PartialEq, Eq, Structural)]
pub enum LoopAction {
    /// Update the game and draw a frame.
    UpdateAndRender,
    /// Tell the renderer that the window changed size.
    MarkResized,
    /// Leave the loop and release the renderer.
    ExitAndDestroy,
    /// Nothing to do.
    Nothing,
}

/// The state of the event loop: whether the window is minimized.
#[derive(Clone, Copy, Debug, PartialEq, Eq, Structural)]
pub struct LoopState {
    pub minimized: bool,
}

/// Decides what the event loop does with an event, and its next state. A
/// frame is drawn on a redraw request unless the loop is exiting or the
/// window is minimized; a window resized to nothing counts as minimized.
pub fn on_window_event(state: LoopState, event: WindowEventKind, exiting: bool) -> (r: (LoopState, LoopAction))
    ensures
        match event {
            WindowEventKind::RedrawRequested => r.0 == state && r.1 == (if !exiting && !state.minimized {
                LoopAction::UpdateAndRender
            } else {
                LoopAction::Nothing
            }),
            WindowEventKind::Resized { width, height } => if width == 0 || height == 0 {
                r.0.minimized && r.1 == LoopAction::Nothing
            } else {
                !r.0.minimized && r.1 == LoopAction::MarkResized
            },
            WindowEventKind::CloseRequested => r.0 == state && r.1 == LoopAction::ExitAndDestroy,
            WindowEventKind::Other => r.0 == state && r.1 == LoopAction::Nothing,
        },
{
    match event {
        WindowEventKind::RedrawRequested => {
            if !exiting && !state.minimized {
                (state, LoopAction::UpdateAndRender)
            } else {
                (state, LoopAction::Nothing)
            }
        },
        WindowEventKind::Resized { width, height } => {
            if width == 0 || height == 0 {
                (LoopState { minimized: true }, LoopAction::Nothing)
            } else {
                (LoopState { minimized: false }, LoopAction::MarkResized)
            }
        },
        WindowEventKind::CloseRequested => (state, LoopAction::ExitAndDestroy),
        WindowEventKind::Other => (state, LoopAction::Nothing),
    }
}

} // verus!
