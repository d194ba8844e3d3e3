//! The frame lifecycle. A run of the console performs `init` once, then
//! repeats poll -> `update` -> `draw` -> present until the presenter reports
//! a termination request; after that no callback ever fires again. The
//! decisions live here as a small verified state machine; an unverified
//! shell performs the polling and the presentation and obeys the actions.

use vstd::prelude::*;
use crate::system::SystemImpl;

verus! {

/// Lifecycle states of a console run.
#[derive(Clone, Copy, Debug, PartialEq, Eq, Structural)]
pub enum LoopState {
    /// `init` has not run yet.
    Uninitialized,
    /// `init` has run; frames are being produced.
    Running,
    /// A termination request arrived; nothing runs any more.
    Terminated,
}

/// What the shell must do next.
#[derive(Clone, Copy, Debug, PartialEq, Eq, Structural)]
pub enum LoopAction {
    /// Call the game's `init` once, before any frame.
    Init,
    /// Run one frame: `update`, then `draw`, then present the framebuffer.
    Frame,
    /// Stop: run nothing for this iteration nor ever again.
    Stop,
}

/// The transition function of the lifecycle: from a state and the polled
/// termination flag to the next state and the action owed for this
/// iteration. `init` runs unconditionally before the first poll is acted
/// on; a running loop stops exactly when termination was requested, and a
/// terminated loop stays terminated, always answering `Stop`.
pub open spec fn step_spec(s: LoopState, quit_requested: bool) -> (LoopState, LoopAction) {
    match s {
        LoopState::Uninitialized => (LoopState::Running, LoopAction::Init),
        LoopState::Running => if quit_requested {
            (LoopState::Terminated, LoopAction::Stop)
        } else {
            (LoopState::Running, LoopAction::Frame)
        },
        LoopState::Terminated => (LoopState::Terminated, LoopAction::Stop),
    }
}

/// The frame loop's state, advanced once per shell iteration.
pub struct FrameLoop {
    /// Current lifecycle state.
    pub state: LoopState,
}

impl FrameLoop {
    /// A loop that has not initialized its game yet.
    pub fn new() -> (fl: FrameLoop)
        ensures
            fl.state == LoopState::Uninitialized,
    {
        FrameLoop { state: LoopState::Uninitialized }
    }

    /// One decision of the lifecycle: feed in whether termination was
    /// requested, step the state machine, and learn what to do next.
    pub fn advance(&mut self, quit_requested: bool) -> (action: LoopAction)
        ensures
            (final(self).state, action) == step_spec(old(self).state, quit_requested),
    {
        match self.state {
            LoopState::Uninitialized => {
                self.state = LoopState::Running;
                LoopAction::Init
            },
            LoopState::Running => {
                if quit_requested {
                    self.state = LoopState::Terminated;
                    LoopAction::Stop
                } else {
                    LoopAction::Frame
                }
            },
            LoopState::Terminated => LoopAction::Stop,
        }
    }
}

/// Termination is final: from `Terminated`, every poll answers `Stop` and
/// the state never changes, so no callback fires after termination.
pub proof fn lemma_terminated_is_final(quit_requested: bool)
    ensures
        step_spec(LoopState::Terminated, quit_requested) == (
            LoopState::Terminated,
            LoopAction::Stop,
        ),
{
}

/// `init` runs exactly once: only the initial state answers `Init`, and no
/// transition ever leads back to the initial state.
pub proof fn lemma_init_runs_once(s: LoopState, quit_requested: bool)
    ensures
        step_spec(s, quit_requested).1 == LoopAction::Init ==> s == LoopState::Uninitialized,
        step_spec(s, quit_requested).0 != LoopState::Uninitialized,
{
}

/// A frame (`update` then `draw`) runs exactly when the loop is running and
/// no termination was requested, so a quit poll never costs a partial frame.
pub proof fn lemma_frame_needs_running(s: LoopState, quit_requested: bool)
    ensures
        step_spec(s, quit_requested).1 == LoopAction::Frame <==> (s == LoopState::Running
            && !quit_requested),
{
}

/// The three callbacks a game may override. Each receives exclusive access
/// to the console for the duration of the call; a game that leaves a
/// callback alone gets the no-op default.
pub trait Game {
    /// Called exactly once, before the first frame.
    fn init(&mut self, sys: &mut SystemImpl) {
    }

    /// Called once per frame, before `draw`.
    fn update(&mut self, sys: &mut SystemImpl) {
    }

    /// Called once per frame, after `update`.
    fn draw(&mut self, sys: &mut SystemImpl) {
    }
}

} // verus!
