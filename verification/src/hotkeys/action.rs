//! The operations a hotkey can trigger.

use vstd::prelude::*;
use crate::error::JacqueError;
use crate::windows::WindowManagerTrait;
use crate::workspace::WorkspaceIndex;
use crate::workspaces::WorkspaceEngineTrait;

verus! {

/// What a hotkey does when it fires.
#[derive(Clone, Copy, Debug, PartialEq, Eq, Hash, Structural)]
pub enum Action {
    /// Switch to the given workspace.
    SwitchDesktop(WorkspaceIndex),
    /// Move the focused window to the given workspace.
    MoveWindowToDesktop(WorkspaceIndex),
    /// Quit JacqueWM.
    Quit,
    /// Reload the configuration from disk.
    ReloadConfig,
}

/// What carrying out an action leaves for the caller to do or report.
#[derive(Debug)]
pub enum ActionOutcome {
    /// The switch or move went through.
    Done,
    /// The engine or the window manager refused, with its error.
    Failed(JacqueError),
    /// The program is to exit.
    Quit,
    /// The configuration is to be read again.
    Reload,
}

/// The outcome of an action, given what the engine or the window manager
/// answered to the switch or the move (ignored for the other actions).
pub open spec fn action_outcome(action: Action, answer: Result<(), JacqueError>) -> ActionOutcome {
    match action {
        Action::Quit => ActionOutcome::Quit,
        Action::ReloadConfig => ActionOutcome::Reload,
        _ => match answer {
            Ok(()) => ActionOutcome::Done,
            Err(e) => ActionOutcome::Failed(e),
        },
    }
}

/// Carry out an action: a switch goes to the engine, a move of the focused
/// window to the window manager, each with the action's workspace; quit
/// and reload are handed back to the caller. The outcome is
/// [`action_outcome`] of the answer, which is an answer of the engine to
/// the switch or of the window manager to the move.
pub fn perform<W: WindowManagerTrait, G: WorkspaceEngineTrait>(action: Action, windows: &W, engine: &G) -> (r: ActionOutcome)
    ensures
        exists|answer: Result<(), JacqueError>| r == #[trigger] action_outcome(action, answer),
        action matches Action::SwitchDesktop(i) ==> exists|answer: Result<(), JacqueError>|
            #[trigger] engine.switch_answer(i, answer) && r == action_outcome(action, answer),
        action matches Action::MoveWindowToDesktop(i) ==> exists|answer: Result<(), JacqueError>|
            #[trigger] windows.move_answer(i, answer) && r == action_outcome(action, answer),
        action is Quit ==> r is Quit,
        action is ReloadConfig ==> r is Reload,
{
    let answer = match action {
        Action::SwitchDesktop(idx) => engine.switch_to(idx),
        Action::MoveWindowToDesktop(idx) => windows.move_foreground_to(idx),
        Action::Quit => {
            assert(action_outcome(action, Ok(())) == ActionOutcome::Quit);
            return ActionOutcome::Quit;
        },
        Action::ReloadConfig => {
            assert(action_outcome(action, Ok(())) == ActionOutcome::Reload);
            return ActionOutcome::Reload;
        },
    };
    let ghost a = answer;
    let r = match answer {
        Ok(()) => ActionOutcome::Done,
        Err(e) => ActionOutcome::Failed(e),
    };
    assert(r == action_outcome(action, a));
    r
}

} // verus!
