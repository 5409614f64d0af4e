use vstd::prelude::*;

use crate::handler::{step_for, Step};
use crate::inhibitor::{uninhibit_call, CallOutcome};
use crate::ipc::{encoding, IpcRequest};

verus! {

/// The operating-system signals that end the daemon.
#[derive(Clone, Copy, Debug, PartialEq, Eq, Structural)]
pub enum Signal {
    Hangup,
    Interrupt,
    Quit,
    Terminate,
}

/// What the dispatch loop waited for and got.
#[derive(Clone, Copy, Debug, PartialEq, Eq, Structural)]
pub enum LoopEvent {
    /// A connection was handled; `kill` tells whether it asked for shutdown.
    Connection { kill: bool },
    /// A termination signal arrived.
    Signal(Signal),
}

/// The dispatch loop's state.
#[derive(Clone, Copy, Debug, PartialEq, Eq, Structural)]
pub enum LoopState {
    Running,
    /// Terminal: release the inhibition, remove the socket, exit.
    ShuttingDown,
}

/// How the daemon's process ends.
#[derive(Clone, Copy, Debug, PartialEq, Eq, Structural)]
pub enum ExitStatus {
    Success,
    Failure,
}

pub open spec fn next_state(s: LoopState, e: LoopEvent) -> LoopState {
    match s {
        LoopState::ShuttingDown => LoopState::ShuttingDown,
        LoopState::Running => match e {
            LoopEvent::Connection { kill } => if kill {
                LoopState::ShuttingDown
            } else {
                LoopState::Running
            },
            LoopEvent::Signal(_) => LoopState::ShuttingDown,
        },
    }
}

/// Whether the release at shutdown went well: none was needed, or the backend
/// confirmed it.
pub open spec fn release_ok(release: Option<CallOutcome>) -> bool {
    match release {
        None => true,
        Some(o) => o == CallOutcome::Released,
    }
}

pub open spec fn exit_status_of(socket_removed: bool, release: Option<CallOutcome>) -> ExitStatus {
    if socket_removed && release_ok(release) {
        ExitStatus::Success
    } else {
        ExitStatus::Failure
    }
}

/// The loop's next state after an event.
pub fn on_event(s: LoopState, e: LoopEvent) -> (r: LoopState)
    ensures
        r == next_state(s, e),
{
    match s {
        LoopState::ShuttingDown => LoopState::ShuttingDown,
        LoopState::Running => match e {
            LoopEvent::Connection { kill } => {
                if kill {
                    LoopState::ShuttingDown
                } else {
                    LoopState::Running
                }
            },
            LoopEvent::Signal(_) => LoopState::ShuttingDown,
        },
    }
}

/// The exit status from the two shutdown steps, both of which are always tried.
/// `release` is what the backend answered to the release, or `None` where no
/// inhibition was held and so no call was made.
pub fn exit_status(socket_removed: bool, release: Option<CallOutcome>) -> (r: ExitStatus)
    ensures
        r == exit_status_of(socket_removed, release),
{
    let released = match release {
        None => true,
        Some(CallOutcome::Released) => true,
        Some(_) => false,
    };
    if socket_removed && released {
        ExitStatus::Success
    } else {
        ExitStatus::Failure
    }
}

/// A kill frame stops its connection and shuts the running daemon down, from any
/// inhibition state. At shutdown an inactive inhibitor needs no backend call, so it
/// cannot fail; an active one releases its token. Once the socket is removed and the
/// release, if any, is confirmed, the daemon exits with success.
pub proof fn lemma_kill_terminates(s: Option<u32>)
    ensures
        step_for(encoding(IpcRequest::Kill), s) == Step::Kill,
        next_state(LoopState::Running, LoopEvent::Connection { kill: true })
            == LoopState::ShuttingDown,
        s is None ==> uninhibit_call(s) is None && exit_status_of(true, None) == ExitStatus::Success,
        s is Some ==> exit_status_of(true, Some(CallOutcome::Released)) == ExitStatus::Success,
{
    crate::ipc::lemma_round_trip(IpcRequest::Kill);
}

/// Every termination signal moves the daemon, in every state, exactly where a kill
/// request does; the shutdown that follows depends on the inhibition state alone.
pub proof fn lemma_signal_equals_kill(s: LoopState, sig: Signal)
    ensures
        next_state(s, LoopEvent::Signal(sig)) == next_state(s, LoopEvent::Connection { kill: true }),
{
}

} // verus!
