//! What the worker that generates code decides between two waits for a
//! message: to serve it, to sleep, or to end.

use vstd::prelude::*;

verus! {

/// A message to the worker.
#[derive(Clone, Copy, Debug, PartialEq, Eq, Structural, Hash)]
pub enum WorkerMessage {
    /// A device was added.
    AddAccel,
    /// The host wants to answer queries. Nothing is done about it.
    StartHostQuery,
    /// Code is asked for. `cached` says whether it was generated before.
    Codegen { cached: bool },
}

/// What ended a wait of the worker.
#[derive(Clone, Copy, Debug, PartialEq, Eq, Structural, Hash)]
pub enum WorkerEvent {
    /// A message came. `context_alive` says whether the context that the
    /// worker belongs to can still be had.
    Received { message: WorkerMessage, context_alive: bool },
    /// No message came in time. `context_alive` says whether the context
    /// can still be had, `accel_alive` whether one of the devices that
    /// were added can.
    Timeout { context_alive: bool, accel_alive: bool },
    /// Nobody is left to send a message.
    Disconnected,
}

/// Whether the worker holds on to its context.
#[derive(Clone, Copy, Debug, PartialEq, Eq, Structural, Hash)]
pub enum WorkerPhase {
    /// The worker holds its context and waits for a message for a limited
    /// time.
    Serving,
    /// The worker has let go of its context and waits for a message
    /// without limit.
    Idle,
}

/// The state of the worker between two waits.
#[derive(Clone, Copy, Debug, PartialEq, Eq, Structural, Hash)]
pub struct WorkerState {
    pub phase: WorkerPhase,
    /// Whether no message came yet. Before the first message a timeout
    /// does not end the worker.
    pub first_msg: bool,
}

/// What the worker does before its next wait.
#[derive(Clone, Copy, Debug, PartialEq, Eq, Structural, Hash)]
pub enum WorkerAction {
    /// End.
    Exit,
    /// Nothing: wait for the next message.
    Serve,
    /// Take the device in.
    AddAccel,
    /// Generate the code and send it; where `send_cached` is set, send the
    /// code that was generated before first.
    Codegen { send_cached: bool },
    /// Let go of the context and wait without limit.
    Sleep,
}

impl WorkerState {
    /// The state that a worker starts in.
    pub open spec fn spec_start() -> WorkerState {
        WorkerState { phase: WorkerPhase::Serving, first_msg: true }
    }

    /// The state after an event, and what the worker does then.
    ///
    /// A message is served, but by an idle worker whose context is gone,
    /// which ends. A timeout ends the worker once a message has come and
    /// the context or every device is gone; else the worker goes idle.
    /// When nobody is left to send, the worker ends.
    pub open spec fn spec_step(self, event: WorkerEvent) -> (WorkerState, WorkerAction) {
        match event {
            WorkerEvent::Received { message, context_alive } => if self.phase is Idle
                && !context_alive {
                (self, WorkerAction::Exit)
            } else {
                (
                    WorkerState { phase: WorkerPhase::Serving, first_msg: false },
                    match message {
                        WorkerMessage::AddAccel => WorkerAction::AddAccel,
                        WorkerMessage::StartHostQuery => WorkerAction::Serve,
                        WorkerMessage::Codegen { cached } => WorkerAction::Codegen {
                            send_cached: cached,
                        },
                    },
                )
            },
            WorkerEvent::Timeout { context_alive, accel_alive } => if self.phase is Idle {
                (self, WorkerAction::Sleep)
            } else if !(context_alive && accel_alive) && !self.first_msg {
                (self, WorkerAction::Exit)
            } else {
                (WorkerState { phase: WorkerPhase::Idle, ..self }, WorkerAction::Sleep)
            },
            WorkerEvent::Disconnected => (self, WorkerAction::Exit),
        }
    }

    /// The state that a worker starts in.
    pub fn start() -> (state: WorkerState)
        ensures
            state == Self::spec_start(),
    {
        WorkerState { phase: WorkerPhase::Serving, first_msg: true }
    }

    /// Takes an event and says what the worker does before its next wait.
    pub fn step(&mut self, event: WorkerEvent) -> (action: WorkerAction)
        ensures
            (*final(self), action) == old(self).spec_step(event),
    {
        match event {
            WorkerEvent::Received { message, context_alive } => {
                match self.phase {
                    WorkerPhase::Idle => {
                        if !context_alive {
                            // the context can't be resurrected.
                            return WorkerAction::Exit;
                        }
                    },
                    WorkerPhase::Serving => {},
                }
                self.phase = WorkerPhase::Serving;
                self.first_msg = false;
                match message {
                    WorkerMessage::AddAccel => WorkerAction::AddAccel,
                    WorkerMessage::StartHostQuery => WorkerAction::Serve,
                    WorkerMessage::Codegen { cached } => WorkerAction::Codegen {
                        send_cached: cached,
                    },
                }
            },
            WorkerEvent::Timeout { context_alive, accel_alive } => {
                match self.phase {
                    WorkerPhase::Idle => {
                        return WorkerAction::Sleep;
                    },
                    WorkerPhase::Serving => {},
                }
                let live = context_alive && accel_alive;
                if !live && !self.first_msg {
                    return WorkerAction::Exit;
                }
                // else wait for the next message, at which point we will
                // reinitialize.
                self.phase = WorkerPhase::Idle;
                WorkerAction::Sleep
            },
            WorkerEvent::Disconnected => WorkerAction::Exit,
        }
    }
}

/// A worker that has not had a message yet outlives every timeout.
pub proof fn lemma_first_timeout_never_ends(state: WorkerState, context_alive: bool, accel_alive: bool)
    requires
        state.first_msg,
    ensures
        state.spec_step(WorkerEvent::Timeout { context_alive, accel_alive }).1
            == WorkerAction::Sleep,
{
}

/// Once a message has come, a serving worker ends at a timeout exactly
/// when its context or every one of its devices is gone.
pub proof fn lemma_timeout_ends_when_nothing_lives(
    state: WorkerState,
    context_alive: bool,
    accel_alive: bool,
)
    requires
        !state.first_msg,
        state.phase is Serving,
    ensures
        state.spec_step(WorkerEvent::Timeout { context_alive, accel_alive }).1 is Exit <==> !(
        context_alive && accel_alive),
{
}

} // verus!
