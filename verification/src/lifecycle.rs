//! The life of one attachment to a target process.
//!
//! An attachment is attached in three moves (take tracing control, build
//! the symbol index, let the engine create its agent) and detached in two
//! (let the engine delete its agent, give tracing control back). Each move
//! is work outside this library: the attachment says which one is due, and
//! is told how it went.

use crate::thread_db::TdErr;
use vstd::prelude::*;

verus! {

/// Where an attachment stands.
#[derive(Clone, Copy, Debug, PartialEq, Eq, Structural)]
pub enum Lifecycle {
    /// Not attached; no tracing control is held.
    Unattached,
    /// Attaching: tracing control has been asked for.
    Seizing,
    /// Attaching: tracing control is held, the symbol index is being built.
    Resolving,
    /// Attaching: the index is built, the engine is creating its agent.
    CreatingAgent,
    /// Attaching has failed with this code; tracing control is being given
    /// back.
    Abandoning(TdErr),
    /// Attached: the engine's agent is live.
    Attached,
    /// Detaching: the engine is deleting its agent.
    DeletingAgent,
    /// Detaching: the engine has answered the deletion with this code;
    /// tracing control is being given back.
    Releasing(TdErr),
    /// Detached.
    Detached,
    /// Detached, but the engine could not delete its agent: what the engine
    /// still holds may dangle, so the attachment is never used again.
    Poisoned,
}

/// The five stages of an attachment's life.
#[derive(Clone, Copy, Debug, PartialEq, Eq, Structural)]
pub enum Stage {
    Unattached,
    Attaching,
    Attached,
    Detaching,
    Detached,
}

/// What the attachment asks for next, or how a request to it ended.
#[derive(Clone, Copy, Debug, PartialEq, Eq, Structural)]
pub enum LifecycleAction {
    /// Take tracing control of the target, without stopping it.
    Seize,
    /// Build the symbol index of the target.
    Resolve,
    /// Let the engine create its agent for this attachment.
    CreateAgent,
    /// Let the engine delete its agent.
    DeleteAgent,
    /// Give tracing control back.
    Release,
    /// Attached: nothing more to do.
    Ready,
    /// Attaching failed with this code; nothing is held any more.
    AttachFailed(TdErr),
    /// Detached: nothing more to do.
    Closed,
    /// Detached, but the engine answered the deletion of its agent with
    /// this code: the attachment is poisoned.
    TeardownFailed(TdErr),
    /// What happened does not fit where the attachment stands; nothing
    /// has changed.
    Rejected,
}

/// What happened outside, as far as the attachment's course depends on it.
#[derive(Clone, Copy, Debug, PartialEq, Eq, Structural)]
pub enum Occurrence {
    /// The caller asks to attach.
    AttachRequested,
    /// Tracing control was taken.
    Seized,
    /// Tracing control could not be taken.
    SeizeFailed,
    /// The symbol index was built.
    Resolved,
    /// The symbol index could not be built.
    ResolveFailed,
    /// The engine answered the creation of its agent with this code.
    AgentCreated(TdErr),
    /// The caller asks to detach.
    DetachRequested,
    /// The engine answered the deletion of its agent with this code.
    AgentDeleted(TdErr),
    /// Tracing control was given back, or could not be: it is not held.
    Released,
}

impl Lifecycle {
    /// The stage that this state belongs to.
    pub open spec fn stage_of(self) -> Stage {
        match self {
            Lifecycle::Unattached => Stage::Unattached,
            Lifecycle::Seizing | Lifecycle::Resolving | Lifecycle::CreatingAgent | Lifecycle::Abandoning(
                _,
            ) => Stage::Attaching,
            Lifecycle::Attached => Stage::Attached,
            Lifecycle::DeletingAgent | Lifecycle::Releasing(_) => Stage::Detaching,
            Lifecycle::Detached | Lifecycle::Poisoned => Stage::Detached,
        }
    }

    /// Tracing control is held and is not being given back: the target's
    /// memory and registers may be touched.
    pub open spec fn accessible(self) -> bool {
        self is Resolving || self is CreatingAgent || self is Attached || self is DeletingAgent
    }

    /// The state after `event`, and what is due then.
    ///
    /// Attaching takes tracing control, then builds the index, then has the
    /// agent created; a failure after tracing control was taken gives it
    /// back before the failure is reported. Detaching has the agent deleted
    /// and then gives tracing control back whatever the engine answered; a
    /// deletion that failed poisons the attachment. An event out of turn is
    /// rejected.
    pub open spec fn after(self, event: Occurrence) -> (Lifecycle, LifecycleAction) {
        match (self, event) {
            (Lifecycle::Unattached, Occurrence::AttachRequested) => (
                Lifecycle::Seizing,
                LifecycleAction::Seize,
            ),
            (Lifecycle::Seizing, Occurrence::Seized) => (
                Lifecycle::Resolving,
                LifecycleAction::Resolve,
            ),
            (Lifecycle::Seizing, Occurrence::SeizeFailed) => (
                Lifecycle::Unattached,
                LifecycleAction::AttachFailed(TdErr::Failure),
            ),
            (Lifecycle::Resolving, Occurrence::Resolved) => (
                Lifecycle::CreatingAgent,
                LifecycleAction::CreateAgent,
            ),
            (Lifecycle::Resolving, Occurrence::ResolveFailed) => (
                Lifecycle::Abandoning(TdErr::Failure),
                LifecycleAction::Release,
            ),
            (Lifecycle::CreatingAgent, Occurrence::AgentCreated(code)) => if code.succeeded() {
                (Lifecycle::Attached, LifecycleAction::Ready)
            } else {
                (Lifecycle::Abandoning(code), LifecycleAction::Release)
            },
            (Lifecycle::Abandoning(code), Occurrence::Released) => (
                Lifecycle::Unattached,
                LifecycleAction::AttachFailed(code),
            ),
            (Lifecycle::Attached, Occurrence::DetachRequested) => (
                Lifecycle::DeletingAgent,
                LifecycleAction::DeleteAgent,
            ),
            (Lifecycle::DeletingAgent, Occurrence::AgentDeleted(code)) => (
                Lifecycle::Releasing(code),
                LifecycleAction::Release,
            ),
            (Lifecycle::Releasing(code), Occurrence::Released) => if code.succeeded() {
                (Lifecycle::Detached, LifecycleAction::Closed)
            } else {
                (Lifecycle::Poisoned, LifecycleAction::TeardownFailed(code))
            },
            _ => (self, LifecycleAction::Rejected),
        }
    }

    /// The stage that this state belongs to.
    pub fn stage(&self) -> (stage: Stage)
        ensures
            stage == self.stage_of(),
    {
        match self {
            Lifecycle::Unattached => Stage::Unattached,
            Lifecycle::Seizing => Stage::Attaching,
            Lifecycle::Resolving => Stage::Attaching,
            Lifecycle::CreatingAgent => Stage::Attaching,
            Lifecycle::Abandoning(_) => Stage::Attaching,
            Lifecycle::Attached => Stage::Attached,
            Lifecycle::DeletingAgent => Stage::Detaching,
            Lifecycle::Releasing(_) => Stage::Detaching,
            Lifecycle::Detached => Stage::Detached,
            Lifecycle::Poisoned => Stage::Detached,
        }
    }

    /// Whether the target's memory and registers may be touched.
    pub fn is_accessible(&self) -> (b: bool)
        ensures
            b == self.accessible(),
    {
        match self {
            Lifecycle::Resolving => true,
            Lifecycle::CreatingAgent => true,
            Lifecycle::Attached => true,
            Lifecycle::DeletingAgent => true,
            _ => false,
        }
    }

    /// Takes in `event`: the state after it, and what is due then.
    pub fn advance(self, event: Occurrence) -> (r: (Lifecycle, LifecycleAction))
        ensures
            r == self.after(event),
    {
        match (self, event) {
            (Lifecycle::Unattached, Occurrence::AttachRequested) => (
                Lifecycle::Seizing,
                LifecycleAction::Seize,
            ),
            (Lifecycle::Seizing, Occurrence::Seized) => (
                Lifecycle::Resolving,
                LifecycleAction::Resolve,
            ),
            (Lifecycle::Seizing, Occurrence::SeizeFailed) => (
                Lifecycle::Unattached,
                LifecycleAction::AttachFailed(TdErr::Failure),
            ),
            (Lifecycle::Resolving, Occurrence::Resolved) => (
                Lifecycle::CreatingAgent,
                LifecycleAction::CreateAgent,
            ),
            (Lifecycle::Resolving, Occurrence::ResolveFailed) => (
                Lifecycle::Abandoning(TdErr::Failure),
                LifecycleAction::Release,
            ),
            (Lifecycle::CreatingAgent, Occurrence::AgentCreated(code)) => match code {
                TdErr::Success => (Lifecycle::Attached, LifecycleAction::Ready),
                _ => (Lifecycle::Abandoning(code), LifecycleAction::Release),
            },
            (Lifecycle::Abandoning(code), Occurrence::Released) => (
                Lifecycle::Unattached,
                LifecycleAction::AttachFailed(code),
            ),
            (Lifecycle::Attached, Occurrence::DetachRequested) => (
                Lifecycle::DeletingAgent,
                LifecycleAction::DeleteAgent,
            ),
            (Lifecycle::DeletingAgent, Occurrence::AgentDeleted(code)) => (
                Lifecycle::Releasing(code),
                LifecycleAction::Release,
            ),
            (Lifecycle::Releasing(code), Occurrence::Released) => match code {
                TdErr::Success => (Lifecycle::Detached, LifecycleAction::Closed),
                _ => (Lifecycle::Poisoned, LifecycleAction::TeardownFailed(code)),
            },
            (state, _) => (state, LifecycleAction::Rejected),
        }
    }
}

/// The states reached from `state` by the events of `events`, in order.
pub open spec fn course(state: Lifecycle, events: Seq<Occurrence>) -> Lifecycle
    decreases events.len(),
{
    if events.len() == 0 {
        state
    } else {
        course(state.after(events[0]).0, events.drop_first())
    }
}

/// Detach boundary. Once an attachment is detached, cleanly or poisoned,
/// whatever happens leaves it so: every event is rejected, and the target's
/// memory and registers stay out of reach for good.
pub proof fn law_detached_is_final(state: Lifecycle, events: Seq<Occurrence>)
    requires
        state.stage_of() is Detached,
    ensures
        course(state, events) == state,
        !course(state, events).accessible(),
        forall|event: Occurrence| (#[trigger] state.after(event)).1 is Rejected,
    decreases events.len(),
{
    if events.len() > 0 {
        law_detached_is_final(state, events.drop_first());
    }
}

/// The agent goes before tracing control does: from an attachment whose
/// agent is live, tracing control is given back only after the engine has
/// been asked to delete the agent and has answered.
pub proof fn law_agent_released_first(state: Lifecycle, event: Occurrence)
    requires
        state.after(event).1 is Release,
        state.stage_of() is Attached || state.stage_of() is Detaching,
    ensures
        state is DeletingAgent,
        event is AgentDeleted,
{
}

/// Tracing control is taken exactly when an attachment begins and lost
/// exactly when its giving back is under way: the target is within reach
/// after an event only if it was before, but for the one event that takes
/// tracing control.
pub proof fn law_access_needs_seize(state: Lifecycle, event: Occurrence)
    requires
        state.after(event).0.accessible(),
        !state.accessible(),
    ensures
        state is Seizing,
        event is Seized,
{
}

} // verus!
