//! The run as a state machine: a run loads the configuration, executes the
//! child command, and notifies, in that order; any failure before or after
//! the child runs aborts the process with exit code 1, and a notification
//! is attempted only for a run whose child actually exited.

use vstd::prelude::*;

verus! {

/// The command to run and its arguments, taken verbatim from the command
/// line: the first token is the program, the rest are passed through.
#[derive(Debug)]
pub struct Invocation {
    pub command: String,
    pub args: Vec<String>,
}

/// Where the run stands.
#[derive(Debug, Clone, Copy, PartialEq, Eq, Structural)]
pub enum Phase {
    /// Nothing has happened yet.
    Start,
    /// The configuration was resolved.
    ConfigLoaded,
    /// The child process was spawned and is being drained.
    Executing,
    /// The child exited and the run is fully recorded.
    Completed,
    /// The notification was delivered.
    Notified,
    /// A fatal error ended the run.
    Failed,
}

/// What just happened.
#[derive(Debug, Clone, Copy, PartialEq, Eq, Structural)]
pub enum RunEvent {
    /// The command line held no command token.
    NoCommandGiven,
    /// Configuration resolution succeeded.
    ConfigOk,
    /// Configuration resolution failed.
    ConfigFailed,
    /// The child process was spawned.
    SpawnOk,
    /// The child process could not be spawned.
    SpawnFailed,
    /// Both output streams were drained and the child exited.
    ChildExited,
    /// The notification was delivered.
    NotifyOk,
    /// The notification could not be delivered.
    NotifyFailed,
}

/// What the process does next.
#[derive(Debug, Clone, Copy, PartialEq, Eq, Structural)]
pub enum RunAction {
    /// Go on with the next step of the run.
    Proceed,
    /// Send the notification summarizing the run.
    SendNotification,
    /// Exit successfully.
    ExitSuccess,
    /// Print the error and exit with the failure code.
    AbortFailure,
}

/// The transition relation: the phase the run moves to and the action the
/// process takes when `e` happens in phase `p`. Any event that does not
/// belong to the phase is a fatal error.
pub open spec fn step_spec(p: Phase, e: RunEvent) -> (Phase, RunAction) {
    match (p, e) {
        (Phase::Start, RunEvent::ConfigOk) => (Phase::ConfigLoaded, RunAction::Proceed),
        (Phase::ConfigLoaded, RunEvent::SpawnOk) => (Phase::Executing, RunAction::Proceed),
        (Phase::Executing, RunEvent::ChildExited) => (Phase::Completed, RunAction::SendNotification),
        (Phase::Completed, RunEvent::NotifyOk) => (Phase::Notified, RunAction::ExitSuccess),
        _ => (Phase::Failed, RunAction::AbortFailure),
    }
}

/// Runtime counterpart of [`step_spec`].
pub fn orchestrator_step(p: Phase, e: RunEvent) -> (r: (Phase, RunAction))
    ensures
        r == step_spec(p, e),
{
    match (p, e) {
        (Phase::Start, RunEvent::ConfigOk) => (Phase::ConfigLoaded, RunAction::Proceed),
        (Phase::ConfigLoaded, RunEvent::SpawnOk) => (Phase::Executing, RunAction::Proceed),
        (Phase::Executing, RunEvent::ChildExited) => (
            Phase::Completed,
            RunAction::SendNotification,
        ),
        (Phase::Completed, RunEvent::NotifyOk) => (Phase::Notified, RunAction::ExitSuccess),
        _ => (Phase::Failed, RunAction::AbortFailure),
    }
}

/// The exit code a terminal action gives the process: 0 after a delivered
/// notification, 1 for any fatal error; no exit yet otherwise.
pub fn process_exit_code(a: &RunAction) -> (r: Option<i32>)
    ensures
        *a == RunAction::ExitSuccess ==> r == Some(0i32),
        *a == RunAction::AbortFailure ==> r == Some(1i32),
        (*a == RunAction::Proceed || *a == RunAction::SendNotification) ==> r is None,
{
    match a {
        RunAction::ExitSuccess => Some(0),
        RunAction::AbortFailure => Some(1),
        _ => None,
    }
}

/// The actions a run starting in phase `p` takes over a sequence of events.
pub open spec fn actions_from(p: Phase, events: Seq<RunEvent>) -> Seq<RunAction>
    decreases events.len(),
{
    if events.len() == 0 {
        Seq::empty()
    } else {
        seq![step_spec(p, events[0]).1] + actions_from(step_spec(p, events[0]).0, events.drop_first())
    }
}

/// A notification is attempted only when the child has run to completion:
/// the one transition producing `SendNotification` is a child exit in the
/// `Executing` phase.
pub proof fn lemma_notify_only_after_child_exit(p: Phase, e: RunEvent)
    ensures
        step_spec(p, e).1 == RunAction::SendNotification ==> p == Phase::Executing && e
            == RunEvent::ChildExited,
{
}

/// A failed run stays failed and never attempts a notification, whatever
/// events follow.
pub proof fn lemma_failed_never_notifies(events: Seq<RunEvent>)
    ensures
        forall|k: int|
            0 <= k < actions_from(Phase::Failed, events).len() ==> actions_from(
                Phase::Failed,
                events,
            )[k] != RunAction::SendNotification,
    decreases events.len(),
{
    if events.len() > 0 {
        lemma_failed_never_notifies(events.drop_first());
    }
}

/// A configuration failure aborts the run at once, and no notification is
/// ever attempted afterwards.
pub proof fn lemma_config_failure_never_notifies(later: Seq<RunEvent>)
    ensures
        step_spec(Phase::Start, RunEvent::ConfigFailed) == (Phase::Failed, RunAction::AbortFailure),
        forall|k: int|
            0 <= k < actions_from(Phase::Start, seq![RunEvent::ConfigFailed] + later).len()
                ==> actions_from(Phase::Start, seq![RunEvent::ConfigFailed] + later)[k]
                != RunAction::SendNotification,
{
    let events = seq![RunEvent::ConfigFailed] + later;
    assert(events[0] == RunEvent::ConfigFailed);
    assert(events.drop_first() =~= later);
    lemma_failed_never_notifies(later);
}

/// A spawn failure aborts the run at once, and no notification is ever
/// attempted afterwards.
pub proof fn lemma_spawn_failure_never_notifies(later: Seq<RunEvent>)
    ensures
        step_spec(Phase::ConfigLoaded, RunEvent::SpawnFailed) == (
            Phase::Failed,
            RunAction::AbortFailure,
        ),
        forall|k: int|
            0 <= k < actions_from(Phase::ConfigLoaded, seq![RunEvent::SpawnFailed] + later).len()
                ==> actions_from(Phase::ConfigLoaded, seq![RunEvent::SpawnFailed] + later)[k]
                != RunAction::SendNotification,
{
    let events = seq![RunEvent::SpawnFailed] + later;
    assert(events[0] == RunEvent::SpawnFailed);
    assert(events.drop_first() =~= later);
    lemma_failed_never_notifies(later);
}

/// Splits the command line: the first token is the command, the remaining
/// tokens are its arguments verbatim; with no token at all there is
/// nothing to run.
pub fn plan_invocation(tokens: Vec<String>) -> (r: Option<Invocation>)
    ensures
        match r {
            Some(inv) => {
                &&& tokens@.len() > 0
                &&& inv.command@ == tokens@[0]@
                &&& inv.args@.len() == tokens@.len() - 1
                &&& forall|k: int| 0 <= k < inv.args@.len() ==> inv.args@[k]@ == tokens@[k + 1]@
            },
            None => tokens@.len() == 0,
        },
{
    let n = tokens.len();
    if n == 0 {
        return None;
    }
    let command = tokens[0].clone();
    let mut args: Vec<String> = Vec::new();
    let mut i: usize = 1;
    while i < n
        invariant
            1 <= i <= n,
            n == tokens@.len(),
            command@ == tokens@[0]@,
            args@.len() == i - 1,
            forall|k: int| 0 <= k < args@.len() ==> args@[k]@ == tokens@[k + 1]@,
        decreases n - i,
    {
        let t = &tokens[i];
        args.push(t.clone());
        i = i + 1;
    }
    Some(Invocation { command, args })
}

} // verus!
