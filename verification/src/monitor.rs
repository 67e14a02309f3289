//! The supervisory monitor as a state machine: each iteration announces
//! itself, queries the status, approves a lapsed connection or suspends
//! while an active one lasts, and parks on any failure until an
//! external retry signal arrives. The surrounding task executes the
//! commands this machine hands out and feeds the outcomes back in.
use vstd::prelude::*;

use crate::account_manager::SystemStatus;
use crate::ip::IpAddr;

verus! {

/// A lifecycle state as shown to the consumer. The suspended and error
/// states are the two that await an external signal; the task pairs
/// them with a single-use reply handle when it emits them.
#[derive(Debug)]
pub enum State {
    /// Sleeping while the connection lasts, open to a wake signal.
    Suspended { duration_secs: u64 },
    /// About to query the portal for the current status.
    CheckingStatus,
    /// Submitting an approval for the given address.
    Approving(IpAddr),
    /// Parked on a failure, awaiting a retry signal.
    Error { message: String },
}

/// What one monitor instance is bound to: the duration tier it approves
/// for and how long it sleeps between checks.
#[derive(Debug, Clone, Copy, PartialEq, Eq, Structural)]
pub struct MonitorConfig {
    pub duration_index: usize,
    pub suspend_secs: u64,
}

/// Where the monitor loop stands.
#[derive(Debug, Clone, Copy, PartialEq, Eq, Structural)]
pub enum MonitorPhase {
    /// A status query is under way.
    Checking,
    /// An approval for the given address is under way.
    Approving { ip: IpAddr },
    /// Sleeping, racing the timer against a wake signal.
    Suspended { duration_secs: u64 },
    /// Parked on a failure until a retry signal arrives.
    Failed,
    /// The loop has ended.
    Stopped,
}

/// What the outside world reports back to the machine.
#[derive(Debug)]
pub enum MonitorEvent {
    /// The status query succeeded with the caller's own record.
    StatusSucceeded(SystemStatus),
    /// The status query failed; the text describes the cause.
    StatusFailed(String),
    /// The approval submission succeeded.
    ApproveSucceeded,
    /// The approval submission failed; the text describes the cause.
    ApproveFailed(String),
    /// The suspension timer ran out.
    SleepElapsed,
    /// An external wake signal arrived during suspension.
    WakeSignal,
    /// An external retry signal arrived while parked on a failure.
    RetrySignal,
    /// The lifecycle event channel is gone: nobody observes the loop.
    ChannelClosed,
}

/// What the task must do next.
#[derive(Debug, Clone, Copy, PartialEq, Eq, Structural)]
pub enum MonitorCommand {
    /// Query the portal for the current status.
    QueryStatus,
    /// Submit an approval for the configured duration tier.
    SubmitApprove,
    /// Sleep for the given time, racing an external wake signal.
    Sleep { duration_secs: u64 },
    /// Wait indefinitely for an external retry signal.
    AwaitRetry,
    /// Keep waiting on whatever is already pending.
    Wait,
    /// End the loop.
    Halt,
}

/// One step's output: a lifecycle event to deliver in order (if any), a
/// fresh value for the latest-status slot (if any), and the next
/// command.
#[derive(Debug)]
pub struct MonitorDirective {
    pub emit: Option<State>,
    pub publish: Option<SystemStatus>,
    pub next: MonitorCommand,
}

/// The start of an iteration: announce the check, then query.
pub open spec fn spec_iteration_start() -> (MonitorPhase, MonitorDirective) {
    (
        MonitorPhase::Checking,
        MonitorDirective {
            emit: Some(State::CheckingStatus),
            publish: None,
            next: MonitorCommand::QueryStatus,
        },
    )
}

/// The transition table of the monitor. A closed event channel stops
/// the loop from any phase; otherwise: a successful status query
/// publishes the record and either approves a lapsed connection or
/// suspends an active one; a finished approval and an ended suspension
/// (timer or wake, whichever comes first) start the next iteration; any
/// failure parks the loop, which only a retry signal restarts; an event
/// that does not belong to the current phase changes nothing.
pub open spec fn spec_monitor_step(
    config: MonitorConfig,
    phase: MonitorPhase,
    event: MonitorEvent,
) -> (MonitorPhase, MonitorDirective) {
    let stay = (
        phase,
        MonitorDirective { emit: None, publish: None, next: MonitorCommand::Wait },
    );
    match event {
        MonitorEvent::ChannelClosed => (
            MonitorPhase::Stopped,
            MonitorDirective { emit: None, publish: None, next: MonitorCommand::Halt },
        ),
        MonitorEvent::StatusSucceeded(ss) => if phase is Checking {
            if !ss.connection.spec_is_active() {
                (
                    MonitorPhase::Approving { ip: ss.ip },
                    MonitorDirective {
                        emit: Some(State::Approving(ss.ip)),
                        publish: Some(ss),
                        next: MonitorCommand::SubmitApprove,
                    },
                )
            } else {
                (
                    MonitorPhase::Suspended { duration_secs: config.suspend_secs },
                    MonitorDirective {
                        emit: Some(State::Suspended { duration_secs: config.suspend_secs }),
                        publish: Some(ss),
                        next: MonitorCommand::Sleep { duration_secs: config.suspend_secs },
                    },
                )
            }
        } else {
            stay
        },
        MonitorEvent::StatusFailed(m) => if phase is Checking {
            (
                MonitorPhase::Failed,
                MonitorDirective {
                    emit: Some(State::Error { message: m }),
                    publish: None,
                    next: MonitorCommand::AwaitRetry,
                },
            )
        } else {
            stay
        },
        MonitorEvent::ApproveSucceeded => if phase is Approving {
            spec_iteration_start()
        } else {
            stay
        },
        MonitorEvent::ApproveFailed(m) => if phase is Approving {
            (
                MonitorPhase::Failed,
                MonitorDirective {
                    emit: Some(State::Error { message: m }),
                    publish: None,
                    next: MonitorCommand::AwaitRetry,
                },
            )
        } else {
            stay
        },
        MonitorEvent::SleepElapsed => if phase is Suspended {
            spec_iteration_start()
        } else {
            stay
        },
        MonitorEvent::WakeSignal => if phase is Suspended {
            spec_iteration_start()
        } else {
            stay
        },
        MonitorEvent::RetrySignal => if phase is Failed {
            spec_iteration_start()
        } else {
            stay
        },
    }
}

/// Starts an iteration: the checking announcement to emit, and the
/// status query to perform.
pub fn iteration_start() -> (r: (MonitorPhase, MonitorDirective))
    ensures
        r == spec_iteration_start(),
{
    (
        MonitorPhase::Checking,
        MonitorDirective {
            emit: Some(State::CheckingStatus),
            publish: None,
            next: MonitorCommand::QueryStatus,
        },
    )
}

/// Performs one step of the monitor's transition table.
pub fn monitor_step(config: &MonitorConfig, phase: &MonitorPhase, event: MonitorEvent) -> (r: (
    MonitorPhase,
    MonitorDirective,
))
    ensures
        r == spec_monitor_step(*config, *phase, event),
{
    match event {
        MonitorEvent::ChannelClosed => (
            MonitorPhase::Stopped,
            MonitorDirective { emit: None, publish: None, next: MonitorCommand::Halt },
        ),
        MonitorEvent::StatusSucceeded(ss) => if matches!(phase, MonitorPhase::Checking) {
            if !ss.connection.is_active() {
                (
                    MonitorPhase::Approving { ip: ss.ip },
                    MonitorDirective {
                        emit: Some(State::Approving(ss.ip)),
                        publish: Some(ss),
                        next: MonitorCommand::SubmitApprove,
                    },
                )
            } else {
                (
                    MonitorPhase::Suspended { duration_secs: config.suspend_secs },
                    MonitorDirective {
                        emit: Some(State::Suspended { duration_secs: config.suspend_secs }),
                        publish: Some(ss),
                        next: MonitorCommand::Sleep { duration_secs: config.suspend_secs },
                    },
                )
            }
        } else {
            (
                *phase,
                MonitorDirective { emit: None, publish: None, next: MonitorCommand::Wait },
            )
        },
        MonitorEvent::StatusFailed(m) => if matches!(phase, MonitorPhase::Checking) {
            (
                MonitorPhase::Failed,
                MonitorDirective {
                    emit: Some(State::Error { message: m }),
                    publish: None,
                    next: MonitorCommand::AwaitRetry,
                },
            )
        } else {
            (
                *phase,
                MonitorDirective { emit: None, publish: None, next: MonitorCommand::Wait },
            )
        },
        MonitorEvent::ApproveSucceeded => if matches!(phase, MonitorPhase::Approving { .. }) {
            iteration_start()
        } else {
            (
                *phase,
                MonitorDirective { emit: None, publish: None, next: MonitorCommand::Wait },
            )
        },
        MonitorEvent::ApproveFailed(m) => if matches!(phase, MonitorPhase::Approving { .. }) {
            (
                MonitorPhase::Failed,
                MonitorDirective {
                    emit: Some(State::Error { message: m }),
                    publish: None,
                    next: MonitorCommand::AwaitRetry,
                },
            )
        } else {
            (
                *phase,
                MonitorDirective { emit: None, publish: None, next: MonitorCommand::Wait },
            )
        },
        MonitorEvent::SleepElapsed => if matches!(phase, MonitorPhase::Suspended { .. }) {
            iteration_start()
        } else {
            (
                *phase,
                MonitorDirective { emit: None, publish: None, next: MonitorCommand::Wait },
            )
        },
        MonitorEvent::WakeSignal => if matches!(phase, MonitorPhase::Suspended { .. }) {
            iteration_start()
        } else {
            (
                *phase,
                MonitorDirective { emit: None, publish: None, next: MonitorCommand::Wait },
            )
        },
        MonitorEvent::RetrySignal => if matches!(phase, MonitorPhase::Failed) {
            iteration_start()
        } else {
            (
                *phase,
                MonitorDirective { emit: None, publish: None, next: MonitorCommand::Wait },
            )
        },
    }
}

/// A wake signal that arrives during suspension starts the next
/// iteration at once — the machine never waits out the timer first.
pub proof fn lemma_wake_resumes_immediately(config: MonitorConfig, duration_secs: u64)
    ensures
        spec_monitor_step(
            config,
            MonitorPhase::Suspended { duration_secs },
            MonitorEvent::WakeSignal,
        ) == spec_iteration_start(),
        spec_iteration_start().0 is Checking,
        spec_iteration_start().1.next == MonitorCommand::QueryStatus,
{
}

/// Once the machine is parked on a failure, no event other than a retry
/// signal makes it query the status or leave the parked phase; the
/// closed-channel event only stops the loop.
pub proof fn lemma_error_blocks_until_retry(config: MonitorConfig, event: MonitorEvent)
    requires
        !(event is RetrySignal),
        !(event is ChannelClosed),
    ensures
        spec_monitor_step(config, MonitorPhase::Failed, event).0 is Failed,
        spec_monitor_step(config, MonitorPhase::Failed, event).1.next
            != MonitorCommand::QueryStatus,
        spec_monitor_step(config, MonitorPhase::Failed, event).1.emit is None,
{
}

/// The phase a run of events leaves the machine in.
pub open spec fn spec_run_phase(
    config: MonitorConfig,
    phase: MonitorPhase,
    events: Seq<MonitorEvent>,
) -> MonitorPhase
    decreases events.len(),
{
    if events.len() == 0 {
        phase
    } else {
        spec_run_phase(
            config,
            spec_monitor_step(config, phase, events[0]).0,
            events.drop_first(),
        )
    }
}

/// However long a parked machine waits and whatever arrives, it stays
/// parked as long as no retry signal and no channel closure is among
/// the events.
pub proof fn lemma_error_blocks_over_run(config: MonitorConfig, events: Seq<MonitorEvent>)
    requires
        forall|i: int|
            0 <= i < events.len() ==> !((#[trigger] events[i]) is RetrySignal) && !(
            events[i] is ChannelClosed),
    ensures
        spec_run_phase(config, MonitorPhase::Failed, events) is Failed,
    decreases events.len(),
{
    if events.len() > 0 {
        lemma_error_blocks_until_retry(config, events[0]);
        assert(spec_monitor_step(config, MonitorPhase::Failed, events[0]).0 is Failed);
        lemma_error_blocks_over_run(config, events.drop_first());
    }
}

/// A retry signal restarts a parked machine into a fresh iteration.
pub proof fn lemma_retry_resumes(config: MonitorConfig)
    ensures
        spec_monitor_step(config, MonitorPhase::Failed, MonitorEvent::RetrySignal)
            == spec_iteration_start(),
{
}

} // verus!
