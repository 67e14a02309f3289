use netaccess::account_manager::{Connection, SystemStatus};
use netaccess::ip::IpAddr;
use netaccess::monitor::{
    iteration_start, monitor_step, MonitorCommand, MonitorConfig, MonitorEvent, MonitorPhase,
    State,
};

const CONFIG: MonitorConfig = MonitorConfig { duration_index: 1, suspend_secs: 300 };

fn own(active: bool) -> SystemStatus {
    SystemStatus {
        ip: IpAddr { a: 10, b: 0, c: 0, d: 1 },
        connection: Connection {
            time_left: if active { 600 } else { 0 },
            server_active: active,
        },
    }
}

#[test]
fn iteration_announces_then_queries() {
    let (phase, directive) = iteration_start();
    assert_eq!(phase, MonitorPhase::Checking);
    assert!(matches!(directive.emit, Some(State::CheckingStatus)));
    assert!(directive.publish.is_none());
    assert_eq!(directive.next, MonitorCommand::QueryStatus);
}

#[test]
fn lapsed_connection_gets_approved() {
    let (phase, directive) = monitor_step(
        &CONFIG,
        &MonitorPhase::Checking,
        MonitorEvent::StatusSucceeded(own(false)),
    );
    assert_eq!(phase, MonitorPhase::Approving { ip: own(false).ip });
    assert!(matches!(directive.emit, Some(State::Approving(_))));
    assert_eq!(directive.publish, Some(own(false)));
    assert_eq!(directive.next, MonitorCommand::SubmitApprove);
}

#[test]
fn active_connection_suspends() {
    let (phase, directive) = monitor_step(
        &CONFIG,
        &MonitorPhase::Checking,
        MonitorEvent::StatusSucceeded(own(true)),
    );
    assert_eq!(phase, MonitorPhase::Suspended { duration_secs: 300 });
    assert!(matches!(directive.emit, Some(State::Suspended { duration_secs: 300 })));
    assert_eq!(directive.publish, Some(own(true)));
    assert_eq!(directive.next, MonitorCommand::Sleep { duration_secs: 300 });
}

#[test]
fn finished_approval_starts_next_iteration() {
    let ip = IpAddr { a: 10, b: 0, c: 0, d: 1 };
    let (phase, directive) = monitor_step(
        &CONFIG,
        &MonitorPhase::Approving { ip },
        MonitorEvent::ApproveSucceeded,
    );
    assert_eq!(phase, MonitorPhase::Checking);
    assert!(matches!(directive.emit, Some(State::CheckingStatus)));
    assert_eq!(directive.next, MonitorCommand::QueryStatus);
}

#[test]
fn wake_signal_resumes_before_the_timer() {
    let (phase, directive) = monitor_step(
        &CONFIG,
        &MonitorPhase::Suspended { duration_secs: 300 },
        MonitorEvent::WakeSignal,
    );
    assert_eq!(phase, MonitorPhase::Checking);
    assert_eq!(directive.next, MonitorCommand::QueryStatus);
}

#[test]
fn elapsed_timer_resumes_too() {
    let (phase, directive) = monitor_step(
        &CONFIG,
        &MonitorPhase::Suspended { duration_secs: 300 },
        MonitorEvent::SleepElapsed,
    );
    assert_eq!(phase, MonitorPhase::Checking);
    assert_eq!(directive.next, MonitorCommand::QueryStatus);
}

#[test]
fn failure_parks_the_loop() {
    let (phase, directive) = monitor_step(
        &CONFIG,
        &MonitorPhase::Checking,
        MonitorEvent::StatusFailed(String::from("connection timed out")),
    );
    assert_eq!(phase, MonitorPhase::Failed);
    match directive.emit {
        Some(State::Error { message }) => assert_eq!(message, "connection timed out"),
        other => panic!("expected an error state, got {:?}", other),
    }
    assert_eq!(directive.next, MonitorCommand::AwaitRetry);
}

#[test]
fn parked_loop_ignores_everything_but_retry() {
    let events = [
        MonitorEvent::StatusSucceeded(own(true)),
        MonitorEvent::StatusFailed(String::from("again")),
        MonitorEvent::ApproveSucceeded,
        MonitorEvent::ApproveFailed(String::from("again")),
        MonitorEvent::SleepElapsed,
        MonitorEvent::WakeSignal,
    ];
    for event in events {
        let (phase, directive) = monitor_step(&CONFIG, &MonitorPhase::Failed, event);
        assert_eq!(phase, MonitorPhase::Failed);
        assert!(directive.emit.is_none());
        assert!(directive.publish.is_none());
        assert_ne!(directive.next, MonitorCommand::QueryStatus);
        assert_eq!(directive.next, MonitorCommand::Wait);
    }
}

#[test]
fn retry_signal_restarts_a_parked_loop() {
    let (phase, directive) =
        monitor_step(&CONFIG, &MonitorPhase::Failed, MonitorEvent::RetrySignal);
    assert_eq!(phase, MonitorPhase::Checking);
    assert!(matches!(directive.emit, Some(State::CheckingStatus)));
    assert_eq!(directive.next, MonitorCommand::QueryStatus);
}

#[test]
fn closed_channel_stops_the_loop() {
    for phase in [
        MonitorPhase::Checking,
        MonitorPhase::Suspended { duration_secs: 300 },
        MonitorPhase::Failed,
    ] {
        let (next, directive) = monitor_step(&CONFIG, &phase, MonitorEvent::ChannelClosed);
        assert_eq!(next, MonitorPhase::Stopped);
        assert!(directive.emit.is_none());
        assert_eq!(directive.next, MonitorCommand::Halt);
    }
}

#[test]
fn approval_failure_parks_the_loop() {
    let ip = IpAddr { a: 10, b: 0, c: 0, d: 1 };
    let (phase, directive) = monitor_step(
        &CONFIG,
        &MonitorPhase::Approving { ip },
        MonitorEvent::ApproveFailed(String::from("portal said no")),
    );
    assert_eq!(phase, MonitorPhase::Failed);
    assert!(matches!(directive.emit, Some(State::Error { .. })));
    assert_eq!(directive.next, MonitorCommand::AwaitRetry);
}
