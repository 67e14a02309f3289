use netaccess::account_manager::{build_status, Connection, SystemStatus};
use netaccess::ip::IpAddr;
use netaccess::monitor::State;
use netaccess::monitor_ui::{
    control_lines, format_duration, key_input_of, state_line, status_lines, status_report_lines,
    ui_dispatch, KeyInput, UiSignal,
};
use netaccess::user::User;
use netaccess::user_manager::User as StoredUser;

fn ip(a: u8, b: u8, c: u8, d: u8) -> IpAddr {
    IpAddr { a, b, c, d }
}

#[test]
fn format_duration_names_each_unit() {
    assert_eq!(format_duration(0), "");
    assert_eq!(format_duration(59), "");
    assert_eq!(format_duration(60), "1 minutes");
    assert_eq!(format_duration(3600), "1 hours");
    assert_eq!(format_duration(3720), "1 hours, 2 minutes");
    assert_eq!(format_duration(86400), "1 days");
    assert_eq!(
        format_duration(2 * 86400 + 3 * 3600 + 4 * 60),
        "2 days, 3 hours, 4 minutes"
    );
    assert_eq!(format_duration(86400 + 60), "1 days, 1 minutes");
}

#[test]
fn status_lines_show_address_state_and_time() {
    let active = SystemStatus {
        ip: ip(10, 0, 0, 1),
        connection: Connection { time_left: 3720, server_active: true },
    };
    let lines = status_lines(&active);
    assert_eq!(
        lines,
        vec![
            "IP address: 10.0.0.1",
            "Connection state: active",
            "Time left: 1 hours, 2 minutes",
        ]
    );
    let lapsed = SystemStatus {
        ip: ip(10, 0, 0, 1),
        connection: Connection { time_left: 0, server_active: false },
    };
    assert_eq!(
        status_lines(&lapsed),
        vec!["IP address: 10.0.0.1", "Connection state: inactive"]
    );
}

#[test]
fn state_line_for_each_state() {
    assert_eq!(
        state_line(&State::Suspended { duration_secs: 300 }),
        "Suspended for 300s"
    );
    assert_eq!(state_line(&State::CheckingStatus), "Checking status");
    assert_eq!(
        state_line(&State::Approving(ip(10, 0, 0, 1))),
        "Approving IP 10.0.0.1"
    );
    assert_eq!(
        state_line(&State::Error { message: String::from("portal said no") }),
        "portal said no"
    );
}

#[test]
fn control_lines_for_each_state() {
    assert_eq!(
        control_lines(&State::Suspended { duration_secs: 300 }),
        vec!["q | Q -> Quit monitor", "w | W -> Wakeup monitor"]
    );
    assert_eq!(
        control_lines(&State::Error { message: String::from("x") }),
        vec![
            "q | Q -> Quit monitor",
            "r | R -> Attempt to retry and recover",
        ]
    );
    assert!(control_lines(&State::CheckingStatus).is_empty());
    assert!(control_lines(&State::Approving(ip(1, 2, 3, 4))).is_empty());
}

#[test]
fn key_bindings_accept_both_cases() {
    assert_eq!(key_input_of('q'), Some(KeyInput::Quit));
    assert_eq!(key_input_of('Q'), Some(KeyInput::Quit));
    assert_eq!(key_input_of('w'), Some(KeyInput::Wakeup));
    assert_eq!(key_input_of('W'), Some(KeyInput::Wakeup));
    assert_eq!(key_input_of('r'), Some(KeyInput::Retry));
    assert_eq!(key_input_of('R'), Some(KeyInput::Retry));
    assert_eq!(key_input_of('x'), None);
}

#[test]
fn dispatch_forwards_only_the_matching_signal() {
    let suspended = State::Suspended { duration_secs: 300 };
    assert_eq!(ui_dispatch(&suspended, KeyInput::Quit), UiSignal::Stop);
    assert_eq!(ui_dispatch(&suspended, KeyInput::Wakeup), UiSignal::Wake);
    assert_eq!(ui_dispatch(&suspended, KeyInput::Retry), UiSignal::Ignore);
    let error = State::Error { message: String::from("x") };
    assert_eq!(ui_dispatch(&error, KeyInput::Quit), UiSignal::Stop);
    assert_eq!(ui_dispatch(&error, KeyInput::Retry), UiSignal::Retry);
    assert_eq!(ui_dispatch(&error, KeyInput::Wakeup), UiSignal::Ignore);
    assert_eq!(ui_dispatch(&State::CheckingStatus, KeyInput::Quit), UiSignal::Ignore);
    assert_eq!(
        ui_dispatch(&State::Approving(ip(1, 2, 3, 4)), KeyInput::Quit),
        UiSignal::Ignore
    );
}

#[test]
fn status_report_lists_other_connections() {
    let own = ip(10, 0, 0, 1);
    let other = ip(10, 0, 0, 2);
    let gone = ip(10, 0, 0, 3);
    let st = build_status(
        vec![
            (own, Connection { time_left: 3600, server_active: true }),
            (other, Connection { time_left: 120, server_active: true }),
            (gone, Connection { time_left: 0, server_active: false }),
        ],
        own,
    );
    let lines = status_report_lines(&st);
    assert_eq!(
        lines,
        vec![
            "Your IP address is 10.0.0.1 and active for 1 hours",
            "Number of other registered connections: 2",
            "S.No.\tIP\t\tTime left",
            "1\t10.0.0.2\t2 minutes",
            "2\t10.0.0.3\tInactive or expired",
        ]
    );
}

#[test]
fn status_report_for_inactive_lonely_system() {
    let own = ip(10, 0, 0, 1);
    let st = build_status(vec![], own);
    let lines = status_report_lines(&st);
    assert_eq!(
        lines,
        vec![
            "Your IP address is 10.0.0.1 and inactive",
            "Number of other registered connections: 0",
        ]
    );
}

#[test]
fn user_carries_name_and_password() {
    let u = User::new(String::from("AB19C001"), String::from("SECRET-REDACTED"));
    assert_eq!(u.name(), "AB19C001");
    assert_eq!(u.password(), "SECRET-REDACTED");
}

#[test]
fn stored_user_carries_name_and_password() {
    let u = StoredUser::new(String::from("AB19C001"), String::from("SECRET-REDACTED"));
    assert_eq!(u.name(), "AB19C001");
    assert_eq!(u.password(), "SECRET-REDACTED");
    let same = StoredUser::new(String::from("AB19C001"), String::from("SECRET-REDACTED"));
    assert_eq!(u, same);
}
