use netaccess::account_manager::{
    action_outcome, approve_plan, build_status, is_logged_in_response, login_outcome, revoke_plan,
    ApproveDuration, Connection, Error,
};
use netaccess::ip::IpAddr;

fn ip(a: u8, b: u8, c: u8, d: u8) -> IpAddr {
    IpAddr { a, b, c, d }
}

#[test]
fn connection_active_needs_flag_and_time() {
    assert!(Connection { time_left: 10, server_active: true }.is_active());
    assert!(!Connection { time_left: 0, server_active: true }.is_active());
    assert!(!Connection { time_left: 10, server_active: false }.is_active());
    assert!(!Connection { time_left: 0, server_active: false }.is_active());
}

#[test]
fn default_connection_is_expired_and_inactive() {
    let c = Connection::default();
    assert_eq!(c.time_left, 0);
    assert!(!c.server_active);
    assert!(!c.is_active());
}

#[test]
fn build_status_extracts_own_entry() {
    let own = ip(10, 0, 0, 1);
    let other = ip(10, 0, 0, 2);
    let table = vec![
        (own, Connection { time_left: 120, server_active: true }),
        (other, Connection { time_left: 60, server_active: true }),
    ];
    let st = build_status(table, own);
    assert_eq!(st.system_status.ip, own);
    assert_eq!(st.system_status.connection.time_left, 120);
    assert!(st.system_status.connection.server_active);
    let rest = st.connections();
    assert_eq!(rest.len(), 1);
    assert_eq!(rest[0].0, other);
}

#[test]
fn build_status_defaults_when_own_entry_absent() {
    let own = ip(10, 0, 0, 1);
    let other = ip(10, 0, 0, 2);
    let table = vec![(other, Connection { time_left: 60, server_active: true })];
    let st = build_status(table, own);
    assert_eq!(st.system_status.ip, own);
    assert_eq!(st.system_status.connection.time_left, 0);
    assert!(!st.system_status.connection.server_active);
    assert!(!st.system_status.connection.is_active());
    assert_eq!(st.connections().len(), 1);
}

#[test]
fn approve_plan_skips_post_when_active() {
    let own = ip(10, 0, 0, 1);
    let table = vec![(own, Connection { time_left: 300, server_active: true })];
    let st = build_status(table, own);
    assert!(!approve_plan(&st, false));
}

#[test]
fn approve_plan_posts_when_forced_or_inactive() {
    let own = ip(10, 0, 0, 1);
    let active = build_status(
        vec![(own, Connection { time_left: 300, server_active: true })],
        own,
    );
    assert!(approve_plan(&active, true));
    let lapsed = build_status(
        vec![(own, Connection { time_left: 0, server_active: false })],
        own,
    );
    assert!(approve_plan(&lapsed, false));
}

#[test]
fn revoke_plan_targets_own_address_by_default() {
    let own = ip(10, 0, 0, 1);
    let st = build_status(
        vec![(own, Connection { time_left: 300, server_active: true })],
        own,
    );
    let plan = revoke_plan(&st, None).unwrap();
    assert_eq!(plan.target, own);
    assert!(plan.submit);
}

#[test]
fn revoke_plan_is_noop_for_inactive_explicit_target() {
    let own = ip(10, 0, 0, 1);
    let other = ip(10, 0, 0, 9);
    let st = build_status(
        vec![
            (own, Connection { time_left: 300, server_active: true }),
            (other, Connection { time_left: 0, server_active: false }),
        ],
        own,
    );
    let plan = revoke_plan(&st, Some("10.0.0.9")).unwrap();
    assert_eq!(plan.target, other);
    assert!(!plan.submit);
}

#[test]
fn revoke_plan_submits_for_active_explicit_target() {
    let own = ip(10, 0, 0, 1);
    let other = ip(10, 0, 0, 9);
    let st = build_status(
        vec![
            (own, Connection { time_left: 300, server_active: true }),
            (other, Connection { time_left: 40, server_active: true }),
        ],
        own,
    );
    let plan = revoke_plan(&st, Some("10.0.0.9")).unwrap();
    assert_eq!(plan.target, other);
    assert!(plan.submit);
}

#[test]
fn revoke_plan_rejects_malformed_address() {
    let own = ip(10, 0, 0, 1);
    let st = build_status(vec![], own);
    match revoke_plan(&st, Some("not-an-ip")) {
        Err(Error::MalformedIp(text)) => assert_eq!(text, "not-an-ip"),
        other => panic!("expected a malformed-address error, got {:?}", other),
    }
}

#[test]
fn login_outcome_by_resolved_path() {
    assert!(matches!(login_outcome(200, "/account/index"), Ok(())));
    assert!(matches!(
        login_outcome(200, "/account/login"),
        Err(Error::InvalidCredentials)
    ));
    match login_outcome(200, "/account/other") {
        Err(Error::UnexpectedPath(p)) => assert_eq!(p, "/account/other"),
        other => panic!("expected an unexpected-path error, got {:?}", other),
    }
    assert!(matches!(login_outcome(500, "/account/index"), Err(Error::HttpStatus(500))));
}

#[test]
fn logged_in_probe_checks_resolved_path() {
    assert_eq!(is_logged_in_response(200, "/account/index").unwrap(), true);
    assert_eq!(is_logged_in_response(200, "/account/login").unwrap(), false);
    assert!(matches!(
        is_logged_in_response(503, "/account/index"),
        Err(Error::HttpStatus(503))
    ));
}

#[test]
fn action_outcome_by_resolved_path() {
    let target = ip(10, 0, 0, 7);
    assert_eq!(action_outcome(200, "/account/index", target).unwrap(), target);
    assert!(matches!(
        action_outcome(200, "/account/approve", target),
        Err(Error::UnexpectedPath(_))
    ));
    assert!(matches!(
        action_outcome(404, "/account/index", target),
        Err(Error::HttpStatus(404))
    ));
}

#[test]
fn transport_error_carries_its_cause() {
    let e = Error::Transport(String::from("connection timed out"));
    match e {
        Error::Transport(text) => assert_eq!(text, "connection timed out"),
        other => panic!("expected a transport error, got {:?}", other),
    }
}

#[test]
fn approve_duration_tiers() {
    assert_eq!(usize::from(ApproveDuration::Hour), 1);
    assert_eq!(usize::from(ApproveDuration::Day), 2);
    assert_eq!(usize::from(ApproveDuration::Month), 3);
}
