use netaccess::account_manager::Connection;
use netaccess::datetime::{civil_secs_exec, parse_expiry, time_left_secs, DateTime};
use netaccess::ip::{ip_to_string, parse_ip, IpAddr};
use netaccess::numfmt::u64_to_string;
use netaccess::status_page::{parse_connections, parse_row, ParseError, RawRow};

const EXPIRY_SECS: i64 = 1690193220; // 24 Jul 2023, 10:07 in civil seconds

fn data_row(cells: &[&str], badge: Option<Option<&str>>) -> RawRow {
    RawRow {
        cells: cells.iter().map(|c| Some(c.to_string())).collect(),
        badge: badge.map(|b| b.map(|t| t.to_string())),
    }
}

#[test]
fn parse_expiry_reads_the_fixed_format() {
    let dt = parse_expiry("24 Jul 2023, 10:07").unwrap();
    assert_eq!(
        dt,
        DateTime { year: 2023, month: 7, day: 24, hour: 10, minute: 7 }
    );
    assert_eq!(civil_secs_exec(&dt), EXPIRY_SECS);
}

#[test]
fn parse_expiry_accepts_short_day_and_hour() {
    let dt = parse_expiry("4 Jan 2024, 9:05").unwrap();
    assert_eq!(
        dt,
        DateTime { year: 2024, month: 1, day: 4, hour: 9, minute: 5 }
    );
}

#[test]
fn parse_expiry_rejects_malformed_texts() {
    assert!(parse_expiry("").is_none());
    assert!(parse_expiry("24 Jul 2023").is_none());
    assert!(parse_expiry("24 JUL 2023, 10:07").is_none());
    assert!(parse_expiry("31 Feb 2023, 10:07").is_none());
    assert!(parse_expiry("24 Jul 2023, 24:07").is_none());
    assert!(parse_expiry("24 Jul 2023, 10:61").is_none());
    assert!(parse_expiry("24 Jul 2023, 10:07 ").is_none());
}

#[test]
fn parse_expiry_knows_leap_years() {
    assert!(parse_expiry("29 Feb 2024, 00:00").is_some());
    assert!(parse_expiry("29 Feb 2023, 00:00").is_none());
    assert!(parse_expiry("29 Feb 2100, 00:00").is_none());
    assert!(parse_expiry("29 Feb 2000, 00:00").is_some());
}

#[test]
fn civil_seconds_of_known_dates() {
    let dt = parse_expiry("1 Mar 2000, 0:00").unwrap();
    assert_eq!(civil_secs_exec(&dt), 11017 * 86400);
    let epoch = parse_expiry("1 Jan 1970, 0:00").unwrap();
    assert_eq!(civil_secs_exec(&epoch), 0);
    let before = parse_expiry("31 Dec 1969, 23:59").unwrap();
    assert_eq!(civil_secs_exec(&before), -60);
}

#[test]
fn time_left_is_clamped_at_zero() {
    let dt = parse_expiry("24 Jul 2023, 10:07").unwrap();
    assert_eq!(time_left_secs(&dt, EXPIRY_SECS + 1), 0);
    assert_eq!(time_left_secs(&dt, EXPIRY_SECS), 0);
    assert_eq!(time_left_secs(&dt, EXPIRY_SECS - 90), 90);
}

#[test]
fn parse_ip_reads_canonical_quads_only() {
    assert_eq!(parse_ip("10.1.2.3"), Some(IpAddr { a: 10, b: 1, c: 2, d: 3 }));
    assert_eq!(parse_ip("0.0.0.0"), Some(IpAddr { a: 0, b: 0, c: 0, d: 0 }));
    assert_eq!(
        parse_ip("255.255.255.255"),
        Some(IpAddr { a: 255, b: 255, c: 255, d: 255 })
    );
    assert!(parse_ip("").is_none());
    assert!(parse_ip("10.1.2").is_none());
    assert!(parse_ip("10.1.2.3.4").is_none());
    assert!(parse_ip("010.1.2.3").is_none());
    assert!(parse_ip("256.1.2.3").is_none());
    assert!(parse_ip("10.1.2.3 ").is_none());
    assert!(parse_ip("a.b.c.d").is_none());
}

#[test]
fn ip_renders_and_parses_back() {
    let ip = IpAddr { a: 172, b: 16, c: 0, d: 254 };
    let text = ip_to_string(&ip);
    assert_eq!(text, "172.16.0.254");
    assert_eq!(parse_ip(&text), Some(ip));
}

#[test]
fn decimal_rendering() {
    assert_eq!(u64_to_string(0), "0");
    assert_eq!(u64_to_string(255), "255");
    assert_eq!(u64_to_string(12345), "12345");
}

#[test]
fn parse_row_reads_one_data_row() {
    let row = data_row(
        &["<mac>", "10.1.2.3", "24 Jul 2023, 10:07", "0 B"],
        Some(Some("Active")),
    );
    let now = EXPIRY_SECS - 600;
    let (ip, conn) = parse_row(&row, now).unwrap();
    assert_eq!(ip, IpAddr { a: 10, b: 1, c: 2, d: 3 });
    assert_eq!(conn, Connection { time_left: 600, server_active: true });
    assert!(conn.is_active());
}

#[test]
fn parse_row_fails_without_expiry_cell() {
    let row = data_row(&["<mac>", "10.1.2.3"], Some(Some("Active")));
    assert_eq!(parse_row(&row, 0), Err(ParseError::MissingExpiryCell));
}

#[test]
fn parse_row_error_variants() {
    let now = 0;
    let row = data_row(&["<mac>"], Some(Some("Active")));
    assert_eq!(parse_row(&row, now), Err(ParseError::MissingIpCell));
    let row = RawRow {
        cells: vec![Some("<mac>".to_string()), None],
        badge: Some(Some("Active".to_string())),
    };
    assert_eq!(parse_row(&row, now), Err(ParseError::IpTextMissing));
    let row = RawRow {
        cells: vec![
            Some("<mac>".to_string()),
            Some("10.1.2.3".to_string()),
            None,
        ],
        badge: Some(Some("Active".to_string())),
    };
    assert_eq!(parse_row(&row, now), Err(ParseError::ExpiryTextMissing));
    let row = data_row(&["<mac>", "10.1.2.3", "whenever"], Some(Some("Active")));
    assert_eq!(parse_row(&row, now), Err(ParseError::BadExpiryFormat));
    let row = data_row(&["<mac>", "10.1.2.3", "24 Jul 2023, 10:07"], None);
    assert_eq!(parse_row(&row, now), Err(ParseError::MissingStatusBadge));
    let row = data_row(&["<mac>", "10.1.2.3", "24 Jul 2023, 10:07"], Some(None));
    assert_eq!(parse_row(&row, now), Err(ParseError::StatusTextMissing));
    let row = data_row(&["<mac>", "999.1.2.3", "24 Jul 2023, 10:07"], Some(Some("Active")));
    assert_eq!(parse_row(&row, now), Err(ParseError::BadIpAddress));
}

#[test]
fn parse_row_inactive_label() {
    let row = data_row(
        &["<mac>", "10.1.2.3", "24 Jul 2023, 10:07", "0 B"],
        Some(Some("Expired")),
    );
    let (_, conn) = parse_row(&row, EXPIRY_SECS - 600).unwrap();
    assert!(!conn.server_active);
    assert!(!conn.is_active());
}

const PAGE: &str = "<html><body><table><tbody>\
<tr><th>MAC</th><th>IP</th><th>Valid till</th><th>Download today</th><th colspan=\"2\">Status</th></tr>\
<tr><td><E:XP:IR:ED:></td><td>10.1.2.3</td><td>24 Jul 2023, 10:07</td><td>0 B</td>\
<td><span class=\"label label-success\">Active</span></td>\
<td><a href=\"/account/revoke/10.1.2.3\"><span class=\"label label-danger\">Delete</span></a></td></tr>\
</tbody></table></body></html>";

#[test]
fn parse_connections_reads_a_whole_page() {
    let now = EXPIRY_SECS - 3600;
    let table = parse_connections(PAGE, now).unwrap();
    assert_eq!(table.len(), 1);
    let (ip, conn) = table[0];
    assert_eq!(ip, IpAddr { a: 10, b: 1, c: 2, d: 3 });
    assert_eq!(conn.time_left, 3600);
    assert!(conn.server_active);
    assert!(conn.is_active());
}

#[test]
fn parse_connections_fails_without_tbody() {
    assert_eq!(
        parse_connections("<html><body><p>nothing here</p></body></html>", 0),
        Err(ParseError::NoTableBody)
    );
}

#[test]
fn parse_connections_fails_whole_page_on_one_bad_row() {
    let page = "<html><body><table><tbody>\
<tr><th>MAC</th><th>IP</th><th>Valid till</th><th>Status</th></tr>\
<tr><td>m1</td><td>10.1.2.3</td><td>24 Jul 2023, 10:07</td>\
<td><span>Active</span></td></tr>\
<tr><td>m2</td><td>10.1.2.4</td></tr>\
</tbody></table></body></html>";
    assert_eq!(
        parse_connections(page, 0),
        Err(ParseError::MissingExpiryCell)
    );
}

#[test]
fn parse_connections_header_only_table_is_empty() {
    let page = "<html><body><table><tbody>\
<tr><th>MAC</th><th>IP</th></tr>\
</tbody></table></body></html>";
    let table = parse_connections(page, 0).unwrap();
    assert!(table.is_empty());
}
