//! Client library for a web-based network-access portal: a status-page
//! parser, session outcome classification, approve/revoke decision logic,
//! and the supervisory monitor state machine.
pub mod account_manager;
pub mod datetime;
pub mod ip;
pub mod monitor;
pub mod monitor_ui;
pub mod numfmt;
pub mod status_page;
pub mod user;
pub mod user_manager;
