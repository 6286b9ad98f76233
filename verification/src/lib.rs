//! Verified core of the RustConn desktop client: the decisions, key
//! derivations, parsers and state machines behind its GTK front end.

pub mod text;
pub mod scan;
pub mod monitor_mode;
pub mod activity_coordinator;
pub mod ids;
pub mod sorting;
pub mod vault;
pub mod embedded_rdp;
pub mod embedded;
pub mod embedded_spice;
pub mod notebook;
pub mod sidebar;
pub mod session_start;
pub mod tunnel;
pub mod embedded_web;
pub mod split_layout;
