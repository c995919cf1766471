//! Watching mailboxes on mail servers: the wire form of mailbox names, the
//! backoff of retries, the decisions of a supervisor and of the mailbox
//! monitor, the fan-out of monitors, the configuration and its bring-up,
//! and what the front ends show. Everything that waits, reads or draws is
//! left to the caller.

pub mod config_bringup;
pub mod config_core;
pub mod config_locate;
pub mod exp_backoff;
pub mod icon_render_loop;
pub mod imap_checker;
pub mod imap_monitor;
pub mod imap_session;
pub mod imap_tls;
pub mod imap_utf7;
pub mod mailbox_monitor;
pub mod monitoring_core;
pub mod monitoring_engine;
pub mod monitoring_workload_imap;
pub mod oauth2_session;
pub mod supervisor;
mod text;
pub mod tray;
pub mod tui_view;
