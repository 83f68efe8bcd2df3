//! Verified core of an SSH desktop client: connection targets, profiles,
//! host keys, credentials naming, paths, terminal input mapping and colors.

pub mod channel;
pub mod cli_profiles;
pub mod color;
pub mod config;
pub mod credentials;
pub mod host_keys;
pub mod keys;
pub mod legacy_credentials;
pub mod local_pty;
pub mod error;
pub mod native_app;
pub mod native_terminal;
pub mod paths;
pub mod prefs;
pub mod profile_form;
pub mod profiles;
pub mod profiles_view;
pub mod session_events;
pub mod session_table;
pub mod sftp_listing;
pub mod shells;
pub mod sizes;
pub mod ssh_errors;
pub mod ssh_options;
pub mod ssh_worker;
pub mod target;
pub mod terminal_grid;
pub mod terminal_state;
pub mod terminal_ui;
pub mod text;
pub mod transport;
pub mod tui;

