# sshcli

The verified core of an SSH client with a terminal, profiles, host keys,
credentials and SFTP listings. The decisions and data handling live in
`src/` and are proved with Verus; `app/` is the thin program around them
(files, the keyring, PTYs, the network).

## Layout

- `src/target.rs`, `src/ssh_options.rs`, `src/ssh_errors.rs`, `src/keys.rs`:
  connection targets, connection options, authentication choice, error
  mapping.
- `src/profiles.rs`, `src/cli_profiles.rs`, `src/profile_form.rs`,
  `src/profiles_view.rs`: saved profiles, the profile editor and the
  profile list (filtering, grouping, stable sorting).
- `src/host_keys.rs`: known host keys and the server-key decision.
- `src/credentials.rs`, `src/legacy_credentials.rs`: keyring account naming,
  lookups and fallback paths.
- `src/session_table.rs`, `src/session_events.rs`, `src/channel.rs`,
  `src/transport.rs`, `src/ssh_worker.rs`: live sessions, their events,
  channel messages, and what the SSH terminal worker does on reconnect,
  input, resize and close.
- `src/local_pty.rs`, `src/shells.rs`, `src/native_terminal.rs`,
  `src/terminal_ui.rs`, `src/terminal_grid.rs`, `src/terminal_state.rs`,
  `src/tui.rs`,
  `src/native_app.rs`: local shells, terminal input and surfaces, tabs.
- `src/sftp_listing.rs`, `src/paths.rs`: remote listings and paths.
- `src/color.rs`, `src/sizes.rs`, `src/prefs.rs`, `src/config.rs`,
  `src/text.rs`, `src/error.rs`: shared pieces.

Public proof functions named `lemma_*` state the properties that hold across
operations (round trips, orderings, what one call undoes).

The tests under `tests/` exercise the library with the outside crates
linked.
