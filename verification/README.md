# MielFTP core

The verified core of MielFTP, a dual-pane FTP client: what the panels show
and in which order, name validation, the connection forms, the transfer
queue, selection, directory synchronisation, the retry and throttling
policy, and what each message of the interface does to the state.

- `src/` is the library, checked with Verus. `models/` holds the data of
  the interface and its rules, `update.rs` and `app.rs` what each message
  does to the state (and which outside work it asks for), `ui.rs` the texts
  the panels derive from the state, `ftp/` the retry, throttling and
  logging decisions of network operations, `text.rs` the string utilities
  they rest on.
- `app/` is the program around it: the message loop, the FTP sessions
  (suppaftp), the local file system, and the preferences and saved
  connections on disk and in the system keyring.
- `tests/` exercises the library on concrete values.
