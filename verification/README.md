# rustconn

The verified core of the RustConn remote-connection manager: the decisions,
key derivations, parsers and state machines that its GTK front end relies on,
each with a contract proved by Verus.

* `src/` — the library. Credential storage (`vault/`: backend choice, lookup
  keys, migrations, transfers between backends, user notices), FreeRDP client
  choice, its argument file and its error output (`embedded_rdp/`,
  `embedded.rs`), the session notebook's tab placement (`notebook.rs`),
  sidebar row presentation (`sidebar.rs`), activity monitoring
  (`activity_coordinator.rs`, `monitor_mode.rs`), SPICE frames
  (`embedded_spice.rs`), the web view's URL checks and storage paths
  (`embedded_web.rs`), tunnels, split layouts and session start-up decisions.
* `tests/` — tests run against the compiled library.
* `app/` — the system edges: environment, `PATH` probes, files, and the
  floating-point zoom steps.
