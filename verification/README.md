# napp

The logic of a small tauri desktop application, verified with Verus.

- `src/rpc.rs`: requests, responses and a server that dispatches each request to the service
  registered under its name, turning what the service answers into the response.
- `src/win.rs`: which window types are registered and which windows are open or hidden, and
  what the window commands decide (which window to create, which label to act on, the settings
  and start-up script of a new window).
- `src/plugin/win.rs`: what the window plugin decides when it starts (the configured pages it
  registers) and which key presses it keeps from the application.
- `src/lib.rs`: the application's initial server, with its test service.
- `src/keyed.rs`, `src/labels.rs`, `src/text.rs`: tables kept as vectors, label lists, text.

`app/` holds the tauri side: the builder, the commands, the plugin, and the serde forms of the
library's types.
