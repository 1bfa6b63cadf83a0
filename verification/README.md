# speedtest

A speed-test node: an HTTP API that hands out measurement sessions and serves
latency, download and upload probes, runnable as a plain server or from a desktop
tray.

- `src/` is the verified library: the session rules (`session`, over the
  association lists of `assoc`, with what holds across calls in `session_laws`), the runtime configuration (`config`, `net`,
  `text`), the file locations and settings of the desktop mode (`paths`,
  `settings`), the replies and checks of the API (`server`), the tray's icon and
  menu (`tray`) and the decisions of the desktop start (`startup`).
- `app/` is the program around it: command-line parsing, the axum server, the
  settings file, the autostart entry and the tray event loop.
- `tests/` exercises the library on concrete values.
