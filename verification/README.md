# HePrint

A desktop print service: web pages send JSON-RPC 2.0 commands
(`HE_INIT`, `HE_ADD_TEXT`, `HE_SET_STYLE`, `HE_PRINT`, ...) over a WebSocket
on `127.0.0.1:18000`, and the service lays the items out and prints them.

## Layout

- `src/` — the `heprint` library, verified with Verus: the command and item
  model, the style system, the task manager of a connection, the shared
  print queue, the router that runs each command (`router::dispatch`), the
  JSON-RPC envelope (`rpc`), HTML-to-text, QR rendering, the data-URL, PDF
  and image source rules, page planning, and the command line. `laws.rs`
  holds properties that span several commands.
- `tests/` — tests of the library.
- `app/` — the program: the axum HTTP/WebSocket service, the print workers,
  `serde` conversions, and on Windows the spooler, GDI drawing, the PDF
  renderer and the tray application.

When the router needs the print system (listing or checking printers,
printing the current task for `HE_PRINT`, sending raw bytes), `dispatch`
returns a `HostQuery`; the program answers it and `resume` finishes the
command. `HE_PRINT` answers with the task's result (`taskId`, `success`,
`error`, `pages`); `HE_PRINT_TASK` puts a task on the shared print queue.
