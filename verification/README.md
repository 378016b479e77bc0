# surya_ui

The decisions behind a desktop client's panes, verified with Verus: the
inbox of agents waiting for an answer, the file tree and editor, the
browser pane's address bar, find and zoom, the engine server list, message
attachments, and the permission choices a card offers.

- `src/` is the library. Every function has a contract, and the laws that
  tie functions together (a toggle undone by a second toggle, a saved server
  found again at its own address, attachments read back as they were sent)
  are proof functions beside the code they speak of.
- `tests/` runs the library on concrete values.
- `app/` holds what reads and writes around the library: the engine's JSON,
  files on disk, the environment, and the window's saved shape.

Drawing is not here: each pane's view calls these functions and draws what
they return.
