# clippi

Clipboard and file sharing between machines of a LAN through a WebSocket
relay. This crate holds the logic, verified with Verus; `app/` is the Tauri
program around it (clipboard access, sockets, files, the relay).

`src/` modules:

- `text`: character-level helpers (trim, decimal numbers, `u64` parsing).
- `mime`: file names, extensions and the media type table.
- `clipboard`: describing clipboard entries, `file://` URIs, share link queries.
- `file_server`: the registry of shared files, request parsing, response headers,
  the directory for large shared files.
- `sharing`: percent-encoding, share links, planning the sharing of a file.
- `sync`: the sync session state machine and request checks.

Laws proved in `src/` are the `pub proof fn law_*` items.
