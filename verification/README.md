# Dark Binding

Runs in the background and swaps your League of Legends settings to those of
the champion group you are about to play, then restores your original
settings once the game is over, keeping any game-setting changes you made.

## Layout

- `src/` — the verified library (Verus):
  - `credentials.rs` — reading the client's credentials from its command line;
  - `number.rs` — decimal numbers as `u32::from_str` reads them;
  - `text.rs` — normalised champion names;
  - `uri.rs` — addresses of the client's HTTP API and WebSocket;
  - `paths.rs` — forming file locations with the standard library's paths;
  - `structs.rs` — the client's data, and carrying game settings into the
    original settings;
  - `socket.rs` — which WebSocket events the application acts on;
  - `client.rs` — the client state: known champions, champion groups,
    which champion's settings to load, where its files are, the file steps
    of loading and restoring in their order, and what each request of the
    program asks for;
  - `files.rs` — a model of the files involved, with what loading and
    restoring do to them;
  - `settings.rs` — the backup and restore rules;
  - `error.rs` — the library's errors.
- `app/` — the program around it: tray icon, process lookup, HTTP and
  WebSocket connections, JSON and TOML parsing, and the file operations.
- `tests/` — tests of the library.
