# watchparty

A synchronized home-video watch party: upload MP4s, watch them together in
the browser with playback that stays in sync, and talk over a small WebRTC
mesh call.

- `src/` is the verified library (Verus):
  - `protocol` — the messages and shared types, with their mathematical views;
  - `playback` — a room's playback anchor and its extrapolation;
  - `rooms` — the room registry: join, leave, play/pause/seek/load, signal
    relay and heartbeat, each returning the messages it sends;
  - `session` — one WebSocket connection's handling of incoming messages;
  - `media` — upload accounting, file names, HTTP statuses, library rows;
  - `ids`, `clock` — identifiers and Unix time;
  - `client`, `calls` — the browser's decisions and call bookkeeping;
  - `laws` — properties that span operations.
- `app/` is the program around it: the Axum server (HTTP, WebSocket, SQLite,
  ffmpeg) and the Leptos client (DOM, WebRTC), plus the JSON shapes.
- `tests/` runs the library on concrete cases.

The rooms, their peers and the call's peer set are held in `Vec`s with
unique-id invariants rather than `HashMap`s keyed by `String`: vstd's map
specifications give little to prove with `String` keys, while a `Vec` with
the invariant makes every lookup, insertion and removal exact. Every message
the registry sends names its room and its recipient, and the server keeps one
channel per room and peer.

`app/main.rs` runs the server natively and mounts the page on wasm32.

Times and positions are whole microseconds in the library; the JSON on the
wire keeps seconds, converted in `app/wire.rs`.
