# cinemotion

A motion-capture session engine, verified with Verus.

Controllers connect, introduce themselves and stream samples of their
properties; scene objects bind their properties to controller properties;
the engine renders the scene from the controllers on every tick and
publishes the resulting state to every connection.

## Layout

- `src/` — the verified library.
  - `engine/` — the session engine as a state machine: `Engine::apply`
    takes a message and returns what to do (notify the observer, send an
    event, close a connection); `Engine::tick` renders and publishes.
    `engine/laws.rs` states what holds across commands.
  - `data/`, `commands.rs`, `events.rs`, `scene.rs`, `connection.rs` — the
    values, commands, events, scene and connection contexts of the engine.
  - `motion_core/` — the device and scene-object world: devices with
    attributes, samples applied while motion is on, scene objects whose
    attributes follow device attributes through links.
    `motion_core/laws.rs` states what holds across its operations.
  - `channel_buf.rs` — a bounded buffer that keeps the most recent items.
  - `name.rs`, `name_map.rs` — names and the association map keyed by them.
  - `data/session_desc.rs` — the base64 session descriptor; the only calls
    into an outside crate (`base64`) are there, behind trusted wrappers.
- `tests/` — tests of the library.
- `app/` — the command line program: argument parsing, logging setup, and
  the async runtime that feeds messages to the engine and carries out what
  it answers.
