# qmtui

A terminal client for a coding agent: its state, what keys and messages of the
server do to it, and what is drawn, as a library whose behaviour is stated in
contracts and proved with Verus.

## Layout

- `src/app.rs` holds the state, `App`, and its model, `AppView`. Every type has
  such a model; contracts speak of models only.
- `src/handlers.rs` and `src/server_msg.rs` say how keys and messages change the
  state; what is sent is collected in an `Outbox` or returned.
- `src/chat_page.rs`, `src/start_page.rs`, `src/popups.rs`, `src/panels.rs`,
  `src/messages.rs` and `src/deck.rs` turn the state into pictures: lists of
  `Paint` steps over areas of the screen.
- `src/markdown.rs`, `src/highlight.rs` and `src/diff.rs` lay out texts.
- `src/config.rs` and `src/cache.rs` keep settings and sessions; `Storage` stands
  for the files.
- `src/connection.rs`, `src/server_manager.rs`, `src/editor.rs` and
  `src/program.rs` decide what the program around the library does next.
- Functions named `law_…` state what holds of several functions together.
- `app/` is the program: terminal, socket, files and processes.

Functions marked `#[verifier::external_body]` call another crate, or a part of the
standard library, and say in their contract what is relied on.
