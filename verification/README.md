# anonbot

A Telegram bot through which users write to its owner, by name or
anonymously under a four-digit code. The owner answers by replying, sends
private messages and mass mailings, and blocks users, usernames or codes.

## Layout

- `src/` is the library, verified with Verus. It keeps the stores (codes,
  block lists, broadcast list, "always anonymous" modes), reads commands,
  composes every message, and turns each update into a list of actions
  (`bot::handle_update_checked`). Contracts state exactly which actions come
  out and how the stores change; `laws.rs` and the proof functions beside
  the stores state what holds across calls (a reply reaches the sender of
  the message replied to, a blocked sender is only told so, stores read back
  are the stores written, and so on).
- `app/` is the program around it: the Telegram connection, the store
  files, and the native fast-send engine. It carries out the actions.
- `tests/` runs the library on concrete values.

The fast-send engine is a C library, `turbo_engine`, linked into the
program; its source is not part of this repository.
