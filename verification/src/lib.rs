//! Verified core of an anonymous-feedback Telegram bot. Users write to the
//! bot, by name or anonymously under a four-digit code; the owner answers,
//! blocks, and mails everyone. The library holds the stores (anonymous
//! codes, block lists, the broadcast list), reads the commands, composes
//! every message, and decides, for each update, what the bot does: a list
//! of actions for the program around it to carry out.

// Text: decimal formats, scanning, the byte mask of the store files.
pub mod text;
pub mod scan;
pub mod obfuscation;
pub mod random;

// Collections of strings and ids.
pub mod string_set;
pub mod id_set;

// The stores.
pub mod anonymous;
pub mod storage;
pub mod broadcast;
pub mod forever;

// Encryption and hashing, and the fast-send engine's requests.
pub mod crypto;
pub mod turbo;

// Messages and commands.
pub mod replies;
pub mod commands;

// Handling updates.
pub mod actions;
pub mod owner;
pub mod user;
pub mod bot;
pub mod laws;
