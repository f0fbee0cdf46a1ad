//! Pinyin capture and conversion logic of a trigger-based Chinese input tool.
//!
//! A user keeps an ordinary English keyboard layout, types a trigger, then pinyin, and the
//! tool rewrites the typed pinyin into Chinese text that the Rime engine proposes. This crate
//! holds everything the tool decides: how configuration is checked, how text is split into
//! pinyin runs and separators, which keys select candidates, what a key press does to the
//! capture state and which deletions and insertions are sent to the host application. The
//! engine, the keyboard hooks and the file system stay outside: the crate says what to ask
//! them and what to do with each answer.

// Characters, strings and bytes.
pub mod chars;
pub mod text;
pub mod bytes;

// Settings.
pub mod config;
pub mod validation;
pub mod options;
pub mod data_dirs;
pub mod permissions;

// Bodies: their triggers, their tokens and the punctuation between them.
pub mod triggers;
pub mod tokens;
pub mod separators;

// Conversations with the engine.
pub mod rime_table;
pub mod engine;
pub mod segments;
pub mod conversion;
pub mod rime_auto;
pub mod candidates;
pub mod candidate_session;

// The capture state, and what holds of it.
pub mod actions;
pub mod capture;
pub mod session;
pub mod host;

// The platforms and the listener, and what holds of it.
pub mod platform;
pub mod win;
pub mod mac;
pub mod sources;
pub mod failures;
pub mod rewrite;
pub mod reactions;
pub mod listener;
pub mod listening;
pub mod listener_state;
pub mod listener_host;
pub mod clear_reasons;

// What the program prints.
pub mod report;

// What the operations are for, in terms of what goes in and what comes out.
pub mod text_laws;
pub mod capture_laws;
pub mod engine_laws;
pub mod listener_laws;
pub mod settings_laws;
pub mod report_laws;
