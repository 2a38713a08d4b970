//! securepad: the verified core of a password-gated, terminal-based
//! plain-text note editor with periodic autosave.
//!
//! The library holds everything the editor decides: the multi-line buffer
//! and its cursor ([`editor`], modelled in [`model`]), the key-to-command
//! mapping ([`input`]), the text printed on a redraw ([`render`]), the
//! conversion between buffer and persisted text ([`text`]), and the
//! credential checks behind the password gate ([`auth`]). The laws these
//! obey are proved in [`laws`]. Terminal, clock and file I/O stay with the
//! caller, which feeds plain values in and writes plain values out.

pub mod auth;
pub mod editor;
pub mod input;
pub mod laws;
pub mod model;
pub mod render;
pub mod storage;
pub mod text;
