//! Core logic of Dark Binding: a background companion for the League of
//! Legends client that swaps the game configuration to a per-champion-group
//! configuration when champion select is finalised, and restores the
//! original configuration afterwards.
//!
//! Everything here works on plain values; reading files, talking to the
//! client over HTTP and WebSocket, and the tray icon live in the program
//! around this library.

pub mod error;
pub mod number;
pub mod text;
pub mod structs;
pub mod credentials;
pub mod uri;
pub mod paths;
pub mod socket;
pub mod client;
pub mod settings;
pub mod files;
