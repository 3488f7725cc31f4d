//! Catalogue and playback arbitration for a small sound board, together with
//! the command encoding of a projector remote.
//!
//! The library holds the decisions; reading directories, talking to the
//! database file, spawning the player and serving HTTP are left to the caller.

pub mod api;
pub mod catalog;
pub mod compat;
pub mod data;
pub mod db;
pub mod files;
pub mod fingerprint;
pub mod playback;
pub mod player;
pub mod protocol;
pub mod text;
