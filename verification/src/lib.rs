//! The control plane of an interactive module player: translation of raw
//! keyboard input into playback commands, the playback session state that
//! applies those commands inside the render callback, the playlist cursor
//! with per-entry failure handling, and the parsers for numeric arguments
//! and channel mute/solo masks.
//!
//! The decoding engine, the audio output and the terminal itself are
//! external collaborators: the library takes their observations as plain
//! values and hands decisions back, so that every rule in between is
//! verified.

pub mod command;
pub mod mask;
pub mod numbers;
pub mod playlist;
pub mod session;
