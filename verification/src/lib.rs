//! The engine of an audio visualiser for DMX lights: colour gradients, the
//! command loop that drives playback, the delay line and the analysis window
//! between the audio streams, DMX framing, and the decisions behind the web
//! interface.
//!
//! Everything here computes. Audio devices, serial ports, sockets and clocks
//! are driven by the program around the library, which hands in plain values
//! and carries out what the library asks for.

pub mod engine;
pub mod error;
pub mod number;
pub mod text;
pub mod ui;
