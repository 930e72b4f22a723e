//! The engine: audio, lights and the command loop over both.

pub mod audio;
pub mod colour;
pub mod config;
pub mod daemon;
pub mod delay;
pub mod dmx;
pub mod gradient;
pub mod gradients;
pub mod laws;
pub mod led;
pub mod protocol;

pub use config::{BufferSize, Config};
pub use daemon::Daemon;
