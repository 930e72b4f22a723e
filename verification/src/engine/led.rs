//! Lights: colours, gradients and the set of gradients to choose from.

pub use super::colour::Colour;
pub use super::gradient::{Blend, Gradient, Stop};
pub use super::gradients::{GradientInfo, Gradients};
