//! The audio capture engine.

pub mod controller;
pub mod devices;
pub mod ieee;
pub mod laws;
pub mod pipeline;
pub mod recorder;
pub mod rounding;
pub mod sample;
pub mod session;
pub mod single;
pub mod state;
pub mod stream;
