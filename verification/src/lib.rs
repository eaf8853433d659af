//! Core logic of a study tracker for coding-interview practice.
//!
//! The heart of the library is the audio capture engine in [`audio`]: a
//! controller that decides what the capture thread does next, the registry
//! of input devices, the pipeline that turns the samples of a device into
//! 16-bit mono PCM, and the session clock. Around it stand the parts of the
//! application's commands that compute ([`commands`]), the reader of
//! problem texts ([`import`]), the resolver of data paths
//! ([`path_resolver`]) and the data that they exchange ([`models`]).
//!
//! Nothing in the library reads a clock, touches a file or talks to a
//! device: it is handed what was read and says what is to be done.

pub mod audio;
pub mod commands;
pub mod encoding;
pub mod import;
pub mod models;
pub mod path_resolver;
pub mod text;
