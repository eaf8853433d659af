//! What the application's commands decide once their input has been read
//! and before their output is stored or sent.

pub mod audio;
pub mod database;
pub mod debug;
pub mod images;
pub mod solution_card;
pub mod timer;
