//! What the terminal sends and what it is sent.

pub mod capability;
pub mod input;
pub mod keyboard;
pub mod mouse;
pub mod raw;
