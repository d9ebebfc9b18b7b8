//! What the library promises: of each operation, what its results are for every
//! input, said in terms of the inputs and the results.

pub mod address;
pub mod agent;
pub mod browser;
pub mod calls;
pub mod lines;
pub mod logs;
pub mod modes;
pub mod picture;
pub mod scaling;
pub mod session;
pub mod settings;
pub mod terminal;
pub mod words;
