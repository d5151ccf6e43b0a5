//! Discovery and management of command-line tools installed through several
//! package managers, with the terminal browser's state machine.
pub mod text;
pub mod managers;
pub mod cheatsheet;
pub mod snapshot;
pub mod app;
pub mod keys;
pub mod view;
pub mod laws;
