//! Finds the hosts of a network: which addresses to ask, what the system's tools answer, and what the
//! discovery tab and the bar of tabs show of it.
pub mod action;
pub mod discovery;
pub mod input;
pub mod ipv4;
pub mod laws;
pub mod pool;
pub mod rows;
pub mod scanner;
pub mod shell;
pub mod tabs;
pub mod text;
pub mod ui;
pub mod vendor;
