//! The line-based daemon protocol: the commands a request names.
pub mod command;
pub mod player;
