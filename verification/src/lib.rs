//! A daemon-based music player: the request protocol, the audio storage and
//! its search index, the play queue and the decisions the daemon takes on
//! each request.
pub mod cli;
pub mod client;
pub mod daemon;
pub mod error;
pub mod handlers;
pub mod player;
pub mod protocol;
pub mod request;
pub mod response;
pub mod services;
pub mod utils;
