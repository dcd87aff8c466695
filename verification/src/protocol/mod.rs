//! The messages that the command line client and the daemon exchange.
#![allow(non_camel_case_types)]

pub mod request;
pub mod response;

pub use request::{AudioInput, PlayerSubCommand, Request};
pub use response::{DisplayAudio, Response, StatusData};

use vstd::prelude::*;

verus! {

/// Whether a command of the packet format succeeded.
#[derive(Debug)]
pub enum R_Result {
    OK,
    ERROR { error_message: String },
}

/// The player command a packet answers.
#[derive(Debug)]
pub enum R_PlayerSubCommand {
    Play { audio_label: String },
    Pause,
    Resume,
    Clear,
}

/// The status query a packet answers, with its output.
#[derive(Debug)]
#[allow(inconsistent_fields)]
pub enum R_StatusSubCommand {
    ALL { output: String },
    CurrentAudio { output: Option<String> },
    IsPaused { output: String },
    IsQueueEmpty { output: String },
}

/// The command a packet answers.
#[derive(Debug)]
#[allow(inconsistent_fields)]
pub enum R_Command {
    Status { sub_command: R_StatusSubCommand },
    Reload,
    Search { search_result: Vec<String> },
    Player { sub_command: R_PlayerSubCommand },
}

/// A reply in the packet format: the result and the command it answers.
#[derive(Debug)]
pub struct R_Packet {
    pub result: R_Result,
    pub command: R_Command,
}

} // verus!
