//! The command line: its subcommands, and the request each one sends to the daemon.
use crate::error::Error;
use crate::protocol::{AudioInput, PlayerSubCommand, Request};
use crate::utils::{spec_trim, trim};
use vstd::prelude::*;
use vstd::string::StringExecFns;

verus! {

/// The status a `status` subcommand asks for; none means all of it.
#[derive(Debug, PartialEq, Eq)]
pub enum StatusSubCommand {
    CurrentAudio,
    IsPaused,
    IsQueueEmpty,
    Queue,
}

/// A subcommand of the command line.
#[derive(Debug, PartialEq, Eq)]
pub enum SubCommand {
    /// Start the daemon on a music folder.
    Daemon { root_folder_path: String },
    Status { sub_command: Option<StatusSubCommand> },
    Reload,
    Search { search_term: Option<String> },
    /// Play an audio: a local path, or an id of the daemon's storage.
    Play { input: String },
    /// Queue an audio, right after the playing one when `next` is set.
    Push { input: String, next: bool },
    Next,
    Pause,
    Resume,
    Clear,
}

/// The arguments of the command line.
#[derive(Debug, PartialEq, Eq)]
pub struct CliArgs {
    pub port: u16,
    pub just_info: bool,
    pub sub_command: SubCommand,
}

/// The audio input that a `play` or `push` argument names: the absolute path of the local
/// file it names when there is one (`local_path`), else the argument trimmed of
/// whitespace, which must not be empty (`Err` carries the explanation then).
pub open spec fn spec_input(input: Seq<char>, local_path: Option<String>) -> Result<(Seq<char>, bool), ()> {
    match local_path {
        Some(p) => Ok((p@, true)),
        None => if spec_trim(input).len() == 0 {
            Err(())
        } else {
            Ok((spec_trim(input), false))
        },
    }
}

/// Whether `a` is the audio input that `(id, is_path)` describes.
pub open spec fn input_is(a: AudioInput, v: (Seq<char>, bool)) -> bool {
    a.id@ == v.0 && a.is_path == v.1
}

/// The request that `sub_command` sends to the daemon. For `play` and `push`,
/// `local_path` is the absolute path of the file that the argument names when such a
/// file exists (the caller looks it up), and `None` otherwise; other subcommands ignore
/// it. `daemon` sends no request: it gives an `IOError`.
pub fn generate_request(sub_command: &SubCommand, local_path: Option<String>) -> (r: Result<Request, Error>)
    ensures
        match *sub_command {
            SubCommand::Daemon { .. } => r matches Err(Error::IOError(m))
                && m@ == "Failed to correctly parse CLI arguments"@,
            SubCommand::Status { .. } => r == Ok::<Request, Error>(Request::Status),
            SubCommand::Reload => r == Ok::<Request, Error>(Request::Reload),
            SubCommand::Search { search_term } => r matches Ok(Request::Search { search_term: t })
                && match (t, search_term) {
                    (Some(a), Some(b)) => a@ == b@,
                    (None, None) => true,
                    _ => false,
                },
            SubCommand::Play { input } => match spec_input(input@, local_path) {
                Ok(v) => r matches Ok(Request::Player { sub_command: PlayerSubCommand::Play { input: a } })
                    && input_is(a, v),
                Err(_) => r matches Err(Error::InvalidInputError(m))
                    && m@ == "You must provide a input with the play command"@,
            },
            SubCommand::Push { input, next } => match spec_input(input@, local_path) {
                Ok(v) => r matches Ok(Request::Player { sub_command: PlayerSubCommand::Push { input: a, next: n } })
                    && input_is(a, v) && n == next,
                Err(_) => r matches Err(Error::InvalidInputError(m))
                    && m@ == "You must provide a input with the push command"@,
            },
            SubCommand::Next => r == Ok::<Request, Error>(Request::Player { sub_command: PlayerSubCommand::Next }),
            SubCommand::Pause => r == Ok::<Request, Error>(Request::Player { sub_command: PlayerSubCommand::Pause }),
            SubCommand::Resume => r == Ok::<Request, Error>(Request::Player { sub_command: PlayerSubCommand::Resume }),
            SubCommand::Clear => r == Ok::<Request, Error>(Request::Player { sub_command: PlayerSubCommand::Clear }),
        },
{
    match sub_command {
        SubCommand::Daemon { .. } => {},
        SubCommand::Status { .. } => {
            return Ok(Request::Status);
        },
        SubCommand::Reload => {
            return Ok(Request::Reload);
        },
        SubCommand::Search { search_term } => {
            let term = match search_term {
                Some(t) => Some(t.clone()),
                None => None,
            };
            return Ok(Request::Search { search_term: term });
        },
        SubCommand::Play { input } => {
            if let Some(path) = local_path {
                return Ok(Request::Player {
                    sub_command: PlayerSubCommand::Play { input: AudioInput { id: path, is_path: true } },
                });
            }
            let input = trim(input.as_str());
            if is_empty(&input) {
                return Err(Error::InvalidInputError(
                    String::from_str("You must provide a input with the play command"),
                ));
            }
            return Ok(Request::Player {
                sub_command: PlayerSubCommand::Play { input: AudioInput { id: input, is_path: false } },
            });
        },
        SubCommand::Push { input, next } => {
            if let Some(path) = local_path {
                return Ok(Request::Player {
                    sub_command: PlayerSubCommand::Push {
                        input: AudioInput { id: path, is_path: true },
                        next: *next,
                    },
                });
            }
            let input = trim(input.as_str());
            if is_empty(&input) {
                return Err(Error::InvalidInputError(
                    String::from_str("You must provide a input with the push command"),
                ));
            }
            return Ok(Request::Player {
                sub_command: PlayerSubCommand::Push { input: AudioInput { id: input, is_path: false }, next: *next },
            });
        },
        SubCommand::Next => {
            return Ok(Request::Player { sub_command: PlayerSubCommand::Next });
        },
        SubCommand::Pause => {
            return Ok(Request::Player { sub_command: PlayerSubCommand::Pause });
        },
        SubCommand::Resume => {
            return Ok(Request::Player { sub_command: PlayerSubCommand::Resume });
        },
        SubCommand::Clear => {
            return Ok(Request::Player { sub_command: PlayerSubCommand::Clear });
        },
    }
    Err(Error::IOError(String::from_str("Failed to correctly parse CLI arguments")))
}

/// Whether `s` has no character.
fn is_empty(s: &String) -> (r: bool)
    ensures
        r == (s@.len() == 0),
{
    s.as_str().is_empty()
}

} // verus!
