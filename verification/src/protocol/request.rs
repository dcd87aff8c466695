//! What the client asks of the daemon.
use crate::player::AudioID;
use vstd::prelude::*;

verus! {

/// The audio a player command names: an id of the daemon's storage, or the absolute
/// path of a local file when `is_path` is set.
#[derive(Debug, PartialEq, Eq)]
pub struct AudioInput {
    pub id: AudioID,
    pub is_path: bool,
}

/// A command for the player.
#[derive(Debug, PartialEq, Eq)]
pub enum PlayerSubCommand {
    /// Play the audio stored under `input.id`.
    Play { input: AudioInput },
    /// Queue an audio, right after the playing one when `next` is set.
    Push { input: AudioInput, next: bool },
    /// Skip to the next audio of the queue.
    Next,
    Pause,
    Resume,
    /// Empty the queue and stop playback.
    Clear,
}

/// A request to the daemon.
#[derive(Debug, PartialEq, Eq)]
pub enum Request {
    Status,
    Reload,
    Search { search_term: Option<String> },
    Player { sub_command: PlayerSubCommand },
}

} // verus!
