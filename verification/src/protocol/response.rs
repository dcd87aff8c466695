//! What the daemon answers.
use crate::player::AudioID;
use std::collections::VecDeque;
use vstd::prelude::*;

verus! {

/// An audio as the status shows it: its id and its title.
#[derive(Debug, PartialEq, Eq)]
pub struct DisplayAudio {
    pub id: AudioID,
    pub title: String,
}

/// The id and the title of `a`.
pub open spec fn display_view(a: DisplayAudio) -> (Seq<char>, Seq<char>) {
    (a.id@, a.title@)
}

/// The ids and titles of `q`, front first.
pub open spec fn display_views(q: Seq<DisplayAudio>) -> Seq<(Seq<char>, Seq<char>)> {
    q.map_values(|a: DisplayAudio| display_view(a))
}

/// The state of the player: the audio being played, whether playback is paused, whether
/// the queue is empty, and the queued audios, front first.
#[derive(Debug, PartialEq, Eq)]
pub struct StatusData {
    pub current_audio: Option<DisplayAudio>,
    pub is_paused: bool,
    pub is_queue_empty: bool,
    pub queue: VecDeque<DisplayAudio>,
}

/// An answer of the daemon.
#[derive(Debug, PartialEq, Eq)]
pub enum Response {
    PlaybackStarted { title: String },
    Next { playing_audio: String },
    /// An audio was queued.
    Pushed { title: String },
    Paused,
    Resumed,
    Cleared,
    Reloaded,
    /// The ids of the audios a search found; the caller ranks them.
    SearchResults(Vec<AudioID>),
    StatusData(StatusData),
    ERROR { message: String },
}

} // verus!
