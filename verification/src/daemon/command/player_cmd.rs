//! Player commands of the line-based protocol.
use super::{Action, PlayerSubCommand};
use crate::daemon::player::Player;
use vstd::prelude::*;

verus! {

/// The action for `player_sub_command`: `Play` looks its label up in the index and asks
/// for that file to be played (or reports that the label is unknown); the other
/// commands are orders for the audio device.
pub fn handle(player: &Player, player_sub_command: PlayerSubCommand) -> (r: Action)
    requires
        player.wf(),
    ensures
        match player_sub_command {
            PlayerSubCommand::Play(label) => if player.index_view().dom().contains(label@) {
                r matches Action::PlayFile(p) && p@ == player.index_view()[label@]
            } else {
                r matches Action::PlayFailed(e) && e is NotFoundError
            },
            PlayerSubCommand::Pause => r is Pause,
            PlayerSubCommand::Resume => r is Resume,
            PlayerSubCommand::Clear => r is Clear,
        },
{
    match player_sub_command {
        PlayerSubCommand::Play(audio_label) => match player.play(audio_label.as_str()) {
            Ok(path) => Action::PlayFile(path.clone()),
            Err(e) => Action::PlayFailed(e),
        },
        PlayerSubCommand::Pause => Action::Pause,
        PlayerSubCommand::Resume => Action::Resume,
        PlayerSubCommand::Clear => Action::Clear,
    }
}

} // verus!
