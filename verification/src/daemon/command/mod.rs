//! The commands that a line-based request can carry, and what the daemon does with them.
pub mod player_cmd;
pub mod reload_cmd;
pub mod search_cmd;

use crate::daemon::player::Player;
use crate::error::Error;
use crate::response::Response;
use vstd::prelude::*;

verus! {

/// What the player is asked to do.
#[derive(Debug, PartialEq, Eq)]
pub enum PlayerSubCommand {
    Play(String),
    Pause,
    Resume,
    Clear,
}

/// A command of the line-based protocol.
#[derive(Debug, PartialEq, Eq)]
pub enum Command {
    Reload,
    Search(Option<String>),
    Player(PlayerSubCommand),
}

/// [`PlayerSubCommand`] with its label as a sequence of characters.
pub enum PlayerSubCommandView {
    Play(Seq<char>),
    Pause,
    Resume,
    Clear,
}

/// [`Command`] with its strings as sequences of characters.
pub enum CommandView {
    Reload,
    Search(Option<Seq<char>>),
    Player(PlayerSubCommandView),
}

impl View for PlayerSubCommand {
    type V = PlayerSubCommandView;

    open spec fn view(&self) -> PlayerSubCommandView {
        match self {
            PlayerSubCommand::Play(label) => PlayerSubCommandView::Play(label@),
            PlayerSubCommand::Pause => PlayerSubCommandView::Pause,
            PlayerSubCommand::Resume => PlayerSubCommandView::Resume,
            PlayerSubCommand::Clear => PlayerSubCommandView::Clear,
        }
    }
}

impl View for Command {
    type V = CommandView;

    open spec fn view(&self) -> CommandView {
        match self {
            Command::Reload => CommandView::Reload,
            Command::Search(None) => CommandView::Search(None),
            Command::Search(Some(term)) => CommandView::Search(Some(term@)),
            Command::Player(sub) => CommandView::Player(sub@),
        }
    }
}

/// What the daemon does for a command.
#[derive(Debug)]
pub enum Action {
    /// Index the music folder again, then call [`reload_cmd::handle`].
    Reload,
    /// Send this response.
    Respond(Response),
    /// Play the file at this path on the audio device.
    PlayFile(String),
    /// The file to play could not be found; nothing is played.
    PlayFailed(Error),
    Pause,
    Resume,
    /// Stop playback and drop the device's queue.
    Clear,
}

/// The action for `command`: a reload asks for the folder to be indexed again, a search
/// is answered at once, player commands go to [`player_cmd::handle`].
pub fn handle(command: Command, player: &Player) -> (r: Action)
    requires
        player.wf(),
    ensures
        match command {
            Command::Reload => r is Reload,
            Command::Search(term) => r matches Action::Respond(resp) && search_cmd::spec_search_lines(
                *player,
                term,
                resp,
            ),
            Command::Player(PlayerSubCommand::Play(label)) => if player.index_view().dom().contains(label@) {
                r matches Action::PlayFile(p) && p@ == player.index_view()[label@]
            } else {
                r matches Action::PlayFailed(e) && e is NotFoundError
            },
            Command::Player(PlayerSubCommand::Pause) => r is Pause,
            Command::Player(PlayerSubCommand::Resume) => r is Resume,
            Command::Player(PlayerSubCommand::Clear) => r is Clear,
        },
{
    match command {
        Command::Reload => Action::Reload,
        Command::Search(search_term) => Action::Respond(search_cmd::handle(player, search_term)),
        Command::Player(player_sub_command) => player_cmd::handle(player, player_sub_command),
    }
}

} // verus!
