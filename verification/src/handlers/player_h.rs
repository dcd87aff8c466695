//! Player commands.
use super::{EngineCommand, Step};
use crate::error::Error;
use crate::player::storage::{id_set, strings_unique};
use crate::player::{spec_without, Audio, Player};
use crate::protocol::{PlayerSubCommand, Response};
use vstd::prelude::*;
use vstd::string::StringExecFns;

verus! {

/// Whether `step` and the player `post` are how a player in state `pre` handles `sub`:
/// `Play` hands back the audio stored under the input's id to be played (an `ERROR` if
/// there is none, a path included); `Push` queues the audio stored under the input's id,
/// at the front with `next`, else at the back (an `ERROR` if there is none); `Next` takes
/// the front of the queue and hands its audio back to be played (an `ERROR` if the queue
/// is empty or its front is not stored); `Pause` and `Resume` are orders for the device;
/// `Clear` empties the queue and orders the device to drop its own.
pub open spec fn spec_player_step(pre: Player, sub: PlayerSubCommand, post: Player, step: Step) -> bool {
    match sub {
        PlayerSubCommand::Play { input } => post == pre && if pre.stored().audio_map().dom().contains(input.id@) {
            step matches Step::Play(a) && a == pre.stored().audio_map()[input.id@]
        } else {
            step matches Step::Reply(Response::ERROR { message })
                && message@ == "Failed to get audio with the corresponding ID from the storage"@
        },
        PlayerSubCommand::Push { input, next } => {
            &&& post.stored() == pre.stored()
            &&& post.current_audio() == pre.current_audio()
            &&& post.root_folder() == pre.root_folder()
            &&& if pre.stored().audio_map().dom().contains(input.id@) {
                &&& step matches Step::Reply(Response::Pushed { title })
                    && title@ == pre.stored().audio_map()[input.id@].title()@
                &&& if next {
                    post.queued() == seq![post.queued()[0]] + pre.queued() && post.queued()[0]@ == input.id@
                } else {
                    post.queued() == pre.queued().push(post.queued().last()) && post.queued().last()@ == input.id@
                }
            } else {
                &&& post.queued() == pre.queued()
                &&& step matches Step::Reply(Response::ERROR { message })
                    && message@ == "Failed to get audio with the corresponding ID from the storage"@
            }
        },
        PlayerSubCommand::Next => {
            &&& post.stored() == pre.stored()
            &&& post.current_audio() == pre.current_audio()
            &&& post.root_folder() == pre.root_folder()
            &&& if pre.queued().len() == 0 {
                post.queued() == pre.queued() && (step matches Step::Reply(Response::ERROR { message })
                    && message@ == "Failed to advance the playing queue"@)
            } else {
                &&& post.queued() == pre.queued().drop_first()
                &&& if pre.stored().audio_map().dom().contains(pre.queued()[0]@) {
                    step matches Step::Skip(a) && a == pre.stored().audio_map()[pre.queued()[0]@]
                } else {
                    step matches Step::Reply(Response::ERROR { message })
                        && message@ == "Failed to advance the playing queue"@
                }
            }
        },
        PlayerSubCommand::Pause => post == pre && step matches Step::Engine(EngineCommand::Pause, Response::Paused),
        PlayerSubCommand::Resume => post == pre && step matches Step::Engine(EngineCommand::Resume, Response::Resumed),
        PlayerSubCommand::Clear => {
            &&& post.queued().len() == 0
            &&& post.stored() == pre.stored()
            &&& post.current_audio() == pre.current_audio()
            &&& post.root_folder() == pre.root_folder()
            &&& step matches Step::Engine(EngineCommand::ClearSink, Response::Cleared)
        },
    }
}

/// The step for the player command `sub_command`.
pub fn handle(player: &mut Player, sub_command: PlayerSubCommand) -> (r: Step)
    requires
        old(player).wf(),
    ensures
        final(player).wf(),
        spec_player_step(*old(player), sub_command, *final(player), r),
{
    match sub_command {
        PlayerSubCommand::Play { input } => match player.storage().get_audio(&input.id) {
            Ok(audio) => Step::Play(audio.duplicate()),
            Err(_) => Step::Reply(Response::ERROR {
                message: String::from_str("Failed to get audio with the corresponding ID from the storage"),
            }),
        },
        PlayerSubCommand::Push { input, next } => {
            let title = match player.storage().get_audio(&input.id) {
                Ok(audio) => String::from_str(audio.get_title()),
                Err(_) => {
                    return Step::Reply(Response::ERROR {
                        message: String::from_str("Failed to get audio with the corresponding ID from the storage"),
                    });
                },
            };
            let _ = player.push(&input.id, next);
            proof {
                if next {
                    assert(player.queued() =~= seq![player.queued()[0]] + old(player).queued());
                } else {
                    assert(player.queued() =~= old(player).queued().push(player.queued().last()));
                }
            }
            Step::Reply(Response::Pushed { title })
        },
        PlayerSubCommand::Next => match player.next() {
            Ok(audio) => Step::Skip(audio),
            Err(_) => Step::Reply(Response::ERROR {
                message: String::from_str("Failed to advance the playing queue"),
            }),
        },
        PlayerSubCommand::Pause => Step::Engine(EngineCommand::Pause, Response::Paused),
        PlayerSubCommand::Resume => Step::Engine(EngineCommand::Resume, Response::Resumed),
        PlayerSubCommand::Clear => {
            player.clear_queue();
            Step::Engine(EngineCommand::ClearSink, Response::Cleared)
        },
    }
}

/// Answers a `Next` once the device was asked to play `audio`, taken from the front of
/// the queue; `played` is the outcome. On success the audio is recorded as playing and
/// the answer names its id.
pub fn finish_next(player: &mut Player, audio: &Audio, played: Result<(), Error>) -> (r: Response)
    requires
        old(player).wf(),
    ensures
        final(player).wf(),
        final(player).stored() == old(player).stored(),
        final(player).queued() == old(player).queued(),
        final(player).root_folder() == old(player).root_folder(),
        match played {
            Ok(_) => final(player).current_audio() == Some(audio.id()) && (r matches Response::Next { playing_audio }
                && playing_audio@ == audio.id()@),
            Err(_) => *final(player) == *old(player) && (r matches Response::ERROR { message }
                && message@ == "Failed to advance the playing queue"@),
        },
{
    match played {
        Ok(_) => {
            player.play(audio);
            Response::Next { playing_audio: audio.get_id().clone() }
        },
        Err(_) => Response::ERROR { message: String::from_str("Failed to advance the playing queue") },
    }
}

/// Answers a `Play` once the device was asked to play `audio`; `played` is the outcome.
/// On success the audio is recorded as playing and, when the queue is empty, the queue
/// is filled with every other stored audio.
pub fn finish_play(player: &mut Player, audio: &Audio, played: Result<(), Error>) -> (r: Response)
    requires
        old(player).wf(),
    ensures
        final(player).wf(),
        final(player).stored() == old(player).stored(),
        final(player).root_folder() == old(player).root_folder(),
        match played {
            Ok(_) => {
                &&& final(player).current_audio() == Some(audio.id())
                &&& r matches Response::PlaybackStarted { title } && title@ == audio.title()@
                &&& if old(player).queued().len() == 0 {
                    strings_unique(final(player).queued()) && id_set(final(player).queued())
                        == spec_without(old(player).stored().audio_map().dom(), Some(audio.id()))
                } else {
                    final(player).queued() == old(player).queued()
                }
            },
            Err(_) => *final(player) == *old(player) && (r matches Response::ERROR { message }
                && message@ == "Failed to play the audio"@),
        },
{
    match played {
        Ok(_) => {
            player.play(audio);
            if player.is_queue_empty() {
                match player.populate_queue() {
                    Ok(_) => {},
                    Err(_) => {
                        return Response::ERROR { message: String::from_str("Failed to populate the queue") };
                    },
                }
            }
            Response::PlaybackStarted { title: String::from_str(audio.get_title()) }
        },
        Err(_) => Response::ERROR { message: String::from_str("Failed to play the audio") },
    }
}

} // verus!
