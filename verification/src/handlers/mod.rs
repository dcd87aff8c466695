//! How the daemon answers each request. The answer is a decision on the player's
//! state; whatever the audio device has to do is handed back to the caller as a
//! [`Step`], and the caller reports the outcome where the answer depends on it.
pub mod player_h;
pub mod reload_h;
pub mod search_handler;
pub mod status_h;

use crate::player::{Audio, Player};
use crate::protocol::{PlayerSubCommand, Request, Response};
use vstd::prelude::*;

verus! {

/// An order for the audio device that cannot fail.
#[derive(Debug, PartialEq, Eq)]
pub enum EngineCommand {
    Pause,
    Resume,
    ClearSink,
}

/// What the daemon does with a request.
#[derive(Debug)]
pub enum Step {
    /// Send this response.
    Reply(Response),
    /// Give the device this order, then send this response.
    Engine(EngineCommand, Response),
    /// Play this audio on the device, then answer with [`player_h::finish_play`] and the outcome.
    Play(Audio),
    /// Skip to this audio, taken from the front of the queue: play it on the device, then
    /// answer with [`player_h::finish_next`] and the outcome.
    Skip(Audio),
    /// Generate the storage again from the music folder, then answer with
    /// [`reload_h::handle`] and the outcome.
    Reload,
}

/// Once a stored audio has been played (the storage unchanged, the audio recorded as
/// playing, as [`player_h::finish_play`] leaves the player), the status names it as
/// the audio being played.
pub proof fn law_status_after_play(pre: Player, post: Player, id: Seq<char>, is_paused: bool, resp: Response)
    requires
        pre.wf(),
        pre.stored().audio_map().dom().contains(id),
        post.stored() == pre.stored(),
        post.current_audio() == Some(pre.stored().audio_map()[id].id()),
        status_h::spec_status_reply(post, is_paused, resp),
    ensures
        resp matches Response::StatusData(d) && (d.current_audio matches Some(a) && a.id@ == id
            && a.title@ == pre.stored().audio_map()[id].title()@),
{
    pre.stored().law_audio_under_its_id(id);
}

/// Whether `step` and the player `post` are how a player in state `pre` answers
/// `request` when the device's pause state is `is_paused`.
pub open spec fn spec_dispatch(request: Request, pre: Player, is_paused: bool, post: Player, step: Step) -> bool {
    match request {
        Request::Status => post == pre && (step matches Step::Reply(resp)
            && status_h::spec_status_reply(pre, is_paused, resp)),
        Request::Reload => post == pre && step is Reload,
        Request::Search { search_term } => post == pre && (step matches Step::Reply(resp)
            && search_handler::spec_search_reply(pre, search_term, resp)),
        Request::Player { sub_command } => player_h::spec_player_step(pre, sub_command, post, step),
    }
}

/// The dispatcher answers each request as the handler for its kind does: with the reply
/// of [`status_h::handle`] or [`search_handler::handle`] and the player unchanged, with a
/// reload left to [`reload_h::handle`], or as [`player_h::handle`] does; it has no effect
/// of its own.
pub proof fn law_dispatch_is_handler_answer(
    request: Request,
    pre: Player,
    is_paused: bool,
    post: Player,
    step: Step,
)
    requires
        spec_dispatch(request, pre, is_paused, post, step),
    ensures
        request is Status ==> post == pre && (step matches Step::Reply(resp)
            && status_h::spec_status_reply(pre, is_paused, resp)),
        request is Reload ==> post == pre && step is Reload,
        request matches Request::Search { search_term } ==> post == pre && (step matches Step::Reply(resp)
            && search_handler::spec_search_reply(pre, search_term, resp)),
        request matches Request::Player { sub_command } ==> player_h::spec_player_step(pre, sub_command, post, step),
{
}

/// `next` skips to the next queued audio: handling it takes the front of the queue and,
/// once the device plays that audio, [`player_h::finish_next`] records it as playing.
/// The audio then playing is the one that was at the front, and the rest of the queue
/// is left in order.
pub proof fn law_next_plays_front(pre: Player, mid: Player, step: Step, post: Player)
    requires
        pre.wf(),
        pre.queued().len() > 0,
        pre.stored().audio_map().dom().contains(pre.queued()[0]@),
        player_h::spec_player_step(pre, PlayerSubCommand::Next, mid, step),
        step matches Step::Skip(a) && post.current_audio() == Some(a.id()),
        post.queued() == mid.queued(),
        post.stored() == mid.stored(),
    ensures
        post.current_audio() matches Some(c) && c@ == pre.queued()[0]@,
        post.queued() == pre.queued().drop_first(),
        post.stored() == pre.stored(),
{
    pre.stored().law_audio_under_its_id(pre.queued()[0]@);
}

/// The step that answers `request`; `is_paused` is whether the audio device is paused.
/// Status and search requests are answered at once, a reload asks for the storage to be
/// generated again, and player commands go to [`player_h::handle`].
pub fn handle(request: Request, player: &mut Player, is_paused: bool) -> (r: Step)
    requires
        old(player).wf(),
    ensures
        final(player).wf(),
        spec_dispatch(request, *old(player), is_paused, *final(player), r),
{
    match request {
        Request::Status => Step::Reply(status_h::handle(player, is_paused)),
        Request::Reload => Step::Reload,
        Request::Search { search_term } => Step::Reply(search_handler::handle(player, search_term)),
        Request::Player { sub_command } => player_h::handle(player, sub_command),
    }
}

} // verus!
