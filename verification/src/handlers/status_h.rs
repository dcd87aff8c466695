//! The status of the player.
use crate::player::storage::Storage;
use crate::player::{AudioID, Player};
use crate::protocol::response::display_views;
use crate::protocol::{DisplayAudio, Response, StatusData};
use std::collections::VecDeque;
use vstd::prelude::*;
use vstd::string::StringExecFns;

verus! {

/// The title shown for the id `id`: the title of the audio stored under it, else the id itself.
pub open spec fn spec_title_of(storage: Storage, id: Seq<char>) -> Seq<char> {
    if storage.audio_map().dom().contains(id) {
        storage.audio_map()[id].title()@
    } else {
        id
    }
}

/// Whether `resp` is the status of `player` when the device's pause state is `is_paused`:
/// the id and title of the audio being played (an `ERROR` if it is not stored), the pause
/// state, whether the queue is empty, and each queued id with its title.
pub open spec fn spec_status_reply(player: Player, is_paused: bool, resp: Response) -> bool {
    match player.current_audio() {
        Some(c) if !player.stored().audio_map().dom().contains(c@) => resp matches Response::ERROR { message }
            && message@ == "Failed to get audio from the storage"@,
        _ => resp matches Response::StatusData(d) && {
            &&& d.is_paused == is_paused
            &&& d.is_queue_empty == (player.queued().len() == 0)
            &&& display_views(d.queue@) == player.queued().map_values(
                |id: AudioID| (id@, spec_title_of(player.stored(), id@)),
            )
            &&& match player.current_audio() {
                None => d.current_audio is None,
                Some(c) => d.current_audio matches Some(a) && a.id@ == c@
                    && a.title@ == player.stored().audio_map()[c@].title()@,
            }
        },
    }
}

/// The status reports the player as it is: the pause state of the device, whether the
/// queue is empty, the audio being played by id and title, and the queue in its own
/// order, front first, its `k`-th entry carrying the `k`-th queued id with the title of
/// the audio stored under it (the id itself when none is). A playing audio that is no
/// longer stored is an error.
pub proof fn law_status_reports_player(player: Player, is_paused: bool, resp: Response)
    requires
        player.wf(),
        spec_status_reply(player, is_paused, resp),
    ensures
        (player.current_audio() matches Some(c) && !player.stored().audio_map().dom().contains(c@)) ==> (
        resp matches Response::ERROR { message } && message@ == "Failed to get audio from the storage"@),
        !(player.current_audio() matches Some(c) && !player.stored().audio_map().dom().contains(c@)) ==> (
        resp matches Response::StatusData(d) && {
            &&& d.is_paused == is_paused
            &&& d.is_queue_empty == (player.queued().len() == 0)
            &&& d.queue@.len() == player.queued().len()
            &&& forall|k: int|
                0 <= k < player.queued().len() ==> {
                    &&& (#[trigger] d.queue@[k]).id@ == player.queued()[k]@
                    &&& d.queue@[k].title@ == if player.stored().audio_map().dom().contains(player.queued()[k]@) {
                        player.stored().audio_map()[player.queued()[k]@].title()@
                    } else {
                        player.queued()[k]@
                    }
                }
            &&& match player.current_audio() {
                None => d.current_audio is None,
                Some(c) => d.current_audio matches Some(a) && a.id@ == c@ && a.title@
                    == player.stored().audio_map()[c@].title()@,
            }
        }),
{
    if let Response::StatusData(d) = resp {
        if !(player.current_audio() matches Some(c) && !player.stored().audio_map().dom().contains(c@)) {
            let shown = player.queued().map_values(|id: AudioID| (id@, spec_title_of(player.stored(), id@)));
            assert(display_views(d.queue@).len() == d.queue@.len());
            assert forall|k: int| 0 <= k < player.queued().len() implies (#[trigger] d.queue@[k]).id@
                == player.queued()[k]@ by {
                assert(display_views(d.queue@)[k] == shown[k]);
            }
            assert forall|k: int| 0 <= k < player.queued().len() implies (#[trigger] d.queue@[k]).title@
                == spec_title_of(player.stored(), player.queued()[k]@) by {
                assert(display_views(d.queue@)[k] == shown[k]);
            }
        }
    }
}

/// `id` with the title shown for it.
fn display_of(storage: &Storage, id: &AudioID) -> (r: DisplayAudio)
    requires
        storage.wf(),
    ensures
        r.id@ == id@,
        r.title@ == spec_title_of(*storage, id@),
{
    let title = match storage.get_audio(id) {
        Ok(audio) => String::from_str(audio.get_title()),
        Err(_) => id.clone(),
    };
    DisplayAudio { id: id.clone(), title }
}

/// The status of `player`; `is_paused` is whether the audio device is paused.
pub fn handle(player: &Player, is_paused: bool) -> (r: Response)
    requires
        player.wf(),
    ensures
        spec_status_reply(*player, is_paused, r),
{
    let queue = player.get_queue();
    let storage = player.storage();
    let mut shown: VecDeque<DisplayAudio> = VecDeque::new();
    let mut i: usize = 0;
    while i < queue.len()
        invariant
            i <= queue.len(),
            storage.wf(),
            *storage == player.stored(),
            queue@ == player.queued(),
            display_views(shown@) == player.queued().take(i as int).map_values(
                |id: AudioID| (id@, spec_title_of(player.stored(), id@)),
            ),
        decreases queue.len() - i,
    {
        let d = display_of(storage, &queue[i]);
        let ghost prev = shown@;
        let ghost dv = (d.id@, d.title@);
        assert(dv == (player.queued()[i as int]@, spec_title_of(player.stored(), player.queued()[i as int]@)));
        shown.push_back(d);
        assert(display_views(shown@) =~= display_views(prev).push(dv));
        assert(player.queued().take(i + 1) =~= player.queued().take(i as int).push(queue@[i as int]));
        assert(display_views(shown@) =~= player.queued().take(i + 1).map_values(
            |id: AudioID| (id@, spec_title_of(player.stored(), id@)),
        ));
        i += 1;
    }
    assert(player.queued().take(queue.len() as int) =~= player.queued());
    let mut status_data = StatusData {
        current_audio: None,
        is_paused,
        is_queue_empty: player.is_queue_empty(),
        queue: shown,
    };
    match player.get_current_audio() {
        Some(current_audio_id) => match storage.get_audio(current_audio_id) {
            Ok(audio) => {
                status_data.current_audio = Some(DisplayAudio {
                    id: current_audio_id.clone(),
                    title: String::from_str(audio.get_title()),
                });
            },
            Err(_) => {
                return Response::ERROR { message: String::from_str("Failed to get audio from the storage") };
            },
        },
        None => {},
    }
    Response::StatusData(status_data)
}

} // verus!
