//! Reloading the storage from the music folder.
use crate::error::Error;
use crate::player::{Player, Storage};
use crate::protocol::Response;
use vstd::prelude::*;
use vstd::string::StringExecFns;

verus! {

/// Answers a reload once the storage has been generated again from the music folder:
/// `generated` is that storage, or the error its generation failed with.
pub fn handle(player: &mut Player, generated: Result<Storage, Error>) -> (r: Response)
    requires
        old(player).wf(),
        generated matches Ok(s) ==> s.wf(),
    ensures
        final(player).wf(),
        final(player).queued() == old(player).queued(),
        final(player).current_audio() == old(player).current_audio(),
        match generated {
            Ok(s) => r == Response::Reloaded && final(player).stored() == s,
            Err(_) => final(player).stored() == old(player).stored() && (r matches Response::ERROR { message }
                && message@ == "Failed to reload the player audio storage"@),
        },
{
    match player.reload_storage(generated) {
        Ok(_) => Response::Reloaded,
        Err(_) => Response::ERROR {
            message: String::from_str("Failed to reload the player audio storage"),
        },
    }
}

} // verus!
