//! Indexing the music folder again.
use crate::daemon::player::{spec_index_files, FileEntry, Player};
use crate::error::Error;
use vstd::prelude::*;

verus! {

/// Indexes again the files of the music folder, `entries`, as
/// [`Player::index_audio_files`] does.
pub fn handle(player: &mut Player, entries: &Vec<FileEntry>) -> (r: Result<(), Error>)
    requires
        old(player).wf(),
    ensures
        final(player).wf(),
        final(player).index_view() == spec_index_files(old(player).index_view(), entries@).0,
        match spec_index_files(old(player).index_view(), entries@).1 {
            None => r is Ok,
            Some(m) => r matches Err(Error::FSError(e)) && e@ == m,
        },
{
    player.index_audio_files(entries)
}

} // verus!
