//! Listing the indexed audios.
use crate::daemon::player::Player;
use crate::response::Response;
use vstd::prelude::*;
use vstd::string::StringExecFns;

verus! {

/// Whether `r` answers a search of `player`'s index for `search_term`: without a term,
/// `OK`, `SEARCH` and then every label of the index in index order; with one, `ERROR`
/// and `SEARCH`.
pub open spec fn spec_search_lines(player: Player, search_term: Option<String>, r: Response) -> bool {
    match search_term {
        Some(_) => r.data@.len() == 2 && r.data@[0]@ == "ERROR"@ && r.data@[1]@ == "SEARCH"@,
        None => {
            &&& r.data@.len() == 2 + player.audio_index@.len()
            &&& r.data@[0]@ == "OK"@
            &&& r.data@[1]@ == "SEARCH"@
            &&& forall|j: int| 0 <= j < player.audio_index@.len() ==> (#[trigger] r.data@[j + 2])@
                == player.audio_index@[j].label@
        },
    }
}

/// The answer to a search: without a term, `OK`, `SEARCH` and then every label of the
/// index, once each; with one, `ERROR` and `SEARCH`, since searching by term is not
/// supported.
pub fn handle(player: &Player, search_term: Option<String>) -> (r: Response)
    requires
        player.wf(),
    ensures
        spec_search_lines(*player, search_term, r),
{
    match search_term {
        Some(_) => {
            let mut data: Vec<String> = Vec::new();
            data.push(String::from_str("ERROR"));
            data.push(String::from_str("SEARCH"));
            Response { data }
        },
        None => {
            let mut response = Response::new();
            response.data.push(String::from_str("OK"));
            response.data.push(String::from_str("SEARCH"));
            let mut i: usize = 0;
            while i < player.audio_index.len()
                invariant
                    i <= player.audio_index.len(),
                    response.data@.len() == 2 + i,
                    response.data@[0]@ == "OK"@,
                    response.data@[1]@ == "SEARCH"@,
                    forall|j: int| 0 <= j < i ==> (#[trigger] response.data@[j + 2])@ == player.audio_index@[j].label@,
                decreases player.audio_index.len() - i,
            {
                response.data.push(player.audio_index[i].label.clone());
                i += 1;
            }
            response
        },
    }
}

} // verus!
