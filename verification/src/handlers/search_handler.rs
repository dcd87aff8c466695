//! Searching the storage.
use crate::player::storage::{id_set, spec_byte_len, spec_levenshtein, spec_search_candidates, strings_unique};
use crate::player::{AudioID, Player};
use crate::protocol::Response;
use crate::utils::{spec_tokenize, string_views, tokenize_string};
use vstd::prelude::*;

verus! {

/// Whether `resp` answers a search of `player`'s storage for `search_term`: with a term,
/// the ids stored under an index token that matches one of the term's tokens; without
/// one, every stored id. Each id comes once.
pub open spec fn spec_search_reply(player: Player, search_term: Option<String>, resp: Response) -> bool {
    resp matches Response::SearchResults(ids) && strings_unique(ids@) && id_set(ids@) == match search_term {
        Some(term) => spec_search_candidates(player.stored().index_map(), spec_tokenize(term@)),
        None => player.stored().audio_map().dom(),
    }
}

/// A search with a term is a search for each of the term's tokens, as
/// [`crate::utils::tokenize_string`] splits it: it finds exactly the stored ids one of
/// whose own tokens `t` matches one of those tokens `q`, that is `t` starts with `q`,
/// or `q` has 3 to 4 UTF-8 bytes and equals `t`, 5 to 7 bytes and is within Levenshtein
/// distance 1 of `t`, or more than 7 bytes and is within distance 2 of `t`. Without a
/// term, it finds every stored id.
pub proof fn law_search_by_term_tokens(player: Player, search_term: Option<String>, resp: Response)
    requires
        player.wf(),
        spec_search_reply(player, search_term, resp),
    ensures
        resp matches Response::SearchResults(ids) && match search_term {
            Some(term) => forall|k: Seq<char>|
                id_set(ids@).contains(k) <==> exists|qi: int, t: Seq<char>|
                    #![trigger spec_tokenize(term@)[qi], spec_tokenize(k).contains(t)]
                    0 <= qi < spec_tokenize(term@).len() && player.stored().audio_map().dom().contains(k)
                        && spec_tokenize(k).contains(t) && ({
                        let q = spec_tokenize(term@)[qi];
                        (q.len() <= t.len() && t.take(q.len() as int) == q)
                            || (3 <= spec_byte_len(q) <= 4 && spec_levenshtein(q, t) < 1)
                            || (5 <= spec_byte_len(q) <= 7 && spec_levenshtein(q, t) < 2)
                            || (7 < spec_byte_len(q) && spec_levenshtein(q, t) < 3)
                    }),
            None => forall|k: Seq<char>| id_set(ids@).contains(k) <==> player.stored().audio_map().dom().contains(k),
        },
{
    if let Some(term) = search_term {
        if let Response::SearchResults(ids) = resp {
            player.stored().law_candidates_by_prefix_or_distance(spec_tokenize(term@), ids@);
        }
    }
}

/// Searches the storage for `search_term`, or lists every audio when there is none.
/// The ids found are returned unranked: ranking them is left to the caller.
pub fn handle(player: &Player, search_term: Option<String>) -> (r: Response)
    requires
        player.wf(),
    ensures
        spec_search_reply(*player, search_term, r),
{
    let storage = player.storage();
    match search_term {
        Some(search_term) => {
            let query_tokens = tokenize_string(search_term.as_str());
            let candidates = storage.get_search_candidates(query_tokens.as_slice());
            Response::SearchResults(candidates)
        },
        None => {
            let audios = storage.audios();
            let mut results: Vec<AudioID> = Vec::new();
            let mut i: usize = 0;
            while i < audios.len()
                invariant
                    i <= audios.len(),
                    crate::player::storage::ids_unique(audios@),
                    crate::player::storage::audio_map_of(audios@) == player.stored().audio_map(),
                    results@.len() == i,
                    forall|j: int| 0 <= j < i ==> (#[trigger] results@[j])@ == audios@[j].id()@,
                decreases audios.len() - i,
            {
                results.push(audios[i].get_id().clone());
                i += 1;
            }
            proof {
                assert(strings_unique(results@)) by {
                    assert forall|a: int, b: int| 0 <= a < b < results@.len() implies results@[a]@ != results@[b]@ by {
                        assert(audios@[a].id()@ != audios@[b].id()@);
                    }
                }
                let dom = player.stored().audio_map().dom();
                assert forall|k: Seq<char>| id_set(results@).contains(k) <==> dom.contains(k) by {
                    if id_set(results@).contains(k) {
                        let j = choose|j: int| 0 <= j < results@.len() && results@[j]@ == k;
                        assert(audios@[j].id()@ == k);
                    }
                    if dom.contains(k) {
                        let j = choose|j: int| 0 <= j < audios@.len() && audios@[j].id()@ == k;
                        assert(results@[j]@ == k);
                    }
                }
                assert(id_set(results@) =~= dom);
            }
            Response::SearchResults(results)
        },
    }
}

} // verus!
