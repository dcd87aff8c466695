//! The player: the audio storage with its search index, the play queue and the
//! audio being played. Sound output is not part of it: the caller drives the audio
//! device and tells the player what it observed (whether the device's queue ran
//! empty) and what it did (which audio it started).
pub mod storage;

pub use storage::Audio;
pub use storage::AudioID;
pub use storage::Storage;

use crate::error::Error;
use vstd::string::StringExecFns;
use rand::seq::SliceRandom;
use std::collections::VecDeque;
use storage::{id_set, strings_unique};
use vstd::prelude::*;

verus! {

broadcast use vstd::seq_lib::group_to_multiset_ensures;

/// Shuffles `order` in place with `rand::seq::SliceRandom::shuffle` and the thread-local
/// generator `rand::rng()`. Trusted: the result is a permutation of the input (the crate
/// documents it as picked uniformly among all permutations); which one is left to chance.
#[verifier::external_body]
fn shuffle_positions(order: &mut Vec<usize>)
    ensures
        final(order)@.to_multiset() == old(order)@.to_multiset(),
{
    order.shuffle(&mut rand::rng());
}

/// The storage, the queue of ids to play next (front first), and the id of the audio
/// being played.
#[derive(Debug)]
pub struct Player {
    root_folder_path: String,
    storage: Storage,
    queue: VecDeque<String>,
    current_audio: Option<AudioID>,
}

/// What a tick of the player asks of the audio device.
#[derive(Debug)]
pub enum Tick {
    /// The device is idle and the queue is empty: nothing is playing any more.
    Stopped,
    /// The device is idle: play this audio, taken from the front of the queue, then
    /// record it with [`Player::play`].
    PlayNext(Audio),
    /// An audio is playing and the queue was empty: it has been filled again.
    Repopulated,
    /// An audio is playing and more are queued: nothing to do.
    Playing,
}

/// `ids` less `current`, when there is one.
pub open spec fn spec_without(ids: Set<Seq<char>>, current: Option<AudioID>) -> Set<Seq<char>> {
    match current {
        Some(c) => ids.remove(c@),
        None => ids,
    }
}

impl Player {
    /// The id of the audio being played, if any.
    pub closed spec fn current_audio(&self) -> Option<AudioID> {
        self.current_audio
    }

    /// The music folder the storage is generated from.
    pub closed spec fn root_folder(&self) -> Seq<char> {
        self.root_folder_path@
    }

    /// The storage.
    pub closed spec fn stored(&self) -> Storage {
        self.storage
    }

    /// The ids queued to play next, front first.
    pub closed spec fn queued(&self) -> Seq<String> {
        self.queue@
    }

    /// The storage is well formed.
    pub open spec fn wf(&self) -> bool {
        self.stored().wf()
    }

    /// The storage of the player's audios.
    pub fn storage(&self) -> (r: &Storage)
        ensures
            *r == self.stored(),
    {
        &self.storage
    }

    /// The ids queued to play next, front first.
    pub fn get_queue(&self) -> (r: &VecDeque<String>)
        ensures
            r@ == self.queued(),
    {
        &self.queue
    }

    /// A player for the music folder `root_folder_path`, whose audios are in `storage`:
    /// nothing is playing and the queue is empty.
    pub fn new(root_folder_path: String, storage: Storage) -> (r: Player)
        requires
            storage.wf(),
        ensures
            r.wf(),
            r.root_folder() == root_folder_path@,
            r.stored() == storage,
            r.queued().len() == 0,
            r.current_audio() is None,
    {
        Player { root_folder_path, storage, queue: VecDeque::new(), current_audio: None }
    }

    /// The music folder the storage is generated from.
    pub fn root_folder_path(&self) -> (r: &str)
        ensures
            r@ == self.root_folder(),
    {
        self.root_folder_path.as_str()
    }

    /// The id of the audio being played, if any.
    pub fn get_current_audio(&self) -> (r: &Option<AudioID>)
        ensures
            *r == self.current_audio(),
    {
        &self.current_audio
    }

    /// Whether no audio is queued.
    pub fn is_queue_empty(&self) -> (r: bool)
        ensures
            r == (self.queued().len() == 0),
    {
        self.queue.len() == 0
    }

    /// Records that `audio` is now being played; the caller has started it on the audio
    /// device. The storage and the queue are unchanged.
    pub fn play(&mut self, audio: &Audio)
        ensures
            final(self).current_audio() == Some(audio.id()),
            final(self).stored() == old(self).stored(),
            final(self).queued() == old(self).queued(),
            final(self).root_folder() == old(self).root_folder(),
    {
        self.current_audio = Some(audio.get_id().clone());
    }

    /// Takes the next audio out of the queue, to be played in place of the current one:
    /// the front id leaves the queue and the audio stored under it is returned; the caller
    /// plays it and records it with [`Player::play`]. An empty queue is a `PlayerError`
    /// that changes nothing; a front id that is not stored is a `NotFoundError`, the id
    /// having left the queue.
    pub fn next(&mut self) -> (r: Result<Audio, Error>)
        requires
            old(self).wf(),
        ensures
            final(self).wf(),
            final(self).stored() == old(self).stored(),
            final(self).current_audio() == old(self).current_audio(),
            final(self).root_folder() == old(self).root_folder(),
            old(self).queued().len() == 0 ==> {
                &&& final(self).queued() == old(self).queued()
                &&& r matches Err(Error::PlayerError(m)) && m@ == "The playing queue is empty"@
            },
            old(self).queued().len() > 0 ==> {
                let front = old(self).queued()[0]@;
                &&& final(self).queued() == old(self).queued().drop_first()
                &&& if old(self).stored().audio_map().dom().contains(front) {
                    r matches Ok(a) && a == old(self).stored().audio_map()[front]
                } else {
                    r matches Err(e) && e is NotFoundError
                }
            },
    {
        let next_audio_id = match self.queue.pop_front() {
            Some(id) => id,
            None => {
                return Err(Error::PlayerError(String::from_str("The playing queue is empty")));
            },
        };
        assert(self.queue@ =~= old(self).queue@.drop_first());
        match self.storage.get_audio(&next_audio_id) {
            Ok(audio) => Ok(audio.duplicate()),
            Err(e) => Err(e),
        }
    }

    /// Queues the audio stored under `id`: at the front of the queue, to play right after
    /// the current one, when `next` is set, else at the back. A `NotFoundError` when no
    /// audio is stored under `id`, the queue unchanged.
    pub fn push(&mut self, id: &AudioID, next: bool) -> (r: Result<(), Error>)
        requires
            old(self).wf(),
        ensures
            final(self).wf(),
            final(self).stored() == old(self).stored(),
            final(self).current_audio() == old(self).current_audio(),
            final(self).root_folder() == old(self).root_folder(),
            if old(self).stored().audio_map().dom().contains(id@) {
                &&& r is Ok
                &&& final(self).queued().len() == old(self).queued().len() + 1
                &&& if next {
                    final(self).queued()[0]@ == id@ && final(self).queued().drop_first() == old(self).queued()
                } else {
                    final(self).queued().last()@ == id@ && final(self).queued().drop_last() == old(self).queued()
                }
            } else {
                &&& r matches Err(e) && e is NotFoundError
                &&& final(self).queued() == old(self).queued()
            },
    {
        match self.storage.get_audio(id) {
            Ok(_) => {
                if next {
                    self.queue.push_front(id.clone());
                    assert(self.queue@.drop_first() =~= old(self).queue@);
                } else {
                    self.queue.push_back(id.clone());
                    assert(self.queue@.drop_last() =~= old(self).queue@);
                }
                Ok(())
            },
            Err(e) => Err(e),
        }
    }

    /// Empties the queue; the caller clears the audio device's own queue.
    pub fn clear_queue(&mut self)
        ensures
            final(self).queued().len() == 0,
            final(self).stored() == old(self).stored(),
            final(self).current_audio() == old(self).current_audio(),
            final(self).root_folder() == old(self).root_folder(),
    {
        self.queue.clear();
    }

    /// Replaces the storage by `generated`, the storage newly generated from the music
    /// folder, or fails with the error its generation failed with, leaving the player as it was.
    pub fn reload_storage(&mut self, generated: Result<Storage, Error>) -> (r: Result<(), Error>)
        requires
            generated matches Ok(s) ==> s.wf(),
        ensures
            match generated {
                Ok(s) => r is Ok && final(self).stored() == s,
                Err(e) => r == Err::<(), Error>(e) && final(self).stored() == old(self).stored(),
            },
            final(self).queued() == old(self).queued(),
            final(self).current_audio() == old(self).current_audio(),
            final(self).root_folder() == old(self).root_folder(),
    {
        match generated {
            Ok(s) => {
                self.storage = s;
                Ok(())
            },
            Err(e) => Err(e),
        }
    }

    /// Fills the queue, in random order, with every stored audio except the one being
    /// played, each once.
    pub fn populate_queue(&mut self) -> (r: Result<(), Error>)
        requires
            old(self).wf(),
        ensures
            r is Ok,
            final(self).wf(),
            strings_unique(final(self).queued()),
            id_set(final(self).queued()) == spec_without(
                old(self).stored().audio_map().dom(),
                old(self).current_audio(),
            ),
            final(self).stored() == old(self).stored(),
            final(self).current_audio() == old(self).current_audio(),
            final(self).root_folder() == old(self).root_folder(),
    {
        let audios = self.storage.audios();
        let ghost dom = self.storage.audio_map().dom();
        let ghost want = spec_without(dom, self.current_audio);
        let mut ids: Vec<AudioID> = Vec::new();
        let mut i: usize = 0;
        while i < audios.len()
            invariant
                i <= audios.len(),
                storage::ids_unique(audios@),
                storage::audio_map_of(audios@).dom() == dom,
                want == spec_without(dom, self.current_audio),
                strings_unique(ids@),
                forall|k: Seq<char>| #[trigger] id_set(ids@).contains(k) <==> (exists|j: int|
                    0 <= j < i && audios@[j].id()@ == k && want.contains(k)),
            decreases audios.len() - i,
        {
            let id = audios[i].get_id();
            let skip = match &self.current_audio {
                Some(current) => *id == *current,
                None => false,
            };
            let ghost before = ids@;
            if !skip {
                ids.push(id.clone());
            }
            proof {
                assert(dom.contains(audios@[i as int].id()@));
                assert forall|k: Seq<char>| #[trigger] id_set(ids@).contains(k) <==> (exists|j: int|
                    0 <= j < i + 1 && audios@[j].id()@ == k && want.contains(k)) by {
                    if id_set(ids@).contains(k) {
                        let m = choose|m: int| 0 <= m < ids@.len() && ids@[m]@ == k;
                        if m < before.len() {
                            assert(id_set(before).contains(k));
                        }
                    }
                    if exists|j: int| 0 <= j < i + 1 && audios@[j].id()@ == k && want.contains(k) {
                        let j = choose|j: int| 0 <= j < i + 1 && audios@[j].id()@ == k && want.contains(k);
                        if j < i {
                            assert(id_set(before).contains(k));
                            let m = choose|m: int| 0 <= m < before.len() && before[m]@ == k;
                            assert(ids@[m]@ == k);
                        } else {
                            assert(ids@[before.len() as int]@ == k);
                        }
                    }
                }
                assert(strings_unique(ids@)) by {
                    if !skip {
                        assert forall|a: int, b: int| 0 <= a < b < ids@.len() implies ids@[a]@ != ids@[b]@ by {
                            if b == before.len() {
                                if ids@[a]@ == ids@[b]@ {
                                    assert(id_set(before).contains(ids@[a]@));
                                    let j = choose|j: int| 0 <= j < i && audios@[j].id()@ == ids@[a]@ && want.contains(ids@[a]@);
                                    assert(audios@[j].id()@ != audios@[i as int].id()@);
                                }
                            }
                        }
                    }
                }
            }
            i += 1;
        }
        assert(id_set(ids@) =~= want) by {
            assert forall|k: Seq<char>| want.contains(k) implies id_set(ids@).contains(k) by {
                let j = choose|j: int| 0 <= j < audios@.len() && audios@[j].id()@ == k;
            }
        }
        let n = ids.len();
        let mut order: Vec<usize> = Vec::new();
        let mut p: usize = 0;
        while p < n
            invariant
                p <= n,
                order@ == Seq::new(p as nat, |q: int| q as usize),
            decreases n - p,
        {
            order.push(p);
            assert(order@ =~= Seq::new((p + 1) as nat, |q: int| q as usize));
            p += 1;
        }
        let ghost sorted = order@;
        proof {
            assert(sorted.no_duplicates());
        }
        shuffle_positions(&mut order);
        proof {
            assert(order@.len() == order@.to_multiset().len());
            assert(sorted.len() == sorted.to_multiset().len());
            sorted.lemma_multiset_has_no_duplicates();
            assert forall|x: usize| order@.to_multiset().contains(x) implies order@.to_multiset().count(x) == 1 by {
                assert(sorted.to_multiset().contains(x));
            }
            order@.lemma_multiset_has_no_duplicates_conv();
            assert forall|x: usize| #[trigger] order@.contains(x) <==> x < n by {
                assert(order@.contains(x) <==> order@.to_multiset().count(x) > 0);
                assert(sorted.contains(x) <==> sorted.to_multiset().count(x) > 0);
                if x < n {
                    assert(sorted[x as int] == x);
                }
            }
        }
        let mut queue: VecDeque<String> = VecDeque::new();
        let mut m: usize = 0;
        while m < order.len()
            invariant
                m <= order.len(),
                order.len() == n,
                n == ids.len(),
                order@.no_duplicates(),
                forall|x: usize| #[trigger] order@.contains(x) <==> x < n,
                queue@.len() == m,
                forall|q: int| 0 <= q < m ==> (#[trigger] queue@[q])@ == ids@[order@[q] as int]@,
            decreases order.len() - m,
        {
            assert(order@.contains(order@[m as int]));
            queue.push_back(ids[order[m]].clone());
            m += 1;
        }
        proof {
            assert(strings_unique(queue@)) by {
                assert forall|a: int, b: int| 0 <= a < b < queue@.len() implies queue@[a]@ != queue@[b]@ by {
                    assert(order@.contains(order@[a]));
                    assert(order@.contains(order@[b]));
                    assert(order@[a] != order@[b]);
                    if order@[a] < order@[b] {
                        assert(ids@[order@[a] as int]@ != ids@[order@[b] as int]@);
                    } else {
                        assert(ids@[order@[b] as int]@ != ids@[order@[a] as int]@);
                    }
                }
            }
            assert forall|k: Seq<char>| id_set(queue@).contains(k) <==> id_set(ids@).contains(k) by {
                if id_set(queue@).contains(k) {
                    let q = choose|q: int| 0 <= q < queue@.len() && queue@[q]@ == k;
                    assert(order@.contains(order@[q]));
                }
                if id_set(ids@).contains(k) {
                    let j = choose|j: int| 0 <= j < ids@.len() && ids@[j]@ == k;
                    assert(order@.contains(j as usize));
                    let q = choose|q: int| 0 <= q < order@.len() && order@[q] == j as usize;
                    assert(queue@[q]@ == k);
                }
            }
            assert(id_set(queue@) =~= id_set(ids@));
        }
        self.queue = queue;
        Ok(())
    }

    /// One step of the playback loop, given whether the audio device has run out of
    /// audio. Device idle and queue empty: nothing plays any more. Device idle and
    /// queue not empty: the front id leaves the queue and its audio is handed back to
    /// be played (`NotFoundError` if it is not stored). Device playing and queue empty:
    /// the queue is filled again. Otherwise nothing changes.
    pub fn tick(&mut self, sink_empty: bool) -> (r: Result<Tick, Error>)
        requires
            old(self).wf(),
        ensures
            final(self).wf(),
            final(self).stored() == old(self).stored(),
            final(self).root_folder() == old(self).root_folder(),
            sink_empty && old(self).queued().len() == 0 ==> {
                &&& r matches Ok(Tick::Stopped)
                &&& final(self).current_audio() is None
                &&& final(self).queued() == old(self).queued()
            },
            sink_empty && old(self).queued().len() > 0 ==> {
                let front = old(self).queued()[0]@;
                &&& final(self).queued() == old(self).queued().drop_first()
                &&& final(self).current_audio() == old(self).current_audio()
                &&& if old(self).stored().audio_map().dom().contains(front) {
                    r matches Ok(Tick::PlayNext(a)) && a == old(self).stored().audio_map()[front]
                } else {
                    r matches Err(e) && e is NotFoundError
                }
            },
            !sink_empty && old(self).queued().len() == 0 ==> {
                &&& r matches Ok(Tick::Repopulated)
                &&& strings_unique(final(self).queued())
                &&& id_set(final(self).queued()) == spec_without(
                    old(self).stored().audio_map().dom(),
                    old(self).current_audio(),
                )
                &&& final(self).current_audio() == old(self).current_audio()
            },
            !sink_empty && old(self).queued().len() > 0 ==> {
                &&& r matches Ok(Tick::Playing)
                &&& *final(self) == *old(self)
            },
    {
        let queue_empty = self.queue.len() == 0;
        if sink_empty && queue_empty {
            self.current_audio = None;
            Ok(Tick::Stopped)
        } else if sink_empty {
            let next_audio_id = match self.queue.pop_front() {
                Some(id) => id,
                None => {
                    return Err(Error::PlayerError(
                        String::from_str("Failed to get the next song from the playing queue"),
                    ));
                },
            };
            assert(self.queue@ =~= old(self).queue@.drop_first());
            match self.storage.get_audio(&next_audio_id) {
                Ok(audio) => Ok(Tick::PlayNext(audio.duplicate())),
                Err(e) => Err(e),
            }
        } else if queue_empty {
            let _ = self.populate_queue();
            Ok(Tick::Repopulated)
        } else {
            Ok(Tick::Playing)
        }
    }
}

} // verus!
