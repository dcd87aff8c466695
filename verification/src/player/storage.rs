//! The audios the daemon knows of, and the token index it searches them by.
use crate::daemon::player::FileEntry;
use crate::error::Error;
use crate::utils::{
    is_ascii_alnum, push_char, spec_ends_with, spec_is_alnum, spec_sanitize, spec_tokenize, string_views,
    strip_suffix, tokenize_string,
};
use std::time::Duration;
use vstd::prelude::*;
use vstd::string::StringExecFns;

verus! {

/// An audio is known by its id, made from its file name.
pub type AudioID = String;

/// An audio file found in the music folder.
#[derive(Debug)]
pub struct Audio {
    id: AudioID,
    name_without_ext: String,
    extension: String,
    path: String,
    duration: Duration,
}

/// The ASCII lowercase form of `c`.
pub open spec fn spec_lower_char(c: char) -> char {
    if 'A' <= c && c <= 'Z' {
        ((c as u32) + 32) as char
    } else {
        c
    }
}

/// The id of an audio whose file name, without its extension, is `name`: every
/// character that is not an ASCII letter or digit becomes `_`, and letters are lowercased.
pub open spec fn spec_audio_id(name: Seq<char>) -> Seq<char> {
    spec_sanitize(name).map_values(|c: char| spec_lower_char(c))
}

/// A character an id can hold: a lowercase ASCII letter, a digit or `_`.
pub open spec fn spec_id_char(c: char) -> bool {
    ('a' <= c && c <= 'z') || ('0' <= c && c <= '9') || c == '_'
}

/// Every character of an id made from `name` is one an id can hold.
proof fn lemma_audio_id_chars(name: Seq<char>)
    ensures
        forall|i: int| 0 <= i < name.len() ==> spec_id_char(#[trigger] spec_audio_id(name)[i]),
{
    assert forall|i: int| 0 <= i < name.len() implies spec_id_char(#[trigger] spec_audio_id(name)[i]) by {
        let c = name[i];
        if 'A' <= c && c <= 'Z' {
            let n = (c as u32) + 32;
            assert(97 <= n <= 122);
            assert(('a' as u32) == 97 && ('z' as u32) == 122);
        }
    }
}

/// Making an id from a string of id characters gives the string back.
proof fn lemma_audio_id_fixed(k: Seq<char>)
    requires
        forall|i: int| 0 <= i < k.len() ==> spec_id_char(#[trigger] k[i]),
    ensures
        spec_audio_id(k) == k,
{
    assert(spec_audio_id(k) =~= k);
}

/// The id of an audio whose file name without extension is `name`.
pub fn audio_id_of(name: &str) -> (r: AudioID)
    ensures
        r@ == spec_audio_id(name@),
{
    let mut out = String::new();
    for c in it: name.chars()
        invariant
            out@ == spec_audio_id(it.history()),
    {
        let d = if is_ascii_alnum(c) {
            if 'A' <= c && c <= 'Z' {
                ((c as u8) + 32) as char
            } else {
                c
            }
        } else {
            '_'
        };
        proof {
            assert(spec_audio_id(it.history().push(c)) =~= spec_audio_id(it.history()).push(d));
        }
        push_char(&mut out, d);
    }
    out
}

impl Audio {
    /// The audio whose file name without extension is `name_without_ext`; its id is
    /// made from that name.
    pub fn new(name_without_ext: String, extension: String, path: String, duration: Duration) -> (r: Audio)
        ensures
            r.wf(),
            r.id()@ == spec_audio_id(name_without_ext@),
            r.title()@ == name_without_ext@,
            r.extension()@ == extension@,
            r.path()@ == path@,
            r.duration() == duration,
    {
        let id = audio_id_of(name_without_ext.as_str());
        Audio { id, name_without_ext, extension, path, duration }
    }

    /// The id is the one made from the title.
    pub closed spec fn wf(&self) -> bool {
        self.id@ == spec_audio_id(self.name_without_ext@)
    }

    pub closed spec fn id(&self) -> AudioID {
        self.id
    }

    pub closed spec fn title(&self) -> String {
        self.name_without_ext
    }

    pub closed spec fn extension(&self) -> String {
        self.extension
    }

    pub closed spec fn path(&self) -> String {
        self.path
    }

    pub closed spec fn duration(&self) -> Duration {
        self.duration
    }

    /// How long the audio plays.
    pub fn get_duration(&self) -> (r: Duration)
        ensures
            r == self.duration(),
    {
        self.duration
    }

    /// The id the audio is stored and searched by.
    pub fn get_id(&self) -> (r: &AudioID)
        ensures
            r == self.id(),
    {
        &self.id
    }

    /// The extension of the audio's file, without the dot.
    pub fn get_extension(&self) -> (r: &str)
        ensures
            r@ == self.extension()@,
    {
        self.extension.as_str()
    }

    /// The title shown for the audio: its file name without the extension.
    pub fn get_title(&self) -> (r: &str)
        ensures
            r@ == self.title()@,
    {
        self.name_without_ext.as_str()
    }

    /// The path of the audio's file.
    pub fn get_path(&self) -> (r: &str)
        ensures
            r@ == self.path()@,
    {
        self.path.as_str()
    }

    /// A second audio with the same fields.
    pub fn duplicate(&self) -> (r: Audio)
        ensures
            r == *self,
    {
        Audio {
            id: self.id.clone(),
            name_without_ext: self.name_without_ext.clone(),
            extension: self.extension.clone(),
            path: self.path.clone(),
            duration: self.duration,
        }
    }
}

/// The audio ids stored under one search token.
#[derive(Debug)]
pub struct IndexEntry {
    token: String,
    ids: Vec<AudioID>,
}

/// The audios, each under its id, and the search index: for each token, the ids
/// of the audios whose id has that token.
#[derive(Debug)]
pub struct Storage {
    audios: Vec<Audio>,
    index: Vec<IndexEntry>,
}

/// An audio the storage can hold: an `ogg` file whose id is made from its title.
pub open spec fn audio_valid(a: Audio) -> bool {
    a.wf() && a.extension()@ == "ogg"@
}

/// Every audio of `s` is one the storage can hold.
pub open spec fn audios_valid(s: Seq<Audio>) -> bool {
    forall|i: int| 0 <= i < s.len() ==> audio_valid(#[trigger] s[i])
}

/// No two audios of `s` have the same id.
pub open spec fn ids_unique(s: Seq<Audio>) -> bool {
    forall|i: int, j: int| 0 <= i < j < s.len() ==> s[i].id()@ != s[j].id()@
}

/// The audios of `s`, each under its id.
pub open spec fn audio_map_of(s: Seq<Audio>) -> Map<Seq<char>, Audio> {
    Map::new(
        |k: Seq<char>| exists|i: int| 0 <= i < s.len() && s[i].id()@ == k,
        |k: Seq<char>| s[choose|i: int| 0 <= i < s.len() && s[i].id()@ == k],
    )
}

/// For each token that some id of `ids` has, the ids that have it.
pub open spec fn spec_token_index(ids: Set<Seq<char>>) -> Map<Seq<char>, Set<Seq<char>>> {
    Map::new(
        |t: Seq<char>| exists|k: Seq<char>| ids.contains(k) && spec_tokenize(k).contains(t),
        |t: Seq<char>| ids.filter(|k: Seq<char>| spec_tokenize(k).contains(t)),
    )
}

/// The ids of `v`, as a set.
pub open spec fn id_set(v: Seq<String>) -> Set<Seq<char>> {
    Set::new(|k: Seq<char>| exists|j: int| 0 <= j < v.len() && v[j]@ == k)
}

/// No two strings of `v` are equal.
pub open spec fn strings_unique(v: Seq<String>) -> bool {
    forall|i: int, j: int| 0 <= i < j < v.len() ==> v[i]@ != v[j]@
}

impl IndexEntry {
    pub closed spec fn token_view(&self) -> Seq<char> {
        self.token@
    }

    pub closed spec fn ids_view(&self) -> Seq<String> {
        self.ids@
    }
}

/// No two entries of `e` have the same token, and no entry holds an id twice.
pub open spec fn index_unique(e: Seq<IndexEntry>) -> bool {
    &&& forall|i: int, j: int| 0 <= i < j < e.len() ==> e[i].token_view() != e[j].token_view()
    &&& forall|i: int| 0 <= i < e.len() ==> strings_unique(#[trigger] e[i].ids_view())
}

/// The ids stored under each token of `e`.
pub open spec fn index_map_of(e: Seq<IndexEntry>) -> Map<Seq<char>, Set<Seq<char>>> {
    Map::new(
        |t: Seq<char>| exists|i: int| 0 <= i < e.len() && e[i].token_view() == t,
        |t: Seq<char>| id_set(e[choose|i: int| 0 <= i < e.len() && e[i].token_view() == t].ids_view()),
    )
}

proof fn lemma_audio_lookup(s: Seq<Audio>, i: int)
    requires
        ids_unique(s),
        0 <= i < s.len(),
    ensures
        audio_map_of(s).dom().contains(s[i].id()@),
        audio_map_of(s)[s[i].id()@] == s[i],
{
    let k = s[i].id()@;
    assert(audio_map_of(s).dom().contains(k));
    let j = choose|j: int| 0 <= j < s.len() && s[j].id()@ == k;
    assert(j == i);
}

proof fn lemma_index_lookup(e: Seq<IndexEntry>, i: int)
    requires
        index_unique(e),
        0 <= i < e.len(),
    ensures
        index_map_of(e).dom().contains(e[i].token_view()),
        index_map_of(e)[e[i].token_view()] == id_set(e[i].ids_view()),
{
    let t = e[i].token_view();
    assert(index_map_of(e).dom().contains(t));
    let j = choose|j: int| 0 <= j < e.len() && e[j].token_view() == t;
    assert(j == i);
}

/// `base` with `id` added under every token of `ts`.
pub open spec fn spec_index_with(
    base: Map<Seq<char>, Set<Seq<char>>>,
    ts: Seq<Seq<char>>,
    id: Seq<char>,
) -> Map<Seq<char>, Set<Seq<char>>> {
    Map::new(
        |t: Seq<char>| base.dom().contains(t) || ts.contains(t),
        |t: Seq<char>|
            if ts.contains(t) {
                (if base.dom().contains(t) { base[t] } else { Set::empty() }).insert(id)
            } else {
                base[t]
            },
    )
}

proof fn lemma_token_index_insert(ids: Set<Seq<char>>, k: Seq<char>)
    ensures
        spec_token_index(ids.insert(k)) == spec_index_with(spec_token_index(ids), spec_tokenize(k), k),
{
    let lhs = spec_token_index(ids.insert(k));
    let base = spec_token_index(ids);
    let rhs = spec_index_with(base, spec_tokenize(k), k);
    assert forall|t: Seq<char>| lhs.dom().contains(t) <==> rhs.dom().contains(t) by {
        if lhs.dom().contains(t) {
            let k2 = choose|k2: Seq<char>| ids.insert(k).contains(k2) && spec_tokenize(k2).contains(t);
            if k2 != k {
                assert(ids.contains(k2));
                assert(base.dom().contains(t));
            }
        }
        if rhs.dom().contains(t) {
            if base.dom().contains(t) {
                let k2 = choose|k2: Seq<char>| ids.contains(k2) && spec_tokenize(k2).contains(t);
                assert(ids.insert(k).contains(k2));
            } else {
                assert(ids.insert(k).contains(k));
            }
        }
    }
    assert(lhs.dom() =~= rhs.dom());
    assert forall|t: Seq<char>| #[trigger] lhs.dom().contains(t) implies lhs[t] == rhs[t] by {
        let f = |k2: Seq<char>| spec_tokenize(k2).contains(t);
        assert(lhs[t] == ids.insert(k).filter(f));
        if spec_tokenize(k).contains(t) {
            if base.dom().contains(t) {
                assert(base[t] == ids.filter(f));
                assert(ids.insert(k).filter(f) =~= ids.filter(f).insert(k));
            } else {
                assert(ids.insert(k).filter(f) =~= Set::<Seq<char>>::empty().insert(k)) by {
                    assert forall|k2: Seq<char>| ids.insert(k).filter(f).contains(k2) implies k2 == k by {
                        if k2 != k {
                            assert(ids.contains(k2) && spec_tokenize(k2).contains(t));
                        }
                    }
                }
            }
        } else {
            assert(base.dom().contains(t));
            assert(base[t] == ids.filter(f));
            assert(ids.insert(k).filter(f) =~= ids.filter(f));
        }
    }
    assert(lhs =~= rhs);
}

/// Adds `id` to `ids` unless it is there already.
fn ids_add(ids: &mut Vec<AudioID>, id: &AudioID)
    requires
        strings_unique(old(ids)@),
    ensures
        strings_unique(final(ids)@),
        id_set(final(ids)@) == id_set(old(ids)@).insert(id@),
{
    let mut i: usize = 0;
    while i < ids.len()
        invariant
            strings_unique(ids@),
            i <= ids.len(),
            forall|j: int| 0 <= j < i ==> ids@[j]@ != id@,
        decreases ids.len() - i,
    {
        if ids[i] == *id {
            assert(id_set(ids@) =~= id_set(ids@).insert(id@));
            return;
        }
        i += 1;
    }
    let ghost before = ids@;
    ids.push(id.clone());
    assert forall|k: Seq<char>| id_set(ids@).contains(k) <==> id_set(before).insert(id@).contains(k) by {
        if id_set(before).contains(k) {
            let j = choose|j: int| 0 <= j < before.len() && before[j]@ == k;
            assert(ids@[j]@ == k);
        }
        if id_set(ids@).contains(k) {
            let j = choose|j: int| 0 <= j < ids@.len() && ids@[j]@ == k;
            if j < before.len() {
                assert(before[j]@ == k);
            }
        }
        if k == id@ {
            assert(ids@[before.len() as int]@ == k);
        }
    }
    assert(id_set(ids@) =~= id_set(before).insert(id@));
}

/// Adds `id` under `token` in the index, making an entry for `token` if there is none.
fn index_add(index: &mut Vec<IndexEntry>, token: &String, id: &AudioID)
    requires
        index_unique(old(index)@),
    ensures
        index_unique(final(index)@),
        index_map_of(final(index)@) == index_map_of(old(index)@).insert(
            token@,
            (if index_map_of(old(index)@).dom().contains(token@) {
                index_map_of(old(index)@)[token@]
            } else {
                Set::empty()
            }).insert(id@),
        ),
{
    let ghost before = index@;
    let ghost old_map = index_map_of(before);
    let mut i: usize = 0;
    while i < index.len()
        invariant
            index@ == before,
            before == old(index)@,
            index_unique(before),
            old_map == index_map_of(before),
            i <= index.len(),
            forall|j: int| 0 <= j < i ==> index@[j].token_view() != token@,
        decreases index.len() - i,
    {
        if index[i].token == *token {
            proof {
                lemma_index_lookup(before, i as int);
            }
            let mut entry = index.remove(i);
            let ghost old_entry = entry;
            assert(old_entry == before[i as int]);
            ids_add(&mut entry.ids, id);
            let ghost new_entry = entry;
            index.insert(i, entry);
            proof {
                let after = index@;
                assert(after[i as int] == new_entry);
                assert(id_set(new_entry.ids_view()) == id_set(before[i as int].ids_view()).insert(id@));
                assert(old_map[token@] == id_set(before[i as int].ids_view()));
                assert(after.len() == before.len());
                assert forall|j: int| 0 <= j < after.len() && j != i implies after[j] == before[j] by {}
                assert(index_unique(after)) by {
                    assert forall|a: int, b: int| 0 <= a < b < after.len() implies
                        after[a].token_view() != after[b].token_view() by {
                        assert(before[a].token_view() != before[b].token_view());
                    }
                    assert forall|a: int| 0 <= a < after.len() implies strings_unique(#[trigger] after[a].ids_view()) by {
                        if a != i {
                            assert(strings_unique(before[a].ids_view()));
                        }
                    }
                }
                let new_map = index_map_of(after);
                let expected = old_map.insert(token@, old_map[token@].insert(id@));
                assert forall|t: Seq<char>| new_map.dom().contains(t) <==> expected.dom().contains(t) by {
                    if new_map.dom().contains(t) {
                        let j = choose|j: int| 0 <= j < after.len() && after[j].token_view() == t;
                        assert(before[j].token_view() == t);
                    }
                    if expected.dom().contains(t) && t != token@ {
                        let j = choose|j: int| 0 <= j < before.len() && before[j].token_view() == t;
                        assert(after[j].token_view() == t);
                    }
                    if t == token@ {
                        assert(after[i as int].token_view() == t);
                    }
                }
                assert(new_map.dom() =~= expected.dom());
                assert forall|t: Seq<char>| #[trigger] new_map.dom().contains(t) implies new_map[t] == expected[t] by {
                    let j = choose|j: int| 0 <= j < after.len() && after[j].token_view() == t;
                    lemma_index_lookup(after, j);
                    if j != i {
                        assert(after[j] == before[j]);
                        lemma_index_lookup(before, j);
                    }
                }
                assert(new_map =~= expected);
            }
            return;
        }
        i += 1;
    }
    let mut ids: Vec<AudioID> = Vec::new();
    ids.push(id.clone());
    let entry = IndexEntry { token: token.clone(), ids };
    index.push(entry);
    proof {
        let after = index@;
        let n = before.len() as int;
        assert(after[n].ids_view().len() == 1);
        assert(index_unique(after)) by {
            assert forall|a: int, b: int| 0 <= a < b < after.len() implies
                after[a].token_view() != after[b].token_view() by {
                if b < n {
                    assert(before[a].token_view() != before[b].token_view());
                }
            }
            assert forall|a: int| 0 <= a < after.len() implies strings_unique(#[trigger] after[a].ids_view()) by {
                if a < n {
                    assert(after[a] == before[a]);
                }
            }
        }
        assert(!old_map.dom().contains(token@));
        let new_map = index_map_of(after);
        let expected = old_map.insert(token@, Set::<Seq<char>>::empty().insert(id@));
        assert forall|t: Seq<char>| new_map.dom().contains(t) <==> expected.dom().contains(t) by {
            if new_map.dom().contains(t) && t != token@ {
                let j = choose|j: int| 0 <= j < after.len() && after[j].token_view() == t;
                assert(before[j].token_view() == t);
            }
            if expected.dom().contains(t) && t != token@ {
                let j = choose|j: int| 0 <= j < before.len() && before[j].token_view() == t;
                assert(after[j].token_view() == t);
            }
            if t == token@ {
                assert(after[n].token_view() == t);
            }
        }
        assert(new_map.dom() =~= expected.dom());
        assert forall|t: Seq<char>| #[trigger] new_map.dom().contains(t) implies new_map[t] == expected[t] by {
            let j = choose|j: int| 0 <= j < after.len() && after[j].token_view() == t;
            lemma_index_lookup(after, j);
            if j < n {
                lemma_index_lookup(before, j);
            } else {
                assert forall|k: Seq<char>| id_set(after[n].ids_view()).contains(k) <==> k == id@ by {
                    if k == id@ {
                        assert(after[n].ids_view()[0]@ == k);
                    }
                }
                assert(id_set(after[n].ids_view()) =~= Set::<Seq<char>>::empty().insert(id@));
            }
        }
        assert(new_map =~= expected);
    }
}

/// Stores `audio` under its id, in place of any audio stored there before.
fn audios_put(audios: &mut Vec<Audio>, audio: Audio)
    requires
        ids_unique(old(audios)@),
        audios_valid(old(audios)@),
        audio_valid(audio),
    ensures
        ids_unique(final(audios)@),
        audios_valid(final(audios)@),
        audio_map_of(final(audios)@) == audio_map_of(old(audios)@).insert(audio.id()@, audio),
{
    let ghost before = audios@;
    let ghost a = audio;
    let ghost k = audio.id()@;
    let mut i: usize = 0;
    while i < audios.len()
        invariant
            audios@ == before,
            before == old(audios)@,
            a == audio,
            ids_unique(before),
            audios_valid(before),
            audio_valid(a),
            i <= audios.len(),
            k == audio.id()@,
            forall|j: int| 0 <= j < i ==> audios@[j].id()@ != k,
        decreases audios.len() - i,
    {
        if audios[i].id == audio.id {
            audios.set(i, audio);
            proof {
                let after = audios@;
                assert(ids_unique(after)) by {
                    assert forall|x: int, y: int| 0 <= x < y < after.len() implies after[x].id()@ != after[y].id()@ by {
                        assert(before[x].id()@ != before[y].id()@);
                    }
                }
                let new_map = audio_map_of(after);
                let expected = audio_map_of(before).insert(k, a);
                assert forall|t: Seq<char>| new_map.dom().contains(t) <==> expected.dom().contains(t) by {
                    if new_map.dom().contains(t) {
                        let j = choose|j: int| 0 <= j < after.len() && after[j].id()@ == t;
                        assert(before[j].id()@ == t);
                    }
                    if expected.dom().contains(t) && t != k {
                        let j = choose|j: int| 0 <= j < before.len() && before[j].id()@ == t;
                        assert(after[j].id()@ == t);
                    }
                    if t == k {
                        assert(after[i as int].id()@ == t);
                    }
                }
                assert(new_map.dom() =~= expected.dom());
                assert forall|t: Seq<char>| #[trigger] new_map.dom().contains(t) implies new_map[t] == expected[t] by {
                    let j = choose|j: int| 0 <= j < after.len() && after[j].id()@ == t;
                    lemma_audio_lookup(after, j);
                    if j != i {
                        assert(after[j] == before[j]);
                        lemma_audio_lookup(before, j);
                    } else {
                        assert(after[j] == a);
                    }
                }
                assert(new_map =~= expected);
            }
            return;
        }
        i += 1;
    }
    audios.push(audio);
    proof {
        let after = audios@;
        let n = before.len() as int;
        assert(ids_unique(after)) by {
            assert forall|x: int, y: int| 0 <= x < y < after.len() implies after[x].id()@ != after[y].id()@ by {
                if y < n {
                    assert(before[x].id()@ != before[y].id()@);
                }
            }
        }
        let new_map = audio_map_of(after);
        let expected = audio_map_of(before).insert(k, a);
        assert forall|t: Seq<char>| new_map.dom().contains(t) <==> expected.dom().contains(t) by {
            if new_map.dom().contains(t) && t != k {
                let j = choose|j: int| 0 <= j < after.len() && after[j].id()@ == t;
                assert(before[j].id()@ == t);
            }
            if expected.dom().contains(t) && t != k {
                let j = choose|j: int| 0 <= j < before.len() && before[j].id()@ == t;
                assert(after[j].id()@ == t);
            }
            if t == k {
                assert(after[n].id()@ == t);
            }
        }
        assert(new_map.dom() =~= expected.dom());
        assert forall|t: Seq<char>| #[trigger] new_map.dom().contains(t) implies new_map[t] == expected[t] by {
            let j = choose|j: int| 0 <= j < after.len() && after[j].id()@ == t;
            lemma_audio_lookup(after, j);
            if j < n {
                lemma_audio_lookup(before, j);
            }
        }
        assert(new_map =~= expected);
    }
}

proof fn lemma_index_with_push(
    base: Map<Seq<char>, Set<Seq<char>>>,
    ts: Seq<Seq<char>>,
    t: Seq<char>,
    id: Seq<char>,
)
    ensures
        ({
            let m = spec_index_with(base, ts, id);
            spec_index_with(base, ts.push(t), id) == m.insert(
                t,
                (if m.dom().contains(t) { m[t] } else { Set::empty() }).insert(id),
            )
        }),
{
    let m = spec_index_with(base, ts, id);
    let lhs = spec_index_with(base, ts.push(t), id);
    let rhs = m.insert(t, (if m.dom().contains(t) { m[t] } else { Set::empty() }).insert(id));
    assert forall|u: Seq<char>| ts.push(t).contains(u) <==> (ts.contains(u) || u == t) by {
        if ts.push(t).contains(u) {
            let k = choose|k: int| 0 <= k < ts.push(t).len() && ts.push(t)[k] == u;
            if k < ts.len() {
                assert(ts[k] == u);
            }
        }
        if ts.contains(u) {
            let k = choose|k: int| 0 <= k < ts.len() && ts[k] == u;
            assert(ts.push(t)[k] == u);
        }
        if u == t {
            assert(ts.push(t)[ts.len() as int] == u);
        }
    }
    assert(lhs.dom() =~= rhs.dom());
    assert forall|u: Seq<char>| #[trigger] lhs.dom().contains(u) implies lhs[u] == rhs[u] by {
        if u == t {
            if ts.contains(t) {
                assert(m[t].insert(id) =~= m[t]);
            }
        }
    }
    assert(lhs =~= rhs);
}

/// The Levenshtein distance of `a` and `b`: the fewest insertions, deletions and
/// substitutions of single characters that turn `a` into `b`.
pub open spec fn spec_levenshtein(a: Seq<char>, b: Seq<char>) -> nat
    decreases a.len() + b.len(),
{
    if a.len() == 0 {
        b.len()
    } else if b.len() == 0 {
        a.len()
    } else if a[0] == b[0] {
        spec_levenshtein(a.drop_first(), b.drop_first())
    } else {
        let del = spec_levenshtein(a.drop_first(), b);
        let ins = spec_levenshtein(a, b.drop_first());
        let sub = spec_levenshtein(a.drop_first(), b.drop_first());
        1 + if del <= ins && del <= sub {
            del
        } else if ins <= sub {
            ins
        } else {
            sub
        }
    }
}

/// Calls `strsim::levenshtein`. Trusted: the crate documents the result as the
/// minimum number of single-character insertions, deletions and substitutions that
/// turn `a` into `b` (it compares the strings by `char`), which [`spec_levenshtein`] states.
#[verifier::external_body]
fn levenshtein(a: &str, b: &str) -> (d: usize)
    ensures
        d == spec_levenshtein(a@, b@),
{
    strsim::levenshtein(a, b)
}

/// Whether `t` starts with `q`.
pub open spec fn spec_starts_with(t: Seq<char>, q: Seq<char>) -> bool {
    q.len() <= t.len() && t.take(q.len() as int) == q
}

/// Whether `t` starts with `q`, character by character.
pub fn starts_with(t: &str, q: &str) -> (r: bool)
    ensures
        r == spec_starts_with(t@, q@),
{
    let tc = crate::utils::chars_of(t);
    let qc = crate::utils::chars_of(q);
    if qc.len() > tc.len() {
        return false;
    }
    let mut i: usize = 0;
    while i < qc.len()
        invariant
            qc.len() <= tc.len(),
            i <= qc.len(),
            tc@ == t@,
            qc@ == q@,
            forall|j: int| 0 <= j < i ==> tc@[j] == qc@[j],
        decreases qc.len() - i,
    {
        if tc[i] != qc[i] {
            assert(tc@.take(qc.len() as int)[i as int] != qc@[i as int]);
            return false;
        }
        i += 1;
    }
    assert(tc@.take(qc.len() as int) =~= qc@);
    true
}

/// The greatest Levenshtein distance, exclusive, at which a query token of `n` UTF-8
/// bytes still matches an index token.
pub open spec fn spec_threshold(n: nat) -> nat {
    if n <= 4 {
        1
    } else if n <= 7 {
        2
    } else {
        3
    }
}

/// The length in UTF-8 bytes of the text `q`, as `str::len` returns it.
pub open spec fn spec_byte_len(q: Seq<char>) -> usize {
    vstd::utf8::encode_utf8(q).len() as usize
}

/// Whether index token `t` matches query token `q`: `t` starts with `q`, or `q` has at
/// least three UTF-8 bytes and `t` is close to it in Levenshtein distance.
pub open spec fn spec_token_matches(q: Seq<char>, t: Seq<char>) -> bool {
    spec_starts_with(t, q) || (spec_byte_len(q) >= 3 && spec_levenshtein(q, t) < spec_threshold(
        spec_byte_len(q) as nat,
    ))
}

/// The ids stored under some index token that matches one of the query tokens `qs`.
pub open spec fn spec_search_candidates(
    index: Map<Seq<char>, Set<Seq<char>>>,
    qs: Seq<Seq<char>>,
) -> Set<Seq<char>> {
    Set::new(
        |k: Seq<char>|
            exists|qi: int, t: Seq<char>|
                0 <= qi < qs.len() && index.dom().contains(t) && index[t].contains(k)
                    && spec_token_matches(qs[qi], t),
    )
}

/// The ids from the entries visited so far: all query tokens before `i` against every
/// entry, and query token `i` against the entries before `j`.
spec fn spec_candidates_upto(e: Seq<IndexEntry>, qs: Seq<Seq<char>>, i: int, j: int) -> Set<Seq<char>> {
    Set::new(
        |k: Seq<char>|
            exists|qi: int, ej: int|
                0 <= qi < qs.len() && 0 <= ej < e.len() && (qi < i || (qi == i && ej < j))
                    && id_set(e[ej].ids_view()).contains(k) && spec_token_matches(qs[qi], e[ej].token_view()),
    )
}

/// Adds every id of `ids` that `out` does not hold yet.
fn ids_add_all(out: &mut Vec<AudioID>, ids: &Vec<AudioID>)
    requires
        strings_unique(old(out)@),
    ensures
        strings_unique(final(out)@),
        id_set(final(out)@) == id_set(old(out)@).union(id_set(ids@)),
{
    let mut i: usize = 0;
    while i < ids.len()
        invariant
            i <= ids.len(),
            strings_unique(out@),
            id_set(out@) == id_set(old(out)@).union(id_set(ids@.take(i as int))),
        decreases ids.len() - i,
    {
        let ghost before = id_set(out@);
        ids_add(out, &ids[i]);
        proof {
            let s0 = ids@.take(i as int);
            let s1 = ids@.take(i + 1);
            let a = id_set(s0);
            let b = id_set(s1);
            assert forall|k: Seq<char>| b.contains(k) <==> (a.contains(k) || k == ids@[i as int]@) by {
                if b.contains(k) {
                    let j = choose|j: int| 0 <= j < s1.len() && s1[j]@ == k;
                    if j < i {
                        assert(s0[j]@ == k);
                    }
                }
                if a.contains(k) {
                    let j = choose|j: int| 0 <= j < s0.len() && s0[j]@ == k;
                    assert(s1[j]@ == k);
                }
                if k == ids@[i as int]@ {
                    assert(s1[i as int]@ == k);
                }
            }
            assert(id_set(out@) =~= id_set(old(out)@).union(b));
        }
        i += 1;
    }
    assert(ids@.take(ids.len() as int) =~= ids@);
}

/// The audios of `s` stored one after the other, each in place of any earlier one
/// with the same id.
pub open spec fn spec_stored(s: Seq<Audio>) -> Map<Seq<char>, Audio>
    decreases s.len(),
{
    if s.len() == 0 {
        Map::empty()
    } else {
        spec_stored(s.drop_last()).insert(s.last().id()@, s.last())
    }
}

/// The file name without its extension, for a file entry of the music folder whose
/// name is `file_name` and whose extension is `extension` (both absent when the path
/// has none). Only `ogg` files are audios: any other extension gives an
/// `InvalidInputError` with an empty explanation, which means "skip this file".
pub fn audio_file_stem(file_name: Option<&str>, extension: Option<&str>) -> (r: Result<String, Error>)
    ensures
        match (file_name, extension) {
            (None, _) => r matches Err(Error::FSError(m))
                && m@ == "Failed to get the filename for a file entry"@,
            (Some(name), None) => r matches Err(Error::FSError(m))
                && m@ == "Failed to get the extension for a file entry with name, "@ + name@,
            (Some(name), Some(ext)) => if ext@ != "ogg"@ {
                r matches Err(Error::InvalidInputError(m)) && m@.len() == 0
            } else if !spec_ends_with(name@, "."@ + ext@) {
                r matches Err(Error::FSError(m)) && m@ == "Invalid file name, "@ + name@
            } else {
                r matches Ok(stem) && stem@ == name@.take(name@.len() - ext@.len() - 1)
            },
        },
{
    let name = match file_name {
        Some(n) => n,
        None => {
            return Err(Error::FSError(String::from_str("Failed to get the filename for a file entry")));
        },
    };
    let ext = match extension {
        Some(e) => e,
        None => {
            let mut m = String::from_str("Failed to get the extension for a file entry with name, ");
            m.append(name);
            return Err(Error::FSError(m));
        },
    };
    let ext_string = String::from_str(ext);
    let ogg = String::from_str("ogg");
    if ext_string != ogg {
        return Err(Error::InvalidInputError(String::new()));
    }
    let mut suffix = String::from_str(".");
    suffix.append(ext);
    proof {
        reveal_strlit(".");
        assert(suffix@.len() == ext@.len() + 1);
    }
    match strip_suffix(name, suffix.as_str()) {
        Some(stem) => Ok(stem),
        None => {
            let mut m = String::from_str("Invalid file name, ");
            m.append(name);
            Err(Error::FSError(m))
        },
    }
}

/// What the scan of the music folder makes of one file: an audio file with this name
/// without extension, a file to skip, or a failure with this explanation.
pub enum EntryOutcome {
    AudioFile(Seq<char>),
    Skip,
    Failure(Seq<char>),
}

/// The view of an optional string.
pub open spec fn opt_view(o: Option<String>) -> Option<Seq<char>> {
    match o {
        Some(s) => Some(s@),
        None => None,
    }
}

/// What the scan makes of a file named `file_name` with extension `extension`, as
/// [`audio_file_stem`] decides it: only `ogg` files are audio files, other files are
/// skipped, and a file with no name or no extension, or whose name does not end with
/// its extension, is a failure.
pub open spec fn spec_entry_outcome(file_name: Option<Seq<char>>, extension: Option<Seq<char>>) -> EntryOutcome {
    match (file_name, extension) {
        (None, _) => EntryOutcome::Failure("Failed to get the filename for a file entry"@),
        (Some(name), None) => EntryOutcome::Failure(
            "Failed to get the extension for a file entry with name, "@ + name,
        ),
        (Some(name), Some(ext)) => if ext != "ogg"@ {
            EntryOutcome::Skip
        } else if !spec_ends_with(name, "."@ + ext) {
            EntryOutcome::Failure("Invalid file name, "@ + name)
        } else {
            EntryOutcome::AudioFile(name.take(name.len() - ext.len() - 1))
        },
    }
}

/// An audio file found by the scan: its name without extension and its path.
#[derive(Debug)]
pub struct AudioFile {
    pub stem: String,
    pub path: String,
}

/// The names without extension and the paths of `fs`.
pub open spec fn audio_file_views(fs: Seq<AudioFile>) -> Seq<(Seq<char>, Seq<char>)> {
    fs.map_values(|f: AudioFile| (f.stem@, f.path@))
}

/// The audio files among the entries `es`, in order, up to the first failure, and the
/// explanation of that failure if there is one.
pub open spec fn spec_scan(es: Seq<FileEntry>) -> (Seq<(Seq<char>, Seq<char>)>, Option<Seq<char>>)
    decreases es.len(),
{
    if es.len() == 0 {
        (Seq::empty(), None)
    } else {
        let rest = spec_scan(es.drop_first());
        match spec_entry_outcome(opt_view(es[0].file_name), opt_view(es[0].extension)) {
            EntryOutcome::AudioFile(stem) => (seq![(stem, es[0].path@)] + rest.0, rest.1),
            EntryOutcome::Skip => rest,
            EntryOutcome::Failure(m) => (Seq::empty(), Some(m)),
        }
    }
}

/// Scans the files of the music folder, in order: the audio files up to the first file
/// that fails, and that failure as an `FSError`, if there is one. Files that are not
/// audio files are skipped.
pub fn scan_audio_files(entries: &Vec<FileEntry>) -> (r: (Vec<AudioFile>, Option<Error>))
    ensures
        audio_file_views(r.0@) == spec_scan(entries@).0,
        match spec_scan(entries@).1 {
            None => r.1 is None,
            Some(m) => r.1 matches Some(Error::FSError(e)) && e@ == m,
        },
{
    let mut files: Vec<AudioFile> = Vec::new();
    let mut i: usize = 0;
    assert(entries@.skip(0) =~= entries@);
    while i < entries.len()
        invariant
            i <= entries.len(),
            spec_scan(entries@).0 == audio_file_views(files@) + spec_scan(entries@.skip(i as int)).0,
            spec_scan(entries@).1 == spec_scan(entries@.skip(i as int)).1,
        decreases entries.len() - i,
    {
        let entry = &entries[i];
        assert(entries@.skip(i as int)[0] == *entry);
        assert(entries@.skip(i as int).drop_first() =~= entries@.skip(i + 1));
        let name = match &entry.file_name {
            Some(n) => Some(n.as_str()),
            None => None,
        };
        let ext = match &entry.extension {
            Some(e) => Some(e.as_str()),
            None => None,
        };
        match audio_file_stem(name, ext) {
            Ok(stem) => {
                let ghost before = files@;
                files.push(AudioFile { stem, path: entry.path.clone() });
                assert(audio_file_views(files@) =~= audio_file_views(before).push(
                    (files@.last().stem@, files@.last().path@),
                ));
            },
            Err(Error::InvalidInputError(_)) => {},
            Err(e) => {
                assert(spec_scan(entries@.skip(i as int)).0 =~= Seq::<(Seq<char>, Seq<char>)>::empty());
                assert(spec_scan(entries@).0 =~= audio_file_views(files@));
                return (files, Some(e));
            },
        }
        i += 1;
    }
    assert(entries@.skip(i as int) =~= Seq::<FileEntry>::empty());
    assert(spec_scan(entries@).0 =~= audio_file_views(files@));
    (files, None)
}

/// `audios` are the audios made from the scanned files `fs` and their durations `ds`:
/// each has the file's name without extension as title, extension `ogg`, the file's
/// path and its duration.
pub open spec fn scanned_audios(audios: Seq<Audio>, fs: Seq<(Seq<char>, Seq<char>)>, ds: Seq<Duration>) -> bool {
    &&& audios.len() == fs.len()
    &&& ds.len() == fs.len()
    &&& forall|i: int|
        0 <= i < audios.len() ==> {
            &&& (#[trigger] audios[i]).wf()
            &&& audios[i].title()@ == fs[i].0
            &&& audios[i].extension()@ == "ogg"@
            &&& audios[i].path()@ == fs[i].1
            &&& audios[i].duration() == ds[i]
        }
}

impl Storage {
    /// The audios, each under its id.
    pub closed spec fn audio_map(&self) -> Map<Seq<char>, Audio> {
        audio_map_of(self.audios@)
    }

    /// The search index: for each token, the ids stored under it.
    pub closed spec fn index_map(&self) -> Map<Seq<char>, Set<Seq<char>>> {
        index_map_of(self.index@)
    }

    /// Each audio is stored once, under its id, each is an `ogg` file whose id is made
    /// from its title, and the index holds exactly the tokens
    /// of the stored ids, each with the ids that have it.
    pub closed spec fn wf(&self) -> bool {
        &&& ids_unique(self.audios@)
        &&& audios_valid(self.audios@)
        &&& index_unique(self.index@)
        &&& self.index_map() == spec_token_index(self.audio_map().dom())
    }

    /// A storage with no audio.
    pub fn new() -> (r: Storage)
        ensures
            r.wf(),
            r.audio_map() == Map::<Seq<char>, Audio>::empty(),
    {
        let r = Storage { audios: Vec::new(), index: Vec::new() };
        assert(r.audio_map() =~= Map::<Seq<char>, Audio>::empty());
        assert(r.index_map() =~= spec_token_index(r.audio_map().dom()));
        r
    }

    /// Stores `audio` under its id, in place of any audio stored there before, and
    /// indexes the id under each of its tokens.
    pub fn insert_audio(&mut self, audio: Audio)
        requires
            old(self).wf(),
            audio_valid(audio),
        ensures
            final(self).wf(),
            final(self).audio_map() == old(self).audio_map().insert(audio.id()@, audio),
    {
        let id = audio.id.clone();
        let tokens = tokenize_string(id.as_str());
        let ghost ts = string_views(tokens@);
        let ghost base = index_map_of(self.index@);
        let ghost dom = audio_map_of(self.audios@).dom();
        let mut j: usize = 0;
        assert(ts.take(0) =~= Seq::<Seq<char>>::empty());
        assert(spec_index_with(base, ts.take(0), id@) =~= base);
        while j < tokens.len()
            invariant
                j <= tokens.len(),
                ts == string_views(tokens@),
                ts == spec_tokenize(id@),
                id@ == audio.id()@,
                index_unique(self.index@),
                ids_unique(self.audios@),
                audios_valid(self.audios@),
                audio_valid(audio),
                self.audios@ == old(self).audios@,
                dom == audio_map_of(self.audios@).dom(),
                base == spec_token_index(dom),
                index_map_of(self.index@) == spec_index_with(base, ts.take(j as int), id@),
            decreases tokens.len() - j,
        {
            index_add(&mut self.index, &tokens[j], &id);
            proof {
                assert(ts[j as int] == tokens@[j as int]@);
                assert(ts.take(j + 1) =~= ts.take(j as int).push(ts[j as int]));
                lemma_index_with_push(base, ts.take(j as int), ts[j as int], id@);
            }
            j += 1;
        }
        proof {
            assert(ts.take(j as int) =~= ts);
            lemma_token_index_insert(dom, id@);
        }
        audios_put(&mut self.audios, audio);
        assert(audio_map_of(self.audios@).dom() =~= dom.insert(id@));
    }

    /// The ids stored under every index token that matches one of `query_tokens`: the
    /// index token starts with the query token, or the query token has at least three
    /// UTF-8 bytes and the two are within Levenshtein distance 1 (3 to 4 bytes), 2 (5 to
    /// 7 bytes) or 3 (more), exclusive. Each id comes once; the order is unspecified.
    pub fn get_search_candidates(&self, query_tokens: &[String]) -> (r: Vec<AudioID>)
        requires
            self.wf(),
        ensures
            strings_unique(r@),
            id_set(r@) == spec_search_candidates(self.index_map(), string_views(query_tokens@)),
    {
        let ghost qs = string_views(query_tokens@);
        let ghost e = self.index@;
        let mut candidates: Vec<AudioID> = Vec::new();
        let mut i: usize = 0;
        assert(id_set(candidates@) =~= spec_candidates_upto(e, qs, 0, 0));
        while i < query_tokens.len()
            invariant
                self.wf(),
                e == self.index@,
                qs == string_views(query_tokens@),
                i <= query_tokens.len(),
                strings_unique(candidates@),
                id_set(candidates@) == spec_candidates_upto(e, qs, i as int, 0),
            decreases query_tokens.len() - i,
        {
            let query_tok = &query_tokens[i];
            assert(qs[i as int] == query_tok@);
            let mut j: usize = 0;
            while j < self.index.len()
                invariant
                    self.wf(),
                    e == self.index@,
                    qs == string_views(query_tokens@),
                    i < query_tokens.len(),
                    qs[i as int] == query_tok@,
                    j <= self.index.len(),
                    strings_unique(candidates@),
                    id_set(candidates@) == spec_candidates_upto(e, qs, i as int, j as int),
                decreases self.index.len() - j,
            {
                let entry = &self.index[j];
                assert(entry.token@ == e[j as int].token_view());
                let ghost before = id_set(candidates@);
                let matched = if starts_with(entry.token.as_str(), query_tok.as_str()) {
                    true
                } else {
                    let n = query_tok.as_str().len();
                    if n >= 3 {
                        let dist = levenshtein(query_tok.as_str(), entry.token.as_str());
                        let threshold: usize = if n <= 4 {
                            1
                        } else if n <= 7 {
                            2
                        } else {
                            3
                        };
                        dist < threshold
                    } else {
                        false
                    }
                };
                assert(matched == spec_token_matches(qs[i as int], e[j as int].token_view()));
                if matched {
                    ids_add_all(&mut candidates, &entry.ids);
                }
                proof {
                    let lhs = spec_candidates_upto(e, qs, i as int, j + 1);
                    let prev = spec_candidates_upto(e, qs, i as int, j as int);
                    assert forall|k: Seq<char>| lhs.contains(k) <==> id_set(candidates@).contains(k) by {
                        if lhs.contains(k) {
                            let (qi, ej) = choose|qi: int, ej: int|
                                0 <= qi < qs.len() && 0 <= ej < e.len() && (qi < i || (qi == i && ej < j + 1))
                                    && id_set(e[ej].ids_view()).contains(k)
                                    && spec_token_matches(qs[qi], e[ej].token_view());
                            if !(qi == i && ej == j) {
                                assert(prev.contains(k));
                            }
                        }
                        if prev.contains(k) {
                            let (qi, ej) = choose|qi: int, ej: int|
                                0 <= qi < qs.len() && 0 <= ej < e.len() && (qi < i || (qi == i && ej < j))
                                    && id_set(e[ej].ids_view()).contains(k)
                                    && spec_token_matches(qs[qi], e[ej].token_view());
                            assert(lhs.contains(k));
                        }
                        if matched && id_set(e[j as int].ids_view()).contains(k) {
                            assert(lhs.contains(k));
                        }
                    }
                    assert(lhs =~= id_set(candidates@));
                }
                j += 1;
            }
            proof {
                let a = spec_candidates_upto(e, qs, i as int, self.index.len() as int);
                let b = spec_candidates_upto(e, qs, i + 1, 0);
                assert forall|k: Seq<char>| a.contains(k) <==> b.contains(k) by {
                    if a.contains(k) {
                        let (qi, ej) = choose|qi: int, ej: int|
                            0 <= qi < qs.len() && 0 <= ej < e.len() && (qi < i || (qi == i && ej < e.len()))
                                && id_set(e[ej].ids_view()).contains(k)
                                && spec_token_matches(qs[qi], e[ej].token_view());
                        assert(b.contains(k));
                    }
                    if b.contains(k) {
                        let (qi, ej) = choose|qi: int, ej: int|
                            0 <= qi < qs.len() && 0 <= ej < e.len() && (qi < i + 1 || (qi == i + 1 && ej < 0))
                                && id_set(e[ej].ids_view()).contains(k)
                                && spec_token_matches(qs[qi], e[ej].token_view());
                        assert(a.contains(k));
                    }
                }
                assert(a =~= b);
            }
            i += 1;
        }
        proof {
            let a = spec_candidates_upto(e, qs, qs.len() as int, 0);
            let b = spec_search_candidates(self.index_map(), qs);
            assert forall|k: Seq<char>| a.contains(k) <==> b.contains(k) by {
                if a.contains(k) {
                    let (qi, ej) = choose|qi: int, ej: int|
                        0 <= qi < qs.len() && 0 <= ej < e.len() && (qi < qs.len() || (qi == qs.len() && ej < 0))
                            && id_set(e[ej].ids_view()).contains(k)
                            && spec_token_matches(qs[qi], e[ej].token_view());
                    lemma_index_lookup(e, ej);
                    assert(b.contains(k));
                }
                if b.contains(k) {
                    let (qi, t) = choose|qi: int, t: Seq<char>|
                        0 <= qi < qs.len() && self.index_map().dom().contains(t)
                            && self.index_map()[t].contains(k) && spec_token_matches(qs[qi], t);
                    let ej = choose|ej: int| 0 <= ej < e.len() && e[ej].token_view() == t;
                    lemma_index_lookup(e, ej);
                    assert(a.contains(k));
                }
            }
            assert(a =~= b);
        }
        candidates
    }

    /// The ids that a search with query tokens `qs` finds are those of the stored audios
    /// that have a token matching one of the query tokens.
    pub proof fn law_candidates_are_matching_audios(&self, qs: Seq<Seq<char>>)
        requires
            self.wf(),
        ensures
            spec_search_candidates(self.index_map(), qs) == self.audio_map().dom().filter(
                |k: Seq<char>|
                    exists|qi: int, t: Seq<char>|
                        0 <= qi < qs.len() && spec_tokenize(k).contains(t) && spec_token_matches(qs[qi], t),
            ),
    {
        let dom = self.audio_map().dom();
        let idx = self.index_map();
        let lhs = spec_search_candidates(idx, qs);
        let rhs = dom.filter(
            |k: Seq<char>|
                exists|qi: int, t: Seq<char>|
                    0 <= qi < qs.len() && spec_tokenize(k).contains(t) && spec_token_matches(qs[qi], t),
        );
        assert forall|k: Seq<char>| lhs.contains(k) <==> rhs.contains(k) by {
            if lhs.contains(k) {
                let (qi, t) = choose|qi: int, t: Seq<char>|
                    0 <= qi < qs.len() && idx.dom().contains(t) && idx[t].contains(k)
                        && spec_token_matches(qs[qi], t);
                assert(idx[t] == dom.filter(|k2: Seq<char>| spec_tokenize(k2).contains(t)));
                assert(dom.contains(k) && spec_tokenize(k).contains(t));
            }
            if rhs.contains(k) {
                let (qi, t) = choose|qi: int, t: Seq<char>|
                    0 <= qi < qs.len() && spec_tokenize(k).contains(t) && spec_token_matches(qs[qi], t);
                assert(idx.dom().contains(t));
                assert(idx[t] == dom.filter(|k2: Seq<char>| spec_tokenize(k2).contains(t)));
                assert(idx[t].contains(k));
            }
        }
        assert(lhs =~= rhs);
    }

    /// The storage holding `audios`, stored in order, each in place of any earlier one
    /// with the same id, and indexed by the tokens of their ids.
    pub fn from_audios(audios: Vec<Audio>) -> (r: Storage)
        requires
            audios_valid(audios@),
        ensures
            r.wf(),
            r.audio_map() == spec_stored(audios@),
    {
        let mut storage = Storage::new();
        let mut i: usize = 0;
        assert(audios@.take(0) =~= Seq::<Audio>::empty());
        while i < audios.len()
            invariant
                i <= audios.len(),
                audios_valid(audios@),
                storage.wf(),
                storage.audio_map() == spec_stored(audios@.take(i as int)),
            decreases audios.len() - i,
        {
            let audio = audios[i].duplicate();
            storage.insert_audio(audio);
            assert(audios@.take(i + 1).drop_last() =~= audios@.take(i as int));
            i += 1;
        }
        assert(audios@.take(audios.len() as int) =~= audios@);
        storage
    }

    /// The storage of the music folder whose files are `entries`, in the order of the
    /// walk: an `FSError` for the first file the scan fails on, if any (the durations of
    /// the audio files before it having been read without error); otherwise the audio
    /// files, each stored with its name without extension as title, extension `ogg`, its
    /// path and its duration (`durations` holds those of the scanned audio files, in
    /// order), a later file in place of an earlier one with the same id.
    pub fn generate(entries: &Vec<FileEntry>, durations: Vec<Duration>) -> (r: Result<Storage, Error>)
        requires
            durations.len() == spec_scan(entries@).0.len(),
        ensures
            match spec_scan(entries@).1 {
                Some(m) => r matches Err(Error::FSError(e)) && e@ == m,
                None => r matches Ok(s) && s.wf() && exists|audios: Seq<Audio>|
                    #[trigger] scanned_audios(audios, spec_scan(entries@).0, durations@)
                        && s.audio_map() == spec_stored(audios),
            },
    {
        let (files, failure) = scan_audio_files(entries);
        if let Some(e) = failure {
            return Err(e);
        }
        let mut audios: Vec<Audio> = Vec::new();
        let mut i: usize = 0;
        while i < files.len()
            invariant
                i <= files.len(),
                durations.len() == files.len(),
                audio_file_views(files@) == spec_scan(entries@).0,
                audios.len() == i,
                audios_valid(audios@),
                scanned_audios(audios@, audio_file_views(files@).take(i as int), durations@.take(i as int)),
            decreases files.len() - i,
        {
            let audio = Audio::new(
                files[i].stem.clone(),
                String::from_str("ogg"),
                files[i].path.clone(),
                durations[i],
            );
            proof {
                reveal_strlit("ogg");
            }
            audios.push(audio);
            proof {
                assert(audio_file_views(files@)[i as int] == (files@[i as int].stem@, files@[i as int].path@));
                assert(audio_file_views(files@).take(i + 1) =~= audio_file_views(files@).take(i as int).push(
                    audio_file_views(files@)[i as int],
                ));
                assert(durations@.take(i + 1) =~= durations@.take(i as int).push(durations@[i as int]));
            }
            i += 1;
        }
        assert(audio_file_views(files@).take(i as int) =~= audio_file_views(files@));
        assert(durations@.take(i as int) =~= durations@);
        let ghost v = audios@;
        let storage = Storage::from_audios(audios);
        assert(scanned_audios(v, spec_scan(entries@).0, durations@));
        Ok(storage)
    }

    /// Every audio is stored under its own id.
    pub proof fn law_audio_under_its_id(&self, k: Seq<char>)
        requires
            self.wf(),
            self.audio_map().dom().contains(k),
        ensures
            self.audio_map()[k].id()@ == k,
    {
    }

    /// A stored audio is found by a search for any one of the tokens of its id.
    pub proof fn law_search_finds_by_own_token(&self, k: Seq<char>, t: Seq<char>)
        requires
            self.wf(),
            self.audio_map().dom().contains(k),
            spec_tokenize(k).contains(t),
        ensures
            self.index_map().dom().contains(t),
            self.index_map()[t].contains(k),
            spec_search_candidates(self.index_map(), seq![t]).contains(k),
    {
        let idx = self.index_map();
        let dom = self.audio_map().dom();
        assert(idx.dom().contains(t));
        assert(idx[t] == dom.filter(|k2: Seq<char>| spec_tokenize(k2).contains(t)));
        assert(idx[t].contains(k));
        assert(t.take(t.len() as int) =~= t);
        assert(spec_token_matches(seq![t][0], t));
    }

    /// What a search finds, stated over the stored audios: an id is among the candidates
    /// for the query tokens `qs` exactly when it is stored and one of its own tokens `t`
    /// matches some query token `q`, that is `t` starts with `q`, or `q` has 3 to 4 UTF-8
    /// bytes and equals `t`, 5 to 7 bytes and is within Levenshtein distance 1 of `t`, or
    /// more than 7 bytes and is within distance 2 of `t`.
    pub proof fn law_candidates_by_prefix_or_distance(&self, qs: Seq<Seq<char>>, r: Seq<String>)
        requires
            self.wf(),
            id_set(r) == spec_search_candidates(self.index_map(), qs),
        ensures
            forall|k: Seq<char>|
                id_set(r).contains(k) <==> exists|qi: int, t: Seq<char>|
                    #![trigger qs[qi], spec_tokenize(k).contains(t)]
                    0 <= qi < qs.len() && self.audio_map().dom().contains(k) && spec_tokenize(k).contains(t) && (
                    (qs[qi].len() <= t.len() && t.take(qs[qi].len() as int) == qs[qi])
                        || (3 <= spec_byte_len(qs[qi]) <= 4 && spec_levenshtein(qs[qi], t) < 1)
                        || (5 <= spec_byte_len(qs[qi]) <= 7 && spec_levenshtein(qs[qi], t) < 2)
                        || (7 < spec_byte_len(qs[qi]) && spec_levenshtein(qs[qi], t) < 3)),
            forall|qi: int, t: Seq<char>, k: Seq<char>|
                #![trigger qs[qi], self.index_map()[t].contains(k)]
                0 <= qi < qs.len() && 7 < spec_byte_len(qs[qi]) && spec_levenshtein(qs[qi], t) < 3
                    && self.index_map().dom().contains(t) && self.index_map()[t].contains(k) ==> id_set(r).contains(k),
    {
        let idx = self.index_map();
        assert forall|k: Seq<char>|
            id_set(r).contains(k) <==> exists|qi: int, t: Seq<char>|
                #![trigger qs[qi], spec_tokenize(k).contains(t)]
                0 <= qi < qs.len() && self.audio_map().dom().contains(k) && spec_tokenize(k).contains(t) && (
                (qs[qi].len() <= t.len() && t.take(qs[qi].len() as int) == qs[qi])
                    || (3 <= spec_byte_len(qs[qi]) <= 4 && spec_levenshtein(qs[qi], t) < 1)
                    || (5 <= spec_byte_len(qs[qi]) <= 7 && spec_levenshtein(qs[qi], t) < 2)
                    || (7 < spec_byte_len(qs[qi]) && spec_levenshtein(qs[qi], t) < 3)) by {
            if id_set(r).contains(k) {
                let (qi, t) = choose|qi: int, t: Seq<char>|
                    0 <= qi < qs.len() && idx.dom().contains(t) && idx[t].contains(k)
                        && spec_token_matches(qs[qi], t);
                self.law_index_exact(t, k);
                assert(spec_tokenize(k).contains(t));
            }
            if exists|qi: int, t: Seq<char>|
                #![trigger qs[qi], spec_tokenize(k).contains(t)]
                0 <= qi < qs.len() && self.audio_map().dom().contains(k) && spec_tokenize(k).contains(t) && (
                (qs[qi].len() <= t.len() && t.take(qs[qi].len() as int) == qs[qi])
                    || (3 <= spec_byte_len(qs[qi]) <= 4 && spec_levenshtein(qs[qi], t) < 1)
                    || (5 <= spec_byte_len(qs[qi]) <= 7 && spec_levenshtein(qs[qi], t) < 2)
                    || (7 < spec_byte_len(qs[qi]) && spec_levenshtein(qs[qi], t) < 3)) {
                let (qi, t) = choose|qi: int, t: Seq<char>|
                    #![trigger qs[qi], spec_tokenize(k).contains(t)]
                    0 <= qi < qs.len() && self.audio_map().dom().contains(k) && spec_tokenize(k).contains(t) && (
                    (qs[qi].len() <= t.len() && t.take(qs[qi].len() as int) == qs[qi])
                        || (3 <= spec_byte_len(qs[qi]) <= 4 && spec_levenshtein(qs[qi], t) < 1)
                        || (5 <= spec_byte_len(qs[qi]) <= 7 && spec_levenshtein(qs[qi], t) < 2)
                        || (7 < spec_byte_len(qs[qi]) && spec_levenshtein(qs[qi], t) < 3));
                self.law_index_exact(t, k);
                assert(spec_token_matches(qs[qi], t));
                assert(spec_search_candidates(idx, qs).contains(k));
            }
        }
        assert forall|qi: int, t: Seq<char>, k: Seq<char>|
            #![trigger qs[qi], idx[t].contains(k)]
            0 <= qi < qs.len() && 7 < spec_byte_len(qs[qi]) && spec_levenshtein(qs[qi], t) < 3
                && idx.dom().contains(t) && idx[t].contains(k)
            implies id_set(r).contains(k) by {
            assert(spec_token_matches(qs[qi], t));
            assert(spec_search_candidates(idx, qs).contains(k));
        }
    }

    /// Every stored audio is an `ogg` file, stored under the id made from its title;
    /// that id is made of lowercase ASCII letters, digits and `_` only, so making an id
    /// from it again gives it back.
    pub proof fn law_stored_audio_form(&self, k: Seq<char>)
        requires
            self.wf(),
            self.audio_map().dom().contains(k),
        ensures
            self.audio_map()[k].extension()@ == "ogg"@,
            self.audio_map()[k].id()@ == k,
            k == spec_audio_id(self.audio_map()[k].title()@),
            forall|i: int| 0 <= i < k.len() ==> spec_id_char(#[trigger] k[i]),
            spec_audio_id(k) == k,
    {
        let s = self.audios@;
        let i = choose|i: int| 0 <= i < s.len() && s[i].id()@ == k;
        lemma_audio_lookup(s, i);
        assert(audio_valid(s[i]));
        lemma_audio_id_chars(self.audio_map()[k].title()@);
        lemma_audio_id_fixed(k);
    }

    /// The index is exact: an id is listed under a token if and only if it is stored
    /// and the token is one of its tokens, and no token is listed without an id.
    pub proof fn law_index_exact(&self, t: Seq<char>, k: Seq<char>)
        requires
            self.wf(),
        ensures
            (self.index_map().dom().contains(t) && self.index_map()[t].contains(k)) <==> (
            self.audio_map().dom().contains(k) && spec_tokenize(k).contains(t)),
            self.index_map().dom().contains(t) ==> !self.index_map()[t].is_empty(),
    {
        let idx = self.index_map();
        let dom = self.audio_map().dom();
        if idx.dom().contains(t) {
            assert(idx[t] == dom.filter(|k2: Seq<char>| spec_tokenize(k2).contains(t)));
            let w = choose|w: Seq<char>| dom.contains(w) && spec_tokenize(w).contains(t);
            assert(idx[t].contains(w));
        }
        if dom.contains(k) && spec_tokenize(k).contains(t) {
            assert(idx.dom().contains(t));
            assert(idx[t] == dom.filter(|k2: Seq<char>| spec_tokenize(k2).contains(t)));
        }
    }

    /// The audios, in the order they were first stored; no two have the same id.
    pub fn audios(&self) -> (r: &Vec<Audio>)
        requires
            self.wf(),
        ensures
            ids_unique(r@),
            audio_map_of(r@) == self.audio_map(),
    {
        &self.audios
    }

    /// The audio stored under `id`, or `NotFoundError` when there is none.
    pub fn get_audio(&self, id: &AudioID) -> (r: Result<&Audio, Error>)
        requires
            self.wf(),
        ensures
            match r {
                Ok(a) => self.audio_map().dom().contains(id@) && *a == self.audio_map()[id@],
                Err(e) => !self.audio_map().dom().contains(id@) && (e matches Error::NotFoundError(m)
                    && m@ == "Failed to find an audio with the given ID in the storage"@),
            },
    {
        let mut i: usize = 0;
        while i < self.audios.len()
            invariant
                self.wf(),
                i <= self.audios.len(),
                forall|j: int| 0 <= j < i ==> self.audios@[j].id()@ != id@,
            decreases self.audios.len() - i,
        {
            if self.audios[i].id == *id {
                proof {
                    lemma_audio_lookup(self.audios@, i as int);
                }
                return Ok(&self.audios[i]);
            }
            i += 1;
        }
        Err(Error::NotFoundError(String::from_str("Failed to find an audio with the given ID in the storage")))
    }
}

} // verus!
