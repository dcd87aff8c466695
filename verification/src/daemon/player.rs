//! The audio index of the line-protocol daemon: each `ogg` file of the music folder
//! under its label, the file name without the extension. Playing sound is left to the
//! caller, which asks the index for the file to play.
use crate::error::Error;
use crate::utils::{spec_ends_with, strip_suffix};
use vstd::prelude::*;
use vstd::string::StringExecFns;

verus! {

/// An audio file under its label.
#[derive(Debug)]
pub struct IndexedAudio {
    pub label: String,
    pub path: String,
}

/// The audio files of the music folder, each under its label.
#[derive(Debug)]
pub struct Player {
    pub audio_index: Vec<IndexedAudio>,
}

/// No two entries of `s` have the same label.
pub open spec fn labels_unique(s: Seq<IndexedAudio>) -> bool {
    forall|i: int, j: int| 0 <= i < j < s.len() ==> s[i].label@ != s[j].label@
}

/// The path of each label of `s`.
pub open spec fn label_map(s: Seq<IndexedAudio>) -> Map<Seq<char>, Seq<char>> {
    Map::new(
        |k: Seq<char>| exists|i: int| 0 <= i < s.len() && s[i].label@ == k,
        |k: Seq<char>| s[choose|i: int| 0 <= i < s.len() && s[i].label@ == k].path@,
    )
}

/// The label of a file entry named `name` with extension `ext`, when it is an `ogg`
/// file: the name without `"." + ext` at its end, or the whole name when it does not
/// end so. `None` for any other file, which the index skips.
pub open spec fn spec_label(name: Seq<char>, ext: Seq<char>) -> Option<Seq<char>> {
    if ext != "ogg"@ {
        None
    } else if spec_ends_with(name, "."@ + ext) {
        Some(name.take(name.len() - ext.len() - 1))
    } else {
        Some(name)
    }
}

proof fn lemma_label_lookup(s: Seq<IndexedAudio>, i: int)
    requires
        labels_unique(s),
        0 <= i < s.len(),
    ensures
        label_map(s).dom().contains(s[i].label@),
        label_map(s)[s[i].label@] == s[i].path@,
{
    let k = s[i].label@;
    assert(label_map(s).dom().contains(k));
    let j = choose|j: int| 0 <= j < s.len() && s[j].label@ == k;
    assert(j == i);
}

/// The label of a file entry, or `None` when it is not an `ogg` file. A missing name
/// or extension is an `FSError`.
pub fn audio_label(file_name: Option<&str>, extension: Option<&str>) -> (r: Result<Option<String>, Error>)
    ensures
        match (file_name, extension) {
            (None, _) => r matches Err(Error::FSError(m)) && m@ == "Failed to get the filename for a file entry"@,
            (Some(_), None) => r matches Err(Error::FSError(m))
                && m@ == "Failed to get the extension for a file entry"@,
            (Some(name), Some(ext)) => match spec_label(name@, ext@) {
                None => r matches Ok(None),
                Some(l) => r matches Ok(Some(label)) && label@ == l,
            },
        },
{
    let name = match file_name {
        Some(n) => n,
        None => {
            return Err(Error::FSError(String::from_str("Failed to get the filename for a file entry")));
        },
    };
    let ext = match extension {
        Some(e) => e,
        None => {
            return Err(Error::FSError(String::from_str("Failed to get the extension for a file entry")));
        },
    };
    if String::from_str(ext) != String::from_str("ogg") {
        return Ok(None);
    }
    assert(ext@ == "ogg"@);
    let mut suffix = String::from_str(".");
    suffix.append(ext);
    proof {
        reveal_strlit(".");
        assert(suffix@.len() == ext@.len() + 1);
    }
    match strip_suffix(name, suffix.as_str()) {
        Some(label) => Ok(Some(label)),
        None => Ok(Some(String::from_str(name))),
    }
}

/// A file of the music folder: its name and extension, when it has them, and its path.
#[derive(Debug)]
pub struct FileEntry {
    pub file_name: Option<String>,
    pub extension: Option<String>,
    pub path: String,
}

/// The index `m` after indexing the entries `es` in order, and the explanation of the
/// `FSError` that stops it, if any: the first entry with no name or no extension stops
/// the indexing there.
pub open spec fn spec_index_files(m: Map<Seq<char>, Seq<char>>, es: Seq<FileEntry>) -> (
    Map<Seq<char>, Seq<char>>,
    Option<Seq<char>>,
)
    decreases es.len(),
{
    if es.len() == 0 {
        (m, None)
    } else {
        let e = es[0];
        match (e.file_name, e.extension) {
            (Some(name), Some(ext)) => match spec_label(name@, ext@) {
                Some(l) => spec_index_files(m.insert(l, e.path@), es.drop_first()),
                None => spec_index_files(m, es.drop_first()),
            },
            (None, _) => (m, Some("Failed to get the filename for a file entry"@)),
            (Some(_), None) => (m, Some("Failed to get the extension for a file entry"@)),
        }
    }
}

impl Player {
    /// The labels and their paths.
    pub open spec fn index_view(&self) -> Map<Seq<char>, Seq<char>> {
        label_map(self.audio_index@)
    }

    /// No label is indexed twice.
    pub open spec fn wf(&self) -> bool {
        labels_unique(self.audio_index@)
    }

    /// A player with an empty index.
    pub fn new() -> (r: Player)
        ensures
            r.wf(),
            r.index_view() == Map::<Seq<char>, Seq<char>>::empty(),
    {
        let r = Player { audio_index: Vec::new() };
        assert(r.index_view() =~= Map::<Seq<char>, Seq<char>>::empty());
        r
    }

    /// Indexes `path` under `label`, in place of any path indexed there before.
    pub fn insert(&mut self, label: String, path: String)
        requires
            old(self).wf(),
        ensures
            final(self).wf(),
            final(self).index_view() == old(self).index_view().insert(label@, path@),
    {
        let ghost before = self.audio_index@;
        let ghost k = label@;
        let ghost v = path@;
        let mut i: usize = 0;
        while i < self.audio_index.len()
            invariant
                self.audio_index@ == before,
                before == old(self).audio_index@,
                labels_unique(before),
                i <= self.audio_index.len(),
                k == label@,
                v == path@,
                forall|j: int| 0 <= j < i ==> self.audio_index@[j].label@ != k,
            decreases self.audio_index.len() - i,
        {
            if self.audio_index[i].label == label {
                self.audio_index.set(i, IndexedAudio { label, path });
                proof {
                    let after = self.audio_index@;
                    assert(labels_unique(after)) by {
                        assert forall|x: int, y: int| 0 <= x < y < after.len() implies after[x].label@ != after[y].label@ by {
                            assert(before[x].label@ != before[y].label@);
                        }
                    }
                    let nm = label_map(after);
                    let ex = label_map(before).insert(k, v);
                    assert forall|t: Seq<char>| nm.dom().contains(t) <==> ex.dom().contains(t) by {
                        if nm.dom().contains(t) {
                            let j = choose|j: int| 0 <= j < after.len() && after[j].label@ == t;
                            assert(before[j].label@ == t);
                        }
                        if ex.dom().contains(t) && t != k {
                            let j = choose|j: int| 0 <= j < before.len() && before[j].label@ == t;
                            assert(after[j].label@ == t);
                        }
                        if t == k {
                            assert(after[i as int].label@ == t);
                        }
                    }
                    assert(nm.dom() =~= ex.dom());
                    assert forall|t: Seq<char>| #[trigger] nm.dom().contains(t) implies nm[t] == ex[t] by {
                        let j = choose|j: int| 0 <= j < after.len() && after[j].label@ == t;
                        lemma_label_lookup(after, j);
                        if j != i {
                            assert(after[j] == before[j]);
                            lemma_label_lookup(before, j);
                        }
                    }
                    assert(nm =~= ex);
                }
                return;
            }
            i += 1;
        }
        self.audio_index.push(IndexedAudio { label, path });
        proof {
            let after = self.audio_index@;
            let n = before.len() as int;
            assert(labels_unique(after)) by {
                assert forall|x: int, y: int| 0 <= x < y < after.len() implies after[x].label@ != after[y].label@ by {
                    if y < n {
                        assert(before[x].label@ != before[y].label@);
                    }
                }
            }
            let nm = label_map(after);
            let ex = label_map(before).insert(k, v);
            assert forall|t: Seq<char>| nm.dom().contains(t) <==> ex.dom().contains(t) by {
                if nm.dom().contains(t) && t != k {
                    let j = choose|j: int| 0 <= j < after.len() && after[j].label@ == t;
                    assert(before[j].label@ == t);
                }
                if ex.dom().contains(t) && t != k {
                    let j = choose|j: int| 0 <= j < before.len() && before[j].label@ == t;
                    assert(after[j].label@ == t);
                }
                if t == k {
                    assert(after[n].label@ == t);
                }
            }
            assert(nm.dom() =~= ex.dom());
            assert forall|t: Seq<char>| #[trigger] nm.dom().contains(t) implies nm[t] == ex[t] by {
                let j = choose|j: int| 0 <= j < after.len() && after[j].label@ == t;
                lemma_label_lookup(after, j);
                if j < n {
                    lemma_label_lookup(before, j);
                }
            }
            assert(nm =~= ex);
        }
    }

    /// Indexes the files of the music folder in order, each `ogg` file under its label in
    /// place of any file indexed there before. A file with no name or no extension stops
    /// the indexing with an `FSError`, the files before it indexed.
    pub fn index_audio_files(&mut self, entries: &Vec<FileEntry>) -> (r: Result<(), Error>)
        requires
            old(self).wf(),
        ensures
            final(self).wf(),
            final(self).index_view() == spec_index_files(old(self).index_view(), entries@).0,
            match spec_index_files(old(self).index_view(), entries@).1 {
                None => r is Ok,
                Some(m) => r matches Err(Error::FSError(e)) && e@ == m,
            },
    {
        let mut i: usize = 0;
        assert(entries@.skip(0) =~= entries@);
        while i < entries.len()
            invariant
                self.wf(),
                i <= entries.len(),
                spec_index_files(old(self).index_view(), entries@) == spec_index_files(
                    self.index_view(),
                    entries@.skip(i as int),
                ),
            decreases entries.len() - i,
        {
            let entry = &entries[i];
            assert(entries@.skip(i as int)[0] == *entry);
            assert(entries@.skip(i as int).drop_first() =~= entries@.skip(i + 1));
            let name = match &entry.file_name {
                Some(n) => Some(n.as_str()),
                None => None,
            };
            let ext = match &entry.extension {
                Some(e) => Some(e.as_str()),
                None => None,
            };
            match audio_label(name, ext) {
                Ok(Some(label)) => {
                    self.insert(label, entry.path.clone());
                },
                Ok(None) => {},
                Err(e) => {
                    return Err(e);
                },
            }
            i += 1;
        }
        Ok(())
    }

    /// The path of the file indexed under `audio_label`, which the caller then plays,
    /// or a `NotFoundError` when there is none.
    pub fn play(&self, audio_label: &str) -> (r: Result<&String, Error>)
        requires
            self.wf(),
        ensures
            match r {
                Ok(p) => self.index_view().dom().contains(audio_label@) && p@ == self.index_view()[audio_label@],
                Err(e) => !self.index_view().dom().contains(audio_label@) && (e matches Error::NotFoundError(m)
                    && m@ == "the requested audio filese does not exist"@),
            },
    {
        let wanted = String::from_str(audio_label);
        let mut i: usize = 0;
        while i < self.audio_index.len()
            invariant
                self.wf(),
                wanted@ == audio_label@,
                i <= self.audio_index.len(),
                forall|j: int| 0 <= j < i ==> self.audio_index@[j].label@ != audio_label@,
            decreases self.audio_index.len() - i,
        {
            if self.audio_index[i].label == wanted {
                proof {
                    lemma_label_lookup(self.audio_index@, i as int);
                }
                return Ok(&self.audio_index[i].path);
            }
            i += 1;
        }
        Err(Error::NotFoundError(String::from_str("the requested audio filese does not exist")))
    }
}

} // verus!
