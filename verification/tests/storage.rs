use alex::error::Error;
use alex::daemon::player::FileEntry;
use alex::player::storage::{audio_file_stem, scan_audio_files};
use alex::player::{Audio, Storage};
use std::collections::HashSet;
use std::time::Duration;

fn audio(name: &str) -> Audio {
    Audio::new(name.to_string(), "ogg".to_string(), format!("/music/{}.ogg", name), Duration::from_secs(180))
}

fn set(v: &[&str]) -> HashSet<String> {
    v.iter().map(|s| s.to_string()).collect()
}

fn storage(names: &[&str]) -> Storage {
    Storage::from_audios(names.iter().map(|n| audio(n)).collect())
}

#[test]
fn audio_id_is_sanitized_lowercase_name() {
    let a = audio("Back In Black (Live)");
    assert_eq!(a.get_id(), "back_in_black__live_");
    assert_eq!(a.get_title(), "Back In Black (Live)");
    assert_eq!(a.get_extension(), "ogg");
    assert_eq!(a.get_path(), "/music/Back In Black (Live).ogg");
    assert_eq!(a.get_duration(), Duration::from_secs(180));
}

#[test]
fn stem_of_ogg_file() {
    assert_eq!(audio_file_stem(Some("Thunder.Struck.ogg"), Some("ogg")), Ok("Thunder.Struck".to_string()));
}

#[test]
fn stem_errors() {
    assert_eq!(
        audio_file_stem(None, Some("ogg")),
        Err(Error::FSError("Failed to get the filename for a file entry".to_string()))
    );
    assert_eq!(
        audio_file_stem(Some("README"), None),
        Err(Error::FSError("Failed to get the extension for a file entry with name, README".to_string()))
    );
    assert_eq!(audio_file_stem(Some("song.mp3"), Some("mp3")), Err(Error::InvalidInputError(String::new())));
    assert_eq!(
        audio_file_stem(Some("song"), Some("ogg")),
        Err(Error::FSError("Invalid file name, song".to_string()))
    );
}

#[test]
fn get_audio_finds_stored_ids_only() {
    let s = storage(&["Hells Bells", "Thunderstruck"]);
    assert_eq!(s.get_audio(&"hells_bells".to_string()).unwrap().get_title(), "Hells Bells");
    assert!(matches!(s.get_audio(&"highway".to_string()), Err(Error::NotFoundError(_))));
    assert_eq!(s.audios().len(), 2);
}

#[test]
fn insert_replaces_same_id() {
    let mut s = storage(&["Hells Bells"]);
    let other = Audio::new("hells bells".to_string(), "ogg".to_string(), "/x/hells bells.ogg".to_string(), Duration::from_secs(1));
    s.insert_audio(other);
    assert_eq!(s.audios().len(), 1);
    assert_eq!(s.get_audio(&"hells_bells".to_string()).unwrap().get_path(), "/x/hells bells.ogg");
}

#[test]
fn candidates_by_prefix() {
    let s = storage(&["Back In Black", "Black Dog", "Hells Bells"]);
    let found: HashSet<String> = s.get_search_candidates(&["bla".to_string()]).into_iter().collect();
    assert_eq!(found, set(&["back_in_black", "black_dog"]));
    let found: HashSet<String> = s.get_search_candidates(&["b".to_string()]).into_iter().collect();
    assert_eq!(found, set(&["back_in_black", "black_dog", "hells_bells"]));
}

#[test]
fn candidates_by_distance() {
    let s = storage(&["Back In Black", "Hells Bells"]);
    // five bytes: distance below 2 matches
    let found: HashSet<String> = s.get_search_candidates(&["blacc".to_string()]).into_iter().collect();
    assert_eq!(found, set(&["back_in_black"]));
    // distance 2 does not
    assert!(s.get_search_candidates(&["blakc".to_string()]).is_empty());
    // two bytes: only prefixes count
    assert!(s.get_search_candidates(&["xb".to_string()]).is_empty());
}

#[test]
fn candidates_are_unique() {
    let s = storage(&["Bells Bells"]);
    let found = s.get_search_candidates(&["bells".to_string(), "bel".to_string()]);
    assert_eq!(found, vec!["bells_bells".to_string()]);
}

#[test]
fn stored_audio_found_by_each_own_token() {
    let s = storage(&["Highway To Hell", "Hells Bells", "TNT"]);
    for a in s.audios() {
        assert_eq!(s.get_audio(a.get_id()).unwrap().get_id(), a.get_id());
        for token in alex::utils::tokenize_string(a.get_id()) {
            assert!(s.get_search_candidates(&[token.clone()]).contains(a.get_id()));
        }
    }
}

fn entry(name: Option<&str>, ext: Option<&str>, path: &str) -> FileEntry {
    FileEntry { file_name: name.map(|n| n.to_string()), extension: ext.map(|e| e.to_string()), path: path.to_string() }
}

#[test]
fn scan_keeps_ogg_files_and_skips_others() {
    let entries = vec![
        entry(Some("Hells Bells.ogg"), Some("ogg"), "/m/Hells Bells.ogg"),
        entry(Some("cover.jpg"), Some("jpg"), "/m/cover.jpg"),
        entry(Some("Black Dog.ogg"), Some("ogg"), "/m/Black Dog.ogg"),
    ];
    let (files, failure) = scan_audio_files(&entries);
    assert!(failure.is_none());
    let found: Vec<(String, String)> = files.iter().map(|f| (f.stem.clone(), f.path.clone())).collect();
    assert_eq!(
        found,
        vec![
            ("Hells Bells".to_string(), "/m/Hells Bells.ogg".to_string()),
            ("Black Dog".to_string(), "/m/Black Dog.ogg".to_string()),
        ]
    );
}

#[test]
fn scan_stops_at_first_failure() {
    let entries = vec![
        entry(Some("a.ogg"), Some("ogg"), "/m/a.ogg"),
        entry(Some("README"), None, "/m/README"),
        entry(Some("b.ogg"), Some("ogg"), "/m/b.ogg"),
    ];
    let (files, failure) = scan_audio_files(&entries);
    assert_eq!(files.len(), 1);
    assert_eq!(failure, Some(Error::FSError("Failed to get the extension for a file entry with name, README".to_string())));
}

#[test]
fn generate_stores_scanned_audio_files() {
    let entries = vec![
        entry(Some("Hells Bells.ogg"), Some("ogg"), "/m/Hells Bells.ogg"),
        entry(Some("notes.txt"), Some("txt"), "/m/notes.txt"),
        entry(Some("Black Dog.ogg"), Some("ogg"), "/m/Black Dog.ogg"),
    ];
    let s = Storage::generate(&entries, vec![Duration::from_secs(312), Duration::from_secs(296)]).unwrap();
    assert_eq!(s.audios().len(), 2);
    let a = s.get_audio(&"hells_bells".to_string()).unwrap();
    assert_eq!(a.get_title(), "Hells Bells");
    assert_eq!(a.get_extension(), "ogg");
    assert_eq!(a.get_path(), "/m/Hells Bells.ogg");
    assert_eq!(a.get_duration(), Duration::from_secs(312));
    assert_eq!(s.get_audio(&"black_dog".to_string()).unwrap().get_duration(), Duration::from_secs(296));
    assert!(s.get_audio(&"notes".to_string()).is_err());
}

#[test]
fn generate_fails_on_a_bad_file_name() {
    let entries = vec![entry(Some("a.ogg"), Some("ogg"), "/m/a.ogg"), entry(None, None, "/m/..")];
    assert_eq!(
        Storage::generate(&entries, vec![Duration::from_secs(1)]).err(),
        Some(Error::FSError("Failed to get the filename for a file entry".to_string()))
    );
}

#[test]
fn stored_ids_are_lowercase_alnum_or_underscore() {
    let s = storage(&["AC/DC - Back In Black!", "Motörhead 1916"]);
    for a in s.audios() {
        assert_eq!(a.get_extension(), "ogg");
        assert!(a.get_id().chars().all(|c| c.is_ascii_lowercase() || c.is_ascii_digit() || c == '_'));
    }
    assert!(s.get_audio(&"ac_dc___back_in_black_".to_string()).is_ok());
    assert!(s.get_audio(&"mot_rhead_1916".to_string()).is_ok());
}
