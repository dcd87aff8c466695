use alex::daemon::command::{self, reload_cmd, search_cmd, Action, Command, PlayerSubCommand};
use alex::daemon::player::{audio_label, FileEntry, Player};
use alex::error::Error;

fn entry(name: Option<&str>, ext: Option<&str>, path: &str) -> FileEntry {
    FileEntry { file_name: name.map(|s| s.to_string()), extension: ext.map(|s| s.to_string()), path: path.to_string() }
}

fn indexed() -> Player {
    let mut p = Player::new();
    p.index_audio_files(&vec![
        entry(Some("back_in_black.ogg"), Some("ogg"), "/m/back_in_black.ogg"),
        entry(Some("cover.jpg"), Some("jpg"), "/m/cover.jpg"),
        entry(Some("hells_bells.ogg"), Some("ogg"), "/m/hells_bells.ogg"),
    ])
    .unwrap();
    p
}

#[test]
fn labels_of_files() {
    assert_eq!(audio_label(Some("song.ogg"), Some("ogg")), Ok(Some("song".to_string())));
    assert_eq!(audio_label(Some("song.OGG.x"), Some("ogg")), Ok(Some("song.OGG.x".to_string())));
    assert_eq!(audio_label(Some("song.mp3"), Some("mp3")), Ok(None));
    assert_eq!(
        audio_label(None, Some("ogg")),
        Err(Error::FSError("Failed to get the filename for a file entry".to_string()))
    );
    assert_eq!(
        audio_label(Some("README"), None),
        Err(Error::FSError("Failed to get the extension for a file entry".to_string()))
    );
}

#[test]
fn index_skips_other_files() {
    let p = indexed();
    assert_eq!(p.audio_index.len(), 2);
    assert_eq!(p.play("hells_bells"), Ok(&"/m/hells_bells.ogg".to_string()));
    assert_eq!(
        p.play("cover"),
        Err(Error::NotFoundError("the requested audio filese does not exist".to_string()))
    );
}

#[test]
fn index_stops_at_unreadable_entry() {
    let mut p = Player::new();
    let r = p.index_audio_files(&vec![
        entry(Some("a.ogg"), Some("ogg"), "/m/a.ogg"),
        entry(Some("README"), None, "/m/README"),
        entry(Some("b.ogg"), Some("ogg"), "/m/b.ogg"),
    ]);
    assert!(matches!(r, Err(Error::FSError(_))));
    assert_eq!(p.audio_index.len(), 1);
}

#[test]
fn reindexing_replaces_paths() {
    let mut p = indexed();
    reload_cmd::handle(&mut p, &vec![entry(Some("hells_bells.ogg"), Some("ogg"), "/n/hells_bells.ogg")]).unwrap();
    assert_eq!(p.audio_index.len(), 2);
    assert_eq!(p.play("hells_bells"), Ok(&"/n/hells_bells.ogg".to_string()));
}

#[test]
fn search_lists_labels() {
    let p = indexed();
    let r = search_cmd::handle(&p, None);
    assert_eq!(r.data, vec!["OK", "SEARCH", "back_in_black", "hells_bells"]);
    let r = search_cmd::handle(&p, Some("x".to_string()));
    assert_eq!(r.data, vec!["ERROR", "SEARCH"]);
}

#[test]
fn command_actions() {
    let p = indexed();
    assert!(matches!(command::handle(Command::Reload, &p), Action::Reload));
    match command::handle(Command::Player(PlayerSubCommand::Play("back_in_black".to_string())), &p) {
        Action::PlayFile(path) => assert_eq!(path, "/m/back_in_black.ogg"),
        _ => panic!("expected a file to play"),
    }
    assert!(matches!(
        command::handle(Command::Player(PlayerSubCommand::Play("nope".to_string())), &p),
        Action::PlayFailed(Error::NotFoundError(_))
    ));
    assert!(matches!(command::handle(Command::Player(PlayerSubCommand::Pause), &p), Action::Pause));
    assert!(matches!(command::handle(Command::Player(PlayerSubCommand::Resume), &p), Action::Resume));
    assert!(matches!(command::handle(Command::Player(PlayerSubCommand::Clear), &p), Action::Clear));
    match command::handle(Command::Search(None), &p) {
        Action::Respond(r) => assert_eq!(r.data.len(), 4),
        _ => panic!(),
    }
}
