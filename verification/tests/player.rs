use alex::error::Error;
use alex::player::{Audio, Player, Storage, Tick};
use std::collections::HashSet;
use std::time::Duration;

fn audio(name: &str) -> Audio {
    Audio::new(name.to_string(), "ogg".to_string(), format!("/music/{}.ogg", name), Duration::from_secs(1))
}

fn player(names: &[&str]) -> Player {
    Player::new("/music".to_string(), Storage::from_audios(names.iter().map(|n| audio(n)).collect()))
}

fn queue_set(p: &Player) -> HashSet<String> {
    p.get_queue().iter().cloned().collect()
}

#[test]
fn new_player_is_idle() {
    let p = player(&["a", "b"]);
    assert_eq!(p.get_current_audio(), &None);
    assert!(p.is_queue_empty());
    assert_eq!(p.root_folder_path(), "/music");
}

#[test]
fn populate_queue_holds_every_other_audio_once() {
    let mut p = player(&["a", "b", "c", "d"]);
    p.play(&audio("b"));
    p.populate_queue().unwrap();
    assert_eq!(p.get_queue().len(), 3);
    let expected: HashSet<String> = ["a", "c", "d"].iter().map(|s| s.to_string()).collect();
    assert_eq!(queue_set(&p), expected);
}

#[test]
fn tick_states() {
    let mut p = player(&["a", "b"]);
    assert!(matches!(p.tick(true), Ok(Tick::Stopped)));
    // playing, empty queue: refilled with everything but the current audio
    p.play(&audio("a"));
    assert!(matches!(p.tick(false), Ok(Tick::Repopulated)));
    assert_eq!(queue_set(&p), ["b".to_string()].into_iter().collect());
    // playing, queue not empty: nothing happens
    assert!(matches!(p.tick(false), Ok(Tick::Playing)));
    assert_eq!(p.get_queue().len(), 1);
    // idle: the front of the queue is handed back to be played
    match p.tick(true) {
        Ok(Tick::PlayNext(next)) => {
            assert_eq!(next.get_id(), "b");
            p.play(&next);
        }
        _ => panic!("expected an audio to play"),
    }
    assert!(p.is_queue_empty());
    assert_eq!(p.get_current_audio(), &Some("b".to_string()));
    // idle and empty: stopped
    assert!(matches!(p.tick(true), Ok(Tick::Stopped)));
    assert_eq!(p.get_current_audio(), &None);
}

#[test]
fn tick_with_unknown_queued_id() {
    let mut p = player(&["a"]);
    p.play(&audio("a"));
    p.populate_queue().unwrap();
    assert!(p.is_queue_empty());
    let mut q = player(&["a", "b"]);
    q.populate_queue().unwrap();
    q.reload_storage(Ok(Storage::from_audios(vec![]))).unwrap();
    assert!(matches!(q.tick(true), Err(Error::NotFoundError(_))));
    assert_eq!(q.get_queue().len(), 1);
}

#[test]
fn reload_and_clear() {
    let mut p = player(&["a"]);
    assert_eq!(p.reload_storage(Err(Error::FSError("x".to_string()))), Err(Error::FSError("x".to_string())));
    assert_eq!(p.storage().audios().len(), 1);
    p.reload_storage(Ok(Storage::from_audios(vec![audio("a"), audio("b")]))).unwrap();
    assert_eq!(p.storage().audios().len(), 2);
    p.populate_queue().unwrap();
    assert_eq!(p.get_queue().len(), 2);
    p.clear_queue();
    assert!(p.is_queue_empty());
    match p.next() {
        Err(e) => assert_eq!(e, Error::PlayerError("The playing queue is empty".to_string())),
        Ok(_) => panic!("the queue is empty"),
    }
}

#[test]
fn next_and_push_on_the_player() {
    let mut p = player(&["a", "b"]);
    assert_eq!(p.push(&"a".to_string(), false), Ok(()));
    assert_eq!(p.push(&"b".to_string(), true), Ok(()));
    assert!(matches!(p.push(&"zzz".to_string(), true), Err(Error::NotFoundError(_))));
    let first = p.next().unwrap();
    assert_eq!(first.get_id(), "b");
    assert_eq!(p.get_current_audio(), &None);
    let second = p.next().unwrap();
    assert_eq!(second.get_id(), "a");
    assert!(p.is_queue_empty());
}
