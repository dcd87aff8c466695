use alex::error::Error;
use alex::handlers::{self, player_h, reload_h, search_handler, status_h, EngineCommand, Step};
use alex::player::{Audio, Player, Storage};
use alex::protocol::{AudioInput, DisplayAudio, PlayerSubCommand, Request, Response, StatusData};
use std::collections::{HashSet, VecDeque};
use std::time::Duration;

fn audio(name: &str) -> Audio {
    Audio::new(name.to_string(), "ogg".to_string(), format!("/music/{}.ogg", name), Duration::from_secs(1))
}

fn player(names: &[&str]) -> Player {
    Player::new("/music".to_string(), Storage::from_audios(names.iter().map(|n| audio(n)).collect()))
}

fn play(id: &str) -> Request {
    Request::Player { sub_command: PlayerSubCommand::Play { input: AudioInput { id: id.to_string(), is_path: false } } }
}

fn error(m: &str) -> Response {
    Response::ERROR { message: m.to_string() }
}

#[test]
fn status_of_idle_player() {
    let p = player(&["Hells Bells"]);
    let r = status_h::handle(&p, true);
    assert_eq!(
        r,
        Response::StatusData(StatusData {
            current_audio: None,
            is_paused: true,
            is_queue_empty: true,
            queue: VecDeque::new(),
        })
    );
}

#[test]
fn play_then_status() {
    let mut p = player(&["Hells Bells", "Thunderstruck"]);
    p.push(&"thunderstruck".to_string(), false).unwrap();
    let step = handlers::handle(play("hells_bells"), &mut p, false);
    let a = match step {
        Step::Play(a) => a,
        _ => panic!("expected a play step"),
    };
    assert_eq!(a.get_title(), "Hells Bells");
    let r = player_h::finish_play(&mut p, &a, Ok(()));
    assert_eq!(r, Response::PlaybackStarted { title: "Hells Bells".to_string() });
    assert_eq!(p.get_current_audio(), &Some("hells_bells".to_string()));
    match status_h::handle(&p, false) {
        Response::StatusData(d) => {
            assert_eq!(
                d.current_audio,
                Some(DisplayAudio { id: "hells_bells".to_string(), title: "Hells Bells".to_string() })
            );
            assert_eq!(
                d.queue,
                VecDeque::from(vec![DisplayAudio { id: "thunderstruck".to_string(), title: "Thunderstruck".to_string() }])
            );
            assert!(!d.is_queue_empty);
        }
        _ => panic!("expected status data"),
    }
}

#[test]
fn failed_play() {
    let mut p = player(&["a"]);
    let r = player_h::finish_play(&mut p, &audio("a"), Err(Error::DecoderError("bad".to_string())));
    assert_eq!(r, error("Failed to play the audio"));
    assert_eq!(p.get_current_audio(), &None);
}

#[test]
fn play_unknown_id() {
    let mut p = player(&["a"]);
    match handlers::handle(play("zzz"), &mut p, false) {
        Step::Reply(r) => assert_eq!(r, error("Failed to get audio with the corresponding ID from the storage")),
        _ => panic!("expected a reply"),
    }
}

#[test]
fn device_commands() {
    let mut p = player(&["a", "b"]);
    p.populate_queue().unwrap();
    let pause = Request::Player { sub_command: PlayerSubCommand::Pause };
    assert!(matches!(handlers::handle(pause, &mut p, false), Step::Engine(EngineCommand::Pause, Response::Paused)));
    let resume = Request::Player { sub_command: PlayerSubCommand::Resume };
    assert!(matches!(handlers::handle(resume, &mut p, true), Step::Engine(EngineCommand::Resume, Response::Resumed)));
    let clear = Request::Player { sub_command: PlayerSubCommand::Clear };
    assert!(matches!(handlers::handle(clear, &mut p, false), Step::Engine(EngineCommand::ClearSink, Response::Cleared)));
    assert!(p.is_queue_empty());
}

fn push(id: &str, next: bool) -> Request {
    Request::Player { sub_command: PlayerSubCommand::Push { input: AudioInput { id: id.to_string(), is_path: false }, next } }
}

fn queue_of(p: &Player) -> Vec<String> {
    p.get_queue().iter().cloned().collect()
}

#[test]
fn push_queues_at_the_back_or_next() {
    let mut p = player(&["a", "b", "c"]);
    match handlers::handle(push("a", false), &mut p, false) {
        Step::Reply(r) => assert_eq!(r, Response::Pushed { title: "a".to_string() }),
        _ => panic!("expected a reply"),
    }
    match handlers::handle(push("b", false), &mut p, false) {
        Step::Reply(r) => assert_eq!(r, Response::Pushed { title: "b".to_string() }),
        _ => panic!("expected a reply"),
    }
    assert_eq!(queue_of(&p), vec!["a".to_string(), "b".to_string()]);
    match handlers::handle(push("c", true), &mut p, false) {
        Step::Reply(r) => assert_eq!(r, Response::Pushed { title: "c".to_string() }),
        _ => panic!("expected a reply"),
    }
    assert_eq!(queue_of(&p), vec!["c".to_string(), "a".to_string(), "b".to_string()]);
    assert_eq!(p.get_current_audio(), &None);
}

#[test]
fn push_unknown_id() {
    let mut p = player(&["a"]);
    match handlers::handle(push("zzz", true), &mut p, false) {
        Step::Reply(r) => assert_eq!(r, error("Failed to get audio with the corresponding ID from the storage")),
        _ => panic!("expected a reply"),
    }
    assert!(p.is_queue_empty());
}

#[test]
fn next_plays_the_front_of_the_queue() {
    let mut p = player(&["a", "b", "c"]);
    let next = || Request::Player { sub_command: PlayerSubCommand::Next };
    match handlers::handle(next(), &mut p, false) {
        Step::Reply(r) => assert_eq!(r, error("Failed to advance the playing queue")),
        _ => panic!("expected a reply"),
    }
    p.push(&"b".to_string(), false).unwrap();
    p.push(&"c".to_string(), false).unwrap();
    let a = match handlers::handle(next(), &mut p, false) {
        Step::Skip(a) => a,
        _ => panic!("expected a skip"),
    };
    assert_eq!(a.get_id(), "b");
    assert_eq!(queue_of(&p), vec!["c".to_string()]);
    let r = player_h::finish_next(&mut p, &a, Ok(()));
    assert_eq!(r, Response::Next { playing_audio: "b".to_string() });
    assert_eq!(p.get_current_audio(), &Some("b".to_string()));
    let failed = player_h::finish_next(&mut p, &audio("c"), Err(Error::DecoderError("bad".to_string())));
    assert_eq!(failed, error("Failed to advance the playing queue"));
    assert_eq!(p.get_current_audio(), &Some("b".to_string()));
}

#[test]
fn next_with_unknown_front() {
    let mut p = player(&["a", "b"]);
    p.push(&"a".to_string(), false).unwrap();
    p.reload_storage(Ok(Storage::from_audios(vec![audio("b")]))).unwrap();
    let next = Request::Player { sub_command: PlayerSubCommand::Next };
    match handlers::handle(next, &mut p, false) {
        Step::Reply(r) => assert_eq!(r, error("Failed to advance the playing queue")),
        _ => panic!("expected a reply"),
    }
    assert!(p.is_queue_empty());
}

#[test]
fn dispatch_matches_handlers() {
    let mut p = player(&["a"]);
    let direct = status_h::handle(&p, true);
    match handlers::handle(Request::Status, &mut p, true) {
        Step::Reply(r) => assert_eq!(r, direct),
        _ => panic!("expected a reply"),
    }
    let direct = search_handler::handle(&p, Some("a".to_string()));
    match handlers::handle(Request::Search { search_term: Some("a".to_string()) }, &mut p, true) {
        Step::Reply(r) => assert_eq!(r, direct),
        _ => panic!("expected a reply"),
    }
}

#[test]
fn search_requests() {
    let mut p = player(&["Back In Black", "Black Dog", "Hells Bells"]);
    let r = search_handler::handle(&p, Some("black".to_string()));
    match r {
        Response::SearchResults(ids) => {
            let found: HashSet<String> = ids.into_iter().collect();
            let expected: HashSet<String> = ["back_in_black", "black_dog"].iter().map(|s| s.to_string()).collect();
            assert_eq!(found, expected);
        }
        _ => panic!(),
    }
    match handlers::handle(Request::Search { search_term: None }, &mut p, false) {
        Step::Reply(Response::SearchResults(ids)) => assert_eq!(ids.len(), 3),
        _ => panic!(),
    }
}

#[test]
fn reload_requests() {
    let mut p = player(&["a"]);
    assert!(matches!(handlers::handle(Request::Reload, &mut p, false), Step::Reload));
    let r = reload_h::handle(&mut p, Err(Error::FSError("gone".to_string())));
    assert_eq!(r, error("Failed to reload the player audio storage"));
    let r = reload_h::handle(&mut p, Ok(Storage::from_audios(vec![audio("a"), audio("b")])));
    assert_eq!(r, Response::Reloaded);
    assert_eq!(p.storage().audios().len(), 2);
}

#[test]
fn status_with_unknown_current_audio() {
    let mut p = player(&["a"]);
    p.play(&audio("a"));
    p.reload_storage(Ok(Storage::from_audios(vec![]))).unwrap();
    assert_eq!(status_h::handle(&p, false), error("Failed to get audio from the storage"));
}
