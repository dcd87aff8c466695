use alex::cli::{StatusSubCommand, SubCommand};
use alex::client::{response_text, response_text_painted, status_text, status_text_painted};
use alex::error::Error;
use alex::protocol::{DisplayAudio, Response, StatusData};
use std::collections::VecDeque;

fn shown(id: &str, title: &str) -> DisplayAudio {
    DisplayAudio { id: id.to_string(), title: title.to_string() }
}

fn status(current: Option<DisplayAudio>) -> StatusData {
    StatusData {
        current_audio: current,
        is_paused: false,
        is_queue_empty: false,
        queue: VecDeque::from(vec![shown("black_dog", "Black Dog")]),
    }
}

fn purple(s: &str) -> String {
    format!("\x1b[35m{}\x1b[0m", s)
}

#[test]
fn current_audio_texts() {
    let d = status(Some(shown("hells_bells", "Hells Bells")));
    let sub = Some(StatusSubCommand::CurrentAudio);
    assert_eq!(status_text_painted(&sub, true, &d, String::new(), "P".to_string()), "Hells Bells");
    assert_eq!(status_text_painted(&sub, false, &d, String::new(), "P".to_string()), "> Current Audio: P\n");
    let idle = status(None);
    assert_eq!(status_text_painted(&sub, true, &idle, String::new(), String::new()), "NO AUDIO");
    assert_eq!(status_text_painted(&sub, false, &idle, String::new(), String::new()), "> No audio is playing\n");
    let t = status_text(&sub, false, &d, String::new());
    assert!(t == "> Current Audio: Hells Bells\n" || t == format!("> Current Audio: {}\n", purple("Hells Bells")));
}

#[test]
fn flag_texts() {
    let d = status(None);
    assert_eq!(status_text(&Some(StatusSubCommand::IsPaused), true, &d, String::new()), "false");
    assert_eq!(status_text(&Some(StatusSubCommand::IsPaused), false, &d, String::new()), "> false\n");
    assert_eq!(status_text(&Some(StatusSubCommand::IsQueueEmpty), true, &d, String::new()), "false");
    assert_eq!(status_text(&Some(StatusSubCommand::IsQueueEmpty), false, &d, String::new()), "> false\n");
}

#[test]
fn queue_and_whole_status_texts() {
    let d = status(None);
    assert_eq!(status_text(&Some(StatusSubCommand::Queue), true, &d, String::new()), format!("{:?}", d.queue));
    assert_eq!(status_text(&Some(StatusSubCommand::Queue), false, &d, String::new()), format!("> {:#?}\n", d.queue));
    assert_eq!(status_text(&None, true, &d, "{\"json\":1}".to_string()), "{\"json\":1}");
    assert_eq!(status_text(&None, false, &d, String::new()), format!("> {:#?}\n", d));
}

#[test]
fn answer_texts() {
    let sub = SubCommand::Next;
    let q = "Q".to_string();
    let p = "P".to_string();
    let played = Response::PlaybackStarted { title: "x".to_string() };
    assert_eq!(response_text_painted(&sub, false, &played, String::new(), q.clone(), p.clone()), Ok("> Playing QPQ\n".to_string()));
    let next = Response::Next { playing_audio: "x".to_string() };
    assert_eq!(response_text_painted(&sub, false, &next, String::new(), q.clone(), p.clone()), Ok("> Playing P\n".to_string()));
    let pushed = Response::Pushed { title: "x".to_string() };
    assert_eq!(response_text_painted(&sub, false, &pushed, String::new(), q, p), Ok("> Queued QPQ\n".to_string()));
    assert_eq!(response_text(&sub, false, &Response::Paused, String::new()), Ok("> Pausing playback\n".to_string()));
    assert_eq!(response_text(&sub, false, &Response::Resumed, String::new()), Ok("> Resuming playback\n".to_string()));
    assert_eq!(response_text(&sub, false, &Response::Cleared, String::new()), Ok("> Clearing player queue\n".to_string()));
    assert_eq!(response_text(&sub, false, &Response::Reloaded, String::new()), Ok("> Player reloaded\n".to_string()));
    let t = response_text(&sub, false, &played, String::new()).unwrap();
    assert!(t == "> Playing \"x\"\n" || t == format!("> Playing {}{}{}\n", purple("\""), purple("x"), purple("\"")));
}

#[test]
fn search_results_text() {
    let found = Response::SearchResults(vec!["back_in_black".to_string(), "black_dog".to_string()]);
    let sub = SubCommand::Search { search_term: Some("black".to_string()) };
    assert_eq!(response_text(&sub, false, &found, String::new()), Ok("-> back_in_black\n-> black_dog\n".to_string()));
}

#[test]
fn answer_errors() {
    let sub = SubCommand::Next;
    let err = Response::ERROR { message: "boom".to_string() };
    assert_eq!(response_text(&sub, false, &err, String::new()), Err(Error::ProtocolError("boom".to_string())));
    let d = Response::StatusData(status(None));
    assert_eq!(
        response_text(&sub, false, &d, String::new()),
        Err(Error::ProtocolError("Request and Response structure do not match".to_string()))
    );
    let status_sub = SubCommand::Status { sub_command: Some(StatusSubCommand::IsPaused) };
    assert_eq!(response_text(&status_sub, true, &d, String::new()), Ok("false".to_string()));
}
