use alex::daemon::command::{Command, PlayerSubCommand};
use alex::error::Error;
use alex::request::Request;

fn request(key: &str, lines: &[&str]) -> Request {
    let mut r = Request::new(key);
    r.data = lines.iter().map(|l| l.to_string()).collect();
    r
}

fn key_hash(key: &str) -> String {
    blake3::hash(key.as_bytes()).to_string()
}

fn parse_error(m: &str) -> Result<Command, Error> {
    Err(Error::ParseError(m.to_string()))
}

#[test]
fn new_request_hashes_the_key() {
    let r = Request::new("secret");
    assert!(r.data.is_empty());
    assert_eq!(r.private_key_hash, key_hash("secret"));
    assert_eq!(r.private_key_hash.len(), 64);
    assert_ne!(r.private_key_hash, "secret");
}

#[test]
fn empty_request_is_refused() {
    assert_eq!(request("k", &[]).to_cmd(), parse_error("invalid protocol structure, the parsed request has no data"));
}

#[test]
fn wrong_key_is_refused() {
    assert_eq!(
        request("k", &["not the hash", "RELOAD"]).to_cmd(),
        parse_error("invalid protocol structure, incorrect private key hash")
    );
}

#[test]
fn missing_command_line() {
    let h = key_hash("k");
    assert_eq!(request("k", &[&h]).to_cmd(), parse_error("invalid protocol structure, missing the command line"));
}

#[test]
fn reload_command() {
    let h = key_hash("k");
    assert_eq!(request("k", &[&h, "RELOAD"]).to_cmd(), Ok(Command::Reload));
}

#[test]
fn search_commands() {
    let h = key_hash("k");
    assert_eq!(request("k", &[&h, "SEARCH"]).to_cmd(), Ok(Command::Search(None)));
    assert_eq!(request("k", &[&h, "SEARCH", "ac dc"]).to_cmd(), Ok(Command::Search(Some("ac dc".to_string()))));
    assert_eq!(request("k", &[&h, "SEARCH", "  "]).to_cmd(), Ok(Command::Search(Some("  ".to_string()))));
}

#[test]
fn player_commands() {
    let h = key_hash("k");
    assert_eq!(
        request("k", &[&h, "PLAYER", "PLAY", "back_in_black"]).to_cmd(),
        Ok(Command::Player(PlayerSubCommand::Play("back_in_black".to_string())))
    );
    assert_eq!(request("k", &[&h, "PLAYER", "PAUSE"]).to_cmd(), Ok(Command::Player(PlayerSubCommand::Pause)));
    assert_eq!(request("k", &[&h, "PLAYER", "RESUME"]).to_cmd(), Ok(Command::Player(PlayerSubCommand::Resume)));
    assert_eq!(request("k", &[&h, "PLAYER", "CLEAR"]).to_cmd(), Ok(Command::Player(PlayerSubCommand::Clear)));
}

#[test]
fn player_errors() {
    let h = key_hash("k");
    assert_eq!(request("k", &[&h, "PLAYER"]).to_cmd(), parse_error("invalid protocol structure, missing the player line"));
    assert_eq!(request("k", &[&h, "PLAYER", "PLAY"]).to_cmd(), parse_error("invalid protocol structure, missing the player line"));
    assert_eq!(request("k", &[&h, "PLAYER", "STOP"]).to_cmd(), parse_error("invalid protocol structure"));
    assert_eq!(request("k", &[&h, "reload"]).to_cmd(), parse_error("invalid protocol structure"));
}
