use alex::cli::{generate_request, SubCommand};
use alex::error::Error;
use alex::protocol::{AudioInput, PlayerSubCommand, Request};

fn input(id: &str, is_path: bool) -> AudioInput {
    AudioInput { id: id.to_string(), is_path }
}

#[test]
fn simple_subcommands() {
    assert_eq!(generate_request(&SubCommand::Status { sub_command: None }, None), Ok(Request::Status));
    assert_eq!(generate_request(&SubCommand::Reload, None), Ok(Request::Reload));
    assert_eq!(
        generate_request(&SubCommand::Next, None),
        Ok(Request::Player { sub_command: PlayerSubCommand::Next })
    );
    assert_eq!(
        generate_request(&SubCommand::Clear, None),
        Ok(Request::Player { sub_command: PlayerSubCommand::Clear })
    );
    assert_eq!(
        generate_request(&SubCommand::Search { search_term: Some("ac".to_string()) }, None),
        Ok(Request::Search { search_term: Some("ac".to_string()) })
    );
}

#[test]
fn daemon_sends_nothing() {
    assert_eq!(
        generate_request(&SubCommand::Daemon { root_folder_path: ".".to_string() }, None),
        Err(Error::IOError("Failed to correctly parse CLI arguments".to_string()))
    );
}

#[test]
fn play_by_id_or_path() {
    assert_eq!(
        generate_request(&SubCommand::Play { input: "  hells_bells \n".to_string() }, None),
        Ok(Request::Player { sub_command: PlayerSubCommand::Play { input: input("hells_bells", false) } })
    );
    assert_eq!(
        generate_request(&SubCommand::Play { input: "song.ogg".to_string() }, Some("/abs/song.ogg".to_string())),
        Ok(Request::Player { sub_command: PlayerSubCommand::Play { input: input("/abs/song.ogg", true) } })
    );
    assert_eq!(
        generate_request(&SubCommand::Play { input: "   ".to_string() }, None),
        Err(Error::InvalidInputError("You must provide a input with the play command".to_string()))
    );
}

#[test]
fn push_by_id() {
    assert_eq!(
        generate_request(&SubCommand::Push { input: " x ".to_string(), next: true }, None),
        Ok(Request::Player { sub_command: PlayerSubCommand::Push { input: input("x", false), next: true } })
    );
    assert_eq!(
        generate_request(&SubCommand::Push { input: "".to_string(), next: false }, None),
        Err(Error::InvalidInputError("You must provide a input with the push command".to_string()))
    );
}
