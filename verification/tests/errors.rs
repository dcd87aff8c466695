use alex::error::Error;

#[test]
fn error_message_names_the_variant() {
    assert_eq!(Error::NotFoundError("no such audio".to_string()).to_message(), "NotFoundError: no such audio");
    assert_eq!(Error::ParseError(String::new()).to_message(), "ParseError: ");
    assert_eq!(Error::PlayerError("x".to_string()).to_message(), "PlayerError: x");
}
