//! The errors of the player, the protocol and the daemon.
use vstd::prelude::*;
use vstd::string::StringExecFns;

verus! {

/// What went wrong; each variant carries a human readable explanation.
#[derive(Debug, PartialEq, Eq)]
pub enum Error {
    InvalidInputError(String),
    NotFoundError(String),
    IOError(String),
    FSError(String),
    ParseError(String),
    ProtocolError(String),
    StreamError(String),
    DecoderError(String),
    DeserializeError(String),
    LoftyError(String),
    ChannelSendError(String),
    ChannelReceiveError(String),
    PlayerError(String),
}

/// The name of the variant followed by `": "`, and the explanation it carries.
pub open spec fn spec_error_parts(e: Error) -> (Seq<char>, Seq<char>) {
    match e {
        Error::InvalidInputError(m) => ("InvalidInputError: "@, m@),
        Error::NotFoundError(m) => ("NotFoundError: "@, m@),
        Error::IOError(m) => ("IOError: "@, m@),
        Error::FSError(m) => ("FSError: "@, m@),
        Error::ParseError(m) => ("ParseError: "@, m@),
        Error::ProtocolError(m) => ("ProtocolError: "@, m@),
        Error::StreamError(m) => ("StreamError: "@, m@),
        Error::DecoderError(m) => ("DecoderError: "@, m@),
        Error::DeserializeError(m) => ("DeserializeError: "@, m@),
        Error::LoftyError(m) => ("LoftyError: "@, m@),
        Error::ChannelSendError(m) => ("ChannelSendError: "@, m@),
        Error::ChannelReceiveError(m) => ("ChannelReceiveError: "@, m@),
        Error::PlayerError(m) => ("PlayerError: "@, m@),
    }
}

/// The text by which an error is shown: the variant's name, `": "`, then its explanation.
pub open spec fn spec_error_message(e: Error) -> Seq<char> {
    spec_error_parts(e).0 + spec_error_parts(e).1
}

impl Error {
    /// The text by which the error is shown, such as `"NotFoundError: no such audio"`.
    pub fn to_message(&self) -> (r: String)
        ensures
            r@ == spec_error_message(*self),
    {
        let (prefix, m) = match self {
            Error::InvalidInputError(m) => ("InvalidInputError: ", m),
            Error::NotFoundError(m) => ("NotFoundError: ", m),
            Error::IOError(m) => ("IOError: ", m),
            Error::FSError(m) => ("FSError: ", m),
            Error::ParseError(m) => ("ParseError: ", m),
            Error::ProtocolError(m) => ("ProtocolError: ", m),
            Error::StreamError(m) => ("StreamError: ", m),
            Error::DecoderError(m) => ("DecoderError: ", m),
            Error::DeserializeError(m) => ("DeserializeError: ", m),
            Error::LoftyError(m) => ("LoftyError: ", m),
            Error::ChannelSendError(m) => ("ChannelSendError: ", m),
            Error::ChannelReceiveError(m) => ("ChannelReceiveError: ", m),
            Error::PlayerError(m) => ("PlayerError: ", m),
        };
        let mut out = String::from_str(prefix);
        out.append(m.as_str());
        out
    }
}

} // verus!
