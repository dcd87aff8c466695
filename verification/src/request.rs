//! A request of the line-based protocol: the lines a client sent, checked against
//! the hash of the daemon's private key and turned into a [`Command`].
use crate::daemon::command::{Command, CommandView, PlayerSubCommand, PlayerSubCommandView};
use crate::error::Error;
use vstd::prelude::*;
use vstd::string::StringExecFns;
use vstd::string::StringSliceAdditionalSpecFns;

verus! {

/// The lowercase hexadecimal BLAKE3 digest of `input`, as `blake3::hash(input).to_string()` gives it.
pub uninterp spec fn blake3_hex_digest(input: Seq<u8>) -> Seq<char>;

/// Calls `blake3::hash` on `input` and formats the digest with its `Display` impl.
/// Trusted: the text is the name [`blake3_hex_digest`] of the bytes, and it has 64
/// characters (two lowercase hex digits for each of the 32 bytes of the digest,
/// as `Hash::to_hex` writes them).
#[verifier::external_body]
fn blake3_hex(input: &[u8]) -> (r: String)
    ensures
        r@ == blake3_hex_digest(input@),
        r@.len() == 64,
{
    blake3::hash(input).to_string()
}

/// A request as read from a connection: one string per line, and the hash of the
/// private key that its first line must carry.
#[derive(Debug)]
pub struct Request {
    pub data: Vec<String>,
    pub private_key_hash: String,
}

/// What a request with lines `data` means, for a daemon whose key hash is `key_hash`:
/// the command, or the explanation of the `ParseError` it is refused with.
pub open spec fn spec_parse(data: Seq<Seq<char>>, key_hash: Seq<char>) -> Result<CommandView, Seq<char>> {
    if data.len() == 0 {
        Err("invalid protocol structure, the parsed request has no data"@)
    } else if data[0] != key_hash {
        Err("invalid protocol structure, incorrect private key hash"@)
    } else if data.len() < 2 {
        Err("invalid protocol structure, missing the command line"@)
    } else if data[1] == "RELOAD"@ {
        Ok(CommandView::Reload)
    } else if data[1] == "SEARCH"@ {
        if data.len() > 2 {
            Ok(CommandView::Search(Some(data[2])))
        } else {
            Ok(CommandView::Search(None))
        }
    } else if data[1] == "PLAYER"@ {
        if data.len() < 3 {
            Err("invalid protocol structure, missing the player line"@)
        } else if data[2] == "PLAY"@ {
            if data.len() < 4 {
                Err("invalid protocol structure, missing the player line"@)
            } else {
                Ok(CommandView::Player(PlayerSubCommandView::Play(data[3])))
            }
        } else if data[2] == "PAUSE"@ {
            Ok(CommandView::Player(PlayerSubCommandView::Pause))
        } else if data[2] == "RESUME"@ {
            Ok(CommandView::Player(PlayerSubCommandView::Resume))
        } else if data[2] == "CLEAR"@ {
            Ok(CommandView::Player(PlayerSubCommandView::Clear))
        } else {
            Err("invalid protocol structure"@)
        }
    } else {
        Err("invalid protocol structure"@)
    }
}

/// A request whose first line is not the hash of the daemon's private key is refused,
/// whatever follows it.
pub proof fn law_wrong_key_refused(data: Seq<Seq<char>>, key_hash: Seq<char>)
    requires
        data.len() > 0,
        data[0] != key_hash,
    ensures
        spec_parse(data, key_hash) == Err::<CommandView, Seq<char>>(
            "invalid protocol structure, incorrect private key hash"@,
        ),
{
}

/// Whether two strings have the same characters.
fn same_text(a: &String, b: &str) -> (r: bool)
    ensures
        r == (a@ == b@),
{
    let b = String::from_str(b);
    *a == b
}

impl Request {
    /// An empty request for a daemon whose private key is `private_key`: no lines yet,
    /// and the BLAKE3 hash of the key's UTF-8 bytes.
    pub fn new(private_key: &str) -> (r: Request)
        ensures
            r.data@.len() == 0,
            r.private_key_hash@ == blake3_hex_digest(private_key.spec_bytes()),
    {
        Request { private_key_hash: blake3_hex(private_key.as_bytes()), data: Vec::new() }
    }

    /// The lines of the request, each as a sequence of characters.
    pub open spec fn lines(&self) -> Seq<Seq<char>> {
        self.data@.map_values(|l: String| l@)
    }

    /// The command the request carries. The first line must be the key hash, the
    /// second names the command (`RELOAD`, `SEARCH` with an optional term, or `PLAYER`
    /// followed by `PLAY <label>`, `PAUSE`, `RESUME` or `CLEAR`); anything else is a
    /// `ParseError`, with the explanation that [`spec_parse`] gives.
    pub fn to_cmd(&self) -> (r: Result<Command, Error>)
        ensures
            match spec_parse(self.lines(), self.private_key_hash@) {
                Ok(c) => r matches Ok(cmd) && cmd@ == c,
                Err(m) => r matches Err(Error::ParseError(e)) && e@ == m,
            },
    {
        let total_lines = self.data.len();
        if total_lines == 0 {
            return Err(Error::ParseError(
                String::from_str("invalid protocol structure, the parsed request has no data"),
            ));
        }
        assert(self.lines()[0] == self.data@[0]@);
        if self.data[0] != self.private_key_hash {
            return Err(Error::ParseError(
                String::from_str("invalid protocol structure, incorrect private key hash"),
            ));
        }
        if total_lines < 2 {
            return Err(Error::ParseError(
                String::from_str("invalid protocol structure, missing the command line"),
            ));
        }
        let command_line = &self.data[1];
        assert(self.lines()[1] == command_line@);
        if same_text(command_line, "RELOAD") {
            Ok(Command::Reload)
        } else if same_text(command_line, "SEARCH") {
            if total_lines > 2 {
                assert(self.lines()[2] == self.data@[2]@);
                Ok(Command::Search(Some(self.data[2].clone())))
            } else {
                Ok(Command::Search(None))
            }
        } else if same_text(command_line, "PLAYER") {
            if total_lines < 3 {
                return Err(Error::ParseError(
                    String::from_str("invalid protocol structure, missing the player line"),
                ));
            }
            let player_line = &self.data[2];
            assert(self.lines()[2] == player_line@);
            if same_text(player_line, "PLAY") {
                if total_lines < 4 {
                    return Err(Error::ParseError(
                        String::from_str("invalid protocol structure, missing the player line"),
                    ));
                }
                assert(self.lines()[3] == self.data@[3]@);
                Ok(Command::Player(PlayerSubCommand::Play(self.data[3].clone())))
            } else if same_text(player_line, "PAUSE") {
                Ok(Command::Player(PlayerSubCommand::Pause))
            } else if same_text(player_line, "RESUME") {
                Ok(Command::Player(PlayerSubCommand::Resume))
            } else if same_text(player_line, "CLEAR") {
                Ok(Command::Player(PlayerSubCommand::Clear))
            } else {
                Err(Error::ParseError(String::from_str("invalid protocol structure")))
            }
        } else {
            Err(Error::ParseError(String::from_str("invalid protocol structure")))
        }
    }
}

} // verus!
