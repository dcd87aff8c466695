//! What the command line shows for an answer of the daemon.
use crate::cli::{StatusSubCommand, SubCommand};
use crate::error::Error;
use crate::player::AudioID;
use crate::protocol::response::{display_view, display_views};
use crate::protocol::{DisplayAudio, Response, StatusData};
use colored::Colorize;
use std::collections::VecDeque;
use vstd::prelude::*;
use vstd::string::StringExecFns;

verus! {

/// `s` between the escape sequences that turn the terminal's text purple and back.
pub open spec fn spec_styled(s: Seq<char>) -> Seq<char> {
    "\x1b[35m"@ + s + "\x1b[0m"@
}

/// Whether `r` is a text that painting `s` purple can give: `s` styled when colors are
/// on, `s` itself when they are off. Of an `s` that holds an escape character nothing is
/// said.
pub open spec fn spec_painted(s: Seq<char>, r: Seq<char>) -> bool {
    s.contains('\x1b') || r == s || r == spec_styled(s)
}

/// `s` painted purple with `colored::Colorize::purple`, as text. Trusted: `colored`
/// writes `s` between `ESC[35m` and `ESC[0m` when it decides, from the environment and
/// whether the output is a terminal, to use colors, and `s` alone otherwise. Where `s`
/// holds a reset sequence of its own `colored` rewrites it; that case is left unsaid.
#[verifier::external_body]
fn paint_purple(s: &str) -> (r: String)
    ensures
        spec_painted(s@, r@),
{
    s.purple().to_string()
}

/// The text that `{:?}` gives for a queue of audios with these ids and titles.
pub uninterp spec fn queue_debug_text(queue: Seq<(Seq<char>, Seq<char>)>) -> Seq<char>;

/// The text that `{:#?}` gives for a queue of audios with these ids and titles.
pub uninterp spec fn queue_pretty_text(queue: Seq<(Seq<char>, Seq<char>)>) -> Seq<char>;

/// The text that `{:#?}` gives for a status with this audio being played, pause state,
/// queue emptiness and queue.
pub uninterp spec fn status_pretty_text(
    current: Option<(Seq<char>, Seq<char>)>,
    is_paused: bool,
    is_queue_empty: bool,
    queue: Seq<(Seq<char>, Seq<char>)>,
) -> Seq<char>;

/// The `Debug` text of `queue`, as `format!("{:?}", ..)` writes it. Trusted: the text
/// depends on the ids and titles alone.
#[verifier::external_body]
fn debug_queue(queue: &VecDeque<DisplayAudio>) -> (r: String)
    ensures
        r@ == queue_debug_text(display_views(queue@)),
{
    format!("{:?}", queue)
}

/// The pretty `Debug` text of `queue`, as `format!("{:#?}", ..)` writes it. Trusted: the
/// text depends on the ids and titles alone.
#[verifier::external_body]
fn pretty_queue(queue: &VecDeque<DisplayAudio>) -> (r: String)
    ensures
        r@ == queue_pretty_text(display_views(queue@)),
{
    format!("{:#?}", queue)
}

/// The audio being played, the pause state, the queue emptiness and the queue of `d`.
pub open spec fn status_view(d: StatusData) -> (
    Option<(Seq<char>, Seq<char>)>,
    bool,
    bool,
    Seq<(Seq<char>, Seq<char>)>,
) {
    (
        match d.current_audio {
            Some(a) => Some(display_view(a)),
            None => None,
        },
        d.is_paused,
        d.is_queue_empty,
        display_views(d.queue@),
    )
}

/// The pretty `Debug` text of `data`, as `format!("{:#?}", ..)` writes it. Trusted: the
/// text depends on the fields alone.
#[verifier::external_body]
fn pretty_status(data: &StatusData) -> (r: String)
    ensures
        r@ == ({
            let v = status_view(*data);
            status_pretty_text(v.0, v.1, v.2, v.3)
        }),
{
    format!("{:#?}", data)
}

/// `true` or `false`.
pub open spec fn spec_bool_text(b: bool) -> Seq<char> {
    if b {
        "true"@
    } else {
        "false"@
    }
}

fn bool_text(b: bool) -> (r: String)
    ensures
        r@ == spec_bool_text(b),
{
    if b {
        String::from_str("true")
    } else {
        String::from_str("false")
    }
}

/// `"> "`, `s` and a line break.
pub open spec fn spec_line(s: Seq<char>) -> Seq<char> {
    "> "@ + s + "\n"@
}

fn line(s: &str) -> (r: String)
    ensures
        r@ == spec_line(s@),
{
    let mut r = String::from_str("> ");
    r.append(s);
    r.append("\n");
    r
}

/// The title of the audio being played in `d`, or nothing.
pub open spec fn spec_current_title(d: StatusData) -> Seq<char> {
    match d.current_audio {
        Some(a) => a.title@,
        None => ""@,
    }
}

/// The text that `alex status` prints for `d`, asked for `sub_command`: with
/// `just_info`, the bare value (the title of the audio being played or `NO AUDIO`,
/// `true` or `false`, the queue as `{:?}` writes it, or the whole status as `json`);
/// without it, a line for people (with `painted`, the title painted purple). `json` is
/// the status as JSON.
pub open spec fn spec_status_text(
    sub_command: Option<StatusSubCommand>,
    just_info: bool,
    d: StatusData,
    json: Seq<char>,
    painted: Seq<char>,
) -> Seq<char> {
    match sub_command {
        Some(StatusSubCommand::CurrentAudio) => match d.current_audio {
            Some(a) => if just_info {
                a.title@
            } else {
                spec_line("Current Audio: "@ + painted)
            },
            None => if just_info {
                "NO AUDIO"@
            } else {
                spec_line("No audio is playing"@)
            },
        },
        Some(StatusSubCommand::IsPaused) => if just_info {
            spec_bool_text(d.is_paused)
        } else {
            spec_line(spec_bool_text(d.is_paused))
        },
        Some(StatusSubCommand::IsQueueEmpty) => if just_info {
            spec_bool_text(d.is_queue_empty)
        } else {
            spec_line(spec_bool_text(d.is_queue_empty))
        },
        Some(StatusSubCommand::Queue) => if just_info {
            queue_debug_text(display_views(d.queue@))
        } else {
            spec_line(queue_pretty_text(display_views(d.queue@)))
        },
        None => if just_info {
            json
        } else {
            let v = status_view(d);
            spec_line(status_pretty_text(v.0, v.1, v.2, v.3))
        },
    }
}

/// The text of the status `data` for `sub_command`, `painted` being the title of the
/// audio being played painted purple.
pub fn status_text_painted(
    sub_command: &Option<StatusSubCommand>,
    just_info: bool,
    data: &StatusData,
    json: String,
    painted: String,
) -> (r: String)
    ensures
        r@ == spec_status_text(*sub_command, just_info, *data, json@, painted@),
{
    match sub_command {
        Some(StatusSubCommand::CurrentAudio) => match &data.current_audio {
            Some(a) => if just_info {
                a.title.clone()
            } else {
                let mut s = String::from_str("Current Audio: ");
                s.append(painted.as_str());
                line(s.as_str())
            },
            None => if just_info {
                String::from_str("NO AUDIO")
            } else {
                line("No audio is playing")
            },
        },
        Some(StatusSubCommand::IsPaused) => {
            let b = bool_text(data.is_paused);
            if just_info {
                b
            } else {
                line(b.as_str())
            }
        },
        Some(StatusSubCommand::IsQueueEmpty) => {
            let b = bool_text(data.is_queue_empty);
            if just_info {
                b
            } else {
                line(b.as_str())
            }
        },
        Some(StatusSubCommand::Queue) => if just_info {
            debug_queue(&data.queue)
        } else {
            line(pretty_queue(&data.queue).as_str())
        },
        None => if just_info {
            json
        } else {
            line(pretty_status(data).as_str())
        },
    }
}

/// The text that `alex status` prints for the status `data`, asked for `sub_command`:
/// as [`spec_status_text`] gives it, the title of the audio being played painted purple
/// or not as `colored` decides. `json` is the status as JSON.
pub fn status_text(sub_command: &Option<StatusSubCommand>, just_info: bool, data: &StatusData, json: String) -> (r:
    String)
    ensures
        exists|p: Seq<char>|
            spec_painted(spec_current_title(*data), p) && r@ == #[trigger] spec_status_text(
                *sub_command,
                just_info,
                *data,
                json@,
                p,
            ),
{
    let painted = match &data.current_audio {
        Some(a) => paint_purple(a.title.as_str()),
        None => paint_purple(""),
    };
    assert(spec_painted(spec_current_title(*data), painted@));
    status_text_painted(sub_command, just_info, data, json, painted)
}

/// The lines `-> id` for each id of `ids`, in order.
pub open spec fn spec_search_text(ids: Seq<AudioID>) -> Seq<char>
    decreases ids.len(),
{
    if ids.len() == 0 {
        Seq::empty()
    } else {
        spec_search_text(ids.drop_last()) + "-> "@ + ids.last()@ + "\n"@
    }
}

/// The text that is painted purple in the answer `resp`: the title or id of the audio it
/// names, if any.
pub open spec fn spec_paint_subject(resp: Response) -> Seq<char> {
    match resp {
        Response::PlaybackStarted { title } => title@,
        Response::Next { playing_audio } => playing_audio@,
        Response::Pushed { title } => title@,
        Response::StatusData(d) => spec_current_title(d),
        _ => ""@,
    }
}

/// What the command line makes of the answer `resp` to `sub_command`: the text it prints,
/// or the explanation of the `ProtocolError` it fails with (an `ERROR` answer, or a status
/// answer to anything but `status`). `quote` is `"` painted purple, `painted` the
/// subject of the answer painted purple, `json` the status as JSON.
pub open spec fn spec_response_text(
    sub_command: SubCommand,
    just_info: bool,
    resp: Response,
    json: Seq<char>,
    quote: Seq<char>,
    painted: Seq<char>,
) -> Result<Seq<char>, Seq<char>> {
    match resp {
        Response::PlaybackStarted { .. } => Ok(spec_line("Playing "@ + quote + painted + quote)),
        Response::Next { .. } => Ok(spec_line("Playing "@ + painted)),
        Response::Pushed { .. } => Ok(spec_line("Queued "@ + quote + painted + quote)),
        Response::Paused => Ok(spec_line("Pausing playback"@)),
        Response::Resumed => Ok(spec_line("Resuming playback"@)),
        Response::Cleared => Ok(spec_line("Clearing player queue"@)),
        Response::Reloaded => Ok(spec_line("Player reloaded"@)),
        Response::SearchResults(ids) => Ok(spec_search_text(ids@)),
        Response::StatusData(d) => match sub_command {
            SubCommand::Status { sub_command } => Ok(spec_status_text(sub_command, just_info, d, json, painted)),
            _ => Err("Request and Response structure do not match"@),
        },
        Response::ERROR { message } => Err(message@),
    }
}

fn search_text(ids: &Vec<AudioID>) -> (r: String)
    ensures
        r@ == spec_search_text(ids@),
{
    let mut out = String::new();
    let mut i: usize = 0;
    while i < ids.len()
        invariant
            i <= ids.len(),
            out@ == spec_search_text(ids@.take(i as int)),
        decreases ids.len() - i,
    {
        assert(ids@.take(i + 1).drop_last() =~= ids@.take(i as int));
        out.append("-> ");
        out.append(ids[i].as_str());
        out.append("\n");
        i += 1;
    }
    assert(ids@.take(i as int) =~= ids@);
    out
}

/// `"> "`, `a`, `b`, `c`, `d` and a line break.
fn line_of(a: &str, b: &str, c: &str, d: &str) -> (r: String)
    ensures
        r@ == spec_line(a@ + b@ + c@ + d@),
{
    let mut s = String::from_str(a);
    s.append(b);
    s.append(c);
    s.append(d);
    line(s.as_str())
}

/// The text of the answer `response` to `sub_command`, `quote` being `"` painted purple
/// and `painted` the subject of the answer painted purple; an `ERROR` answer, or a status
/// answer to anything but `status`, is a `ProtocolError`.
pub fn response_text_painted(
    sub_command: &SubCommand,
    just_info: bool,
    response: &Response,
    json: String,
    quote: String,
    painted: String,
) -> (r: Result<String, Error>)
    ensures
        match spec_response_text(*sub_command, just_info, *response, json@, quote@, painted@) {
            Ok(t) => r matches Ok(s) && s@ == t,
            Err(m) => r matches Err(Error::ProtocolError(e)) && e@ == m,
        },
{
    proof {
        reveal_strlit("");
    }
    match response {
        Response::PlaybackStarted { .. } => Ok(line_of("Playing ", quote.as_str(), painted.as_str(), quote.as_str())),
        Response::Next { .. } => Ok(line_of("Playing ", painted.as_str(), "", "")),
        Response::Pushed { .. } => Ok(line_of("Queued ", quote.as_str(), painted.as_str(), quote.as_str())),
        Response::Paused => Ok(line("Pausing playback")),
        Response::Resumed => Ok(line("Resuming playback")),
        Response::Cleared => Ok(line("Clearing player queue")),
        Response::Reloaded => Ok(line("Player reloaded")),
        Response::SearchResults(ids) => Ok(search_text(ids)),
        Response::StatusData(d) => match sub_command {
            SubCommand::Status { sub_command } => Ok(status_text_painted(sub_command, just_info, d, json, painted)),
            _ => Err(Error::ProtocolError(String::from_str("Request and Response structure do not match"))),
        },
        Response::ERROR { message } => Err(Error::ProtocolError(message.clone())),
    }
}

/// What the command line makes of the answer `response` to `sub_command`, as
/// [`spec_response_text`] gives it, the quotes and the subject of the answer painted
/// purple or not as `colored` decides. `json` is the status as JSON, when the answer is
/// one.
pub fn response_text(sub_command: &SubCommand, just_info: bool, response: &Response, json: String) -> (r: Result<
    String,
    Error,
>)
    ensures
        exists|q: Seq<char>, p: Seq<char>|
            spec_painted("\""@, q) && spec_painted(spec_paint_subject(*response), p) && match #[trigger] spec_response_text(
                *sub_command,
                just_info,
                *response,
                json@,
                q,
                p,
            ) {
                Ok(t) => r matches Ok(s) && s@ == t,
                Err(m) => r matches Err(Error::ProtocolError(e)) && e@ == m,
            },
{
    let quote = paint_purple("\"");
    let painted = match response {
        Response::PlaybackStarted { title } => paint_purple(title.as_str()),
        Response::Next { playing_audio } => paint_purple(playing_audio.as_str()),
        Response::Pushed { title } => paint_purple(title.as_str()),
        Response::StatusData(d) => match &d.current_audio {
            Some(a) => paint_purple(a.title.as_str()),
            None => paint_purple(""),
        },
        _ => paint_purple(""),
    };
    assert(spec_painted(spec_paint_subject(*response), painted@));
    response_text_painted(sub_command, just_info, response, json, quote, painted)
}

/// Each `status` query prints what it asks for: the title of the audio being played (or
/// `NO AUDIO`), the pause state, the queue emptiness, the queue or the whole status; with
/// `just_info` the bare value, else `"> "`, the value and a line break (the title of the
/// audio being played then as `painted`, its painted form, after `Current Audio: `).
pub proof fn law_status_text_cases(
    sub_command: Option<StatusSubCommand>,
    just_info: bool,
    d: StatusData,
    json: Seq<char>,
    painted: Seq<char>,
    r: Seq<char>,
)
    requires
        r == spec_status_text(sub_command, just_info, d, json, painted),
    ensures
        sub_command == Some(StatusSubCommand::CurrentAudio) ==> match d.current_audio {
            Some(a) => r == if just_info {
                a.title@
            } else {
                "> "@ + "Current Audio: "@ + painted + "\n"@
            },
            None => r == if just_info {
                "NO AUDIO"@
            } else {
                "> "@ + "No audio is playing"@ + "\n"@
            },
        },
        sub_command == Some(StatusSubCommand::IsPaused) ==> r == if just_info {
            if d.is_paused {
                "true"@
            } else {
                "false"@
            }
        } else {
            "> "@ + (if d.is_paused {
                "true"@
            } else {
                "false"@
            }) + "\n"@
        },
        sub_command == Some(StatusSubCommand::IsQueueEmpty) ==> r == if just_info {
            if d.is_queue_empty {
                "true"@
            } else {
                "false"@
            }
        } else {
            "> "@ + (if d.is_queue_empty {
                "true"@
            } else {
                "false"@
            }) + "\n"@
        },
        sub_command == Some(StatusSubCommand::Queue) ==> r == if just_info {
            queue_debug_text(display_views(d.queue@))
        } else {
            "> "@ + queue_pretty_text(display_views(d.queue@)) + "\n"@
        },
        sub_command is None ==> r == if just_info {
            json
        } else {
            "> "@ + status_pretty_text(status_view(d).0, d.is_paused, d.is_queue_empty, display_views(d.queue@))
                + "\n"@
        },
{
    match sub_command {
        Some(StatusSubCommand::CurrentAudio) => {
            assert(("> "@ + ("Current Audio: "@ + painted) + "\n"@) =~= ("> "@ + "Current Audio: "@ + painted
                + "\n"@));
        },
        _ => {},
    }
}

/// `s` painted purple or not: `s` itself, or `s` between `ESC[35m` and `ESC[0m`.
proof fn lemma_painted_forms(s: Seq<char>, r: Seq<char>)
    requires
        spec_painted(s, r),
        !s.contains('\x1b'),
    ensures
        r == s || r == "\x1b[35m"@ + s + "\x1b[0m"@,
{
}

/// The lines of a search answer, written one after the other.
proof fn lemma_search_text_fold(ids: Seq<AudioID>)
    ensures
        spec_search_text(ids) == ids.fold_left(Seq::<char>::empty(), |acc: Seq<char>, id: AudioID| acc + "-> "@ + id@ + "\n"@),
    decreases ids.len(),
{
    if ids.len() > 0 {
        lemma_search_text_fold(ids.drop_last());
    }
}

/// What the command line makes of each answer: a `Next` answer prints the id of the audio
/// now playing, a `PlaybackStarted` or `Pushed` answer the title of the audio in quotes,
/// each painted purple or not; the device answers print their fixed lines; a search
/// answer prints `-> id` and a line break for each id found, in order; a status answer
/// to `status` prints the status text, and to anything else fails; an `ERROR` answer
/// fails with its message. Painting is said of texts without an escape character.
pub proof fn law_response_text_cases(
    sub_command: SubCommand,
    just_info: bool,
    response: Response,
    json: Seq<char>,
    r: Result<String, Error>,
)
    requires
        exists|q: Seq<char>, p: Seq<char>|
            spec_painted("\""@, q) && spec_painted(spec_paint_subject(response), p) && match #[trigger] spec_response_text(
                sub_command,
                just_info,
                response,
                json,
                q,
                p,
            ) {
                Ok(t) => r matches Ok(s) && s@ == t,
                Err(m) => r matches Err(Error::ProtocolError(e)) && e@ == m,
            },
    ensures
        response matches Response::Next { playing_audio } ==> !playing_audio@.contains('\x1b') ==> (r matches Ok(s)
            && (s@ == "> Playing "@ + playing_audio@ + "\n"@ || s@ == "> Playing "@ + "\x1b[35m"@ + playing_audio@
            + "\x1b[0m"@ + "\n"@)),
        response matches Response::PlaybackStarted { title } ==> !title@.contains('\x1b') ==> (r matches Ok(s)
            && exists|q: Seq<char>, p: Seq<char>|
            (q == "\""@ || q == "\x1b[35m"@ + "\""@ + "\x1b[0m"@) && (p == title@ || p == "\x1b[35m"@ + title@
                + "\x1b[0m"@) && s@ == "> Playing "@ + q + p + q + "\n"@),
        response matches Response::Pushed { title } ==> !title@.contains('\x1b') ==> (r matches Ok(s)
            && exists|q: Seq<char>, p: Seq<char>|
            (q == "\""@ || q == "\x1b[35m"@ + "\""@ + "\x1b[0m"@) && (p == title@ || p == "\x1b[35m"@ + title@
                + "\x1b[0m"@) && s@ == "> Queued "@ + q + p + q + "\n"@),
        response is Paused ==> (r matches Ok(s) && s@ == "> Pausing playback\n"@),
        response is Resumed ==> (r matches Ok(s) && s@ == "> Resuming playback\n"@),
        response is Cleared ==> (r matches Ok(s) && s@ == "> Clearing player queue\n"@),
        response is Reloaded ==> (r matches Ok(s) && s@ == "> Player reloaded\n"@),
        response matches Response::SearchResults(ids) ==> (r matches Ok(s) && s@ == ids@.fold_left(
            Seq::<char>::empty(),
            |acc: Seq<char>, id: AudioID| acc + "-> "@ + id@ + "\n"@,
        )),
        response matches Response::StatusData(d) ==> match sub_command {
            SubCommand::Status { sub_command } => r matches Ok(s) && exists|p: Seq<char>|
                (d.current_audio matches Some(a) ==> (a.title@.contains('\x1b') || p == a.title@ || p == "\x1b[35m"@
                    + a.title@ + "\x1b[0m"@)) && s@ == #[trigger] spec_status_text(
                    sub_command,
                    just_info,
                    d,
                    json,
                    p,
                ),
            _ => r matches Err(Error::ProtocolError(e)) && e@ == "Request and Response structure do not match"@,
        },
        response matches Response::ERROR { message } ==> (r matches Err(Error::ProtocolError(e)) && e@ == message@),
{
    let (q, p) = choose|q: Seq<char>, p: Seq<char>|
        spec_painted("\""@, q) && spec_painted(spec_paint_subject(response), p) && match #[trigger] spec_response_text(
            sub_command,
            just_info,
            response,
            json,
            q,
            p,
        ) {
            Ok(t) => r matches Ok(s) && s@ == t,
            Err(m) => r matches Err(Error::ProtocolError(e)) && e@ == m,
        };
    reveal_strlit("\"");
    assert(!"\""@.contains('\x1b'));
    lemma_painted_forms("\""@, q);
    match response {
        Response::Next { playing_audio } => {
            if !playing_audio@.contains('\x1b') {
                lemma_painted_forms(playing_audio@, p);
                assert(("> "@ + ("Playing "@ + p) + "\n"@) =~= ("> Playing "@ + p + "\n"@)) by {
                    reveal_strlit("> ");
                    reveal_strlit("Playing ");
                    reveal_strlit("> Playing ");
                }
                assert(("> Playing "@ + ("\x1b[35m"@ + playing_audio@ + "\x1b[0m"@) + "\n"@) =~= ("> Playing "@
                    + "\x1b[35m"@ + playing_audio@ + "\x1b[0m"@ + "\n"@));
            }
        },
        Response::PlaybackStarted { title } => {
            if !title@.contains('\x1b') {
                lemma_painted_forms(title@, p);
                assert(("> "@ + ("Playing "@ + q + p + q) + "\n"@) =~= ("> Playing "@ + q + p + q + "\n"@)) by {
                    reveal_strlit("> ");
                    reveal_strlit("Playing ");
                    reveal_strlit("> Playing ");
                }
            }
        },
        Response::Pushed { title } => {
            if !title@.contains('\x1b') {
                lemma_painted_forms(title@, p);
                assert(("> "@ + ("Queued "@ + q + p + q) + "\n"@) =~= ("> Queued "@ + q + p + q + "\n"@)) by {
                    reveal_strlit("> ");
                    reveal_strlit("Queued ");
                    reveal_strlit("> Queued ");
                }
            }
        },
        Response::Paused => {
            assert(("> "@ + "Pausing playback"@ + "\n"@) =~= "> Pausing playback\n"@) by {
                reveal_strlit("> ");
                reveal_strlit("Pausing playback");
                reveal_strlit("\n");
                reveal_strlit("> Pausing playback\n");
            }
        },
        Response::Resumed => {
            assert(("> "@ + "Resuming playback"@ + "\n"@) =~= "> Resuming playback\n"@) by {
                reveal_strlit("> ");
                reveal_strlit("Resuming playback");
                reveal_strlit("\n");
                reveal_strlit("> Resuming playback\n");
            }
        },
        Response::Cleared => {
            assert(("> "@ + "Clearing player queue"@ + "\n"@) =~= "> Clearing player queue\n"@) by {
                reveal_strlit("> ");
                reveal_strlit("Clearing player queue");
                reveal_strlit("\n");
                reveal_strlit("> Clearing player queue\n");
            }
        },
        Response::Reloaded => {
            assert(("> "@ + "Player reloaded"@ + "\n"@) =~= "> Player reloaded\n"@) by {
                reveal_strlit("> ");
                reveal_strlit("Player reloaded");
                reveal_strlit("\n");
                reveal_strlit("> Player reloaded\n");
            }
        },
        Response::SearchResults(ids) => {
            lemma_search_text_fold(ids@);
        },
        Response::StatusData(d) => {
            if let SubCommand::Status { sub_command: sc } = sub_command {
                assert(spec_status_text(sc, just_info, d, json, p) == spec_status_text(sc, just_info, d, json, p));
            }
        },
        Response::ERROR { .. } => {},
    }
}

/// `status` prints the title of the audio being played itself, painted purple or not:
/// asked for the current audio without `just_info`, the line is `> Current Audio: `, the
/// title or the title between `ESC[35m` and `ESC[0m`, and a line break (said of titles
/// without an escape character).
pub proof fn law_status_text_shows_current_title(
    sub_command: Option<StatusSubCommand>,
    just_info: bool,
    d: StatusData,
    json: Seq<char>,
    r: Seq<char>,
)
    requires
        exists|p: Seq<char>|
            spec_painted(spec_current_title(d), p) && r == #[trigger] spec_status_text(sub_command, just_info, d, json, p),
    ensures
        sub_command == Some(StatusSubCommand::CurrentAudio) && !just_info ==> (d.current_audio matches Some(a) ==> (
        !a.title@.contains('\x1b') ==> (r == "> Current Audio: "@ + a.title@ + "\n"@ || r == "> Current Audio: "@
            + "\x1b[35m"@ + a.title@ + "\x1b[0m"@ + "\n"@))),
{
    let p = choose|p: Seq<char>|
        spec_painted(spec_current_title(d), p) && r == #[trigger] spec_status_text(sub_command, just_info, d, json, p);
    if sub_command == Some(StatusSubCommand::CurrentAudio) && !just_info {
        if let Some(a) = d.current_audio {
            if !a.title@.contains('\x1b') {
                assert(("> "@ + ("Current Audio: "@ + p) + "\n"@) =~= ("> Current Audio: "@ + p + "\n"@)) by {
                    reveal_strlit("> ");
                    reveal_strlit("Current Audio: ");
                    reveal_strlit("> Current Audio: ");
                }
                assert(("> Current Audio: "@ + ("\x1b[35m"@ + a.title@ + "\x1b[0m"@) + "\n"@) =~= ("> Current Audio: "@
                    + "\x1b[35m"@ + a.title@ + "\x1b[0m"@ + "\n"@));
            }
        }
    }
}

} // verus!
