use vstd::prelude::*;

use crate::player::{ControlCommand, MAX_VOLUME_STEP};
use crate::text::{
    chars_equal, chars_from, chars_of, lowercase, parse_u8, parse_u8_chars, starts_with,
    string_of, to_lowercase, trim, trim_chars,
};

verus! {

/// The answer written back on the control socket.
#[derive(Clone, Copy, Debug, PartialEq, Eq, Structural)]
pub enum Reply {
    /// The player's state, as the widget reads it.
    Status,
    /// The command was accepted.
    Accepted,
    /// `volume` with something other than a step from 0 to 10.
    InvalidVolume,
    /// A request the player does not know.
    UnknownCommand,
}

/// What the control socket does with a request line.
pub struct ControlRequest {
    /// The command handed to the player, if any.
    pub command: Option<ControlCommand>,
    /// The answer to write back.
    pub reply: Reply,
}

/// `t` with the prefix `word` removed (once).
pub open spec fn after_word(t: Seq<char>, word: Seq<char>) -> Seq<char> {
    t.subrange(word.len() as int, t.len() as int)
}

/// The answer to the request line `line`.
pub open spec fn reply_for(line: Seq<char>) -> Reply {
    let c = trim(line);
    if c == "status"@ {
        Reply::Status
    } else if c == "stop"@ || c == "next"@ {
        Reply::Accepted
    } else if "play "@.is_prefix_of(c) || "color "@.is_prefix_of(c) {
        Reply::Accepted
    } else if "volume "@.is_prefix_of(c) {
        match parse_u8(trim(after_word(c, "volume "@))) {
            Some(n) => if n <= MAX_VOLUME_STEP {
                Reply::Accepted
            } else {
                Reply::InvalidVolume
            },
            None => Reply::InvalidVolume,
        }
    } else {
        Reply::UnknownCommand
    }
}

/// The command handed to the player for the request line `line`: `stop`,
/// `next`, `play <station>` and `color <name>` (both lower-cased), and
/// `volume <step>` for a step from 0 to 10.
pub open spec fn command_for(line: Seq<char>, cmd: Option<ControlCommand>) -> bool {
    let c = trim(line);
    if c == "status"@ {
        cmd is None
    } else if c == "stop"@ {
        cmd matches Some(ControlCommand::Stop)
    } else if c == "next"@ {
        cmd matches Some(ControlCommand::Next)
    } else if "play "@.is_prefix_of(c) {
        cmd matches Some(ControlCommand::Play(q)) && q@ == lowercase(trim(after_word(c, "play "@)))
    } else if "color "@.is_prefix_of(c) {
        cmd matches Some(ControlCommand::Color(q)) && q@ == lowercase(
            trim(after_word(c, "color "@)),
        )
    } else if "volume "@.is_prefix_of(c) {
        match parse_u8(trim(after_word(c, "volume "@))) {
            Some(n) => if n <= MAX_VOLUME_STEP {
                cmd == Some(ControlCommand::Volume(n))
            } else {
                cmd is None
            },
            None => cmd is None,
        }
    } else {
        cmd is None
    }
}

fn is_word(c: &[char], w: &str) -> (r: bool)
    ensures
        r == (c@ == w@),
{
    chars_equal(c, &chars_of(w))
}

/// Reads one request line from the control socket.
pub fn handle_control_request(line: &str) -> (r: ControlRequest)
    ensures
        r.reply == reply_for(line@),
        command_for(line@, r.command),
{
    let c = trim_chars(&chars_of(line));
    if is_word(&c, "status") {
        return ControlRequest { command: None, reply: Reply::Status };
    }
    if is_word(&c, "stop") {
        return ControlRequest { command: Some(ControlCommand::Stop), reply: Reply::Accepted };
    }
    if is_word(&c, "next") {
        return ControlRequest { command: Some(ControlCommand::Next), reply: Reply::Accepted };
    }
    let play = chars_of("play ");
    if starts_with(&c, &play) {
        let q = to_lowercase(&trim_chars(&chars_from(&c, play.len())));
        return ControlRequest {
            command: Some(ControlCommand::Play(string_of(&q))),
            reply: Reply::Accepted,
        };
    }
    let color = chars_of("color ");
    if starts_with(&c, &color) {
        let q = to_lowercase(&trim_chars(&chars_from(&c, color.len())));
        return ControlRequest {
            command: Some(ControlCommand::Color(string_of(&q))),
            reply: Reply::Accepted,
        };
    }
    let volume = chars_of("volume ");
    if starts_with(&c, &volume) {
        let q = trim_chars(&chars_from(&c, volume.len()));
        return match parse_u8_chars(&q) {
            Some(step) if step <= MAX_VOLUME_STEP => ControlRequest {
                command: Some(ControlCommand::Volume(step)),
                reply: Reply::Accepted,
            },
            _ => ControlRequest { command: None, reply: Reply::InvalidVolume },
        };
    }
    ControlRequest { command: None, reply: Reply::UnknownCommand }
}

/// The text written back for an answer other than the state.
pub open spec fn reply_text(reply: Reply) -> Seq<char> {
    match reply {
        Reply::Accepted => "{\"ok\":true}"@,
        Reply::InvalidVolume => "{\"ok\":false,\"error\":\"invalid volume\"}"@,
        Reply::UnknownCommand => "{\"ok\":false,\"error\":\"unknown command\"}"@,
        Reply::Status => "{\"running\":false}"@,
    }
}

/// The text written back for `reply`; for `Status` it is the answer used
/// when the player's state cannot be read.
pub fn reply_message(reply: Reply) -> (s: &'static str)
    ensures
        s@ == reply_text(reply),
{
    match reply {
        Reply::Accepted => "{\"ok\":true}",
        Reply::InvalidVolume => "{\"ok\":false,\"error\":\"invalid volume\"}",
        Reply::UnknownCommand => "{\"ok\":false,\"error\":\"unknown command\"}",
        Reply::Status => "{\"running\":false}",
    }
}

} // verus!
