//! Operating modes: whether requests are recorded, replayed, or passed through.

use vstd::prelude::*;
use crate::text::{all_ascii, ascii_lower, owned, str_eq, to_lowercase};
use vstd::string::StringExecFns;

verus! {

/// How requests are handled.
#[derive(Debug, Clone, Copy, PartialEq, Eq, Structural)]
pub enum Mode {
    /// Make real requests and save them to the cassette.
    Record,
    /// Answer from the cassette; fail when nothing matches.
    Replay,
    /// Answer from the cassette when something matches, otherwise record.
    Auto,
    /// Make real requests without recording.
    Passthrough,
}

impl Default for Mode {
    fn default() -> (m: Self)
        ensures
            m == Mode::Auto,
    {
        Mode::Auto
    }
}

/// The name a mode is written as.
pub open spec fn mode_name(m: Mode) -> Seq<char> {
    match m {
        Mode::Record => "record"@,
        Mode::Replay => "replay"@,
        Mode::Auto => "auto"@,
        Mode::Passthrough => "passthrough"@,
    }
}

/// The mode named by an already-lowercased word, including the aliases
/// `playback` (replay) and `pass` (passthrough).
pub open spec fn mode_from_word(w: Seq<char>) -> Option<Mode> {
    if w == "record"@ {
        Some(Mode::Record)
    } else if w == "replay"@ || w == "playback"@ {
        Some(Mode::Replay)
    } else if w == "auto"@ {
        Some(Mode::Auto)
    } else if w == "passthrough"@ || w == "pass"@ {
        Some(Mode::Passthrough)
    } else {
        None
    }
}

/// The message for a word that names no mode.
pub open spec fn invalid_mode_message(s: Seq<char>) -> Seq<char> {
    "Invalid mode: "@ + s + ". Use record, replay, auto, or passthrough"@
}

impl Mode {
    /// Whether interactions are recorded in this mode.
    pub fn records(&self) -> (b: bool)
        ensures
            b == (*self == Mode::Record || *self == Mode::Auto),
    {
        match self {
            Mode::Record | Mode::Auto => true,
            _ => false,
        }
    }

    /// Whether the cassette is consulted in this mode.
    pub fn replays(&self) -> (b: bool)
        ensures
            b == (*self == Mode::Replay || *self == Mode::Auto),
    {
        match self {
            Mode::Replay | Mode::Auto => true,
            _ => false,
        }
    }

    /// Whether real HTTP requests may be made in this mode.
    pub fn allows_real_requests(&self) -> (b: bool)
        ensures
            b == (*self != Mode::Replay),
    {
        match self {
            Mode::Record | Mode::Auto | Mode::Passthrough => true,
            Mode::Replay => false,
        }
    }

    /// The mode's name, as `record`, `replay`, `auto` or `passthrough`.
    pub fn to_string(&self) -> (s: String)
        ensures
            s@ == mode_name(*self),
    {
        match self {
            Mode::Record => owned("record"),
            Mode::Replay => owned("replay"),
            Mode::Auto => owned("auto"),
            Mode::Passthrough => owned("passthrough"),
        }
    }

    /// The mode named by a lowercased word (see `mode_from_word`).
    pub fn from_word(w: &str) -> (m: Option<Mode>)
        ensures
            m == mode_from_word(w@),
    {
        proof {
            reveal_strlit("record");
            reveal_strlit("replay");
            reveal_strlit("playback");
            reveal_strlit("auto");
            reveal_strlit("passthrough");
            reveal_strlit("pass");
        }
        if str_eq(w, "record") {
            Some(Mode::Record)
        } else if str_eq(w, "replay") || str_eq(w, "playback") {
            Some(Mode::Replay)
        } else if str_eq(w, "auto") {
            Some(Mode::Auto)
        } else if str_eq(w, "passthrough") || str_eq(w, "pass") {
            Some(Mode::Passthrough)
        } else {
            None
        }
    }

    /// Parses a mode name, ignoring case. The word is lowercased with std's
    /// `to_lowercase`, which on ASCII text lowercases `A`..`Z` only.
    pub fn parse(s: &str) -> (r: Result<Mode, String>)
        ensures
            match mode_from_word(crate::text::lowercase(s@)) {
                Some(m) => r == Ok::<Mode, String>(m),
                None => r matches Err(msg) && msg@ == invalid_mode_message(s@),
            },
            all_ascii(s@) ==> match mode_from_word(ascii_lower(s@)) {
                Some(m) => r == Ok::<Mode, String>(m),
                None => r is Err,
            },
    {
        let lower = to_lowercase(s);
        match Mode::from_word(lower.as_str()) {
            Some(m) => Ok(m),
            None => {
                let mut msg = owned("Invalid mode: ");
                msg.append(s);
                msg.append(". Use record, replay, auto, or passthrough");
                Err(msg)
            },
        }
    }
}

impl std::str::FromStr for Mode {
    type Err = String;

    fn from_str(s: &str) -> (r: Result<Mode, String>)
        ensures
            match mode_from_word(crate::text::lowercase(s@)) {
                Some(m) => r == Ok::<Mode, String>(m),
                None => r matches Err(msg) && msg@ == invalid_mode_message(s@),
            },
            all_ascii(s@) ==> match mode_from_word(ascii_lower(s@)) {
                Some(m) => r == Ok::<Mode, String>(m),
                None => r is Err,
            },
    {
        Mode::parse(s)
    }
}

/// A mode's name is lowercase ASCII and reads back as the same mode.
pub proof fn lemma_mode_name_round_trip(m: Mode)
    ensures
        all_ascii(mode_name(m)),
        ascii_lower(mode_name(m)) == mode_name(m),
        mode_from_word(mode_name(m)) == Some(m),
{
    reveal_strlit("record");
    reveal_strlit("replay");
    reveal_strlit("playback");
    reveal_strlit("auto");
    reveal_strlit("passthrough");
    reveal_strlit("pass");
    let n = mode_name(m);
    assert(ascii_lower(n) =~= n);
    match m {
        Mode::Record => {},
        Mode::Replay => {
            assert(n[2] != "record"@[2]);
        },
        Mode::Auto => {
            assert(n.len() != "record"@.len());
            assert(n.len() != "replay"@.len());
            assert(n.len() != "playback"@.len());
        },
        Mode::Passthrough => {
            assert(n.len() != "record"@.len());
            assert(n.len() != "replay"@.len());
            assert(n.len() != "playback"@.len());
            assert(n.len() != "auto"@.len());
        },
    }
}

} // verus!
