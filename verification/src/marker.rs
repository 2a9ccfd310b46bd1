//! The marker protocol: how a cooperating shell announces the start and the
//! end of each command inside the stream.
//!
//! A marker is an operating-system-command sequence whose first parameter is
//! the private channel identifier agreed with the shell and whose second
//! parameter is one of the keywords `START`, `END` and `PWD`.

use vstd::prelude::*;
use crate::decimal::{exit_code_of, parse_exit_code};
use crate::text::{bytes_equal, from_utf8_lossy, lossy_text};

verus! {

/// The keyword `START`.
pub open spec fn start_keyword() -> Seq<u8> {
    seq![0x53u8, 0x54u8, 0x41u8, 0x52u8, 0x54u8]
}

/// The keyword `END`.
pub open spec fn end_keyword() -> Seq<u8> {
    seq![0x45u8, 0x4eu8, 0x44u8]
}

/// The keyword `PWD`.
pub open spec fn pwd_keyword() -> Seq<u8> {
    seq![0x50u8, 0x57u8, 0x44u8]
}

/// A marker as a mathematical value.
pub enum MarkerView {
    Start { command: Seq<char> },
    End { exit_code: i32 },
    Pwd { path: Seq<char> },
}

/// What a sequence on the marker channel announces.
#[derive(Debug, Clone, PartialEq, Eq)]
pub enum Marker {
    /// A command starts; `command` is its text, empty if the marker gave none.
    Start { command: String },
    /// The running command has ended with `exit_code`.
    End { exit_code: i32 },
    /// The shell's working directory is now `path`.
    Pwd { path: String },
}

impl View for Marker {
    type V = MarkerView;

    open spec fn view(&self) -> MarkerView {
        match self {
            Marker::Start { command } => MarkerView::Start { command: command@ },
            Marker::End { exit_code } => MarkerView::End { exit_code: *exit_code },
            Marker::Pwd { path } => MarkerView::Pwd { path: path@ },
        }
    }
}

/// The marker that a sequence with these parameters carries on `channel`, if
/// it carries one.
///
/// A sequence on another channel, with fewer than two parameters or with an
/// unknown keyword carries none. `START` takes the command text from the third
/// parameter, and an empty text where there is none. `END` takes the exit code
/// from the third parameter, and 0 where there is none or it is no number.
/// `PWD` without a path carries nothing.
pub open spec fn marker_of(channel: Seq<u8>, params: Seq<Seq<u8>>) -> Option<MarkerView> {
    if params.len() < 2 || params[0] != channel {
        None
    } else if params[1] == start_keyword() {
        Some(
            MarkerView::Start {
                command: if params.len() >= 3 {
                    lossy_text(params[2])
                } else {
                    Seq::empty()
                },
            },
        )
    } else if params[1] == end_keyword() {
        Some(
            MarkerView::End {
                exit_code: if params.len() >= 3 {
                    exit_code_of(params[2])
                } else {
                    0
                },
            },
        )
    } else if params[1] == pwd_keyword() && params.len() >= 3 {
        Some(MarkerView::Pwd { path: lossy_text(params[2]) })
    } else {
        None
    }
}

fn is_start_keyword(word: &[u8]) -> (yes: bool)
    ensures
        yes == (word@ == start_keyword()),
{
    let yes = word.len() == 5 && word[0] == 0x53 && word[1] == 0x54 && word[2] == 0x41 && word[3]
        == 0x52 && word[4] == 0x54;
    if yes {
        assert(word@ =~= start_keyword());
    }
    yes
}

fn is_end_keyword(word: &[u8]) -> (yes: bool)
    ensures
        yes == (word@ == end_keyword()),
{
    let yes = word.len() == 3 && word[0] == 0x45 && word[1] == 0x4e && word[2] == 0x44;
    if yes {
        assert(word@ =~= end_keyword());
    }
    yes
}

fn is_pwd_keyword(word: &[u8]) -> (yes: bool)
    ensures
        yes == (word@ == pwd_keyword()),
{
    let yes = word.len() == 3 && word[0] == 0x50 && word[1] == 0x57 && word[2] == 0x44;
    if yes {
        assert(word@ =~= pwd_keyword());
    }
    yes
}

/// Reads the marker out of the parameters of one sequence. Anything that is
/// not a marker on `channel` is no error: it gives `None`.
pub fn read_marker(channel: &[u8], params: &[Vec<u8>]) -> (marker: Option<Marker>)
    ensures
        match marker {
            Some(m) => marker_of(channel@, crate::term::param_bytes(params@)) == Some(m@),
            None => marker_of(channel@, crate::term::param_bytes(params@)) is None,
        },
{
    if params.len() < 2 || !bytes_equal(params[0].as_slice(), channel) {
        return None;
    }
    let keyword = params[1].as_slice();
    if is_start_keyword(keyword) {
        let command = if params.len() >= 3 {
            from_utf8_lossy(params[2].as_slice())
        } else {
            String::new()
        };
        Some(Marker::Start { command })
    } else if is_end_keyword(keyword) {
        let exit_code = if params.len() >= 3 {
            parse_exit_code(params[2].as_slice())
        } else {
            0
        };
        Some(Marker::End { exit_code })
    } else if is_pwd_keyword(keyword) && params.len() >= 3 {
        Some(Marker::Pwd { path: from_utf8_lossy(params[2].as_slice()) })
    } else {
        None
    }
}

} // verus!
