//! The write side of a session: what a client's message asks of the
//! pseudo-terminal.

use vstd::prelude::*;
use vstd::slice::slice_to_vec;
use vstd::string::StringSliceAdditionalSpecFns;
use vstd::utf8::encode_utf8;

verus! {

/// The size of a terminal, in character cells and in pixels.
#[derive(Debug, Clone, Copy, PartialEq, Eq, Structural)]
pub struct TerminalSize {
    pub rows: u16,
    pub cols: u16,
    pub pixel_width: u16,
    pub pixel_height: u16,
}

impl TerminalSize {
    /// A size of `rows` by `cols` cells, with no pixel size given.
    pub fn cells(rows: u16, cols: u16) -> (size: TerminalSize)
        ensures
            size == (TerminalSize { rows, cols, pixel_width: 0, pixel_height: 0 }),
    {
        TerminalSize { rows, cols, pixel_width: 0, pixel_height: 0 }
    }
}

impl Default for TerminalSize {
    /// The size a session starts with: 24 rows of 80 columns.
    fn default() -> (size: TerminalSize)
        ensures
            size == (TerminalSize { rows: 24, cols: 80, pixel_width: 0, pixel_height: 0 }),
    {
        TerminalSize::cells(24, 80)
    }
}

/// A client's message as a mathematical value.
pub enum ClientMessageView {
    Input { data: Seq<char> },
    Run { data: Seq<char>, id: Seq<char> },
    Resize { cols: u16, rows: u16 },
}

/// A message from the client of a remote session.
#[derive(Debug, Clone, PartialEq, Eq)]
pub enum ClientMessage {
    /// Keystrokes, to be written as they are.
    Input { data: String },
    /// A command line to run. `id` is the client's own token for it; it is
    /// carried and not interpreted.
    Run { data: String, id: String },
    /// The client's terminal has a new size.
    Resize { cols: u16, rows: u16 },
}

impl View for ClientMessage {
    type V = ClientMessageView;

    open spec fn view(&self) -> ClientMessageView {
        match self {
            ClientMessage::Input { data } => ClientMessageView::Input { data: data@ },
            ClientMessage::Run { data, id } => ClientMessageView::Run { data: data@, id: id@ },
            ClientMessage::Resize { cols, rows } => ClientMessageView::Resize {
                cols: *cols,
                rows: *rows,
            },
        }
    }
}

/// A request to the pseudo-terminal as a mathematical value.
pub enum PtyRequestView {
    Write { bytes: Seq<u8> },
    Resize { size: TerminalSize },
}

/// What to ask of the pseudo-terminal.
#[derive(Debug, Clone, PartialEq, Eq)]
pub enum PtyRequest {
    /// Write these bytes to the shell, in one piece.
    Write { bytes: Vec<u8> },
    /// Give the terminal this size.
    Resize { size: TerminalSize },
}

impl View for PtyRequest {
    type V = PtyRequestView;

    open spec fn view(&self) -> PtyRequestView {
        match self {
            PtyRequest::Write { bytes } => PtyRequestView::Write { bytes: bytes@ },
            PtyRequest::Resize { size } => PtyRequestView::Resize { size: *size },
        }
    }
}

/// The request that a client's message stands for.
///
/// `Input` writes its text as UTF-8. `Run` writes its command line followed
/// by a newline, so that the shell runs it; the markers around the command are
/// the shell's own business. `Resize` gives the terminal the new size in
/// cells.
pub open spec fn request_for(message: ClientMessageView) -> PtyRequestView {
    match message {
        ClientMessageView::Input { data } => PtyRequestView::Write { bytes: encode_utf8(data) },
        ClientMessageView::Run { data, .. } => PtyRequestView::Write {
            bytes: encode_utf8(data).push(0x0a),
        },
        ClientMessageView::Resize { cols, rows } => PtyRequestView::Resize {
            size: TerminalSize { rows, cols, pixel_width: 0, pixel_height: 0 },
        },
    }
}

/// Turns a client's message into the request to make of the pseudo-terminal.
pub fn dispatch(message: &ClientMessage) -> (request: PtyRequest)
    ensures
        request@ == request_for(message@),
{
    match message {
        ClientMessage::Input { data } => PtyRequest::Write {
            bytes: slice_to_vec(data.as_str().as_bytes()),
        },
        ClientMessage::Run { data, id: _ } => {
            let mut bytes = slice_to_vec(data.as_str().as_bytes());
            bytes.push(0x0a);
            PtyRequest::Write { bytes }
        },
        ClientMessage::Resize { cols, rows } => PtyRequest::Resize {
            size: TerminalSize::cells(*rows, *cols),
        },
    }
}

} // verus!
