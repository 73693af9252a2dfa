//! The values exchanged with the consumers of a session: commands in, frames
//! out.

use crate::text::{decode_lines, line_texts, text_lines};
use vstd::prelude::*;

verus! {

/// A command sent to the session.
#[derive(Debug)]
pub enum DunnetInput {
    /// End the session.
    Quit,
    /// Send a command to the program and get its response.
    Command(String),
}

impl Clone for DunnetInput {
    fn clone(&self) -> (copy: Self)
        ensures
            copy == *self,
    {
        match self {
            DunnetInput::Quit => DunnetInput::Quit,
            DunnetInput::Command(command) => DunnetInput::Command(command.clone()),
        }
    }
}

/// One completed unit of the child program's output.
#[derive(Debug)]
pub enum DunnetResponse {
    /// The program has terminated or the session was ended; carries any
    /// trailing output that was never followed by a prompt.
    Done(Vec<String>),
    /// One bounded chunk of output, the prompt marker stripped; the program
    /// now awaits another command.
    Output(Vec<String>),
}

/// What a frame says: whether it ends the session, and its lines of text.
pub struct ResponseView {
    pub done: bool,
    pub lines: Seq<Seq<char>>,
}

impl View for DunnetResponse {
    type V = ResponseView;

    open spec fn view(&self) -> ResponseView {
        match self {
            DunnetResponse::Done(lines) => ResponseView { done: true, lines: line_texts(lines@) },
            DunnetResponse::Output(lines) => ResponseView {
                done: false,
                lines: line_texts(lines@),
            },
        }
    }
}

impl DunnetResponse {
    /// The frame that ends a session without any output left to report.
    pub fn finished() -> (frame: DunnetResponse)
        ensures
            frame@ == (ResponseView { done: true, lines: Seq::empty() }),
    {
        let frame = DunnetResponse::Done(Vec::new());
        assert(frame@.lines =~= Seq::<Seq<char>>::empty());
        frame
    }

    /// Whether this frame ends the session.
    pub fn is_done(&self) -> (done: bool)
        ensures
            done == self@.done,
    {
        match self {
            DunnetResponse::Done(_) => true,
            DunnetResponse::Output(_) => false,
        }
    }

    /// The frame's lines of text.
    pub fn lines(&self) -> (lines: &Vec<String>)
        ensures
            line_texts(lines@) == self@.lines,
    {
        match self {
            DunnetResponse::Done(lines) => lines,
            DunnetResponse::Output(lines) => lines,
        }
    }
}

/// A frame before decoding: the accumulated bytes of one turn, the prompt
/// byte already dropped.
#[derive(Debug)]
pub struct RawFrame {
    /// Whether this frame ends the session.
    pub done: bool,
    /// The bytes of the turn.
    pub bytes: Vec<u8>,
}

/// The content of a `RawFrame`.
pub struct RawFrameView {
    pub done: bool,
    pub bytes: Seq<u8>,
}

/// The frame that consumers get for a raw frame: its bytes split into lines
/// and decoded.
pub open spec fn decoded(raw: RawFrameView) -> ResponseView {
    ResponseView { done: raw.done, lines: text_lines(raw.bytes) }
}

impl View for RawFrame {
    type V = RawFrameView;

    open spec fn view(&self) -> RawFrameView {
        RawFrameView { done: self.done, bytes: self.bytes@ }
    }
}

impl RawFrame {
    /// Decodes the frame's bytes into lines of text.
    pub fn decode(&self) -> (frame: DunnetResponse)
        ensures
            frame@ == decoded(self@),
    {
        let lines = decode_lines(self.bytes.as_slice());
        if self.done {
            DunnetResponse::Done(lines)
        } else {
            DunnetResponse::Output(lines)
        }
    }
}

} // verus!
