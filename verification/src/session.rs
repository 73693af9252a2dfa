//! The session: serialises the exchanges with the child program.
//!
//! A session decides; its driver does the input and output. Each operation
//! begins with a call that says what the driver must do next: write a command
//! to the child, await the next frame, or hand a frame to the caller at once.
//! The driver reports how a write went with [`DunnetRepl::wrote`] and every
//! frame that arrives with [`DunnetRepl::response`].
//!
//! A session is driven by one caller at a time, which `&mut self` enforces.

use crate::frame::{DunnetInput, DunnetResponse, ResponseView};
use crate::toggle::{ToggleSender, ToggleState};
use vstd::prelude::*;
use vstd::string::{StrSliceExecFns, StringExecFns};

verus! {

/// How many frames the queue between framer and session holds before the
/// framer is held back.
pub const QUEUE_DEPTH: usize = 100;

/// How far a session has come.
#[derive(Debug, Clone, Copy, PartialEq, Eq, Structural)]
pub enum SessionPhase {
    /// Commands are accepted and frames are passed on.
    Active,
    /// Shutdown has been signalled and the closing frame is awaited.
    Quitting,
    /// The closing frame has been delivered, or the child's input is broken.
    Ended,
}

/// Why an operation of the session failed.
#[derive(Debug, Clone, Copy, PartialEq, Eq, Structural)]
pub enum SessionError {
    /// The command could not be written to the child's input.
    WriteFailed,
}

/// What the driver of a session does next.
#[derive(Debug)]
pub enum SessionStep {
    /// Hand this frame to the caller; the operation is complete.
    Deliver(DunnetResponse),
    /// Write this text to the child's input, flush, and report with `wrote`.
    Write(String),
    /// Await the next frame and report it with `response`.
    Await,
}

/// The content of a `SessionStep`.
pub enum SessionStepView {
    Deliver(ResponseView),
    Write(Seq<char>),
    Await,
}

impl View for SessionStep {
    type V = SessionStepView;

    open spec fn view(&self) -> SessionStepView {
        match self {
            SessionStep::Deliver(frame) => SessionStepView::Deliver(frame@),
            SessionStep::Write(text) => SessionStepView::Write(text@),
            SessionStep::Await => SessionStepView::Await,
        }
    }
}

/// The frame that a session delivers once it has ended: `Done`, without lines.
pub open spec fn closing_frame() -> ResponseView {
    ResponseView { done: true, lines: Seq::empty() }
}

/// The text written for `command`: the command itself where it ends with a
/// line feed, else the command and a line feed.
pub open spec fn normalized(command: Seq<char>) -> Seq<char> {
    if command.len() > 0 && command.last() == '\n' {
        command
    } else {
        command.push('\n')
    }
}

/// How a session in `phase` begins a command exchange: an ended session
/// answers at once, one that is shutting down only awaits its closing frame,
/// an active one has the normalized command written.
pub open spec fn begin_command(phase: SessionPhase, command: Seq<char>) -> SessionStepView {
    match phase {
        SessionPhase::Ended => SessionStepView::Deliver(closing_frame()),
        SessionPhase::Quitting => SessionStepView::Await,
        SessionPhase::Active => SessionStepView::Write(normalized(command)),
    }
}

/// How a session in `phase` begins to wait for a frame.
pub open spec fn begin_wait(phase: SessionPhase) -> SessionStepView {
    if phase == SessionPhase::Ended {
        SessionStepView::Deliver(closing_frame())
    } else {
        SessionStepView::Await
    }
}

/// The phase that shutdown leaves a session in.
pub open spec fn phase_after_quit(phase: SessionPhase) -> SessionPhase {
    if phase == SessionPhase::Ended {
        SessionPhase::Ended
    } else {
        SessionPhase::Quitting
    }
}

/// What a session in `phase` makes of the arrival of `received`, where `None`
/// says that the queue of frames is closed: the next phase, and the frame to
/// deliver, if any.
///
/// An ended session delivers the closing frame. A closed queue ends the
/// session with the closing frame. A `Done` frame is delivered and ends the
/// session. An `Output` frame is delivered by an active session, and skipped
/// by one that is shutting down, which goes on waiting.
pub open spec fn respond(phase: SessionPhase, received: Option<ResponseView>) -> (
    SessionPhase,
    Option<ResponseView>,
) {
    if phase == SessionPhase::Ended {
        (SessionPhase::Ended, Some(closing_frame()))
    } else {
        match received {
            None => (SessionPhase::Ended, Some(closing_frame())),
            Some(frame) => if frame.done {
                (SessionPhase::Ended, Some(frame))
            } else if phase == SessionPhase::Quitting {
                (SessionPhase::Quitting, None)
            } else {
                (SessionPhase::Active, Some(frame))
            },
        }
    }
}

/// The first frame that a session in `phase` delivers while `received` arrive
/// one after the other, if it delivers any, and the phase it is in then.
pub open spec fn first_delivery(phase: SessionPhase, received: Seq<Option<ResponseView>>) -> (
    SessionPhase,
    Option<ResponseView>,
)
    decreases received.len(),
{
    if received.len() == 0 {
        (phase, None)
    } else {
        let (next, out) = respond(phase, received[0]);
        if out is Some {
            (next, out)
        } else {
            first_delivery(next, received.skip(1))
        }
    }
}

/// Whether `received` closes a session: the queue is closed, or the frame is
/// `Done`.
pub open spec fn closes(received: Option<ResponseView>) -> bool {
    match received {
        None => true,
        Some(frame) => frame.done,
    }
}

/// After shutdown was requested, the frame that the session delivers is
/// `Done` and ends the session, however many frames were still unconsumed.
/// It is delivered as soon as the closing frame arrives or the queue closes.
pub proof fn lemma_quit_delivers_done(received: Seq<Option<ResponseView>>)
    ensures
        match first_delivery(SessionPhase::Quitting, received).1 {
            Some(frame) => frame.done && first_delivery(SessionPhase::Quitting, received).0
                == SessionPhase::Ended,
            None => first_delivery(SessionPhase::Quitting, received).0 == SessionPhase::Quitting,
        },
        (exists|k: int| 0 <= k < received.len() && closes(received[k])) ==> first_delivery(
            SessionPhase::Quitting,
            received,
        ).1 is Some,
    decreases received.len(),
{
    if received.len() > 0 {
        let (next, out) = respond(SessionPhase::Quitting, received[0]);
        if out is None {
            let later = received.skip(1);
            lemma_quit_delivers_done(later);
            if exists|k: int| 0 <= k < received.len() && closes(received[k]) {
                let k = choose|k: int| 0 <= k < received.len() && closes(received[k]);
                assert(k > 0);
                assert(later[k - 1] == received[k]);
                assert(closes(later[k - 1]));
            }
        }
    }
}

/// Once a session has ended, every operation delivers the closing frame at
/// once, and the session stays ended.
pub proof fn lemma_ended_stays_ended(command: Seq<char>, received: Option<ResponseView>)
    ensures
        begin_wait(SessionPhase::Ended) == SessionStepView::Deliver(closing_frame()),
        begin_command(SessionPhase::Ended, command) == SessionStepView::Deliver(closing_frame()),
        phase_after_quit(SessionPhase::Ended) == SessionPhase::Ended,
        respond(SessionPhase::Ended, received) == (SessionPhase::Ended, Some(closing_frame())),
{
}

/// An active session passes every frame on as it came, and a session that
/// has delivered a `Done` frame has ended.
pub proof fn lemma_active_passes_frames(frame: ResponseView)
    ensures
        respond(SessionPhase::Active, Some(frame)).1 == Some(frame),
        respond(SessionPhase::Active, Some(frame)).0 == (if frame.done {
            SessionPhase::Ended
        } else {
            SessionPhase::Active
        }),
{
}

/// Appends a line feed to `input` unless it ends with one.
pub fn normalize_command(input: String) -> (command: String)
    ensures
        command@ == normalized(input@),
{
    let mut command = input;
    let count = command.as_str().unicode_len();
    if count == 0 || command.as_str().get_char(count - 1) != '\n' {
        proof {
            reveal_strlit("\n");
        }
        command.append("\n");
        assert(command@ =~= input@.push('\n'));
    }
    command
}

/// The session of one child program.
#[derive(Debug)]
pub struct DunnetRepl {
    /// Signals the framer that no more input will come.
    input_done_tx: ToggleSender,
    /// How far the session has come.
    phase: SessionPhase,
}

impl DunnetRepl {
    /// The phase that the session is in.
    pub closed spec fn phase(&self) -> SessionPhase {
        self.phase
    }

    /// The flag with which the session signals shutdown.
    pub closed spec fn signal(&self) -> ToggleState {
        self.input_done_tx.flag()
    }

    /// Whether the session has signalled shutdown.
    pub closed spec fn has_signalled(&self) -> bool {
        self.input_done_tx.has_fired()
    }

    /// A fresh, active session that signals shutdown through `input_done_tx`.
    pub fn new(input_done_tx: ToggleSender) -> (repl: Self)
        ensures
            repl.phase() == SessionPhase::Active,
            repl.signal() == input_done_tx.flag(),
            repl.has_signalled() == input_done_tx.has_fired(),
    {
        DunnetRepl { input_done_tx, phase: SessionPhase::Active }
    }

    /// Whether the session has signalled shutdown.
    pub fn signalled(&self) -> (signalled: bool)
        ensures
            signalled == self.has_signalled(),
    {
        self.input_done_tx.fired()
    }

    /// The phase that the session is in.
    pub fn current_phase(&self) -> (phase: SessionPhase)
        ensures
            phase == self.phase(),
    {
        self.phase
    }

    /// Begins the wait for the program's first frame, its banner and prompt.
    pub fn game_start(&mut self) -> (step: SessionStep)
        ensures
            step@ == begin_wait(old(self).phase()),
            final(self).phase() == old(self).phase(),
            final(self).signal() == old(self).signal(),
            final(self).has_signalled() == old(self).has_signalled(),
    {
        match self.phase {
            SessionPhase::Ended => SessionStep::Deliver(DunnetResponse::finished()),
            _ => SessionStep::Await,
        }
    }

    /// Begins the end of the session: signals shutdown to the framer, then
    /// has the closing frame awaited.
    pub fn quit(&mut self) -> (step: SessionStep)
        ensures
            final(self).has_signalled(),
            final(self).phase() == phase_after_quit(old(self).phase()),
            step@ == begin_wait(old(self).phase()),
            final(self).signal() == old(self).signal(),
    {
        self.input_done_tx.toggle();
        match self.phase {
            SessionPhase::Ended => SessionStep::Deliver(DunnetResponse::finished()),
            _ => {
                self.phase = SessionPhase::Quitting;
                SessionStep::Await
            },
        }
    }

    /// Begins a command exchange: has the normalized command written.
    pub fn interact(&mut self, input: String) -> (step: SessionStep)
        ensures
            step@ == begin_command(old(self).phase(), input@),
            final(self).phase() == old(self).phase(),
            final(self).signal() == old(self).signal(),
            final(self).has_signalled() == old(self).has_signalled(),
    {
        match self.phase {
            SessionPhase::Ended => SessionStep::Deliver(DunnetResponse::finished()),
            SessionPhase::Quitting => SessionStep::Await,
            SessionPhase::Active => SessionStep::Write(normalize_command(input)),
        }
    }

    /// Begins the operation that `input` asks for.
    pub fn submit(&mut self, input: DunnetInput) -> (step: SessionStep)
        ensures
            final(self).signal() == old(self).signal(),
            match input {
                DunnetInput::Quit => {
                    &&& step@ == begin_wait(old(self).phase())
                    &&& final(self).phase() == phase_after_quit(old(self).phase())
                    &&& final(self).has_signalled()
                },
                DunnetInput::Command(command) => {
                    &&& step@ == begin_command(old(self).phase(), command@)
                    &&& final(self).phase() == old(self).phase()
                    &&& final(self).has_signalled() == old(self).has_signalled()
                },
            },
    {
        match input {
            DunnetInput::Quit => self.quit(),
            DunnetInput::Command(command) => self.interact(command),
        }
    }

    /// Takes the outcome of the write that `interact` asked for. A failed
    /// write ends the session and is reported as an error of its own; after a
    /// good one the driver awaits the next frame.
    pub fn wrote(&mut self, written: bool) -> (outcome: Result<SessionStep, SessionError>)
        ensures
            final(self).signal() == old(self).signal(),
            final(self).has_signalled() == old(self).has_signalled(),
            written ==> final(self).phase() == old(self).phase(),
            !written ==> final(self).phase() == SessionPhase::Ended,
            match outcome {
                Ok(step) => written && step@ == SessionStepView::Await,
                Err(error) => !written && error == SessionError::WriteFailed,
            },
    {
        if written {
            Ok(SessionStep::Await)
        } else {
            self.phase = SessionPhase::Ended;
            Err(SessionError::WriteFailed)
        }
    }

    /// Takes what arrived from the queue of frames, `None` if the queue is
    /// closed, and says whether to deliver a frame or to go on waiting.
    pub fn response(&mut self, received: Option<DunnetResponse>) -> (step: SessionStep)
        ensures
            final(self).signal() == old(self).signal(),
            final(self).has_signalled() == old(self).has_signalled(),
            final(self).phase() == respond(old(self).phase(), received_view(received)).0,
            match respond(old(self).phase(), received_view(received)).1 {
                Some(frame) => step@ == SessionStepView::Deliver(frame),
                None => step@ == SessionStepView::Await,
            },
    {
        if let SessionPhase::Ended = self.phase {
            return SessionStep::Deliver(DunnetResponse::finished());
        }
        match received {
            None => {
                self.phase = SessionPhase::Ended;
                SessionStep::Deliver(DunnetResponse::finished())
            },
            Some(frame) => {
                if frame.is_done() {
                    self.phase = SessionPhase::Ended;
                    SessionStep::Deliver(frame)
                } else if let SessionPhase::Quitting = self.phase {
                    SessionStep::Await
                } else {
                    SessionStep::Deliver(frame)
                }
            },
        }
    }
}

/// What arrived from the queue of frames, as content.
pub open spec fn received_view(received: Option<DunnetResponse>) -> Option<ResponseView> {
    match received {
        Some(frame) => Some(frame@),
        None => None,
    }
}

} // verus!
