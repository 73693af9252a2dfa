//! The tool adapter: the session's operations as named tool calls with text
//! in and text out.
//!
//! `DunnetStartGameCommand` is to be called once, before any
//! `DunnetWorldCommand`. The adapter documents this order and does not
//! enforce it.

use crate::frame::{DunnetResponse, ResponseView};
use crate::session::{begin_command, begin_wait, DunnetRepl, SessionError, SessionStep};
use crate::text::line_texts;
use vstd::prelude::*;
use vstd::string::StringExecFns;

verus! {

/// Why a tool call failed.
#[derive(Debug, Clone, Copy, PartialEq, Eq, Structural)]
pub enum AdapterError {
    /// The call named a tool that the adapter does not offer.
    UnknownTool,
    /// The call carried no command, though its tool takes one.
    MissingCommand,
    /// The call carried an empty command.
    EmptyCommand,
    /// The session could not write the command to the child.
    WriteFailed,
}

/// The tool call that sends one command to the program.
#[derive(Debug)]
pub struct DunnetWorldCommand {
    /// The command to send; never empty.
    command: String,
}

/// The tool call that starts the game.
#[derive(Debug)]
pub struct DunnetStartGameCommand {}

/// A tool call that the adapter has accepted.
#[derive(Debug)]
pub enum ToolCall {
    /// Send one command to the program.
    WorldCommand(DunnetWorldCommand),
    /// Start the game.
    StartGame(DunnetStartGameCommand),
}

/// The content of a `ToolCall`.
pub enum ToolCallView {
    WorldCommand(Seq<char>),
    StartGame,
}

impl View for ToolCall {
    type V = ToolCallView;

    open spec fn view(&self) -> ToolCallView {
        match self {
            ToolCall::WorldCommand(call) => ToolCallView::WorldCommand(call.text()),
            ToolCall::StartGame(_) => ToolCallView::StartGame,
        }
    }
}

/// The name of the tool that sends one command to the program.
pub open spec fn world_command_name() -> Seq<char> {
    "dunnet_world_command"@
}

/// The name of the tool that starts the game.
pub open spec fn start_game_name() -> Seq<char> {
    "dunnet_start_game"@
}

/// The hint that follows the text of an `Output` frame.
pub open spec fn next_command_hint() -> Seq<char> {
    "what is your next command?"@
}

/// The notice that follows the text of a `Done` frame.
pub open spec fn ended_notice() -> Seq<char> {
    "the session has ended; no further commands accepted"@
}

/// `lines` with a line feed between each two of them.
pub open spec fn joined(lines: Seq<Seq<char>>) -> Seq<char>
    decreases lines.len(),
{
    if lines.len() == 0 {
        Seq::empty()
    } else if lines.len() == 1 {
        lines[0]
    } else {
        joined(lines.drop_last()) + seq!['\n'] + lines.last()
    }
}

/// The text that a tool call answers with for `frame`: its lines joined, a
/// line feed, and the hint or notice that fits the kind of frame.
pub open spec fn message_text(frame: ResponseView) -> Seq<char> {
    joined(frame.lines) + seq!['\n'] + if frame.done {
        ended_notice()
    } else {
        next_command_hint()
    }
}

/// The text that reports `error` to the caller of a tool.
pub open spec fn error_text(error: AdapterError) -> Seq<char> {
    match error {
        AdapterError::UnknownTool => "unknown tool"@,
        AdapterError::MissingCommand => "the command is missing"@,
        AdapterError::EmptyCommand => "the command must not be empty"@,
        AdapterError::WriteFailed => "failed to write the command to the program"@,
    }
}

/// Joins `lines` with line feeds.
pub fn join_lines(lines: &Vec<String>) -> (text: String)
    ensures
        text@ == joined(line_texts(lines@)),
{
    let ghost texts = line_texts(lines@);
    let mut text = String::new();
    let mut i: usize = 0;
    assert(texts.take(0) =~= Seq::<Seq<char>>::empty());
    while i < lines.len()
        invariant
            i <= lines.len(),
            texts == line_texts(lines@),
            text@ == joined(texts.take(i as int)),
        decreases lines.len() - i,
    {
        let ghost so_far = text@;
        if i > 0 {
            proof {
                reveal_strlit("\n");
            }
            text.append("\n");
            assert(text@ =~= so_far + seq!['\n']);
        }
        text.append(lines[i].as_str());
        proof {
            let grown = texts.take(i + 1);
            assert(grown.drop_last() =~= texts.take(i as int));
            assert(grown.last() == lines@[i as int]@);
            if i == 0 {
                assert(text@ =~= grown[0]);
            }
        }
        i += 1;
    }
    assert(texts.take(i as int) =~= texts);
    text
}

/// The text that a tool call answers with for `response`.
pub fn response_message(response: &DunnetResponse) -> (message: String)
    ensures
        message@ == message_text(response@),
{
    let mut message = join_lines(response.lines());
    proof {
        reveal_strlit("\n");
    }
    message.append("\n");
    assert(message@ =~= joined(response@.lines) + seq!['\n']);
    if response.is_done() {
        message.append("the session has ended; no further commands accepted");
    } else {
        message.append("what is your next command?");
    }
    message
}

/// Maps the outcome of a session operation to the outcome of the tool call:
/// the frame's message, or the error that the session reported.
pub fn tool_reply(outcome: Result<DunnetResponse, SessionError>) -> (reply: Result<
    String,
    AdapterError,
>)
    ensures
        match outcome {
            Ok(frame) => reply matches Ok(message) && message@ == message_text(frame@),
            Err(_) => reply matches Err(error) && error == AdapterError::WriteFailed,
        },
{
    match outcome {
        Ok(frame) => Ok(response_message(&frame)),
        Err(SessionError::WriteFailed) => Err(AdapterError::WriteFailed),
    }
}

/// What the adapter makes of a call of the tool `name` that came with the
/// argument `command`, if any. The tool that starts the game takes no
/// argument and ignores what it is given; the tool that sends a command needs
/// one that is not empty; no other tool is offered.
pub open spec fn selected(name: Seq<char>, command: Option<Seq<char>>) -> Result<
    ToolCallView,
    AdapterError,
> {
    if name == start_game_name() {
        Ok(ToolCallView::StartGame)
    } else if name == world_command_name() {
        match command {
            None => Err(AdapterError::MissingCommand),
            Some(text) => if text.len() == 0 {
                Err(AdapterError::EmptyCommand)
            } else {
                Ok(ToolCallView::WorldCommand(text))
            },
        }
    } else {
        Err(AdapterError::UnknownTool)
    }
}

/// The `command` argument of a tool call, as content.
pub open spec fn command_view(command: Option<String>) -> Option<Seq<char>> {
    match command {
        Some(text) => Some(text@),
        None => None,
    }
}

/// Accepts or refuses a tool call, given the tool's name and the `command`
/// argument that came with it, if any.
pub fn select_tool(name: &str, command: Option<String>) -> (call: Result<ToolCall, AdapterError>)
    ensures
        match call {
            Ok(accepted) => selected(name@, command_view(command)) == Ok::<
                ToolCallView,
                AdapterError,
            >(accepted@),
            Err(error) => selected(name@, command_view(command)) == Err::<
                ToolCallView,
                AdapterError,
            >(error),
        },
{
    proof {
        reveal_strlit("dunnet_start_game");
        reveal_strlit("dunnet_world_command");
    }
    let asked = String::from_str(name);
    if asked == String::from_str("dunnet_start_game") {
        Ok(ToolCall::StartGame(DunnetStartGameCommand {  }))
    } else if asked == String::from_str("dunnet_world_command") {
        match command {
            None => Err(AdapterError::MissingCommand),
            Some(text) => match DunnetWorldCommand::new(text) {
                Ok(accepted) => Ok(ToolCall::WorldCommand(accepted)),
                Err(error) => Err(error),
            },
        }
    } else {
        Err(AdapterError::UnknownTool)
    }
}

impl ToolCall {
    /// Begins the call on `repl`.
    pub fn call_tool(&self, repl: &mut DunnetRepl) -> (step: SessionStep)
        ensures
            step@ == match self {
                ToolCall::WorldCommand(call) => begin_command(old(repl).phase(), call.text()),
                ToolCall::StartGame(_) => begin_wait(old(repl).phase()),
            },
            final(repl).phase() == old(repl).phase(),
            final(repl).signal() == old(repl).signal(),
            final(repl).has_signalled() == old(repl).has_signalled(),
    {
        match self {
            ToolCall::WorldCommand(call) => call.call_tool(repl),
            ToolCall::StartGame(call) => call.call_tool(repl),
        }
    }
}

impl AdapterError {
    /// The text that reports this error to the caller of a tool.
    pub fn message(&self) -> (text: String)
        ensures
            text@ == error_text(*self),
    {
        match self {
            AdapterError::UnknownTool => String::from_str("unknown tool"),
            AdapterError::MissingCommand => String::from_str("the command is missing"),
            AdapterError::EmptyCommand => String::from_str("the command must not be empty"),
            AdapterError::WriteFailed => String::from_str(
                "failed to write the command to the program",
            ),
        }
    }
}

impl DunnetWorldCommand {
    /// A call always carries a command.
    #[verifier::type_invariant]
    spec fn carries_command(self) -> bool {
        self.command@.len() > 0
    }

    /// The command that this call sends.
    pub closed spec fn text(&self) -> Seq<char> {
        self.command@
    }

    /// A call that sends `command`, which must not be empty.
    pub fn new(command: String) -> (call: Result<Self, AdapterError>)
        ensures
            match call {
                Ok(call) => command@.len() > 0 && call.text() == command@,
                Err(error) => command@.len() == 0 && error == AdapterError::EmptyCommand,
            },
    {
        if command.as_str().is_empty() {
            Err(AdapterError::EmptyCommand)
        } else {
            Ok(DunnetWorldCommand { command })
        }
    }

    /// The command that this call sends.
    pub fn command(&self) -> (command: &String)
        ensures
            command@ == self.text(),
            command@.len() > 0,
    {
        proof {
            use_type_invariant(self);
        }
        &self.command
    }

    /// Begins the call on `repl`: a command exchange with this call's
    /// command.
    pub fn call_tool(&self, repl: &mut DunnetRepl) -> (step: SessionStep)
        ensures
            step@ == begin_command(old(repl).phase(), self.text()),
            final(repl).phase() == old(repl).phase(),
            final(repl).signal() == old(repl).signal(),
            final(repl).has_signalled() == old(repl).has_signalled(),
    {
        repl.interact(self.command.clone())
    }
}

impl DunnetStartGameCommand {
    /// Begins the call on `repl`: the wait for the program's first frame.
    pub fn call_tool(&self, repl: &mut DunnetRepl) -> (step: SessionStep)
        ensures
            step@ == begin_wait(old(repl).phase()),
            final(repl).phase() == old(repl).phase(),
            final(repl).signal() == old(repl).signal(),
            final(repl).has_signalled() == old(repl).has_signalled(),
    {
        repl.game_start()
    }
}

} // verus!
