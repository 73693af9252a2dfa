//! The decisions of the interactive console: what to print for a frame,
//! whether to go on, and what a line of input asks for.

use crate::frame::{DunnetInput, DunnetResponse, ResponseView};
use crate::text::line_texts;
use vstd::prelude::*;
use vstd::string::StringExecFns;

verus! {

/// What the console does after it has printed a frame.
#[derive(Debug, Clone, Copy, PartialEq, Eq, Structural)]
pub enum ConsoleStep {
    /// Print the prompt and read the next line.
    Prompt,
    /// Leave the loop.
    Exit,
}

/// What is put before each printed line of a frame.
pub open spec fn echo_prefix() -> Seq<char> {
    "O: "@
}

/// What the console prints before it reads a line.
pub open spec fn command_prompt() -> Seq<char> {
    "Your command: "@
}

/// The lines that the console prints for a frame with these lines.
pub open spec fn echoed(lines: Seq<Seq<char>>) -> Seq<Seq<char>> {
    Seq::new(lines.len(), |i: int| echo_prefix() + lines[i])
}

/// What the console does after a frame: it leaves after `Done`.
pub open spec fn step_after(frame: ResponseView) -> ConsoleStep {
    if frame.done {
        ConsoleStep::Exit
    } else {
        ConsoleStep::Prompt
    }
}

/// The lines to print for `response`, each with the prefix before it.
pub fn echo_lines(response: &DunnetResponse) -> (printed: Vec<String>)
    ensures
        line_texts(printed@) == echoed(response@.lines),
{
    let lines = response.lines();
    let mut printed: Vec<String> = Vec::new();
    let mut i: usize = 0;
    while i < lines.len()
        invariant
            i <= lines.len(),
            printed@.len() == i,
            forall|j: int| 0 <= j < i ==> (#[trigger] printed@[j])@ == echo_prefix() + lines@[j]@,
        decreases lines.len() - i,
    {
        let mut line = String::from_str("O: ");
        line.append(lines[i].as_str());
        printed.push(line);
        i += 1;
    }
    assert(line_texts(printed@) =~= echoed(line_texts(lines@)));
    printed
}

/// What the console does after it has printed `response`.
pub fn after_frame(response: &DunnetResponse) -> (step: ConsoleStep)
    ensures
        step == step_after(response@),
{
    if response.is_done() {
        ConsoleStep::Exit
    } else {
        ConsoleStep::Prompt
    }
}

/// The text that the console prints before it reads a line.
pub fn prompt_text() -> (text: String)
    ensures
        text@ == command_prompt(),
{
    String::from_str("Your command: ")
}

/// What the console makes of a read from its input that returned `count`
/// bytes into `line`: the line is sent as a command, and a read of nothing,
/// the end of input, ends the session.
pub fn read_command(count: usize, line: String) -> (input: DunnetInput)
    ensures
        match input {
            DunnetInput::Quit => count == 0,
            DunnetInput::Command(command) => count > 0 && command@ == line@,
        },
{
    if count == 0 {
        DunnetInput::Quit
    } else {
        DunnetInput::Command(line)
    }
}

} // verus!
