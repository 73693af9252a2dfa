use dunnet::frame::{DunnetInput, DunnetResponse};
use dunnet::framer::{OutputHandler, ReadEvent};
use dunnet::session::{
    normalize_command, DunnetRepl, SessionError, SessionPhase, SessionStep, QUEUE_DEPTH,
};
use dunnet::toggle::{new_toggle, ToggleReceiver};
use std::collections::VecDeque;

fn strings(lines: &[&str]) -> Vec<String> {
    lines.iter().map(|line| line.to_string()).collect()
}

fn output(lines: &[&str]) -> DunnetResponse {
    DunnetResponse::Output(strings(lines))
}

fn done(lines: &[&str]) -> DunnetResponse {
    DunnetResponse::Done(strings(lines))
}

fn is_output(frame: &DunnetResponse, lines: &[&str]) -> bool {
    matches!(frame, DunnetResponse::Output(found) if *found == strings(lines))
}

fn is_done(frame: &DunnetResponse, lines: &[&str]) -> bool {
    matches!(frame, DunnetResponse::Done(found) if *found == strings(lines))
}

fn delivers_output(step: &SessionStep, lines: &[&str]) -> bool {
    matches!(step, SessionStep::Deliver(frame) if is_output(frame, lines))
}

fn delivers_done(step: &SessionStep, lines: &[&str]) -> bool {
    matches!(step, SessionStep::Deliver(frame) if is_done(frame, lines))
}

fn fresh_session() -> (DunnetRepl, ToggleReceiver) {
    let (sender, receiver) = new_toggle();
    (DunnetRepl::new(sender), receiver)
}

/// A child program in memory: prints a banner and answers every command it
/// knows with a fixed text, each followed by the prompt.
struct StubChild {
    handler: OutputHandler,
    shutdown: ToggleReceiver,
    queue: VecDeque<DunnetResponse>,
    input_open: bool,
    received: Vec<String>,
}

impl StubChild {
    fn spawn(shutdown: ToggleReceiver, banner: &[u8]) -> StubChild {
        let mut child = StubChild {
            handler: OutputHandler::new(shutdown.clone()),
            shutdown,
            queue: VecDeque::new(),
            input_open: true,
            received: Vec::new(),
        };
        child.print(banner);
        child
    }

    fn print(&mut self, bytes: &[u8]) {
        let mut rest = bytes;
        while !rest.is_empty() {
            let stop = match rest.iter().position(|byte| *byte == b'>') {
                Some(at) => at + 1,
                None => rest.len(),
            };
            if let Some(frame) = self.handler.task(ReadEvent::Read(rest[..stop].to_vec())) {
                self.queue.push_back(frame);
            }
            rest = &rest[stop..];
        }
    }

    fn write(&mut self, text: &str) -> bool {
        if !self.input_open {
            return false;
        }
        self.received.push(text.to_string());
        match text {
            "go north\n" => self.print(b"A room\n>"),
            "look\n" => self.print(b"You are in a room.\nThere is a lamp here.\n>"),
            "chatter\n" => self.print(b"one\n>two\n>"),
            _ => self.print(b"I don't understand that.\n>"),
        }
        true
    }

    fn next_frame(&mut self) -> Option<DunnetResponse> {
        if self.queue.is_empty() && self.shutdown.wait().is_terminated() {
            if let Some(frame) = self.handler.task(ReadEvent::Shutdown) {
                self.queue.push_back(frame);
            }
        }
        self.queue.pop_front()
    }
}

fn drive(
    repl: &mut DunnetRepl,
    child: &mut StubChild,
    first: SessionStep,
) -> Result<DunnetResponse, SessionError> {
    let mut step = first;
    loop {
        step = match step {
            SessionStep::Deliver(frame) => return Ok(frame),
            SessionStep::Write(text) => repl.wrote(child.write(&text))?,
            SessionStep::Await => repl.response(child.next_frame()),
        };
    }
}

#[test]
fn command_gets_a_line_feed_unless_it_ends_with_one() {
    assert_eq!(normalize_command("look".to_string()), "look\n");
    assert_eq!(normalize_command("look\n".to_string()), "look\n");
    assert_eq!(normalize_command(String::new()), "\n");
    assert_eq!(normalize_command("\n".to_string()), "\n");
    assert_eq!(normalize_command("look\n\n".to_string()), "look\n\n");
    assert_eq!(normalize_command("look\r".to_string()), "look\r\n");
    assert_eq!(normalize_command("gr\u{fc}n".to_string()), "gr\u{fc}n\n");
    assert_eq!(normalize_command("a\nb".to_string()), "a\nb\n");
}

#[test]
fn new_session_is_active() {
    let (repl, receiver) = fresh_session();
    assert_eq!(repl.current_phase(), SessionPhase::Active);
    assert!(!receiver.is_toggled());
}

#[test]
fn start_awaits_the_first_frame() {
    let (mut repl, _receiver) = fresh_session();
    assert!(matches!(repl.game_start(), SessionStep::Await));
    assert!(delivers_output(&repl.response(Some(output(&["Welcome"]))), &["Welcome"]));
    assert_eq!(repl.current_phase(), SessionPhase::Active);
}

#[test]
fn interact_has_the_normalized_command_written() {
    let (mut repl, receiver) = fresh_session();
    assert!(matches!(repl.interact("go north".to_string()), SessionStep::Write(text) if text == "go north\n"));
    assert!(matches!(repl.wrote(true), Ok(SessionStep::Await)));
    assert!(delivers_output(&repl.response(Some(output(&["A room"]))), &["A room"]));
    assert_eq!(repl.current_phase(), SessionPhase::Active);
    assert!(!receiver.is_toggled());
}

#[test]
fn failed_write_is_an_error_and_ends_the_session() {
    let (mut repl, _receiver) = fresh_session();
    assert!(matches!(repl.interact("look".to_string()), SessionStep::Write(_)));
    assert!(matches!(repl.wrote(false), Err(SessionError::WriteFailed)));
    assert_eq!(repl.current_phase(), SessionPhase::Ended);
    assert!(delivers_done(&repl.interact("look".to_string()), &[]));
    assert!(delivers_done(&repl.game_start(), &[]));
    assert!(delivers_done(&repl.quit(), &[]));
}

#[test]
fn done_frame_ends_the_session() {
    let (mut repl, _receiver) = fresh_session();
    assert!(delivers_done(&repl.response(Some(done(&["bye"]))), &["bye"]));
    assert_eq!(repl.current_phase(), SessionPhase::Ended);
}

#[test]
fn closed_queue_ends_the_session_with_an_empty_done() {
    let (mut repl, _receiver) = fresh_session();
    assert!(delivers_done(&repl.response(None), &[]));
    assert_eq!(repl.current_phase(), SessionPhase::Ended);
}

#[test]
fn ended_session_answers_every_call_with_an_empty_done() {
    let (mut repl, _receiver) = fresh_session();
    assert!(delivers_done(&repl.response(Some(done(&["last words"]))), &["last words"]));
    assert!(delivers_done(&repl.game_start(), &[]));
    assert!(delivers_done(&repl.interact("look".to_string()), &[]));
    assert!(delivers_done(&repl.submit(DunnetInput::Command("look".to_string())), &[]));
    assert!(delivers_done(&repl.submit(DunnetInput::Quit), &[]));
    assert!(delivers_done(&repl.quit(), &[]));
    assert!(delivers_done(&repl.response(Some(output(&["late"]))), &[]));
    assert!(delivers_done(&repl.response(Some(done(&["later"]))), &[]));
    assert!(delivers_done(&repl.response(None), &[]));
    assert_eq!(repl.current_phase(), SessionPhase::Ended);
}

#[test]
fn quit_fires_the_signal_and_awaits_the_closing_frame() {
    let (mut repl, receiver) = fresh_session();
    assert!(matches!(repl.quit(), SessionStep::Await));
    assert!(receiver.is_toggled());
    assert_eq!(repl.current_phase(), SessionPhase::Quitting);
    assert!(delivers_done(&repl.response(Some(done(&[]))), &[]));
    assert_eq!(repl.current_phase(), SessionPhase::Ended);
}

#[test]
fn quit_skips_unconsumed_output_and_delivers_done() {
    let (mut repl, _receiver) = fresh_session();
    assert!(matches!(repl.quit(), SessionStep::Await));
    assert!(matches!(repl.response(Some(output(&["stale"]))), SessionStep::Await));
    assert!(matches!(repl.response(Some(output(&["staler"]))), SessionStep::Await));
    assert_eq!(repl.current_phase(), SessionPhase::Quitting);
    assert!(delivers_done(&repl.response(Some(done(&["rest"]))), &["rest"]));
    assert_eq!(repl.current_phase(), SessionPhase::Ended);
}

#[test]
fn command_during_shutdown_is_not_written() {
    let (mut repl, _receiver) = fresh_session();
    assert!(matches!(repl.quit(), SessionStep::Await));
    assert!(matches!(repl.interact("look".to_string()), SessionStep::Await));
    assert!(matches!(repl.game_start(), SessionStep::Await));
    assert_eq!(repl.current_phase(), SessionPhase::Quitting);
}

#[test]
fn submit_begins_what_the_input_asks_for() {
    let (mut repl, receiver) = fresh_session();
    let step = repl.submit(DunnetInput::Command("take lamp".to_string()));
    assert!(matches!(step, SessionStep::Write(text) if text == "take lamp\n"));
    assert!(!receiver.is_toggled());
    assert!(matches!(repl.submit(DunnetInput::Quit), SessionStep::Await));
    assert!(receiver.is_toggled());
    assert_eq!(repl.current_phase(), SessionPhase::Quitting);
}

#[test]
fn repeated_command_gives_identical_frames() {
    let (sender, receiver) = new_toggle();
    let mut repl = DunnetRepl::new(sender);
    let mut child = StubChild::spawn(receiver, b"Welcome\n>");
    let first = repl.game_start();
    assert!(is_output(&drive(&mut repl, &mut child, first).unwrap(), &["Welcome"]));
    let first = repl.interact("look".to_string());
    let once = drive(&mut repl, &mut child, first).unwrap();
    let first = repl.interact("look".to_string());
    let again = drive(&mut repl, &mut child, first).unwrap();
    assert!(is_output(&once, &["You are in a room.", "There is a lamp here."]));
    assert!(is_output(&again, &["You are in a room.", "There is a lamp here."]));
    assert_eq!(once.lines(), again.lines());
    assert_eq!(child.received, strings(&["look\n", "look\n"]));
}

#[test]
fn welcome_go_north_quit() {
    let (sender, receiver) = new_toggle();
    let mut repl = DunnetRepl::new(sender);
    let mut child = StubChild::spawn(receiver, b"Welcome\n>");

    let first = repl.game_start();
    let banner = drive(&mut repl, &mut child, first).unwrap();
    assert!(is_output(&banner, &["Welcome"]));

    let first = repl.interact("go north".to_string());
    let room = drive(&mut repl, &mut child, first).unwrap();
    assert!(is_output(&room, &["A room"]));
    assert_eq!(child.received, strings(&["go north\n"]));

    let first = repl.quit();
    let closing = drive(&mut repl, &mut child, first).unwrap();
    assert!(is_done(&closing, &[]));
    assert_eq!(repl.current_phase(), SessionPhase::Ended);

    let first = repl.interact("look".to_string());
    let after = drive(&mut repl, &mut child, first).unwrap();
    assert!(is_done(&after, &[]));
    assert_eq!(child.received, strings(&["go north\n"]));
}

#[test]
fn quit_with_unconsumed_turns_still_delivers_done() {
    let (sender, receiver) = new_toggle();
    let mut repl = DunnetRepl::new(sender);
    let mut child = StubChild::spawn(receiver, b"Welcome\n>");
    let first = repl.game_start();
    assert!(is_output(&drive(&mut repl, &mut child, first).unwrap(), &["Welcome"]));
    let first = repl.interact("chatter".to_string());
    assert!(is_output(&drive(&mut repl, &mut child, first).unwrap(), &["one"]));
    child.print(b"and a half line");
    let first = repl.quit();
    let closing = drive(&mut repl, &mut child, first).unwrap();
    assert!(is_done(&closing, &["and a half line"]));
    assert_eq!(repl.current_phase(), SessionPhase::Ended);
}

#[test]
fn broken_input_pipe_is_reported_then_done() {
    let (sender, receiver) = new_toggle();
    let mut repl = DunnetRepl::new(sender);
    let mut child = StubChild::spawn(receiver, b"Welcome\n>");
    let first = repl.game_start();
    assert!(is_output(&drive(&mut repl, &mut child, first).unwrap(), &["Welcome"]));
    child.input_open = false;
    let first = repl.interact("look".to_string());
    assert_eq!(drive(&mut repl, &mut child, first).unwrap_err(), SessionError::WriteFailed);
    let first = repl.interact("look".to_string());
    assert!(is_done(&drive(&mut repl, &mut child, first).unwrap(), &[]));
}

#[test]
fn queue_holds_a_hundred_frames() {
    assert_eq!(QUEUE_DEPTH, 100);
}
