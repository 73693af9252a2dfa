use dunnet::frame::{DunnetResponse, RawFrame};
use dunnet::framer::{frame_stream, Framer, OutputHandler, ReadEvent};
use dunnet::toggle::new_toggle;

fn strings(lines: &[&str]) -> Vec<String> {
    lines.iter().map(|line| line.to_string()).collect()
}

fn decode_all(frames: &[RawFrame]) -> Vec<DunnetResponse> {
    frames.iter().map(|frame| frame.decode()).collect()
}

fn is_output(frame: &DunnetResponse, lines: &[&str]) -> bool {
    matches!(frame, DunnetResponse::Output(found) if *found == strings(lines))
}

fn is_done(frame: &DunnetResponse, lines: &[&str]) -> bool {
    matches!(frame, DunnetResponse::Done(found) if *found == strings(lines))
}

fn reassembled(frames: &[RawFrame]) -> Vec<u8> {
    let mut stream = Vec::new();
    for frame in frames {
        stream.extend_from_slice(&frame.bytes);
        if !frame.done {
            stream.push(b'>');
        }
    }
    stream
}

fn count_boundaries(stream: &[u8]) -> usize {
    stream.windows(2).filter(|pair| pair[0] == b'\n' && pair[1] == b'>').count()
}

fn fresh_handler() -> OutputHandler {
    let (_sender, receiver) = new_toggle();
    OutputHandler::new(receiver)
}

#[test]
fn prompt_inside_text_does_not_end_a_frame() {
    let frames = decode_all(&frame_stream(b"abc>def\n>"));
    assert_eq!(frames.len(), 2);
    assert!(is_output(&frames[0], &["abc>def"]));
    assert!(is_done(&frames[1], &[]));
}

#[test]
fn end_of_stream_with_pending_bytes_gives_one_done_frame() {
    let frames = decode_all(&frame_stream(b"partial output"));
    assert_eq!(frames.len(), 1);
    assert!(is_done(&frames[0], &["partial output"]));
}

#[test]
fn end_of_stream_with_nothing_pending_gives_done_without_lines() {
    let frames = decode_all(&frame_stream(b""));
    assert_eq!(frames.len(), 1);
    assert!(is_done(&frames[0], &[]));
}

#[test]
fn one_frame_per_boundary_and_one_done() {
    let stream = b"Welcome\n>A room\nwith a view\n>bye";
    let raw = frame_stream(stream);
    let frames = decode_all(&raw);
    assert_eq!(frames.len(), 3);
    assert!(is_output(&frames[0], &["Welcome"]));
    assert!(is_output(&frames[1], &["A room", "with a view"]));
    assert!(is_done(&frames[2], &["bye"]));
    assert_eq!(raw[0].bytes, b"Welcome\n".to_vec());
    assert_eq!(raw[1].bytes, b"A room\nwith a view\n".to_vec());
    assert_eq!(raw[2].bytes, b"bye".to_vec());
}

#[test]
fn frames_reassemble_to_the_stream() {
    let streams: [&[u8]; 9] = [
        b"",
        b">",
        b"\n>",
        b"\n>\n>",
        b"a\n>>b\n>",
        b"abc>def\n>",
        b"no prompt at all\n",
        b"x\n>y>z\n\n>tail>",
        b"\xff\xfe\n>\xc3\n>\xe2\x82",
    ];
    for stream in streams {
        let frames = frame_stream(stream);
        assert_eq!(reassembled(&frames), stream.to_vec());
        assert_eq!(frames.len(), count_boundaries(stream) + 1);
        let (last, before) = frames.split_last().unwrap();
        assert!(last.done);
        for frame in before {
            assert!(!frame.done);
            assert_eq!(frame.bytes.last(), Some(&b'\n'));
        }
    }
}

#[test]
fn bare_prompt_turn_is_one_empty_line() {
    let frames = decode_all(&frame_stream(b"\n>"));
    assert_eq!(frames.len(), 2);
    assert!(is_output(&frames[0], &[""]));
    assert!(is_done(&frames[1], &[]));
}

#[test]
fn prompt_after_prompt_is_not_a_boundary() {
    let frames = decode_all(&frame_stream(b"a\n>>b\n>"));
    assert_eq!(frames.len(), 3);
    assert!(is_output(&frames[0], &["a"]));
    assert!(is_output(&frames[1], &[">b"]));
    assert!(is_done(&frames[2], &[]));
}

#[test]
fn reads_accumulate_until_a_prompt() {
    let mut handler = fresh_handler();
    assert!(handler.task(ReadEvent::Read(b"abc>".to_vec())).is_none());
    assert!(!handler.is_finished());
    let frame = handler.task(ReadEvent::Read(b"def\n>".to_vec())).unwrap();
    assert!(is_output(&frame, &["abc>def"]));
    assert!(!handler.is_finished());
    let closing = handler.task(ReadEvent::Read(Vec::new())).unwrap();
    assert!(is_done(&closing, &[]));
    assert!(handler.is_finished());
}

#[test]
fn accept_strips_only_the_prompt_byte() {
    let mut framer = Framer::new();
    let frame = framer.accept(ReadEvent::Read(b"Welcome\n>".to_vec())).unwrap();
    assert!(!frame.done);
    assert_eq!(frame.bytes, b"Welcome\n".to_vec());
    assert!(!framer.is_finished());
}

#[test]
fn lone_prompt_read_after_line_feed_read_is_no_boundary() {
    let mut framer = Framer::new();
    assert!(framer.accept(ReadEvent::Read(b"abc\n".to_vec())).is_none());
    assert!(framer.accept(ReadEvent::Read(b">".to_vec())).is_none());
    let closing = framer.accept(ReadEvent::Read(Vec::new())).unwrap();
    assert!(closing.done);
    assert_eq!(closing.bytes, b"abc\n>".to_vec());
}

#[test]
fn shutdown_turns_pending_bytes_into_done() {
    let mut handler = fresh_handler();
    assert!(handler.task(ReadEvent::Read(b"half a li".to_vec())).is_none());
    let closing = handler.task(ReadEvent::Shutdown).unwrap();
    assert!(is_done(&closing, &["half a li"]));
    assert!(handler.is_finished());
}

#[test]
fn shutdown_with_nothing_pending_gives_done_without_lines() {
    let mut handler = fresh_handler();
    let closing = handler.task(ReadEvent::Shutdown).unwrap();
    assert!(is_done(&closing, &[]));
}

#[test]
fn failed_read_ends_like_end_of_stream() {
    let mut handler = fresh_handler();
    assert!(handler.task(ReadEvent::Read(b"seen so far\n".to_vec())).is_none());
    let closing = handler.task(ReadEvent::Failed).unwrap();
    assert!(is_done(&closing, &["seen so far"]));
    assert!(handler.is_finished());
}

#[test]
fn finished_framer_emits_nothing_more() {
    let mut framer = Framer::new();
    assert!(framer.accept(ReadEvent::Read(Vec::new())).unwrap().done);
    assert!(framer.accept(ReadEvent::Read(b"late\n>".to_vec())).is_none());
    assert!(framer.accept(ReadEvent::Read(Vec::new())).is_none());
    assert!(framer.accept(ReadEvent::Failed).is_none());
    assert!(framer.accept(ReadEvent::Shutdown).is_none());
    assert!(framer.is_finished());
    let mut handler = fresh_handler();
    assert!(handler.task(ReadEvent::Failed).is_some());
    assert!(handler.task(ReadEvent::Read(b"late\n>".to_vec())).is_none());
    assert!(handler.task(ReadEvent::Shutdown).is_none());
    assert!(handler.is_finished());
}

#[test]
fn same_turn_twice_gives_the_same_frames_twice() {
    let mut framer = Framer::new();
    let mut frames = Vec::new();
    for _ in 0..2 {
        for read in [&b"You are in a room>"[..], &b" with a lamp.\n>"[..]] {
            if let Some(frame) = framer.accept(ReadEvent::Read(read.to_vec())) {
                frames.push(frame);
            }
        }
    }
    assert_eq!(frames.len(), 2);
    assert_eq!(frames[0].bytes, b"You are in a room> with a lamp.\n".to_vec());
    assert_eq!(frames[0].bytes, frames[1].bytes);
    assert!(!frames[0].done && !frames[1].done);
}

#[test]
fn shutdown_waiter_resolves_once_the_signal_fired() {
    let (mut sender, receiver) = new_toggle();
    let handler = OutputHandler::new(receiver);
    assert!(!handler.shutdown_waiter().is_terminated());
    sender.toggle();
    assert!(handler.shutdown_waiter().is_terminated());
}
