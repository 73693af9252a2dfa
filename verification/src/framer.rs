//! The output framer: groups the child's output bytes into frames, one per
//! prompt boundary, and closes every session with exactly one `Done` frame.
//!
//! The framer is a state machine, [`Framer`]. Its driver reads the child's
//! output up to and including the next prompt byte, or learns that the stream
//! ended, failed or that shutdown was signalled, and hands each such event to
//! [`OutputHandler::task`], which holds the framer of a session together with
//! its shutdown signal.

use crate::frame::{decoded, DunnetResponse, RawFrame, RawFrameView, ResponseView};
use crate::text::{find_byte, first_index, lemma_first_index, text_lines, NEWLINE};
use crate::toggle::{ToggleReceiver, ToggleState, ToggleWaiter};
use vstd::prelude::*;
use vstd::slice::{slice_subrange, slice_to_vec};

verus! {

/// The prompt byte, `>`.
pub const PROMPT: u8 = 62;

/// What the driver observed while waiting for the child's output.
#[derive(Debug)]
pub enum ReadEvent {
    /// The bytes of one read. No bytes at all means the stream has ended.
    Read(Vec<u8>),
    /// The read failed.
    Failed,
    /// The shutdown signal fired before the read completed.
    Shutdown,
}

/// The content of a `ReadEvent`.
pub enum ReadEventView {
    Read(Seq<u8>),
    Failed,
    Shutdown,
}

impl View for ReadEvent {
    type V = ReadEventView;

    open spec fn view(&self) -> ReadEventView {
        match self {
            ReadEvent::Read(bytes) => ReadEventView::Read(bytes@),
            ReadEvent::Failed => ReadEventView::Failed,
            ReadEvent::Shutdown => ReadEventView::Shutdown,
        }
    }
}

/// The framer's state: the bytes not yet delimited into a frame, and whether
/// the closing frame has been emitted.
pub struct FramerView {
    pub accumulated: Seq<u8>,
    pub child_done: bool,
}

/// The state of a framer that has seen nothing yet.
pub open spec fn initial() -> FramerView {
    FramerView { accumulated: Seq::empty(), child_done: false }
}

/// Whether `event` ends the stream: a read of no bytes, a failed read, or the
/// shutdown signal.
pub open spec fn ends_stream(event: ReadEventView) -> bool {
    match event {
        ReadEventView::Read(bytes) => bytes.len() == 0,
        ReadEventView::Failed => true,
        ReadEventView::Shutdown => true,
    }
}

/// Whether the last two bytes of `chunk` are a line feed and the prompt byte.
pub open spec fn ends_at_prompt(chunk: Seq<u8>) -> bool {
    chunk.len() >= 2 && chunk[chunk.len() - 2] == NEWLINE && chunk[chunk.len() - 1] == PROMPT
}

/// One step of the framer: the state after `event`, and the frame that the
/// event completes, if any.
///
/// A finished framer ignores every event. An event that ends the stream turns
/// whatever has accumulated into the `Done` frame. A read that ends at a
/// prompt completes an `Output` frame of everything accumulated, the read
/// included but for its prompt byte. Any other read is only accumulated.
pub open spec fn step(pre: FramerView, event: ReadEventView) -> (FramerView, Option<RawFrameView>) {
    if pre.child_done {
        (pre, None)
    } else if ends_stream(event) {
        (
            FramerView { accumulated: Seq::empty(), child_done: true },
            Some(RawFrameView { done: true, bytes: pre.accumulated }),
        )
    } else {
        let chunk = event->Read_0;
        if ends_at_prompt(chunk) {
            (
                FramerView { accumulated: Seq::empty(), child_done: false },
                Some(RawFrameView { done: false, bytes: pre.accumulated + chunk.drop_last() }),
            )
        } else {
            (FramerView { accumulated: pre.accumulated + chunk, child_done: false }, None)
        }
    }
}

/// The frames that the framer emits, in order, when it starts in `pre` and
/// takes `events` one after the other.
pub open spec fn run(pre: FramerView, events: Seq<ReadEventView>) -> Seq<RawFrameView>
    decreases events.len(),
{
    if events.len() == 0 {
        Seq::empty()
    } else {
        let (next, out) = step(pre, events[0]);
        let rest = run(next, events.skip(1));
        match out {
            Some(frame) => seq![frame] + rest,
            None => rest,
        }
    }
}

/// What one read returns on a stream of which `rest` is still unread: the
/// bytes up to and including the next prompt byte, or all of `rest` where it
/// holds none.
pub open spec fn next_read(rest: Seq<u8>) -> Seq<u8> {
    let at = first_index(rest, PROMPT);
    if 0 <= at < rest.len() {
        rest.take(at + 1)
    } else {
        rest
    }
}

/// The events that a driver hands over for a stream that is read to its end:
/// one read per prompt byte, one for what follows the last of them, and the
/// read of no bytes that reports the end.
pub open spec fn reads_of(stream: Seq<u8>) -> Seq<ReadEventView>
    decreases stream.len(),
{
    let chunk = next_read(stream);
    if 0 < chunk.len() <= stream.len() {
        seq![ReadEventView::Read(chunk)] + reads_of(stream.skip(chunk.len() as int))
    } else {
        seq![ReadEventView::Read(Seq::empty())]
    }
}

/// Position of the prompt byte of the first prompt boundary in `stream` (a
/// line feed directly followed by the prompt byte), or `stream.len()` where
/// there is none.
pub open spec fn first_prompt(stream: Seq<u8>) -> int
    decreases stream.len(),
{
    if stream.len() < 2 {
        stream.len() as int
    } else if stream[0] == NEWLINE && stream[1] == PROMPT {
        1
    } else {
        1 + first_prompt(stream.skip(1))
    }
}

/// The number of prompt boundaries in `stream`.
pub open spec fn count_prompts(stream: Seq<u8>) -> nat
    decreases stream.len(),
{
    if stream.len() < 2 {
        0
    } else if stream[0] == NEWLINE && stream[1] == PROMPT {
        1 + count_prompts(stream.skip(1))
    } else {
        count_prompts(stream.skip(1))
    }
}

/// The frames of a whole stream: an `Output` frame for what precedes each
/// prompt byte that follows a line feed, and a `Done` frame for what follows
/// the last such prompt.
pub open spec fn split_at_prompts(stream: Seq<u8>) -> Seq<RawFrameView>
    decreases stream.len(),
{
    let at = first_prompt(stream);
    if 0 <= at < stream.len() {
        seq![RawFrameView { done: false, bytes: stream.take(at) }] + split_at_prompts(
            stream.skip(at + 1),
        )
    } else {
        seq![RawFrameView { done: true, bytes: stream }]
    }
}

/// The stream that a sequence of frames stands for: the frames' bytes in
/// order, with the stripped prompt byte put back after each `Output` frame.
pub open spec fn reassemble(frames: Seq<RawFrameView>) -> Seq<u8>
    decreases frames.len(),
{
    if frames.len() == 0 {
        Seq::empty()
    } else if frames[0].done {
        frames[0].bytes + reassemble(frames.skip(1))
    } else {
        frames[0].bytes + seq![PROMPT] + reassemble(frames.skip(1))
    }
}

/// The contents of a list of raw frames.
pub open spec fn raw_views(frames: Seq<RawFrame>) -> Seq<RawFrameView> {
    Seq::new(frames.len(), |i: int| frames[i]@)
}

/// Whether `stream[at]` is the prompt byte of a prompt boundary.
pub open spec fn is_prompt_at(stream: Seq<u8>, at: int) -> bool {
    1 <= at < stream.len() && stream[at - 1] == NEWLINE && stream[at] == PROMPT
}

/// `first_prompt` is in range, no prompt boundary lies before it, and it is
/// one unless it is the length.
pub proof fn lemma_first_prompt(stream: Seq<u8>)
    ensures
        0 <= first_prompt(stream) <= stream.len(),
        forall|j: int| 0 <= j < first_prompt(stream) ==> !is_prompt_at(stream, j),
        first_prompt(stream) < stream.len() ==> is_prompt_at(stream, first_prompt(stream)),
    decreases stream.len(),
{
    if stream.len() < 2 {
    } else if stream[0] == NEWLINE && stream[1] == PROMPT {
    } else {
        let tail = stream.skip(1);
        lemma_first_prompt(tail);
        let found = first_prompt(tail);
        assert forall|j: int| 0 <= j < first_prompt(stream) implies !is_prompt_at(stream, j) by {
            if j >= 2 {
                assert(!is_prompt_at(tail, j - 1));
                assert(tail[j - 2] == stream[j - 1]);
                assert(tail[j - 1] == stream[j]);
            }
        }
        if found < tail.len() {
            assert(is_prompt_at(tail, found));
            assert(found >= 1);
            assert(tail[found - 1] == stream[found]);
            assert(tail[found] == stream[found + 1]);
        }
    }
}

/// A position with no prompt boundary before it, and one at it unless it is
/// the length, is `first_prompt`.
pub proof fn lemma_first_prompt_unique(stream: Seq<u8>, at: int)
    requires
        0 <= at <= stream.len(),
        forall|j: int| 0 <= j < at ==> !is_prompt_at(stream, j),
        at < stream.len() ==> is_prompt_at(stream, at),
    ensures
        first_prompt(stream) == at,
{
    lemma_first_prompt(stream);
    let found = first_prompt(stream);
    if found < at {
        assert(is_prompt_at(stream, found));
    } else if at < found {
        assert(is_prompt_at(stream, at));
    }
}

/// The framer, run over the reads of a stream from a point where `acc` has
/// accumulated and `rest` is still unread, emits the frames of `acc + rest`:
/// provided that `acc` holds no prompt boundary and none lies across the two.
proof fn lemma_run_reads(acc: Seq<u8>, rest: Seq<u8>)
    requires
        first_prompt(acc) == acc.len(),
        !(acc.len() > 0 && rest.len() > 0 && acc.last() == NEWLINE && rest[0] == PROMPT),
    ensures
        run(FramerView { accumulated: acc, child_done: false }, reads_of(rest))
            == split_at_prompts(acc + rest),
    decreases rest.len(),
{
    let pre = FramerView { accumulated: acc, child_done: false };
    let whole = acc + rest;
    let end_read = ReadEventView::Read(Seq::empty());
    let finished = FramerView { accumulated: Seq::empty(), child_done: true };
    lemma_first_prompt(acc);
    lemma_first_index(rest, PROMPT);
    let at = first_index(rest, PROMPT);
    let chunk = next_read(rest);
    if rest.len() == 0 {
        assert(whole =~= acc);
        assert(reads_of(rest) =~= seq![end_read]);
        assert(reads_of(rest).skip(1) =~= Seq::<ReadEventView>::empty());
        assert(run(finished, reads_of(rest).skip(1)) =~= Seq::<RawFrameView>::empty());
        assert(run(pre, reads_of(rest)) =~= seq![RawFrameView { done: true, bytes: acc }]);
    } else {
        let after = rest.skip(chunk.len() as int);
        assert(reads_of(rest) == seq![ReadEventView::Read(chunk)] + reads_of(after));
        assert(reads_of(rest)[0] == ReadEventView::Read(chunk));
        assert(reads_of(rest).skip(1) =~= reads_of(after));
        if at < rest.len() && ends_at_prompt(chunk) {
            let frame = RawFrameView { done: false, bytes: acc + chunk.drop_last() };
            let cleared = FramerView { accumulated: Seq::empty(), child_done: false };
            assert(step(pre, ReadEventView::Read(chunk)) == (cleared, Some(frame)));
            assert(first_prompt(Seq::<u8>::empty()) == 0);
            lemma_run_reads(Seq::empty(), after);
            assert(Seq::<u8>::empty() + after =~= after);
            assert(run(pre, reads_of(rest)) == seq![frame] + split_at_prompts(after));
            let cut = acc.len() + at;
            assert(chunk[chunk.len() - 2] == rest[at - 1]);
            assert(is_prompt_at(whole, cut)) by {
                assert(whole[cut] == rest[at]);
                assert(whole[cut - 1] == rest[at - 1]);
            }
            assert forall|j: int| 0 <= j < cut implies !is_prompt_at(whole, j) by {
                if j < acc.len() {
                    if j >= 1 {
                        assert(whole[j] == acc[j]);
                        assert(whole[j - 1] == acc[j - 1]);
                        assert(!is_prompt_at(acc, j));
                    }
                } else {
                    assert(whole[j] == rest[j - acc.len()]);
                }
            }
            lemma_first_prompt_unique(whole, cut);
            assert(whole.take(cut) =~= acc + chunk.drop_last());
            assert(whole.skip(cut + 1) =~= after);
        } else {
            let grown = acc + chunk;
            let next = FramerView { accumulated: grown, child_done: false };
            assert(step(pre, ReadEventView::Read(chunk)) == (next, None::<RawFrameView>));
            assert forall|j: int| 0 <= j < grown.len() implies !is_prompt_at(grown, j) by {
                if j < acc.len() {
                    if j >= 1 {
                        assert(grown[j] == acc[j]);
                        assert(grown[j - 1] == acc[j - 1]);
                        assert(!is_prompt_at(acc, j));
                    }
                } else {
                    assert(grown[j] == rest[j - acc.len()]);
                    if j - acc.len() == at && j >= 1 {
                        if at >= 1 {
                            assert(grown[j - 1] == rest[at - 1]);
                            assert(chunk[chunk.len() - 2] == rest[at - 1]);
                        } else {
                            assert(grown[j - 1] == acc.last());
                        }
                    }
                }
            }
            lemma_first_prompt_unique(grown, grown.len() as int);
            if after.len() > 0 {
                assert(grown.last() == PROMPT);
            }
            lemma_run_reads(grown, after);
            assert(grown + after =~= whole);
        }
    }
}

/// Fed the reads of a whole stream, the framer emits exactly the frames of
/// that stream.
pub proof fn lemma_stream_framing(stream: Seq<u8>)
    ensures
        run(initial(), reads_of(stream)) == split_at_prompts(stream),
{
    lemma_run_reads(Seq::empty(), stream);
    assert(Seq::<u8>::empty() + stream =~= stream);
}

/// Putting the stripped prompt bytes back and concatenating the frames of a
/// stream gives the stream again: framing loses and invents no byte.
pub proof fn lemma_frames_reassemble(stream: Seq<u8>)
    ensures
        reassemble(split_at_prompts(stream)) == stream,
    decreases stream.len(),
{
    lemma_first_prompt(stream);
    let at = first_prompt(stream);
    let frames = split_at_prompts(stream);
    if at < stream.len() {
        let rest = stream.skip(at + 1);
        lemma_frames_reassemble(rest);
        assert(frames[0] == RawFrameView { done: false, bytes: stream.take(at) });
        assert(frames.skip(1) =~= split_at_prompts(rest));
        assert(reassemble(frames) == stream.take(at) + seq![PROMPT] + rest);
        assert(stream.take(at) + seq![PROMPT] + rest =~= stream);
    } else {
        assert(frames[0] == RawFrameView { done: true, bytes: stream });
        assert(frames.skip(1) =~= Seq::<RawFrameView>::empty());
        assert(reassemble(frames.skip(1)) =~= Seq::<u8>::empty());
        assert(stream + Seq::<u8>::empty() =~= stream);
    }
}

/// A stream has one frame for each of its prompt boundaries, and one more.
pub proof fn lemma_frame_count(stream: Seq<u8>)
    ensures
        split_at_prompts(stream).len() == count_prompts(stream) + 1,
    decreases stream.len(),
{
    lemma_first_prompt(stream);
    let at = first_prompt(stream);
    lemma_count_to_first_prompt(stream);
    if at < stream.len() {
        lemma_frame_count(stream.skip(at + 1));
    }
}

/// Counting the prompt boundaries of a stream: none where it has no first
/// one, else one more than after the first.
proof fn lemma_count_to_first_prompt(stream: Seq<u8>)
    ensures
        first_prompt(stream) >= stream.len() ==> count_prompts(stream) == 0,
        first_prompt(stream) < stream.len() ==> count_prompts(stream) == 1 + count_prompts(
            stream.skip(first_prompt(stream) + 1),
        ),
    decreases stream.len(),
{
    if stream.len() < 2 {
    } else if stream[0] == NEWLINE && stream[1] == PROMPT {
        let tail = stream.skip(1);
        assert(tail[0] == PROMPT);
        assert(stream.skip(2) =~= tail.skip(1));
        if tail.len() >= 2 {
            assert(count_prompts(tail) == count_prompts(tail.skip(1)));
        } else {
            assert(count_prompts(tail) == 0);
            assert(count_prompts(tail.skip(1)) == 0);
        }
    } else {
        let tail = stream.skip(1);
        lemma_count_to_first_prompt(tail);
        lemma_first_prompt(tail);
        if first_prompt(tail) < tail.len() {
            assert(stream.skip(first_prompt(stream) + 1) =~= tail.skip(first_prompt(tail) + 1));
        }
    }
}

/// Of the frames of a stream the last is `Done` and no other is. Each
/// `Output` frame ends with the line feed that preceded its prompt, and holds
/// no prompt boundary of its own.
pub proof fn lemma_one_trailing_done(stream: Seq<u8>)
    ensures
        split_at_prompts(stream).len() >= 1,
        split_at_prompts(stream).last().done,
        forall|i: int|
            0 <= i < split_at_prompts(stream).len() - 1 ==> {
                let frame = #[trigger] split_at_prompts(stream)[i];
                &&& !frame.done
                &&& frame.bytes.len() >= 1
                &&& frame.bytes.last() == NEWLINE
                &&& first_prompt(frame.bytes) == frame.bytes.len()
            },
        first_prompt(split_at_prompts(stream).last().bytes) == split_at_prompts(
            stream,
        ).last().bytes.len(),
    decreases stream.len(),
{
    lemma_first_prompt(stream);
    let at = first_prompt(stream);
    let frames = split_at_prompts(stream);
    if at < stream.len() {
        let rest = stream.skip(at + 1);
        let tail = split_at_prompts(rest);
        lemma_one_trailing_done(rest);
        let head = stream.take(at);
        assert(frames == seq![RawFrameView { done: false, bytes: head }] + tail);
        assert(frames.last() == tail.last());
        assert(head.last() == stream[at - 1]);
        assert forall|j: int| 0 <= j < head.len() implies !is_prompt_at(head, j) by {
            if j >= 1 {
                assert(head[j] == stream[j]);
                assert(head[j - 1] == stream[j - 1]);
                assert(!is_prompt_at(stream, j));
            }
        }
        lemma_first_prompt_unique(head, head.len() as int);
        assert forall|i: int| 0 <= i < frames.len() - 1 implies {
            let frame = #[trigger] frames[i];
            &&& !frame.done
            &&& frame.bytes.len() >= 1
            &&& frame.bytes.last() == NEWLINE
            &&& first_prompt(frame.bytes) == frame.bytes.len()
        } by {
            if i > 0 {
                assert(frames[i] == tail[i - 1]);
            }
        }
    }
}

/// Whatever events a framer takes, it emits at most one `Done` frame, and
/// nothing after it. A finished framer emits nothing, and a running one
/// closes with the `Done` frame as soon as an event ends the stream.
pub proof fn lemma_done_is_last(pre: FramerView, events: Seq<ReadEventView>)
    ensures
        forall|i: int| 0 <= i < run(pre, events).len() - 1 ==> !(#[trigger] run(pre, events)[i]).done,
        pre.child_done ==> run(pre, events).len() == 0,
        !pre.child_done && (exists|k: int| 0 <= k < events.len() && ends_stream(events[k])) ==> {
            &&& run(pre, events).len() >= 1
            &&& run(pre, events).last().done
        },
    decreases events.len(),
{
    if events.len() > 0 {
        let (next, out) = step(pre, events[0]);
        let later = events.skip(1);
        let rest = run(next, later);
        lemma_done_is_last(next, later);
        if !pre.child_done && (exists|k: int| 0 <= k < events.len() && ends_stream(events[k])) {
            let k = choose|k: int| 0 <= k < events.len() && ends_stream(events[k]);
            if !ends_stream(events[0]) {
                assert(later[k - 1] == events[k]);
                assert(ends_stream(later[k - 1]));
            }
        }
        match out {
            Some(frame) => {
                assert(run(pre, events) == seq![frame] + rest);
                assert forall|i: int| 0 <= i < run(pre, events).len() - 1 implies !(
                #[trigger] run(pre, events)[i]).done by {
                    if i > 0 {
                        assert(run(pre, events)[i] == rest[i - 1]);
                    }
                }
                if rest.len() > 0 {
                    assert(run(pre, events).last() == rest.last());
                }
            },
            None => {},
        }
    }
}

/// The state that a framer is in after it has taken `events` from `pre`.
pub open spec fn state_after(pre: FramerView, events: Seq<ReadEventView>) -> FramerView
    decreases events.len(),
{
    if events.len() == 0 {
        pre
    } else {
        state_after(step(pre, events[0]).0, events.skip(1))
    }
}

/// Whether `events` end a turn: none of them ends the stream, and the last is
/// a read that ends at a prompt.
pub open spec fn ends_a_turn(events: Seq<ReadEventView>) -> bool {
    &&& events.len() > 0
    &&& forall|k: int| 0 <= k < events.len() ==> !ends_stream(#[trigger] events[k])
    &&& events.last() matches ReadEventView::Read(chunk)
    &&& ends_at_prompt(chunk)
}

/// Framing goes on where it left off: the frames of two runs of events are
/// those of the first, then those of the second from the state that the first
/// has left.
pub proof fn lemma_run_concat(
    pre: FramerView,
    first: Seq<ReadEventView>,
    second: Seq<ReadEventView>,
)
    ensures
        run(pre, first + second) == run(pre, first) + run(state_after(pre, first), second),
        state_after(pre, first + second) == state_after(state_after(pre, first), second),
    decreases first.len(),
{
    let all = first + second;
    if first.len() == 0 {
        assert(all =~= second);
        assert(run(pre, first) + run(pre, second) =~= run(pre, second));
    } else {
        let (next, out) = step(pre, first[0]);
        assert(all[0] == first[0]);
        assert(all.skip(1) =~= first.skip(1) + second);
        lemma_run_concat(next, first.skip(1), second);
        let head = run(next, first.skip(1));
        let tail = run(state_after(next, first.skip(1)), second);
        match out {
            Some(frame) => {
                assert(seq![frame] + (head + tail) =~= (seq![frame] + head) + tail);
            },
            None => {},
        }
    }
}

/// A running framer that has taken a whole turn has nothing accumulated.
pub proof fn lemma_turn_clears(pre: FramerView, events: Seq<ReadEventView>)
    requires
        !pre.child_done,
        ends_a_turn(events),
    ensures
        state_after(pre, events) == initial(),
    decreases events.len(),
{
    let next = step(pre, events[0]).0;
    let later = events.skip(1);
    assert(!ends_stream(events[0]));
    if events.len() == 1 {
        assert(events[0] == events.last());
        assert(state_after(next, later) == next);
    } else {
        assert(later.last() == events.last());
        assert forall|k: int| 0 <= k < later.len() implies !ends_stream(#[trigger] later[k]) by {
            assert(later[k] == events[k + 1]);
        }
        lemma_turn_clears(next, later);
    }
}

/// A turn leaves no residue: when the program prints the same turn again and
/// it is read the same way, the framer emits the same frames again.
pub proof fn lemma_repeated_turn(events: Seq<ReadEventView>)
    requires
        ends_a_turn(events),
    ensures
        run(initial(), events + events) == run(initial(), events) + run(initial(), events),
{
    lemma_run_concat(initial(), events, events);
    lemma_turn_clears(initial(), events);
}

/// An event that ends the stream turns whatever has accumulated into the
/// closing frame, and a closing frame of no bytes has no lines.
pub proof fn lemma_end_of_stream(accumulated: Seq<u8>, event: ReadEventView)
    requires
        ends_stream(event),
    ensures
        step(FramerView { accumulated, child_done: false }, event).1 == Some(
            RawFrameView { done: true, bytes: accumulated },
        ),
        step(FramerView { accumulated, child_done: false }, event).0.child_done,
        decoded(RawFrameView { done: true, bytes: Seq::empty() }) == (ResponseView {
            done: true,
            lines: Seq::empty(),
        }),
{
    assert(text_lines(Seq::<u8>::empty()) =~= Seq::<Seq<char>>::empty());
}

/// The framer's state machine: accumulates reads and cuts them into frames.
#[derive(Debug)]
pub struct Framer {
    /// Output read so far that no frame has taken yet.
    accumulated: Vec<u8>,
    /// Whether the closing frame has been emitted.
    child_done: bool,
}

impl View for Framer {
    type V = FramerView;

    closed spec fn view(&self) -> FramerView {
        FramerView { accumulated: self.accumulated@, child_done: self.child_done }
    }
}

impl Framer {
    /// A framer that has read nothing yet.
    pub fn new() -> (framer: Self)
        ensures
            framer@ == initial(),
    {
        Framer { accumulated: Vec::new(), child_done: false }
    }

    /// Whether the closing frame has been emitted.
    pub fn is_finished(&self) -> (finished: bool)
        ensures
            finished == self@.child_done,
    {
        self.child_done
    }

    /// Takes one event and returns the raw frame that it completes, if any.
    pub fn accept(&mut self, event: ReadEvent) -> (out: Option<RawFrame>)
        ensures
            final(self)@ == step(old(self)@, event@).0,
            match out {
                Some(frame) => step(old(self)@, event@).1 == Some(frame@),
                None => step(old(self)@, event@).1 is None,
            },
    {
        if self.child_done {
            return None;
        }
        match event {
            ReadEvent::Read(mut chunk) => {
                let size = chunk.len();
                if size == 0 {
                    Some(self.close())
                } else if size >= 2 && chunk[size - 2] == NEWLINE && chunk[size - 1] == PROMPT {
                    let ghost read = chunk@;
                    chunk.truncate(size - 1);
                    assert(chunk@ =~= read.drop_last());
                    self.accumulated.append(&mut chunk);
                    let mut bytes: Vec<u8> = Vec::new();
                    std::mem::swap(&mut bytes, &mut self.accumulated);
                    Some(RawFrame { done: false, bytes })
                } else {
                    self.accumulated.append(&mut chunk);
                    None
                }
            },
            ReadEvent::Failed => Some(self.close()),
            ReadEvent::Shutdown => Some(self.close()),
        }
    }

    /// Ends the session: whatever has accumulated becomes the `Done` frame.
    fn close(&mut self) -> (frame: RawFrame)
        requires
            !old(self)@.child_done,
        ensures
            final(self)@ == (FramerView { accumulated: Seq::empty(), child_done: true }),
            frame@ == (RawFrameView { done: true, bytes: old(self)@.accumulated }),
    {
        let mut bytes: Vec<u8> = Vec::new();
        std::mem::swap(&mut bytes, &mut self.accumulated);
        self.child_done = true;
        RawFrame { done: true, bytes }
    }
}

/// The framer of one session, with the signal that tells its driver to stop
/// waiting for output.
#[derive(Debug)]
pub struct OutputHandler {
    /// Fires when no more input will be sent to the child.
    input_done: ToggleReceiver,
    /// Cuts the child's output into frames.
    framer: Framer,
}

impl View for OutputHandler {
    type V = FramerView;

    closed spec fn view(&self) -> FramerView {
        self.framer@
    }
}

impl OutputHandler {
    /// The flag whose firing tells this framer's driver to stop.
    pub closed spec fn signal(&self) -> ToggleState {
        self.input_done.flag()
    }

    /// A framer that has read nothing yet and stops on `input_done`.
    pub fn new(input_done: ToggleReceiver) -> (handler: Self)
        ensures
            handler@ == initial(),
            handler.signal() == input_done.flag(),
    {
        OutputHandler { input_done, framer: Framer::new() }
    }

    /// Whether the closing frame has been emitted.
    pub fn is_finished(&self) -> (finished: bool)
        ensures
            finished == self@.child_done,
    {
        self.framer.is_finished()
    }

    /// A waiter on the shutdown signal, for the driver to race against its
    /// pending read.
    pub fn shutdown_waiter(&self) -> (waiter: ToggleWaiter)
        ensures
            waiter is Done || waiter.watches(self.signal()),
    {
        self.input_done.wait()
    }

    /// Takes one event and returns the decoded frame that it completes, if
    /// any.
    pub fn task(&mut self, event: ReadEvent) -> (out: Option<DunnetResponse>)
        ensures
            final(self)@ == step(old(self)@, event@).0,
            final(self).signal() == old(self).signal(),
            match out {
                Some(frame) => step(old(self)@, event@).1 matches Some(raw) && frame@ == decoded(
                    raw,
                ),
                None => step(old(self)@, event@).1 is None,
            },
    {
        match self.framer.accept(event) {
            Some(raw) => Some(raw.decode()),
            None => None,
        }
    }
}

/// Frames a whole recorded stream: reads it prompt byte by prompt byte through
/// a fresh framer, then reports its end.
pub fn frame_stream(stream: &[u8]) -> (frames: Vec<RawFrame>)
    ensures
        raw_views(frames@) == split_at_prompts(stream@),
{
    let total = stream.len();
    let mut framer = Framer::new();
    let mut frames: Vec<RawFrame> = Vec::new();
    let mut pos: usize = 0;
    assert(stream@.skip(0) =~= stream@);
    assert(raw_views(frames@) + run(framer@, reads_of(stream@)) =~= run(
        initial(),
        reads_of(stream@),
    ));
    while pos < total
        invariant
            pos <= total == stream@.len(),
            !framer@.child_done,
            run(initial(), reads_of(stream@)) == raw_views(frames@) + run(
                framer@,
                reads_of(stream@.skip(pos as int)),
            ),
        decreases total - pos,
    {
        let rest = slice_subrange(stream, pos, total);
        let at = find_byte(rest, PROMPT);
        let stop = if at < rest.len() {
            at + 1
        } else {
            rest.len()
        };
        let chunk = slice_to_vec(slice_subrange(rest, 0, stop));
        let ghost before = raw_views(frames@);
        proof {
            lemma_first_index(rest@, PROMPT);
            assert(rest@ =~= stream@.skip(pos as int));
            assert(chunk@ =~= next_read(rest@));
            assert(reads_of(rest@).skip(1) =~= reads_of(rest@.skip(stop as int)));
            assert(rest@.skip(stop as int) =~= stream@.skip(pos + stop));
        }
        match framer.accept(ReadEvent::Read(chunk)) {
            Some(frame) => {
                frames.push(frame);
                assert(raw_views(frames@) =~= before + seq![frame@]);
                assert(before + (seq![frame@] + run(framer@, reads_of(rest@).skip(1))) =~= (before
                    + seq![frame@]) + run(framer@, reads_of(rest@).skip(1)));
            },
            None => {},
        }
        pos = pos + stop;
    }
    let ghost before = raw_views(frames@);
    let ghost last_events = reads_of(stream@.skip(pos as int));
    proof {
        assert(stream@.skip(pos as int) =~= Seq::<u8>::empty());
        assert(last_events =~= seq![ReadEventView::Read(Seq::empty())]);
        assert(last_events.skip(1) =~= Seq::<ReadEventView>::empty());
    }
    match framer.accept(ReadEvent::Read(Vec::new())) {
        Some(frame) => {
            frames.push(frame);
            proof {
                assert(run(framer@, last_events.skip(1)) =~= Seq::<RawFrameView>::empty());
                assert(raw_views(frames@) =~= before + seq![frame@]);
                lemma_stream_framing(stream@);
            }
        },
        None => {},
    }
    frames
}

} // verus!
