//! The streaming response decoder: bytes arrive in chunks of any size, are
//! reassembled into logical lines, and each line adds its fragment to the
//! accumulated response until a line completes the stream.

use crate::text::{
    chars_of, complete_lines, find_newline, first_newline, has_newline, lemma_first_newline,
    decode_lenient, lemma_first_newline_at, lemma_remainder_has_no_newline, lenient_text, remainder,
};
use crate::wire::{decode_chars, line_outcome, WireFormat};
use vstd::prelude::*;
use vstd::slice::slice_subrange;
use vstd::string::StringExecFns;

verus! {

/// The text that a run of logical lines adds to the response: the fragments
/// of the lines in order, up to and including the first line that completes
/// the stream. Lines after that one add nothing.
pub open spec fn accumulated(format: WireFormat, lines: Seq<Seq<char>>) -> Seq<char>
    decreases lines.len(),
{
    if lines.len() == 0 {
        Seq::empty()
    } else {
        let first = line_outcome(format, lines[0]);
        if first.done {
            first.text()
        } else {
            first.text() + accumulated(format, lines.drop_first())
        }
    }
}

/// Whether one of the lines completes the stream.
pub open spec fn completes(format: WireFormat, lines: Seq<Seq<char>>) -> bool {
    exists|i: int| 0 <= i < lines.len() && (#[trigger] line_outcome(format, lines[i])).done
}

/// A run of lines completes the stream where its first line does or where
/// the lines after the first do.
pub proof fn lemma_completes_unfolds(format: WireFormat, lines: Seq<Seq<char>>)
    requires
        lines.len() > 0,
    ensures
        completes(format, lines) == (line_outcome(format, lines[0]).done || completes(
            format,
            lines.drop_first(),
        )),
{
    let rest = lines.drop_first();
    if completes(format, lines) {
        let i = choose|i: int|
            0 <= i < lines.len() && (#[trigger] line_outcome(format, lines[i])).done;
        if i > 0 {
            assert(rest[i - 1] == lines[i]);
        }
    }
    if completes(format, rest) {
        let i = choose|i: int|
            0 <= i < rest.len() && (#[trigger] line_outcome(format, rest[i])).done;
        assert(line_outcome(format, lines[i + 1]).done);
    }
}

/// Lines that follow a completed run add nothing; lines that follow a run
/// that is not complete add their own text after it.
pub proof fn lemma_accumulated_concat(
    format: WireFormat,
    head: Seq<Seq<char>>,
    tail: Seq<Seq<char>>,
)
    ensures
        accumulated(format, head + tail) == if completes(format, head) {
            accumulated(format, head)
        } else {
            accumulated(format, head) + accumulated(format, tail)
        },
        completes(format, head + tail) == (completes(format, head) || completes(format, tail)),
    decreases head.len(),
{
    if head.len() > 0 {
        let whole = head + tail;
        assert(whole.drop_first() == head.drop_first() + tail);
        lemma_completes_unfolds(format, head);
        lemma_completes_unfolds(format, whole);
        lemma_accumulated_concat(format, head.drop_first(), tail);
        let first = line_outcome(format, head[0]);
        if !first.done && !completes(format, head.drop_first()) {
            assert(first.text() + (accumulated(format, head.drop_first()) + accumulated(
                format,
                tail,
            )) == (first.text() + accumulated(format, head.drop_first())) + accumulated(
                format,
                tail,
            ));
        }
    }
}

/// The state of a decoder, as a mathematical value.
pub struct DecoderState {
    /// The wire format, fixed when decoding starts.
    pub format: WireFormat,
    /// The text received that is not yet a complete line.
    pub pending: Seq<char>,
    /// The response accumulated so far.
    pub response: Seq<char>,
    /// Whether a line has completed the stream.
    pub finished: bool,
}

impl DecoderState {
    /// The state before anything is received.
    pub open spec fn start(format: WireFormat) -> DecoderState {
        DecoderState { format, pending: Seq::empty(), response: Seq::empty(), finished: false }
    }

    /// Whether the pending text holds no newline. Every state that decoding
    /// reaches is settled: a line is decoded as soon as its newline arrives.
    pub open spec fn settled(self) -> bool {
        !has_newline(self.pending)
    }

    /// The state after `text` is received. A finished decoder ignores it.
    /// Else the lines that the pending text and `text` together complete
    /// add their fragments; where one of them completes the stream the
    /// decoder is finished and holds no pending text, and where none does
    /// it keeps what follows the last newline.
    pub open spec fn absorb(self, text: Seq<char>) -> DecoderState {
        if self.finished {
            self
        } else {
            let buffered = self.pending + text;
            let lines = complete_lines(buffered);
            DecoderState {
                format: self.format,
                pending: if completes(self.format, lines) {
                    Seq::empty()
                } else {
                    remainder(buffered)
                },
                response: self.response + accumulated(self.format, lines),
                finished: completes(self.format, lines),
            }
        }
    }
}

/// The response that a whole body of text decodes to.
pub open spec fn decoded(format: WireFormat, body: Seq<char>) -> Seq<char> {
    DecoderState::start(format).absorb(body).response
}

/// One read from the transport that carries a response body.
#[derive(Debug)]
pub enum ChunkRead {
    /// The next bytes of the body.
    Data(Vec<u8>),
    /// The transport failed; the text says how.
    Failed(String),
}

/// One read from the transport, as a mathematical value.
pub enum ReadView {
    Data(Seq<u8>),
    Failed(Seq<char>),
}

impl View for ChunkRead {
    type V = ReadView;

    open spec fn view(&self) -> ReadView {
        match self {
            ChunkRead::Data(bytes) => ReadView::Data(bytes@),
            ChunkRead::Failed(detail) => ReadView::Failed(detail@),
        }
    }
}

/// The views of a run of reads.
pub open spec fn reads_of(reads: Seq<ChunkRead>) -> Seq<ReadView> {
    Seq::new(reads.len(), |i: int| reads[i]@)
}

/// A read from the body of a response failed. No response is handed out
/// then, whatever was decoded before.
#[derive(Debug)]
pub struct DecodeError {
    /// What the transport said of the failure.
    pub detail: String,
}

/// What a failed read says of itself.
pub open spec fn decode_message(error: DecodeError) -> Seq<char> {
    "Failed to read stream chunk: "@ + error.detail@
}

impl DecodeError {
    /// What the failure says of itself.
    pub fn message(&self) -> (message: String)
        ensures
            message@ == decode_message(*self),
    {
        let mut message = "Failed to read stream chunk: ".to_owned();
        message.append(self.detail.as_str());
        message
    }
}

/// What is to happen after one read.
#[derive(Debug)]
pub enum Step {
    /// Show the text that the read added and read on.
    Continue(String),
    /// Show the text that the read added and read no more: the response is
    /// complete.
    Complete(String),
    /// Give up: the transport failed before the response was complete.
    Abort(DecodeError),
}

/// Where a run of reads leaves a decoder. Each chunk is decoded leniently
/// and absorbed; a finished decoder reads no further, so that a failure
/// after the completing chunk goes unseen; a failure before it ends the
/// run, with what the transport said.
pub open spec fn run(state: DecoderState, reads: Seq<ReadView>) -> Result<DecoderState, Seq<char>>
    decreases reads.len(),
{
    if state.finished || reads.len() == 0 {
        Ok(state)
    } else {
        match reads[0] {
            ReadView::Data(bytes) => run(state.absorb(lenient_text(bytes)), reads.drop_first()),
            ReadView::Failed(detail) => Err(detail),
        }
    }
}

/// A run of reads goes one read at a time: the first read leaves a state or
/// fails, and the rest of the run goes on from that state.
pub proof fn lemma_run_unfolds(state: DecoderState, reads: Seq<ReadView>)
    requires
        reads.len() > 0,
    ensures
        run(state, reads) == match run(state, seq![reads[0]]) {
            Ok(next) => run(next, reads.drop_first()),
            Err(detail) => Err(detail),
        },
{
    let single = seq![reads[0]];
    assert(single.drop_first() == Seq::<ReadView>::empty());
    if !state.finished {
        if let ReadView::Data(bytes) = reads[0] {
            let next = state.absorb(lenient_text(bytes));
            assert(run(next, Seq::<ReadView>::empty()) == Ok::<DecoderState, Seq<char>>(next));
        }
    }
}

/// An incremental decoder of one response.
#[derive(Debug)]
pub struct StreamDecoder {
    format: WireFormat,
    pending: Vec<char>,
    response: String,
    finished: bool,
}

impl View for StreamDecoder {
    type V = DecoderState;

    closed spec fn view(&self) -> DecoderState {
        DecoderState {
            format: self.format,
            pending: self.pending@,
            response: self.response@,
            finished: self.finished,
        }
    }
}

impl StreamDecoder {
    /// The pending text never holds a newline: a line is decoded as soon as
    /// its newline arrives.
    #[verifier::type_invariant]
    spec fn well_formed(self) -> bool {
        !has_newline(self.pending@)
    }

    /// A decoder that has received nothing.
    pub fn new(format: WireFormat) -> (decoder: StreamDecoder)
        ensures
            decoder@ == DecoderState::start(format),
    {
        StreamDecoder { format, pending: Vec::new(), response: String::new(), finished: false }
    }

    /// The wire format that this decoder reads.
    pub fn format(&self) -> (format: WireFormat)
        ensures
            format == self@.format,
    {
        self.format
    }

    /// Whether a line has completed the stream. Nothing fed after that
    /// changes the decoder.
    pub fn is_finished(&self) -> (finished: bool)
        ensures
            finished == self@.finished,
    {
        self.finished
    }

    /// The response accumulated so far.
    pub fn response(&self) -> (response: &str)
        ensures
            response@ == self@.response,
    {
        self.response.as_str()
    }

    /// Ends decoding and hands out the accumulated response. Pending text
    /// that no newline has ended is dropped.
    pub fn into_response(self) -> (response: String)
        ensures
            response@ == self@.response,
    {
        self.response
    }

    /// Receives one chunk of text. Returns the text that the chunk added to
    /// the response, for a caller that shows the response as it grows.
    pub fn feed_text(&mut self, chunk: &str) -> (emitted: String)
        ensures
            final(self)@ == old(self)@.absorb(chunk@),
            final(self)@.response == old(self)@.response + emitted@,
    {
        if self.finished {
            return String::new();
        }
        proof {
            use_type_invariant(&*self);
            lemma_first_newline(self.pending@);
        }
        let format = self.format;
        let ghost whole = self.pending@ + chunk@;
        let mut buffer: Vec<char> = Vec::new();
        core::mem::swap(&mut buffer, &mut self.pending);
        let mut response = String::new();
        core::mem::swap(&mut response, &mut self.response);
        let held = buffer.len();
        let mut incoming = chars_of(chunk);
        buffer.append(&mut incoming);
        let mut emitted = String::new();
        let mut start: usize = 0;
        let mut from: usize = held;
        let ghost mut lines: Seq<Seq<char>> = Seq::empty();
        proof {
            assert(whole.skip(0) == whole);
        }
        loop
            invariant
                buffer@ == whole,
                start <= from <= whole.len(),
                forall|k: int| start <= k < from ==> whole[k] != '\n',
                complete_lines(whole) == lines + complete_lines(whole.skip(start as int)),
                remainder(whole) == remainder(whole.skip(start as int)),
                !completes(format, lines),
                emitted@ == accumulated(format, lines),
                self.format == format,
                self.pending@ == Seq::<char>::empty(),
                !self.finished,
                response@ == old(self)@.response,
                !old(self)@.finished,
                format == old(self)@.format,
                whole == old(self)@.pending + chunk@,
            ensures
                first_newline(whole.skip(start as int)) == whole.len() - start,
            decreases whole.len() - from,
        {
            let at = find_newline(buffer.as_slice(), from);
            let ghost rest = whole.skip(start as int);
            proof {
                lemma_first_newline(whole.skip(from as int));
                assert forall|k: int| 0 <= k < at - start implies rest[k] != '\n' by {
                    if start + k >= from {
                        assert(whole.skip(from as int)[start + k - from] == whole[start + k]);
                    }
                }
                lemma_first_newline_at(rest, at - start);
            }
            if at >= buffer.len() {
                break ;
            }
            let outcome = decode_chars(format, slice_subrange(buffer.as_slice(), start, at));
            let ghost line = whole.subrange(start as int, at as int);
            let ghost after = complete_lines(whole.skip(at + 1));
            proof {
                assert(rest.take(at - start) == line);
                assert(rest.skip(at - start + 1) == whole.skip(at + 1));
                assert(seq![line].drop_first() == Seq::<Seq<char>>::empty());
                lemma_accumulated_concat(format, seq![line], after);
                lemma_completes_unfolds(format, seq![line]);
                assert(accumulated(format, Seq::<Seq<char>>::empty()) == Seq::<char>::empty());
            }
            if let Some(fragment) = outcome.fragment {
                emitted.append(fragment.as_str());
            }
            if outcome.done {
                proof {
                    lemma_accumulated_concat(format, lines, seq![line] + after);
                }
                response.append(emitted.as_str());
                self.response = response;
                self.finished = true;
                return emitted;
            }
            proof {
                lemma_accumulated_concat(format, lines, seq![line]);
                lines = lines + seq![line];
            }
            start = at + 1;
            from = start;
        }
        proof {
            lemma_remainder_has_no_newline(whole);
        }
        let kept = buffer.split_off(start);
        response.append(emitted.as_str());
        self.pending = kept;
        self.response = response;
        emitted
    }

    /// Receives one chunk of bytes: decodes it leniently as UTF-8, an
    /// ill-formed run of bytes becoming U+FFFD, and receives the text.
    /// Returns the text that the chunk added to the response.
    pub fn feed(&mut self, chunk: &[u8]) -> (emitted: String)
        ensures
            final(self)@ == old(self)@.absorb(lenient_text(chunk@)),
            final(self)@.response == old(self)@.response + emitted@,
    {
        let text = decode_lenient(chunk);
        self.feed_text(text.as_str())
    }

    /// Takes one read from the transport and says what is to happen next.
    /// A finished decoder takes nothing and says so again. Else data is
    /// received as [`StreamDecoder::feed`] does, and a failure leaves the
    /// decoder as it is and aborts.
    pub fn step(&mut self, read: &ChunkRead) -> (step: Step)
        ensures
            run(old(self)@, seq![read@]) == match step {
                Step::Abort(error) => Err::<DecoderState, Seq<char>>(error.detail@),
                _ => Ok::<DecoderState, Seq<char>>(final(self)@),
            },
            step is Abort ==> final(self)@ == old(self)@,
            step matches Step::Continue(emitted) ==> !final(self)@.finished && final(self)@.response
                == old(self)@.response + emitted@,
            step matches Step::Complete(emitted) ==> final(self)@.finished && final(self)@.response
                == old(self)@.response + emitted@,
    {
        proof {
            assert(seq![read@].drop_first() == Seq::<ReadView>::empty());
        }
        if self.finished {
            return Step::Complete(String::new());
        }
        match read {
            ChunkRead::Data(bytes) => {
                let emitted = self.feed(bytes.as_slice());
                assert(run(self@, Seq::<ReadView>::empty()) == Ok::<DecoderState, Seq<char>>(
                    self@,
                ));
                if self.finished {
                    Step::Complete(emitted)
                } else {
                    Step::Continue(emitted)
                }
            },
            ChunkRead::Failed(detail) => Step::Abort(DecodeError { detail: detail.clone() }),
        }
    }
}

/// Decodes a response body that was read to its end: the whole text is one
/// chunk.
pub fn decode_text(format: WireFormat, body: &str) -> (response: String)
    ensures
        response@ == decoded(format, body@),
{
    let mut decoder = StreamDecoder::new(format);
    let _ = decoder.feed_text(body);
    decoder.into_response()
}

/// Decodes the bytes of a response body that was read to its end: the bytes
/// are decoded leniently as UTF-8 and are one chunk.
pub fn decode_bytes(format: WireFormat, body: &[u8]) -> (response: String)
    ensures
        response@ == decoded(format, lenient_text(body@)),
{
    let mut decoder = StreamDecoder::new(format);
    let _ = decoder.feed(body);
    decoder.into_response()
}

/// Decodes a response body from the reads that brought it, in order, and
/// stops reading at the chunk that completes the stream. The response is
/// handed out where the reads end or the stream completes before any read
/// fails, and only then.
pub fn decode_stream(format: WireFormat, reads: &[ChunkRead]) -> (result: Result<
    String,
    DecodeError,
>)
    ensures
        match run(DecoderState::start(format), reads_of(reads@)) {
            Ok(state) => result matches Ok(response) && response@ == state.response,
            Err(detail) => result matches Err(error) && error.detail@ == detail,
        },
{
    let mut decoder = StreamDecoder::new(format);
    let ghost all = reads_of(reads@);
    let mut i: usize = 0;
    proof {
        assert(all.skip(0) == all);
    }
    while i < reads.len()
        invariant
            i <= reads.len(),
            all == reads_of(reads@),
            run(DecoderState::start(format), all) == run(decoder@, all.skip(i as int)),
        decreases reads.len() - i,
    {
        proof {
            assert(all.skip(i as int).drop_first() == all.skip(i + 1));
            lemma_run_unfolds(decoder@, all.skip(i as int));
        }
        match decoder.step(&reads[i]) {
            Step::Continue(_) => {},
            Step::Complete(_) => {
                return Ok(decoder.into_response());
            },
            Step::Abort(error) => {
                return Err(error);
            },
        }
        i += 1;
    }
    Ok(decoder.into_response())
}

} // verus!
