//! What holds of the decoder whatever it is fed: how a body is cut into
//! chunks does not matter, nothing counts after the completing line, and a
//! skipped line leaves no trace.

use crate::decoder::{
    accumulated, completes, decoded, lemma_accumulated_concat, lemma_completes_unfolds, run,
    DecoderState, ReadView,
};
use crate::json::parsed_json;
use crate::text::{
    complete_lines, has_newline, lemma_first_newline, lemma_first_newline_at,
    lemma_lines_of_concat, lemma_remainder_has_no_newline, lenient_text, remainder,
    trim, trim_end,
};
use crate::wire::{line_outcome, marker, payload_of, sentinel, Outcome, WireFormat};
use vstd::prelude::*;
use vstd::utf8::{decode_utf8, pop_first_scalar, valid_utf8, valid_utf8_concat};

verus! {

/// The state after each of `chunks` is received in turn.
pub open spec fn absorb_all(state: DecoderState, chunks: Seq<Seq<char>>) -> DecoderState
    decreases chunks.len(),
{
    if chunks.len() == 0 {
        state
    } else {
        absorb_all(state.absorb(chunks[0]), chunks.drop_first())
    }
}

/// The reads that bring `chunks`, none of them failing.
pub open spec fn data_reads(chunks: Seq<Seq<u8>>) -> Seq<ReadView> {
    Seq::new(chunks.len(), |i: int| ReadView::Data(chunks[i]))
}

/// The text of each of `chunks` under lenient decoding.
pub open spec fn lenient_texts(chunks: Seq<Seq<u8>>) -> Seq<Seq<char>> {
    Seq::new(chunks.len(), |i: int| lenient_text(chunks[i]))
}

/// A text without a newline has no complete line and is its own remainder.
pub proof fn lemma_no_newline_no_line(text: Seq<char>)
    requires
        !has_newline(text),
    ensures
        complete_lines(text) == Seq::<Seq<char>>::empty(),
        remainder(text) == text,
{
    lemma_first_newline(text);
}

/// A text that ends at a line boundary, followed by a line and its newline,
/// has that line as its last complete line and ends at a line boundary
/// again.
pub proof fn lemma_lines_push(before: Seq<char>, line: Seq<char>)
    requires
        remainder(before).len() == 0,
        !has_newline(line),
    ensures
        complete_lines(before + line + seq!['\n']) == complete_lines(before) + seq![line],
        remainder(before + line + seq!['\n']).len() == 0,
{
    let ended = line + seq!['\n'];
    lemma_first_newline(line);
    assert forall|k: int| 0 <= k < line.len() implies ended[k] != '\n' by {
        assert(ended[k] == line[k]);
    }
    lemma_first_newline_at(ended, line.len() as int);
    assert(ended.take(line.len() as int) == line);
    assert(ended.skip(line.len() as int + 1) == Seq::<char>::empty());
    assert(complete_lines(Seq::<char>::empty()) == Seq::<Seq<char>>::empty());
    assert(remainder(Seq::<char>::empty()) == Seq::<char>::empty());
    lemma_lines_of_concat(before, ended);
    assert(before + line + seq!['\n'] == before + ended);
}

/// Receiving text never leaves a newline pending.
pub proof fn law_absorb_settles(state: DecoderState, text: Seq<char>)
    requires
        state.settled(),
    ensures
        state.absorb(text).settled(),
{
    if !state.finished {
        lemma_remainder_has_no_newline(state.pending + text);
    }
}

/// Where a cut falls does not matter: receiving a text in two parts leaves
/// the decoder where receiving it in one part does.
pub proof fn law_cut_anywhere(state: DecoderState, first: Seq<char>, second: Seq<char>)
    ensures
        state.absorb(first).absorb(second) == state.absorb(first + second),
{
    if !state.finished {
        let buffered = state.pending + first;
        let format = state.format;
        lemma_lines_of_concat(buffered, second);
        assert(buffered + second == state.pending + (first + second));
        let early = complete_lines(buffered);
        let late = complete_lines(remainder(buffered) + second);
        lemma_accumulated_concat(format, early, late);
        if !completes(format, early) {
            assert(state.response + (accumulated(format, early) + accumulated(format, late)) == (
                state.response + accumulated(format, early)) + accumulated(format, late));
        }
    }
}

/// Chunk-boundary independence, on text: receiving the chunks of a body one
/// by one leaves the decoder where receiving the whole body at once does.
pub proof fn law_chunking(state: DecoderState, chunks: Seq<Seq<char>>)
    requires
        state.settled(),
    ensures
        absorb_all(state, chunks) == state.absorb(chunks.flatten()),
    decreases chunks.len(),
{
    if chunks.len() == 0 {
        if !state.finished {
            lemma_no_newline_no_line(state.pending);
        }
    } else {
        law_absorb_settles(state, chunks[0]);
        law_chunking(state.absorb(chunks[0]), chunks.drop_first());
        law_cut_anywhere(state, chunks[0], chunks.drop_first().flatten());
    }
}

/// Reads that all bring data leave the decoder where receiving the lenient
/// text of each chunk in turn does.
pub proof fn lemma_run_of_data(state: DecoderState, chunks: Seq<Seq<u8>>)
    ensures
        run(state, data_reads(chunks)) == Ok::<DecoderState, Seq<char>>(
            absorb_all(state, lenient_texts(chunks)),
        ),
    decreases chunks.len(),
{
    if chunks.len() > 0 {
        let rest = chunks.drop_first();
        assert(data_reads(chunks).drop_first() == data_reads(rest));
        assert(lenient_texts(chunks).drop_first() == lenient_texts(rest));
        if state.finished {
            lemma_finished_ignores(state, lenient_texts(chunks));
        } else {
            lemma_run_of_data(state.absorb(lenient_text(chunks[0])), rest);
        }
    }
}

/// A finished decoder ignores whatever it is fed.
pub proof fn lemma_finished_ignores(state: DecoderState, chunks: Seq<Seq<char>>)
    requires
        state.finished,
    ensures
        absorb_all(state, chunks) == state,
    decreases chunks.len(),
{
    if chunks.len() > 0 {
        lemma_finished_ignores(state, chunks.drop_first());
    }
}

/// Reading on from where earlier reads left off: a run of reads followed by
/// another leaves the decoder where the second run leaves the state that
/// the first run reached, and fails where the first run fails.
pub proof fn law_run_in_two(state: DecoderState, earlier: Seq<ReadView>, later: Seq<ReadView>)
    ensures
        run(state, earlier + later) == match run(state, earlier) {
            Ok(reached) => run(reached, later),
            Err(detail) => Err(detail),
        },
    decreases earlier.len(),
{
    if earlier.len() == 0 {
        assert(earlier + later == later);
    } else if state.finished {
        lemma_finished_stops(state, earlier + later);
        lemma_finished_stops(state, later);
    } else {
        let whole = earlier + later;
        assert(whole.drop_first() == earlier.drop_first() + later);
        match earlier[0] {
            ReadView::Data(bytes) => {
                law_run_in_two(state.absorb(lenient_text(bytes)), earlier.drop_first(), later);
            },
            ReadView::Failed(_) => {},
        }
    }
}

/// A finished decoder reads nothing more.
pub proof fn lemma_finished_stops(state: DecoderState, reads: Seq<ReadView>)
    requires
        state.finished,
    ensures
        run(state, reads) == Ok::<DecoderState, Seq<char>>(state),
{
}

/// Nothing is read after completion: once the reads so far have finished the
/// decoder, no later read changes the outcome, be it more data or a failure
/// of the transport.
pub proof fn law_no_read_after_completion(
    state: DecoderState,
    earlier: Seq<ReadView>,
    later: Seq<ReadView>,
)
    requires
        run(state, earlier) matches Ok(reached) && reached.finished,
    ensures
        run(state, earlier + later) == run(state, earlier),
{
    law_run_in_two(state, earlier, later);
    lemma_finished_stops(run(state, earlier)->Ok_0, later);
}

/// A failed read before completion aborts decoding: where the chunks read
/// so far have not finished the decoder, a failure of the transport is the
/// outcome, whatever was decoded before and whatever would follow.
pub proof fn law_failure_aborts(
    state: DecoderState,
    chunks: Seq<Seq<u8>>,
    detail: Seq<char>,
    later: Seq<ReadView>,
)
    requires
        !absorb_all(state, lenient_texts(chunks)).finished,
    ensures
        run(state, data_reads(chunks) + seq![ReadView::Failed(detail)] + later) == Err::<
            DecoderState,
            Seq<char>,
        >(detail),
{
    let failed = seq![ReadView::Failed(detail)] + later;
    lemma_run_of_data(state, chunks);
    law_run_in_two(state, data_reads(chunks), failed);
    assert(data_reads(chunks) + seq![ReadView::Failed(detail)] + later == data_reads(chunks)
        + failed);
}

/// Well-formed UTF-8 decodes piece by piece: the text of two well-formed
/// runs of bytes, one after the other, is the text of the first followed by
/// the text of the second.
pub proof fn lemma_decode_concat(first: Seq<u8>, second: Seq<u8>)
    requires
        valid_utf8(first),
        valid_utf8(second),
    ensures
        valid_utf8(first + second),
        decode_utf8(first + second) == decode_utf8(first) + decode_utf8(second),
    decreases first.len(),
{
    valid_utf8_concat(first, second);
    if first.len() == 0 {
        assert(first + second == second);
    } else {
        let rest = pop_first_scalar(first);
        assert(pop_first_scalar(first + second) == rest + second);
        lemma_decode_concat(rest, second);
        let head = decode_utf8(first + second)[0];
        assert(seq![head] + (decode_utf8(rest) + decode_utf8(second)) == (seq![head]
            + decode_utf8(rest)) + decode_utf8(second));
    }
}

/// Chunks that are each well-formed UTF-8 decode, one by one, to the text of
/// the whole body.
pub proof fn lemma_well_formed_chunks(chunks: Seq<Seq<u8>>)
    requires
        forall|i: int| 0 <= i < chunks.len() ==> valid_utf8(#[trigger] chunks[i]),
    ensures
        valid_utf8(chunks.flatten()),
        lenient_texts(chunks).flatten() == lenient_text(chunks.flatten()),
    decreases chunks.len(),
{
    if chunks.len() > 0 {
        let rest = chunks.drop_first();
        assert forall|i: int| 0 <= i < rest.len() implies valid_utf8(#[trigger] rest[i]) by {
            assert(rest[i] == chunks[i + 1]);
        }
        lemma_well_formed_chunks(rest);
        lemma_decode_concat(chunks[0], rest.flatten());
        assert(lenient_texts(chunks).drop_first() == lenient_texts(rest));
    }
}

/// Chunk-boundary independence, on bytes: where decoding the chunks one by
/// one yields the text of the whole body, reading the body chunk by chunk
/// leaves the decoder where reading it as one chunk does. A cut inside the
/// encoding of one character breaks the condition: each half then decodes
/// to U+FFFD.
pub proof fn law_chunking_of_bytes(format: WireFormat, chunks: Seq<Seq<u8>>)
    requires
        lenient_texts(chunks).flatten() == lenient_text(chunks.flatten()),
    ensures
        run(DecoderState::start(format), data_reads(chunks)) == run(
            DecoderState::start(format),
            data_reads(seq![chunks.flatten()]),
        ),
        run(DecoderState::start(format), data_reads(chunks)) == Ok::<DecoderState, Seq<char>>(
            DecoderState::start(format).absorb(lenient_text(chunks.flatten())),
        ),
{
    let start = DecoderState::start(format);
    let whole = seq![chunks.flatten()];
    lemma_run_of_data(start, chunks);
    law_chunking(start, lenient_texts(chunks));
    lemma_run_of_data(start, whole);
    law_chunking(start, lenient_texts(whole));
    assert(lenient_texts(whole) == seq![lenient_text(chunks.flatten())]);
    let single = seq![lenient_text(chunks.flatten())];
    assert(single.drop_first() == Seq::<Seq<char>>::empty());
    assert(Seq::<Seq<char>>::empty().flatten() == Seq::<char>::empty());
    assert(lenient_text(chunks.flatten()) + Seq::<char>::empty() == lenient_text(
        chunks.flatten(),
    ));
}

/// Chunk-boundary independence for a well-formed body cut between
/// characters: where each chunk is well-formed UTF-8, reading the body chunk
/// by chunk yields the response that decoding the whole body yields.
pub proof fn law_chunking_between_characters(format: WireFormat, chunks: Seq<Seq<u8>>)
    requires
        forall|i: int| 0 <= i < chunks.len() ==> valid_utf8(#[trigger] chunks[i]),
    ensures
        valid_utf8(chunks.flatten()),
        run(DecoderState::start(format), data_reads(chunks)) matches Ok(state)
            && state.response == decoded(format, lenient_text(chunks.flatten())),
{
    lemma_well_formed_chunks(chunks);
    law_chunking_of_bytes(format, chunks);
}

/// Streaming and reading to the end agree: the chunks of a body, received
/// one by one, yield the response that the whole body yields when it is
/// decoded at once.
pub proof fn law_streaming_agrees(format: WireFormat, chunks: Seq<Seq<char>>)
    ensures
        absorb_all(DecoderState::start(format), chunks).response == decoded(
            format,
            chunks.flatten(),
        ),
{
    law_chunking(DecoderState::start(format), chunks);
}

/// Nothing counts after completion: once a decoder is finished, whatever
/// else arrives changes neither the response nor anything else.
pub proof fn law_nothing_after_completion(state: DecoderState, body: Seq<char>, trailing: Seq<char>)
    requires
        state.absorb(body).finished,
    ensures
        state.absorb(body + trailing) == state.absorb(body),
{
    law_cut_anywhere(state, body, trailing);
}

/// A completing line ends the response. Of a body that holds, after whole
/// lines none of which completes the stream, a line that does, the response
/// is that of the lines before followed by the fragment of the completing
/// line, whatever follows it.
pub proof fn law_completing_line(
    format: WireFormat,
    before: Seq<char>,
    line: Seq<char>,
    trailing: Seq<char>,
)
    requires
        remainder(before).len() == 0,
        !completes(format, complete_lines(before)),
        !has_newline(line),
        line_outcome(format, line).done,
    ensures
        decoded(format, before + line + seq!['\n'] + trailing) == decoded(format, before)
            + line_outcome(format, line).text(),
        DecoderState::start(format).absorb(before + line + seq!['\n'] + trailing).finished,
{
    let start = DecoderState::start(format);
    let body = before + line + seq!['\n'];
    lemma_lines_push(before, line);
    lemma_accumulated_concat(format, complete_lines(before), seq![line]);
    lemma_completes_unfolds(format, seq![line]);
    assert(Seq::<char>::empty() + (accumulated(format, complete_lines(before)) + accumulated(
        format,
        seq![line],
    )) == (Seq::<char>::empty() + accumulated(format, complete_lines(before))) + accumulated(
        format,
        seq![line],
    ));
    law_cut_anywhere(start, body, trailing);
}

/// The line `data: [DONE]` completes an event stream and carries no text.
pub proof fn lemma_sentinel_line()
    ensures
        line_outcome(WireFormat::EventStream, "data: [DONE]"@) == (Outcome {
            fragment: None,
            done: true,
        }),
        !has_newline("data: [DONE]"@),
{
    reveal_strlit("data: [DONE]");
    reveal_strlit("data: ");
    reveal_strlit("[DONE]");
    let line = "data: [DONE]"@;
    assert(trim_end(line) == line);
    assert(marker().is_prefix_of(line));
    let payload = line.skip(6);
    assert(payload == sentinel());
    assert(trim(payload) == payload);
    assert forall|k: int| 0 <= k < line.len() implies line[k] != '\n' by {}
    lemma_first_newline_at(line, line.len() as int);
}

/// Only the sentinel completes an event stream: a line completes it where
/// the line begins with the marker and its payload, the marker removed
/// once, is the sentinel, and nowhere else.
pub proof fn lemma_only_sentinel_completes(line: Seq<char>)
    ensures
        line_outcome(WireFormat::EventStream, line).done == (marker().is_prefix_of(trim_end(line))
            && payload_of(trim_end(line)) == sentinel()),
{
}

/// A second marker belongs to the payload: the line `data: data: [DONE]`
/// has the payload `data: [DONE]`, which is not the sentinel, so the line
/// does not complete the stream.
pub proof fn lemma_doubled_marker()
    ensures
        payload_of(trim_end("data: data: [DONE]"@)) == "data: [DONE]"@,
        !line_outcome(WireFormat::EventStream, "data: data: [DONE]"@).done,
{
    reveal_strlit("data: data: [DONE]");
    reveal_strlit("data: [DONE]");
    reveal_strlit("data: ");
    reveal_strlit("[DONE]");
    let line = "data: data: [DONE]"@;
    assert(trim_end(line) == line);
    let payload = line.skip(6);
    assert(payload == "data: [DONE]"@);
    assert(trim(payload) == payload);
    assert(payload.len() != sentinel().len());
    lemma_only_sentinel_completes(line);
}

/// The sentinel ends an event stream: of a body that holds, after whole
/// lines none of which completes the stream, the line `data: [DONE]`, the
/// response is that of the lines before, whatever follows the sentinel.
pub proof fn law_sentinel_ends_stream(before: Seq<char>, trailing: Seq<char>)
    requires
        remainder(before).len() == 0,
        !completes(WireFormat::EventStream, complete_lines(before)),
    ensures
        decoded(WireFormat::EventStream, before + "data: [DONE]"@ + seq!['\n'] + trailing)
            == decoded(WireFormat::EventStream, before),
        DecoderState::start(WireFormat::EventStream).absorb(
            before + "data: [DONE]"@ + seq!['\n'] + trailing,
        ).finished,
{
    lemma_sentinel_line();
    law_completing_line(WireFormat::EventStream, before, "data: [DONE]"@, trailing);
    assert(decoded(WireFormat::EventStream, before) + Seq::<char>::empty() == decoded(
        WireFormat::EventStream,
        before,
    ));
}

/// Text that is no JSON document is skipped in either format, as is a line
/// of an event stream that lacks the marker.
pub proof fn lemma_malformed_is_skipped(line: Seq<char>)
    ensures
        parsed_json(line) is None ==> line_outcome(WireFormat::LineJson, line)
            == Outcome::skipped(),
        !marker().is_prefix_of(trim_end(line)) ==> line_outcome(WireFormat::EventStream, line)
            == Outcome::skipped(),
        marker().is_prefix_of(trim_end(line)) && payload_of(trim_end(line)) != sentinel()
            && parsed_json(payload_of(trim_end(line))) is None ==> line_outcome(
            WireFormat::EventStream,
            line,
        ) == Outcome::skipped(),
{
}

/// Skip and continue, on lines: a skipped line among other lines changes
/// neither what they accumulate nor whether they complete the stream.
pub proof fn law_skipped_line(
    format: WireFormat,
    before: Seq<Seq<char>>,
    skipped: Seq<char>,
    after: Seq<Seq<char>>,
)
    requires
        line_outcome(format, skipped) == Outcome::skipped(),
    ensures
        accumulated(format, before + seq![skipped] + after) == accumulated(format, before + after),
        completes(format, before + seq![skipped] + after) == completes(format, before + after),
{
    let single = seq![skipped];
    assert(single.drop_first() == Seq::<Seq<char>>::empty());
    lemma_completes_unfolds(format, single);
    assert(accumulated(format, single) == Seq::<char>::empty()) by {
        assert(accumulated(format, Seq::<Seq<char>>::empty()) == Seq::<char>::empty());
    }
    lemma_accumulated_concat(format, before, single);
    lemma_accumulated_concat(format, before + single, after);
    lemma_accumulated_concat(format, before, after);
}

/// Skip and continue, on text: a skipped line between whole lines and the
/// rest of a body leaves the decoder where the body without that line
/// leaves it.
pub proof fn law_skip_and_continue(
    format: WireFormat,
    before: Seq<char>,
    skipped: Seq<char>,
    after: Seq<char>,
)
    requires
        remainder(before).len() == 0,
        !has_newline(skipped),
        line_outcome(format, skipped) == Outcome::skipped(),
    ensures
        DecoderState::start(format).absorb(before + skipped + seq!['\n'] + after)
            == DecoderState::start(format).absorb(before + after),
{
    let with = before + skipped + seq!['\n'];
    lemma_lines_push(before, skipped);
    lemma_lines_of_concat(with, after);
    lemma_lines_of_concat(before, after);
    law_skipped_line(format, complete_lines(before), skipped, complete_lines(after));
}

} // verus!
