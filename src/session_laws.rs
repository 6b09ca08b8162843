use vstd::prelude::*;

use crate::line_decoder::line_outcome;
use crate::mpd_handler::{
    ack_effect, apply_line, art_received, art_type_effect, artist_effect, banner_effect,
    binary_effect, binary_stage, chunk_completed, chunk_progressed, duration_effect,
    elapsed_effect, file_effect, ok_effect, overtime_checked, pause_effect, play_effect,
    read_block_effect, read_loop, read_step, request_chosen, request_sent_effect,
    separator_skipped, size_effect, title_effect, with_carry, write_decision, HandlerView,
    LineFlow, PollState,
};
use crate::text::{after_prefix, has_prefix};

verus! {

/// Feeds the reads `chunks` in turn to the binary chunk extractor: the state
/// after, and every byte handed on to line decoding, in order.
pub open spec fn feed_binary(s: HandlerView, chunks: Seq<Seq<u8>>) -> (HandlerView, Seq<u8>)
    decreases chunks.len(),
{
    if chunks.len() == 0 {
        (s, Seq::empty())
    } else {
        let (s1, r1) = binary_stage(s, chunks[0]);
        let (s2, r2) = feed_binary(s1, chunks.drop_first());
        (s2, r1 + r2)
    }
}

/// The bytes that the extractor still claims: the rest of the payload and
/// then its separator.
pub open spec fn binary_owed(s: HandlerView) -> nat {
    if s.binary_remaining > 0 || s.separator_pending {
        (s.binary_remaining + 1) as nat
    } else {
        s.binary_remaining as nat
    }
}

proof fn lemma_feed_binary_general(
    s: HandlerView,
    chunks: Seq<Seq<u8>>,
    body: Seq<u8>,
    sep: Seq<u8>,
    after: Seq<u8>,
)
    requires
        !(s.separator_pending && s.binary_remaining > 0),
        body.len() == s.binary_remaining,
        s.art_data.len() + body.len() <= s.art_data_size,
        sep.len() + body.len() == binary_owed(s),
        chunks.flatten() == body + sep + after,
    ensures
        feed_binary(s, chunks).0.art_data == s.art_data + body,
        feed_binary(s, chunks).0.binary_remaining == 0,
        !feed_binary(s, chunks).0.separator_pending,
        feed_binary(s, chunks).1 == after,
        feed_binary(s, chunks).0.poll_state == s.poll_state,
    decreases chunks.len(),
{
    reveal(chunk_completed);
    reveal(chunk_progressed);
    reveal(art_received);
    reveal(separator_skipped);
    let data = body + sep + after;
    if chunks.len() == 0 {
        assert(data.len() == 0);
        assert(body =~= Seq::<u8>::empty());
        assert(after =~= Seq::<u8>::empty());
        assert(s.art_data + body =~= s.art_data);
        assert(sep.len() == 0);
    } else {
        let c = chunks[0];
        let rest = chunks.drop_first();
        assert(chunks.flatten() == c + rest.flatten());
        assert(c =~= data.subrange(0, c.len() as int));
        assert(rest.flatten() =~= data.subrange(c.len() as int, data.len() as int));
        let (s1, r1) = binary_stage(s, c);
        let m = s.binary_remaining as int;
        if s.separator_pending {
            if c.len() == 0 {
                assert(data.subrange(0, data.len() as int) =~= data);
                lemma_feed_binary_general(s1, rest, body, sep, after);
                assert(r1 + after =~= after);
            } else {
                let after2 = after.subrange(c.len() - 1, after.len() as int);
                assert(rest.flatten() =~= Seq::<u8>::empty() + Seq::<u8>::empty() + after2);
                lemma_feed_binary_general(s1, rest, Seq::empty(), Seq::empty(), after2);
                assert(r1 + after2 =~= after);
                assert(s.art_data + body =~= s.art_data);
            }
        } else if m == 0 {
            let after2 = after.subrange(c.len() as int, after.len() as int);
            assert(rest.flatten() =~= Seq::<u8>::empty() + Seq::<u8>::empty() + after2);
            lemma_feed_binary_general(s1, rest, Seq::empty(), Seq::empty(), after2);
            assert(r1 + after2 =~= after);
            assert(s.art_data + body =~= s.art_data);
        } else if m < c.len() {
            let after2 = after.subrange(c.len() - m - 1, after.len() as int);
            assert(c.subrange(0, m) =~= body);
            assert(rest.flatten() =~= Seq::<u8>::empty() + Seq::<u8>::empty() + after2);
            lemma_feed_binary_general(s1, rest, Seq::empty(), Seq::empty(), after2);
            assert(r1 =~= after.subrange(0, c.len() - m - 1));
            assert(r1 + after2 =~= after);
            assert(s1.art_data + Seq::<u8>::empty() =~= s.art_data + body);
        } else if m == c.len() {
            assert(c =~= body);
            assert(rest.flatten() =~= Seq::<u8>::empty() + sep + after);
            lemma_feed_binary_general(s1, rest, Seq::empty(), sep, after);
            assert(r1 + after =~= after);
            assert(s1.art_data + Seq::<u8>::empty() =~= s.art_data + body);
        } else {
            let body2 = body.subrange(c.len() as int, body.len() as int);
            assert(c =~= body.subrange(0, c.len() as int));
            assert(rest.flatten() =~= body2 + sep + after);
            lemma_feed_binary_general(s1, rest, body2, sep, after);
            assert(r1 + after =~= after);
            assert(s1.art_data + body2 =~= s.art_data + body);
        }
    }
}

/// A binary chunk of `body.len()` bytes announced by a `binary:` header,
/// within the announced art size, followed by one separator byte and then
/// by `after`, delivered across any number of reads of any sizes: the art
/// gains exactly those bytes in order,
/// the extractor claims nothing more, and the bytes handed on to line
/// decoding are exactly those after the separator.
pub proof fn lemma_binary_chunk_framing(
    s: HandlerView,
    chunks: Seq<Seq<u8>>,
    body: Seq<u8>,
    separator: u8,
    after: Seq<u8>,
)
    requires
        !s.separator_pending,
        s.binary_remaining > 0,
        body.len() == s.binary_remaining,
        s.art_data.len() + body.len() <= s.art_data_size,
        chunks.flatten() == body + seq![separator] + after,
    ensures
        feed_binary(s, chunks).0.art_data == s.art_data + body,
        feed_binary(s, chunks).0.binary_remaining == 0,
        !feed_binary(s, chunks).0.separator_pending,
        feed_binary(s, chunks).1 == after,
        feed_binary(s, chunks).0.poll_state == s.poll_state,
{
    lemma_feed_binary_general(s, chunks, body, seq![separator], after);
}

/// Every capability that `a` has, `b` has too.
pub open spec fn capabilities_within(a: HandlerView, b: HandlerView) -> bool {
    &&& a.can_authenticate ==> b.can_authenticate
    &&& a.can_get_status ==> b.can_get_status
    &&& a.can_get_album_art ==> b.can_get_album_art
    &&& a.can_get_album_art_in_dir ==> b.can_get_album_art_in_dir
}

/// `line` gives the art capabilities back in state `s`: a `file:` line
/// that names another track, or `state: stop`.
pub open spec fn restores_capabilities(s: HandlerView, line: Seq<char>) -> bool {
    &&& !s.is_init
    &&& !has_prefix(line, "OK"@)
    &&& !has_prefix(line, "ACK"@)
    &&& ((has_prefix(line, "file: "@) && after_prefix(line, "file: "@) != s.filename) || (
    has_prefix(line, "state: "@) && after_prefix(line, "state: "@) == "stop"@))
}

/// Interprets `lines` in turn from state `s`, all received at time `now`.
pub open spec fn interpret_lines(s: HandlerView, lines: Seq<Seq<char>>, now: u64) -> HandlerView
    decreases lines.len(),
{
    if lines.len() == 0 {
        s
    } else {
        interpret_lines(apply_line(s, lines[0], now).0, lines.drop_first(), now)
    }
}

/// Interpreting a line that does not give the art capabilities back gains
/// no capability.
pub proof fn lemma_line_gains_no_capability(s: HandlerView, line: Seq<char>, now: u64)
    requires
        !restores_capabilities(s, line),
    ensures
        capabilities_within(apply_line(s, line, now).0, s),
{
    let r = apply_line(s, line, now).0;
    if s.is_init {
        assert(capabilities_within(r, s)) by {
            reveal(banner_effect);
        }
    } else if has_prefix(line, "OK"@) {
        assert(capabilities_within(r, s)) by {
            reveal(ok_effect);
        }
    } else if has_prefix(line, "ACK"@) {
        assert(capabilities_within(r, s)) by {
            reveal(ack_effect);
        }
    } else if has_prefix(line, "state: "@) {
        assert(capabilities_within(r, s)) by {
            reveal(pause_effect);
            reveal(play_effect);
        }
    } else if has_prefix(line, "file: "@) {
        assert(capabilities_within(r, s)) by {
            reveal(file_effect);
        }
    } else if has_prefix(line, "elapsed: "@) {
        assert(capabilities_within(r, s)) by {
            reveal(elapsed_effect);
        }
    } else if has_prefix(line, "duration: "@) {
        assert(capabilities_within(r, s)) by {
            reveal(duration_effect);
        }
    } else if has_prefix(line, "size: "@) {
        assert(capabilities_within(r, s)) by {
            reveal(size_effect);
        }
    } else if has_prefix(line, "binary: "@) {
        assert(capabilities_within(r, s)) by {
            reveal(binary_effect);
        }
    } else {
        assert(capabilities_within(r, s)) by {
            reveal(title_effect);
            reveal(artist_effect);
            reveal(art_type_effect);
        }
    }
}

/// No sequence of interpreted lines gives a lost capability back, but for a
/// `file:` line naming another track or a `state: stop` line.
pub proof fn lemma_capabilities_only_restored_by_reset(
    s: HandlerView,
    lines: Seq<Seq<char>>,
    now: u64,
)
    requires
        forall|i: int|
            0 <= i < lines.len() ==> !restores_capabilities(
                #[trigger] interpret_lines(s, lines.take(i), now),
                lines[i],
            ),
    ensures
        capabilities_within(interpret_lines(s, lines, now), s),
    decreases lines.len(),
{
    if lines.len() > 0 {
        assert(lines.take(0) =~= Seq::<Seq<char>>::empty());
        assert(!restores_capabilities(interpret_lines(s, lines.take(0), now), lines[0]));
        lemma_line_gains_no_capability(s, lines[0], now);
        let s1 = apply_line(s, lines[0], now).0;
        let rest = lines.drop_first();
        assert forall|i: int| 0 <= i < rest.len() implies !restores_capabilities(
            #[trigger] interpret_lines(s1, rest.take(i), now),
            rest[i],
        ) by {
            assert(lines.take(i + 1).drop_first() =~= rest.take(i));
            assert(lines.take(i + 1)[0] == lines[0]);
            assert(interpret_lines(s, lines.take(i + 1), now) == interpret_lines(
                s1,
                rest.take(i),
                now,
            ));
            assert(!restores_capabilities(interpret_lines(s, lines.take(i + 1), now), lines[i + 1]));
        }
        lemma_capabilities_only_restored_by_reset(s1, rest, now);
    }
}

/// While a request is pending, the poll state machine neither chooses a
/// request nor changes anything, and recording a sent request keeps the
/// pending one; from an idle state, choosing a request leaves it idle until
/// the request is recorded as sent, and then the chosen request is the one
/// pending. So a second command never goes out before the first is answered.
pub proof fn lemma_single_request_in_flight(s: HandlerView, now: u64, p: PollState)
    ensures
        s.poll_state != PollState::Idle ==> write_decision(s, now) == (s, PollState::Idle)
            && request_sent_effect(s, p) == s,
        s.poll_state == PollState::Idle ==> write_decision(s, now).0.poll_state == PollState::Idle,
        s.poll_state == PollState::Idle ==> request_sent_effect(
            write_decision(s, now).0,
            write_decision(s, now).1,
        ).poll_state == write_decision(s, now).1,
{
    reveal(request_sent_effect);
    reveal(request_chosen);
    reveal(overtime_checked);
}

/// Some line that a read of `buf` at time `now` interprets gives the art
/// capabilities back, in the state at that line.
pub open spec fn block_restores(s: HandlerView, buf: Seq<u8>, now: u64) -> bool
    decreases buf.len(),
{
    let (s1, rest) = binary_stage(s, buf);
    if s1.binary_remaining > 0 || s1.separator_pending {
        false
    } else {
        let out = line_outcome(rest, s1.saved_bytes, s1.is_init);
        match out.result {
            Err(_) => false,
            Ok(line) => {
                let s_in = with_carry(s1, out.saved, Seq::empty());
                let full = s1.saved_line + line;
                let (s2, flow) = apply_line(s_in, full, now);
                restores_capabilities(s_in, full) || (flow == LineFlow::Continue && out.buf.len()
                    < buf.len() && block_restores(s2, out.buf, now))
            },
        }
    }
}

proof fn lemma_binary_stage_keeps_capabilities(s: HandlerView, buf: Seq<u8>)
    ensures
        capabilities_within(binary_stage(s, buf).0, s),
        capabilities_within(s, binary_stage(s, buf).0),
        binary_stage(s, buf).0.is_init == s.is_init,
        binary_stage(s, buf).0.filename == s.filename,
{
    reveal(chunk_completed);
    reveal(chunk_progressed);
    reveal(art_received);
    reveal(separator_skipped);
}

/// A read in which no interpreted line gives the art capabilities back
/// gains no capability.
pub proof fn lemma_block_gains_no_capability(s: HandlerView, buf: Seq<u8>, now: u64)
    requires
        !block_restores(s, buf, now),
    ensures
        capabilities_within(read_loop(s, buf, now).0, s),
    decreases buf.len(),
{
    reveal(with_carry);
    lemma_binary_stage_keeps_capabilities(s, buf);
    let (s1, rest) = binary_stage(s, buf);
    if !(s1.binary_remaining > 0 || s1.separator_pending) {
        let out = line_outcome(rest, s1.saved_bytes, s1.is_init);
        if out.result is Ok {
            let line = out.result->Ok_0;
            let s_in = with_carry(s1, out.saved, Seq::empty());
            let full = s1.saved_line + line;
            lemma_line_gains_no_capability(s_in, full, now);
            let (s2, flow) = apply_line(s_in, full, now);
            assert(read_step(s, buf, now).0 == s2);
            if flow == LineFlow::Continue && out.buf.len() < buf.len() {
                lemma_block_gains_no_capability(s2, out.buf, now);
            }
        }
    }
}

/// Handles the reads `reads` in turn, each with the time it arrived.
pub open spec fn read_blocks(s: HandlerView, reads: Seq<(Seq<u8>, u64)>) -> HandlerView
    decreases reads.len(),
{
    if reads.len() == 0 {
        s
    } else {
        read_blocks(read_block_effect(s, reads[0].0, reads[0].1).0, reads.drop_first())
    }
}

/// Over any sequence of reads, a lost capability comes back only through a
/// line that gives the art capabilities back: a `file:` line naming
/// another track, or `state: stop`.
pub proof fn lemma_reads_restore_capabilities_only_by_reset(
    s: HandlerView,
    reads: Seq<(Seq<u8>, u64)>,
)
    requires
        forall|i: int|
            0 <= i < reads.len() ==> !block_restores(
                #[trigger] read_blocks(s, reads.take(i)),
                reads[i].0,
                reads[i].1,
            ),
    ensures
        capabilities_within(read_blocks(s, reads), s),
    decreases reads.len(),
{
    if reads.len() > 0 {
        assert(reads.take(0) =~= Seq::<(Seq<u8>, u64)>::empty());
        assert(!block_restores(read_blocks(s, reads.take(0)), reads[0].0, reads[0].1));
        lemma_block_gains_no_capability(s, reads[0].0, reads[0].1);
        let s1 = read_block_effect(s, reads[0].0, reads[0].1).0;
        let rest = reads.drop_first();
        assert forall|i: int| 0 <= i < rest.len() implies !block_restores(
            #[trigger] read_blocks(s1, rest.take(i)),
            rest[i].0,
            rest[i].1,
        ) by {
            assert(reads.take(i + 1).drop_first() =~= rest.take(i));
            assert(reads.take(i + 1)[0] == reads[0]);
            assert(read_blocks(s, reads.take(i + 1)) == read_blocks(s1, rest.take(i)));
            assert(!block_restores(
                read_blocks(s, reads.take(i + 1)),
                reads[i + 1].0,
                reads[i + 1].1,
            ));
        }
        lemma_reads_restore_capabilities_only_by_reset(s1, rest);
    }
}

/// A read whose bytes the binary chunk extractor takes whole changes the
/// state as the extractor does.
proof fn lemma_read_taken_by_extractor(s: HandlerView, buf: Seq<u8>, now: u64)
    requires
        binary_stage(s, buf).1.len() == 0,
    ensures
        read_block_effect(s, buf, now).0 == binary_stage(s, buf).0,
{
    reveal(with_carry);
    let (s1, rest) = binary_stage(s, buf);
    if !(s1.binary_remaining > 0 || s1.separator_pending) {
        let out = line_outcome(rest, s1.saved_bytes, s1.is_init);
        assert(s1.saved_line + Seq::<char>::empty() =~= s1.saved_line);
        assert(with_carry(s1, out.saved, s1.saved_line + Seq::<char>::empty()) == s1);
        assert(read_step(s, buf, now).0 == s1);
    }
}

/// The bytes of each read.
pub open spec fn read_bytes(reads: Seq<(Seq<u8>, u64)>) -> Seq<Seq<u8>> {
    reads.map_values(|r: (Seq<u8>, u64)| r.0)
}

/// Reads that the extractor takes whole, one after another, change the state
/// as feeding their bytes to the extractor does.
proof fn lemma_reads_as_feed(s: HandlerView, reads: Seq<(Seq<u8>, u64)>)
    requires
        feed_binary(s, read_bytes(reads)).1.len() == 0,
    ensures
        read_blocks(s, reads) == feed_binary(s, read_bytes(reads)).0,
    decreases reads.len(),
{
    if reads.len() > 0 {
        let bytes = read_bytes(reads);
        let rest = reads.drop_first();
        assert(bytes[0] == reads[0].0);
        assert(bytes.drop_first() =~= read_bytes(rest));
        let (s1, r1) = binary_stage(s, bytes[0]);
        let (s2, r2) = feed_binary(s1, bytes.drop_first());
        assert(r1.len() == 0);
        lemma_read_taken_by_extractor(s, reads[0].0, reads[0].1);
        lemma_reads_as_feed(s1, rest);
    }
}

/// A binary chunk of `body.len()` bytes announced by a `binary:` header,
/// within the announced art size, and its separator byte, delivered across
/// any number of reads of any sizes: after the reads the art has gained
/// exactly those bytes in order, the extractor claims nothing more, and the
/// art request is still pending as before, awaiting its `OK` or `ACK`.
pub proof fn lemma_binary_chunk_over_reads(
    s: HandlerView,
    reads: Seq<(Seq<u8>, u64)>,
    body: Seq<u8>,
    separator: u8,
)
    requires
        !s.separator_pending,
        s.binary_remaining > 0,
        body.len() == s.binary_remaining,
        s.art_data.len() + body.len() <= s.art_data_size,
        read_bytes(reads).flatten() == body + seq![separator],
    ensures
        read_blocks(s, reads).art_data == s.art_data + body,
        read_blocks(s, reads).binary_remaining == 0,
        !read_blocks(s, reads).separator_pending,
        read_blocks(s, reads).poll_state == s.poll_state,
{
    assert(body + seq![separator] =~= body + seq![separator] + Seq::<u8>::empty());
    lemma_binary_chunk_framing(s, read_bytes(reads), body, separator, Seq::empty());
    lemma_reads_as_feed(s, reads);
}

} // verus!
