//! The reader as a mathematical state machine: what a reader is, what one
//! read does to it, and what follows for any run of reads.

use vstd::prelude::*;
use crate::engine::{inflated, WINDOW_SIZE};

verus! {

/// The smaller of two numbers.
pub open spec fn min(a: int, b: int) -> int {
    if a <= b {
        a
    } else {
        b
    }
}

/// What a reader is, seen from outside.
pub enum ReaderState {
    /// An entry kept verbatim, of which `remaining` bytes are still to come.
    Stored { remaining: nat },
    /// A deflated entry. The inflater stands in the state `inflater`; it has
    /// filled `window` up to `out_pos`, and the caller has been given what
    /// lies before `read_cursor`.
    Deflate {
        inflater: miniz_oxide::inflate::core::DecompressorOxide,
        window: Seq<u8>,
        out_pos: nat,
        read_cursor: nat,
    },
}

impl ReaderState {
    /// The cursors lie inside the window and the consumer has not overtaken
    /// the producer.
    pub open spec fn wf(self) -> bool {
        match self {
            ReaderState::Stored { remaining } => remaining <= u64::MAX,
            ReaderState::Deflate { window, out_pos, read_cursor, .. } => {
                &&& window.len() == WINDOW_SIZE
                &&& read_cursor <= out_pos <= WINDOW_SIZE
            },
        }
    }

    /// The bytes that are inflated and not yet handed out.
    pub open spec fn pending(self) -> Seq<u8> {
        match self {
            ReaderState::Stored { .. } => Seq::empty(),
            ReaderState::Deflate { window, out_pos, read_cursor, .. } => window.subrange(
                read_cursor as int,
                out_pos as int,
            ),
        }
    }

    /// The next read takes bytes from its input: a stored entry has bytes
    /// left, or everything inflated so far has been handed out.
    pub open spec fn needs_input(self) -> bool {
        match self {
            ReaderState::Stored { remaining } => remaining > 0,
            ReaderState::Deflate { out_pos, read_cursor, .. } => read_cursor == out_pos,
        }
    }

    /// Where the inflater writes next: at `out_pos`, or at the front again
    /// once `out_pos` has reached the end of the window.
    pub open spec fn fill_start(self) -> nat {
        match self {
            ReaderState::Stored { .. } => 0,
            ReaderState::Deflate { out_pos, .. } => if out_pos == WINDOW_SIZE {
                0
            } else {
                out_pos
            },
        }
    }

    /// A read into `buf_len` bytes of room, with `input_len` bytes on offer,
    /// finds the storage exhausted before the entry is.
    pub open spec fn starved(self, input_len: nat, buf_len: nat) -> bool {
        self matches ReaderState::Stored { remaining } && remaining > 0 && buf_len > 0 && input_len
            == 0
    }

    /// What one run of the inflater on `input` gives in this state: its
    /// state and the window after the run, the number of input bytes read
    /// and the number of bytes written. The inflater is started at
    /// `fill_start()` with no flag set.
    pub open spec fn inflation(self, input: Seq<u8>) -> (
        miniz_oxide::inflate::core::DecompressorOxide,
        Seq<u8>,
        usize,
        usize,
    ) {
        inflated(self->inflater, input, self->window, self.fill_start() as usize, 0)
    }

    /// The run of the inflater on `input` keeps to the window and to its
    /// input.
    pub open spec fn inflation_in_bounds(self, input: Seq<u8>) -> bool {
        &&& self.inflation(input).1.len() == WINDOW_SIZE
        &&& self.inflation(input).2 <= input.len()
        &&& self.fill_start() + self.inflation(input).3 <= WINDOW_SIZE
    }

    /// The reader after the cursors have taken up a run of the inflater that
    /// wrote `written` bytes from `fill_start()` on: nothing of them is
    /// handed out yet.
    pub open spec fn filled(self, written: nat) -> ReaderState {
        match self {
            ReaderState::Stored { .. } => self,
            ReaderState::Deflate { inflater, window, .. } => ReaderState::Deflate {
                inflater,
                window,
                out_pos: self.fill_start() + written,
                read_cursor: self.fill_start(),
            },
        }
    }

    /// The reader after the inflater has run once on `input`.
    pub open spec fn refilled(self, input: Seq<u8>) -> ReaderState {
        match self {
            ReaderState::Stored { .. } => self,
            ReaderState::Deflate { out_pos, read_cursor, .. } => (ReaderState::Deflate {
                inflater: self.inflation(input).0,
                window: self.inflation(input).1,
                out_pos,
                read_cursor,
            }).filled(self.inflation(input).3 as nat),
        }
    }

    /// The reader once everything pending has been handed out.
    pub open spec fn emptied(self) -> ReaderState {
        match self {
            ReaderState::Stored { .. } => self,
            ReaderState::Deflate { inflater, window, out_pos, .. } => ReaderState::Deflate {
                inflater,
                window,
                out_pos,
                read_cursor: out_pos,
            },
        }
    }

    /// The bytes that the inflater writes in a read that is offered `input`:
    /// none while bytes are pending, and else what its run leaves in the
    /// window from `fill_start()` on.
    pub open spec fn fresh(self, input: Seq<u8>) -> Seq<u8> {
        if self is Deflate && self.needs_input() {
            self.refilled(input).pending()
        } else {
            Seq::empty()
        }
    }
}

/// `post` and `out` are `pre` and `buf` after as many pending bytes as fit
/// have been moved to the front of the buffer, `copied` of them.
pub open spec fn drains(
    pre: ReaderState,
    buf: Seq<u8>,
    post: ReaderState,
    out: Seq<u8>,
    copied: nat,
) -> bool {
    &&& copied == min(pre.pending().len() as int, buf.len() as int)
    &&& out == pre.pending().take(copied as int) + buf.skip(copied as int)
    &&& post == match pre {
        ReaderState::Stored { remaining } => pre,
        ReaderState::Deflate { inflater, window, out_pos, read_cursor } => ReaderState::Deflate {
            inflater,
            window,
            out_pos,
            read_cursor: read_cursor + copied,
        },
    }
}

/// One successful read: from state `pre`, with `input` on offer and `buf` to
/// fill, the reader ends in `post`, the buffer holds `out`, `copied` bytes
/// were delivered and `consumed` bytes of `input` used up. The four are
/// fixed by `pre`, `input` and `buf`.
///
/// A stored entry moves bytes straight from the input to the buffer, as many
/// as the entry has left, the buffer has room for and the input offers. A
/// deflated entry with bytes pending hands them out and leaves the input
/// alone. A deflated entry with nothing pending lets the inflater run once
/// on `input`, from `fill_start()` on, and hands out what that run wrote.
pub open spec fn reads(
    pre: ReaderState,
    input: Seq<u8>,
    buf: Seq<u8>,
    post: ReaderState,
    out: Seq<u8>,
    copied: nat,
    consumed: nat,
) -> bool {
    match pre {
        ReaderState::Stored { remaining } => {
            &&& copied == min(remaining as int, min(buf.len() as int, input.len() as int))
            &&& consumed == copied
            &&& post == ReaderState::Stored { remaining: (remaining - copied) as nat }
            &&& out == input.take(copied as int) + buf.skip(copied as int)
        },
        ReaderState::Deflate { out_pos, read_cursor, .. } => {
            if read_cursor == out_pos {
                &&& pre.inflation_in_bounds(input)
                &&& consumed == pre.inflation(input).2
                &&& drains(pre.refilled(input), buf, post, out, copied)
            } else {
                &&& consumed == 0
                &&& drains(pre, buf, post, out, copied)
            }
        },
    }
}

/// One read of a run, as an observer records it.
pub struct Step {
    /// The bytes on offer.
    pub input: Seq<u8>,
    /// The caller's buffer before the read.
    pub buf: Seq<u8>,
    /// The caller's buffer after the read.
    pub out: Seq<u8>,
    /// How many bytes were delivered.
    pub copied: nat,
    /// How many bytes of the input were used up.
    pub consumed: nat,
    /// The reader after the read.
    pub post: ReaderState,
}

/// `steps` is a run of successful reads that starts in `pre`.
pub open spec fn run(pre: ReaderState, steps: Seq<Step>) -> bool
    decreases steps.len(),
{
    if steps.len() == 0 {
        true
    } else {
        let s = steps[0];
        reads(pre, s.input, s.buf, s.post, s.out, s.copied, s.consumed) && run(
            s.post,
            steps.skip(1),
        )
    }
}

/// The reader at the end of a run.
pub open spec fn last_state(pre: ReaderState, steps: Seq<Step>) -> ReaderState {
    if steps.len() == 0 {
        pre
    } else {
        steps.last().post
    }
}

/// Everything a run delivered, in order.
pub open spec fn delivered(steps: Seq<Step>) -> Seq<u8>
    decreases steps.len(),
{
    if steps.len() == 0 {
        Seq::empty()
    } else {
        steps[0].out.take(steps[0].copied as int) + delivered(steps.skip(1))
    }
}

/// Everything a run used up of its inputs, in order.
pub open spec fn taken(steps: Seq<Step>) -> Seq<u8>
    decreases steps.len(),
{
    if steps.len() == 0 {
        Seq::empty()
    } else {
        steps[0].input.take(steps[0].consumed as int) + taken(steps.skip(1))
    }
}

/// Everything the inflater wrote during a run, in order.
pub open spec fn produced(pre: ReaderState, steps: Seq<Step>) -> Seq<u8>
    decreases steps.len(),
{
    if steps.len() == 0 {
        Seq::empty()
    } else {
        pre.fresh(steps[0].input) + produced(steps[0].post, steps.skip(1))
    }
}

/// The inputs of a run come from one source: each read is offered a leading
/// part of what the reads before it have left of `source`.
pub open spec fn fed_from(source: Seq<u8>, steps: Seq<Step>) -> bool
    decreases steps.len(),
{
    if steps.len() == 0 {
        true
    } else {
        &&& steps[0].input.is_prefix_of(source)
        &&& fed_from(source.skip(steps[0].consumed as int), steps.skip(1))
    }
}

/// The inputs of a run are those of one storage, which offers `offer(n)` once
/// `n` of its bytes are used up: every read that runs the inflater is handed
/// just that, `used` bytes being used up before the run.
pub open spec fn offered(
    offer: spec_fn(nat) -> Seq<u8>,
    used: nat,
    pre: ReaderState,
    steps: Seq<Step>,
) -> bool
    decreases steps.len(),
{
    if steps.len() == 0 {
        true
    } else {
        &&& pre.needs_input() ==> steps[0].input == offer(used)
        &&& offered(offer, used + steps[0].consumed, steps[0].post, steps.skip(1))
    }
}

/// How often the inflater ran during a run.
pub open spec fn inflations(pre: ReaderState, steps: Seq<Step>) -> nat
    decreases steps.len(),
{
    if steps.len() == 0 {
        0
    } else if pre.needs_input() {
        1 + inflations(steps[0].post, steps.skip(1))
    } else {
        inflations(steps[0].post, steps.skip(1))
    }
}

/// What `count` runs of the inflater write, one after the other, when the
/// first finds the reader in `pre` with nothing pending and the storage
/// offers `offer(n)` once `n` of its bytes are used up, `used` of them being
/// used up before the first run. No buffer of a caller has a part in it.
pub open spec fn stream(
    pre: ReaderState,
    offer: spec_fn(nat) -> Seq<u8>,
    used: nat,
    count: nat,
) -> Seq<u8>
    decreases count,
{
    if count == 0 {
        Seq::empty()
    } else {
        pre.fresh(offer(used)) + stream(
            pre.refilled(offer(used)).emptied(),
            offer,
            used + pre.inflation(offer(used)).2 as nat,
            (count - 1) as nat,
        )
    }
}

/// A read keeps a reader well formed.
pub proof fn lemma_read_keeps_wf(
    pre: ReaderState,
    input: Seq<u8>,
    buf: Seq<u8>,
    post: ReaderState,
    out: Seq<u8>,
    copied: nat,
    consumed: nat,
)
    requires
        pre.wf(),
        reads(pre, input, buf, post, out, copied, consumed),
    ensures
        post.wf(),
        out.len() == buf.len(),
        copied <= buf.len(),
        consumed <= input.len(),
{
}

/// A read is a function of the reader, the input and the buffer: two reads
/// from the same state, with the same input on offer and the same buffer to
/// fill, end alike.
pub proof fn lemma_read_is_determined(
    pre: ReaderState,
    input: Seq<u8>,
    buf: Seq<u8>,
    post1: ReaderState,
    out1: Seq<u8>,
    copied1: nat,
    consumed1: nat,
    post2: ReaderState,
    out2: Seq<u8>,
    copied2: nat,
    consumed2: nat,
)
    requires
        reads(pre, input, buf, post1, out1, copied1, consumed1),
        reads(pre, input, buf, post2, out2, copied2, consumed2),
    ensures
        post1 == post2,
        out1 == out2,
        copied1 == copied2,
        consumed1 == consumed2,
{
}

/// The inflater runs only when nothing is pending, so it never writes over a
/// byte that has not been handed out: a read that finds bytes pending leaves
/// the inflater, the window and `out_pos` as they are and uses no input.
pub proof fn lemma_pending_is_not_overwritten(
    pre: ReaderState,
    input: Seq<u8>,
    buf: Seq<u8>,
    post: ReaderState,
    out: Seq<u8>,
    copied: nat,
    consumed: nat,
)
    requires
        pre is Deflate,
        pre.pending().len() > 0,
        pre.wf(),
        reads(pre, input, buf, post, out, copied, consumed),
    ensures
        post is Deflate,
        post->inflater == pre->inflater,
        post->window == pre->window,
        post->out_pos == pre->out_pos,
        consumed == 0,
        pre.fresh(input) == Seq::<u8>::empty(),
{
}

/// A read with nothing pending runs the inflater once on the input it is
/// offered, from `fill_start()` on, and leaves the inflater and the window
/// as that run left them; what it delivers is the front of what the run
/// wrote.
pub proof fn lemma_read_runs_the_inflater(
    pre: ReaderState,
    input: Seq<u8>,
    buf: Seq<u8>,
    post: ReaderState,
    out: Seq<u8>,
    copied: nat,
    consumed: nat,
)
    requires
        pre is Deflate,
        pre.needs_input(),
        pre.wf(),
        reads(pre, input, buf, post, out, copied, consumed),
    ensures
        post is Deflate,
        post->inflater == pre.inflation(input).0,
        post->window == pre.inflation(input).1,
        post->out_pos == pre.fill_start() + pre.inflation(input).3,
        post->read_cursor == pre.fill_start() + copied,
        consumed == pre.inflation(input).2,
        copied == min(pre.inflation(input).3 as int, buf.len() as int),
        out.take(copied as int) == pre.fresh(input).take(copied as int),
        pre.fresh(input) == pre.inflation(input).1.subrange(
            pre.fill_start() as int,
            pre.fill_start() + pre.inflation(input).3,
        ),
{
    assert(out.take(copied as int) =~= pre.fresh(input).take(copied as int));
}

/// One read neither drops nor repeats a byte: what was pending before,
/// followed by what the inflater wrote, is what was delivered, followed by
/// what is pending now. This holds at every place in the window, the wrap
/// from its end to its front included.
pub proof fn lemma_read_conserves(
    pre: ReaderState,
    input: Seq<u8>,
    buf: Seq<u8>,
    post: ReaderState,
    out: Seq<u8>,
    copied: nat,
    consumed: nat,
)
    requires
        pre.wf(),
        pre is Deflate,
        reads(pre, input, buf, post, out, copied, consumed),
    ensures
        pre.pending() + pre.fresh(input) == out.take(copied as int) + post.pending(),
{
    let state = if pre.needs_input() {
        pre.refilled(input)
    } else {
        pre
    };
    assert(drains(state, buf, post, out, copied));
    assert(out.take(copied as int) =~= state.pending().take(copied as int));
    assert(post.pending() =~= state.pending().skip(copied as int));
    assert(state.pending() =~= state.pending().take(copied as int) + state.pending().skip(
        copied as int,
    ));
    assert(pre.pending() + pre.fresh(input) =~= state.pending());
}

/// A read of a stored entry delivers nothing exactly when the entry is at
/// its end, the buffer has no room or the input is empty; at the end of the
/// entry it changes nothing at all.
pub proof fn lemma_stored_read_progress(
    pre: ReaderState,
    input: Seq<u8>,
    buf: Seq<u8>,
    post: ReaderState,
    out: Seq<u8>,
    copied: nat,
    consumed: nat,
)
    requires
        pre is Stored,
        reads(pre, input, buf, post, out, copied, consumed),
    ensures
        copied == 0 <==> pre->remaining == 0 || buf.len() == 0 || input.len() == 0,
        pre->remaining == 0 ==> post == pre && out == buf && consumed == 0,
{
    if pre->remaining == 0 {
        assert(out =~= buf);
    }
}

/// The end of a run is where its last read ended.
proof fn lemma_last_state_skip(pre: ReaderState, steps: Seq<Step>)
    requires
        steps.len() > 0,
    ensures
        last_state(steps[0].post, steps.skip(1)) == last_state(pre, steps),
{
    if steps.len() > 1 {
        assert(steps.skip(1).last() == steps.last());
    }
}

/// What a run of reads of a stored entry delivers is what it used up of its
/// inputs, byte for byte, and the entry has that much less to come. The
/// sizes of the buffers and of the inputs play no part.
pub proof fn lemma_stored_delivers_input(pre: ReaderState, steps: Seq<Step>)
    requires
        pre is Stored,
        run(pre, steps),
    ensures
        last_state(pre, steps) is Stored,
        delivered(steps) == taken(steps),
        delivered(steps).len() + last_state(pre, steps)->remaining == pre->remaining,
    decreases steps.len(),
{
    if steps.len() > 0 {
        let s = steps[0];
        lemma_stored_delivers_input(s.post, steps.skip(1));
        lemma_last_state_skip(pre, steps);
        assert(s.out.take(s.copied as int) =~= s.input.take(s.consumed as int));
    }
}

/// Inputs that come from one source are used up in the order of the source.
pub proof fn lemma_taken_from_source(source: Seq<u8>, steps: Seq<Step>)
    requires
        fed_from(source, steps),
        forall|i: int| 0 <= i < steps.len() ==> (#[trigger] steps[i]).consumed <= steps[i].input.len(),
    ensures
        taken(steps).len() <= source.len(),
        taken(steps) == source.take(taken(steps).len() as int),
    decreases steps.len(),
{
    if steps.len() > 0 {
        let s = steps[0];
        let rest = steps.skip(1);
        assert forall|i: int| 0 <= i < rest.len() implies (#[trigger] rest[i]).consumed
            <= rest[i].input.len() by {
            assert(rest[i] == steps[i + 1]);
        }
        lemma_taken_from_source(source.skip(s.consumed as int), rest);
        assert(taken(steps) =~= source.take(taken(steps).len() as int));
    } else {
        assert(taken(steps) =~= source.take(0));
    }
}

/// Reading a stored entry of `len` bytes from a source yields the bytes of
/// the source in order, whatever the sizes of the buffers and however the
/// source hands out its bytes: at any point of the run, what has been
/// delivered is the front of the source, as long as the part of the entry
/// that is no longer to come. Once nothing is to come, that is the first
/// `len` bytes of the source, and every further read delivers nothing.
pub proof fn lemma_stored_yields_source(len: nat, source: Seq<u8>, steps: Seq<Step>)
    requires
        run(ReaderState::Stored { remaining: len }, steps),
        fed_from(source, steps),
    ensures
        last_state(ReaderState::Stored { remaining: len }, steps) is Stored,
        ({
            let left = last_state(ReaderState::Stored { remaining: len }, steps)->remaining;
            &&& left <= len
            &&& len - left <= source.len()
            &&& delivered(steps) == source.take(len - left)
            &&& left == 0 ==> delivered(steps) == source.take(len as int)
        }),
{
    let pre = ReaderState::Stored { remaining: len };
    lemma_stored_delivers_input(pre, steps);
    lemma_stored_run_consumes_within_input(pre, steps);
    lemma_taken_from_source(source, steps);
}

/// No read of a stored entry uses up more than its input holds.
proof fn lemma_stored_run_consumes_within_input(pre: ReaderState, steps: Seq<Step>)
    requires
        pre is Stored,
        run(pre, steps),
    ensures
        forall|i: int| 0 <= i < steps.len() ==> (#[trigger] steps[i]).consumed <= steps[i].input.len(),
    decreases steps.len(),
{
    if steps.len() > 0 {
        let rest = steps.skip(1);
        lemma_stored_run_consumes_within_input(steps[0].post, rest);
        assert forall|i: int| 0 <= i < steps.len() implies (#[trigger] steps[i]).consumed
            <= steps[i].input.len() by {
            if i > 0 {
                assert(steps[i] == rest[i - 1]);
            }
        }
    }
}

/// A run of reads of a deflated entry neither drops nor repeats a byte,
/// whatever the sizes of the buffers, however often the window wraps and
/// however much the inflater writes at a time: what was pending at the
/// start, followed by all that the inflater wrote, is all that was
/// delivered, followed by what is pending at the end.
pub proof fn lemma_deflate_delivers_production(pre: ReaderState, steps: Seq<Step>)
    requires
        pre.wf(),
        pre is Deflate,
        run(pre, steps),
    ensures
        last_state(pre, steps).wf(),
        last_state(pre, steps) is Deflate,
        pre.pending() + produced(pre, steps) == delivered(steps) + last_state(
            pre,
            steps,
        ).pending(),
    decreases steps.len(),
{
    if steps.len() > 0 {
        let s = steps[0];
        let rest = steps.skip(1);
        lemma_read_keeps_wf(pre, s.input, s.buf, s.post, s.out, s.copied, s.consumed);
        lemma_read_conserves(pre, s.input, s.buf, s.post, s.out, s.copied, s.consumed);
        lemma_deflate_delivers_production(s.post, rest);
        lemma_last_state_skip(pre, steps);
        let last = last_state(pre, steps);
        let first = s.out.take(s.copied as int);
        assert(pre.pending() + produced(pre, steps) =~= (pre.pending() + pre.fresh(s.input))
            + produced(s.post, rest));
        assert((first + s.post.pending()) + produced(s.post, rest) =~= first + (s.post.pending()
            + produced(s.post, rest)));
        assert(first + (delivered(rest) + last.pending()) =~= delivered(steps) + last.pending());
    } else {
        assert(pre.pending() + produced(pre, steps) =~= delivered(steps) + pre.pending());
    }
}

/// More runs of the inflater write more of the same stream.
pub proof fn lemma_stream_grows(
    pre: ReaderState,
    offer: spec_fn(nat) -> Seq<u8>,
    used: nat,
    fewer: nat,
    more: nat,
)
    requires
        fewer <= more,
    ensures
        stream(pre, offer, used, fewer).is_prefix_of(stream(pre, offer, used, more)),
    decreases fewer,
{
    if fewer > 0 {
        let next = pre.refilled(offer(used)).emptied();
        let then = used + pre.inflation(offer(used)).2 as nat;
        lemma_stream_grows(next, offer, then, (fewer - 1) as nat, (more - 1) as nat);
        let head = pre.fresh(offer(used));
        let short = stream(next, offer, then, (fewer - 1) as nat);
        let long = stream(next, offer, then, (more - 1) as nat);
        assert((head + short).is_prefix_of(head + long)) by {
            assert forall|i: int| 0 <= i < (head + short).len() implies (head + short)[i] == (head
                + long)[i] by {
                if i >= head.len() {
                    assert(short[i - head.len()] == long[i - head.len()]);
                }
            }
        }
    }
}

/// What a run of reads of a deflated entry delivers is the stream that the
/// inflater writes on the inputs of the storage, as far as the run got: with
/// what was pending at the start before it and what is pending at the end
/// after it, the delivery is the stream of as many runs of the inflater as
/// the reads called for.
pub proof fn lemma_deflate_delivers_the_stream(
    pre: ReaderState,
    offer: spec_fn(nat) -> Seq<u8>,
    used: nat,
    steps: Seq<Step>,
)
    requires
        pre.wf(),
        pre is Deflate,
        run(pre, steps),
        offered(offer, used, pre, steps),
    ensures
        delivered(steps) + last_state(pre, steps).pending() == pre.pending() + stream(
            pre.emptied(),
            offer,
            used,
            inflations(pre, steps),
        ),
    decreases steps.len(),
{
    if steps.len() > 0 {
        let s = steps[0];
        let rest = steps.skip(1);
        let then = used + s.consumed;
        lemma_read_keeps_wf(pre, s.input, s.buf, s.post, s.out, s.copied, s.consumed);
        lemma_read_conserves(pre, s.input, s.buf, s.post, s.out, s.copied, s.consumed);
        lemma_deflate_delivers_the_stream(s.post, offer, then, rest);
        lemma_last_state_skip(pre, steps);
        let last = last_state(pre, steps);
        let first = s.out.take(s.copied as int);
        let tail = stream(s.post.emptied(), offer, then, inflations(s.post, rest));
        assert(delivered(steps) + last.pending() =~= first + (delivered(rest) + last.pending()));
        assert(first + (s.post.pending() + tail) =~= (first + s.post.pending()) + tail);
        if pre.needs_input() {
            assert(pre.emptied() == pre);
            assert(s.post.emptied() == pre.refilled(s.input).emptied());
            assert((pre.pending() + pre.fresh(s.input)) + tail =~= pre.pending() + (pre.fresh(
                s.input,
            ) + tail));
        } else {
            assert(s.post.emptied() == pre.emptied());
            assert((pre.pending() + pre.fresh(s.input)) + tail =~= pre.pending() + tail);
        }
    } else {
        assert(delivered(steps) + pre.pending() =~= pre.pending() + stream(
            pre.emptied(),
            offer,
            used,
            0,
        ));
    }
}

/// What a deflated entry delivers does not depend on the sizes of the
/// buffers it is read into: two runs of reads from the same state on the
/// same storage deliver the same bytes, as far as the shorter delivery goes.
pub proof fn lemma_delivery_does_not_depend_on_buffers(
    pre: ReaderState,
    offer: spec_fn(nat) -> Seq<u8>,
    used: nat,
    one: Seq<Step>,
    other: Seq<Step>,
)
    requires
        pre.wf(),
        pre is Deflate,
        run(pre, one),
        run(pre, other),
        offered(offer, used, pre, one),
        offered(offer, used, pre, other),
        delivered(one).len() <= delivered(other).len(),
    ensures
        delivered(one) == delivered(other).take(delivered(one).len() as int),
{
    lemma_deflate_delivers_the_stream(pre, offer, used, one);
    lemma_deflate_delivers_the_stream(pre, offer, used, other);
    let n1 = inflations(pre, one);
    let n2 = inflations(pre, other);
    let s1 = stream(pre.emptied(), offer, used, n1);
    let s2 = stream(pre.emptied(), offer, used, n2);
    let t1 = delivered(one) + last_state(pre, one).pending();
    let t2 = delivered(other) + last_state(pre, other).pending();
    assert(t1 == pre.pending() + s1);
    assert(t2 == pre.pending() + s2);
    if n1 <= n2 {
        lemma_stream_grows(pre.emptied(), offer, used, n1, n2);
    } else {
        lemma_stream_grows(pre.emptied(), offer, used, n2, n1);
    }
    assert forall|i: int| 0 <= i < delivered(one).len() implies delivered(one)[i] == delivered(
        other,
    )[i] by {
        assert(delivered(one)[i] == t1[i]);
        assert(delivered(other)[i] == t2[i]);
        if i >= pre.pending().len() {
            let j = i - pre.pending().len();
            assert(i < t1.len() && i < t2.len());
            assert(0 <= j < s1.len() && j < s2.len());
            assert((pre.pending() + s1)[i] == s1[j]);
            assert((pre.pending() + s2)[i] == s2[j]);
            assert(s1[j] == s2[j]);
        } else {
            assert(t1[i] == pre.pending()[i]);
            assert(t2[i] == pre.pending()[i]);
        }
    }
    assert(delivered(one) =~= delivered(other).take(delivered(one).len() as int));
}

} // verus!
