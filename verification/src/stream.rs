//! Whole runs of a chunker, and what holds of them.
//!
//! A run is what a caller sees who pulls until a read is needed, feeds the
//! bytes of one read, pulls again, and at the end reports the end of the
//! input. It is defined here over the chunker's model, the same that the
//! contracts of `RegexChunker` speak of.

use vstd::prelude::*;
use crate::fence::delimiter_at;
use crate::iter::{ChunkerView, Phase, ReadFailure, StepView, Transition};

verus! {

/// One item of a run, with the delimiter bytes that were dropped behind it.
/// The last item of an input that does not end in a delimiter has none.
pub struct Piece {
    pub item: Seq<u8>,
    pub delimiter: Seq<u8>,
}

/// What pulling without input gives: some pieces, and the state in which the
/// chunker asks for a read or has ended.
pub struct Drained {
    pub pieces: Seq<Piece>,
    pub state: ChunkerView,
}

/// The piece that a step gives, if it gives an item.
pub open spec fn pieces_of(t: Transition) -> Seq<Piece> {
    match t.step {
        StepView::Item(item) => seq![Piece { item, delimiter: t.delimiter }],
        _ => Seq::empty(),
    }
}

/// Pulls until no item comes.
pub open spec fn drain(v: ChunkerView) -> Drained
    decreases v.buffer.len(),
{
    let t = v.next();
    if t.step is Item {
        let more = drain(t.state);
        Drained { pieces: pieces_of(t) + more.pieces, state: more.state }
    } else {
        Drained { pieces: Seq::empty(), state: t.state }
    }
}

/// The pieces of a run that starts in state `v`, gets `reads` one after the
/// other, and then the end of the input.
pub open spec fn trace(v: ChunkerView, reads: Seq<Seq<u8>>) -> Seq<Piece>
    decreases reads.len(),
{
    let d = drain(v);
    if reads.len() == 0 {
        d.pieces + pieces_of(d.state.feed(Seq::empty()))
    } else {
        let t = d.state.feed(reads.first());
        d.pieces + pieces_of(t) + trace(t.state, reads.drop_first())
    }
}

/// The items of some pieces, in order.
pub open spec fn items(pieces: Seq<Piece>) -> Seq<Seq<u8>> {
    pieces.map_values(|p: Piece| p.item)
}

/// The items that a fresh chunker for `pattern` hands out on `reads`.
pub open spec fn run(pattern: Seq<char>, reads: Seq<Seq<u8>>) -> Seq<Seq<u8>> {
    items(trace(ChunkerView::fresh(pattern), reads))
}

/// The bytes of some pieces put back together: each item, then its
/// delimiter.
pub open spec fn weave(pieces: Seq<Piece>) -> Seq<u8>
    decreases pieces.len(),
{
    if pieces.len() == 0 {
        Seq::empty()
    } else {
        pieces.first().item + pieces.first().delimiter + weave(pieces.drop_first())
    }
}

/// Every read of `reads` holds at least one byte.
pub open spec fn all_nonempty(reads: Seq<Seq<u8>>) -> bool {
    forall|i: int| 0 <= i < reads.len() ==> (#[trigger] reads[i]).len() > 0
}

/// The delimiters of `input` do not depend on how much of it has arrived:
/// a delimiter found in the first bytes of `input` is the one found in all of
/// it, and the same holds of what follows that delimiter.
pub open spec fn stable(pattern: Seq<char>, input: Seq<u8>) -> bool
    decreases input.len(),
{
    &&& forall|n: int|
        0 <= n <= input.len() && (#[trigger] delimiter_at(pattern, input.take(n))) is Some
            ==> delimiter_at(pattern, input.take(n)) == delimiter_at(pattern, input)
    &&& match delimiter_at(pattern, input) {
        Some((_, end)) => stable(pattern, input.skip(end)),
        None => true,
    }
}

proof fn lemma_weave_concat(a: Seq<Piece>, b: Seq<Piece>)
    ensures
        weave(a + b) == weave(a) + weave(b),
    decreases a.len(),
{
    if a.len() > 0 {
        assert((a + b).drop_first() =~= a.drop_first() + b);
        lemma_weave_concat(a.drop_first(), b);
    }
}

proof fn lemma_weave_one(p: Piece)
    ensures
        weave(seq![p]) == p.item + p.delimiter,
{
    assert(weave(seq![p].drop_first()) =~= Seq::<u8>::empty());
}

/// A step of a live chunker loses no byte: the item, the dropped delimiter
/// and what stays in the buffer make up the buffer as it was.
proof fn lemma_scan_keeps_bytes(v: ChunkerView)
    ensures
        weave(pieces_of(v.scan())) + v.scan().state.buffer == v.buffer,
        v.scan().state.pattern == v.pattern,
        v.scan().state.live(),
        v.scan().step is Item ==> v.scan().state.buffer.len() < v.buffer.len(),
        v.scan().step is Item || v.scan().step is NeedRead,
        v.scan().step is NeedRead <==> delimiter_at(v.pattern, v.buffer) is None,
{
    if let Some((start, end)) = delimiter_at(v.pattern, v.buffer) {
        lemma_weave_one(Piece { item: v.buffer.take(start), delimiter: v.scan().delimiter });
        assert(v.buffer.take(start) + v.buffer.subrange(start, end) + v.buffer.skip(end)
            =~= v.buffer);
    }
}

/// What pulling without input does to a live chunker.
proof fn lemma_drain(v: ChunkerView)
    requires
        v.live(),
    ensures
        weave(drain(v).pieces) + drain(v).state.buffer == v.buffer,
        drain(v).state.pattern == v.pattern,
        drain(v).state.phase is AwaitingData,
        v.phase is AwaitingData ==> drain(v) == (Drained { pieces: Seq::empty(), state: v }),
        v.phase is HasPendingMatch ==> delimiter_at(v.pattern, drain(v).state.buffer) is None,
    decreases v.buffer.len(),
{
    let t = v.next();
    if v.phase is HasPendingMatch {
        lemma_scan_keeps_bytes(v);
        if t.step is Item {
            lemma_drain(t.state);
            lemma_weave_concat(pieces_of(t), drain(t.state).pieces);
            assert(weave(drain(v).pieces) + drain(v).state.buffer =~= weave(pieces_of(t)) + (weave(
                drain(t.state).pieces,
            ) + drain(t.state).state.buffer));
        }
    }
}

/// No byte is lost: the items of a run, each followed by the delimiter that
/// was dropped behind it, make up the bytes that the chunker held at the
/// start and the bytes of all reads, in order.
pub proof fn lemma_no_loss(v: ChunkerView, reads: Seq<Seq<u8>>)
    requires
        v.live(),
        all_nonempty(reads),
    ensures
        weave(trace(v, reads)) == v.buffer + reads.flatten(),
    decreases reads.len(),
{
    let d = drain(v);
    lemma_drain(v);
    if reads.len() == 0 {
        let t = d.state.feed(Seq::empty());
        lemma_weave_concat(d.pieces, pieces_of(t));
        if d.state.buffer.len() > 0 {
            lemma_weave_one(Piece { item: d.state.buffer, delimiter: Seq::empty() });
        }
    } else {
        let first = reads.first();
        let rest = reads.drop_first();
        let t = d.state.feed(first);
        lemma_all_nonempty_rest(reads);
        lemma_scan_keeps_bytes(ChunkerView { buffer: d.state.buffer + first, ..d.state });
        lemma_no_loss(t.state, rest);
        lemma_weave_concat(d.pieces + pieces_of(t), trace(t.state, rest));
        lemma_weave_concat(d.pieces, pieces_of(t));
        assert(weave(trace(v, reads)) =~= weave(d.pieces) + (weave(pieces_of(t)) + t.state.buffer)
            + rest.flatten());
        assert(weave(trace(v, reads)) =~= (weave(d.pieces) + d.state.buffer) + (first
            + rest.flatten()));
    }
}

/// What holds of the buffer in every state that a fresh chunker reaches: a
/// chunker that waits for input has scanned its buffer and found no
/// delimiter there, and one at its end holds nothing.
pub open spec fn settled(v: ChunkerView) -> bool {
    &&& v.phase is AwaitingData ==> delimiter_at(v.pattern, v.buffer) is None
    &&& v.phase is Exhausted ==> v.buffer.len() == 0
}

/// A fresh chunker is settled, and every step keeps it so.
pub proof fn lemma_settled(v: ChunkerView, data: Seq<u8>, failure: ReadFailure, cause: Seq<char>)
    ensures
        settled(ChunkerView::fresh(v.pattern)),
        settled(v) ==> settled(v.next().state),
        settled(v) ==> settled(v.feed(data).state),
        settled(v) ==> settled(v.read_failed(failure, cause).state),
{
}

/// Every step that hands out an item leaves fewer bytes in the buffer than
/// it had to work on: those it held, and those of the read.
pub proof fn lemma_progress(v: ChunkerView, data: Seq<u8>)
    ensures
        v.next().step is Item ==> v.next().state.buffer.len() < v.buffer.len(),
        v.feed(data).step is Item ==> v.feed(data).state.buffer.len() < v.buffer.len()
            + data.len(),
{
}

/// Once the chunker has failed or reached its end, no step changes it and
/// nothing comes out any more.
pub proof fn lemma_end_is_final(
    v: ChunkerView,
    data: Seq<u8>,
    failure: ReadFailure,
    cause: Seq<char>,
)
    requires
        !v.live(),
    ensures
        v.next() == v.stay(StepView::Finished),
        v.feed(data) == v.stay(StepView::Finished),
        v.read_failed(failure, cause) == v.stay(StepView::Finished),
{
}

/// No input, no items, whatever the pattern.
pub proof fn lemma_empty_input(pattern: Seq<char>)
    ensures
        run(pattern, Seq::empty()) == Seq::<Seq<u8>>::empty(),
{
}

/// An input that is one delimiter and nothing else gives one item, which
/// is empty.
pub proof fn lemma_lone_delimiter(pattern: Seq<char>, input: Seq<u8>)
    requires
        input.len() > 0,
        delimiter_at(pattern, input) == Some((0int, input.len() as int)),
    ensures
        run(pattern, seq![input]) == seq![Seq::<u8>::empty()],
{
    let t = ChunkerView::fresh(pattern).feed(input);
    assert(input.take(0) =~= Seq::<u8>::empty());
    assert(trace(t.state, seq![input].drop_first()) =~= Seq::<Piece>::empty());
}

/// The pieces of a run on an input without a delimiter: the whole input as
/// one piece, or nothing where there is no input.
spec fn undivided(input: Seq<u8>) -> Seq<Piece> {
    if input.len() == 0 {
        Seq::empty()
    } else {
        seq![Piece { item: input, delimiter: Seq::empty() }]
    }
}

proof fn lemma_flatten_take_next(reads: Seq<Seq<u8>>, k: int)
    requires
        reads.len() > 0,
        0 <= k < reads.len(),
    ensures
        reads.take(k + 1).flatten() == reads.first() + reads.drop_first().take(k).flatten(),
{
    assert(reads.take(k + 1).drop_first() =~= reads.drop_first().take(k));
}

proof fn lemma_all_nonempty_rest(reads: Seq<Seq<u8>>)
    requires
        reads.len() > 0,
        all_nonempty(reads),
    ensures
        all_nonempty(reads.drop_first()),
        reads.first().len() > 0,
{
    let rest = reads.drop_first();
    assert forall|i: int| 0 <= i < rest.len() implies (#[trigger] rest[i]).len() > 0 by {
        assert(rest[i] == reads[i + 1]);
    }
}

proof fn lemma_undivided(v: ChunkerView, reads: Seq<Seq<u8>>)
    requires
        v.phase is AwaitingData,
        all_nonempty(reads),
        forall|k: int|
            1 <= k <= reads.len() ==> delimiter_at(
                v.pattern,
                v.buffer + #[trigger] reads.take(k).flatten(),
            ) is None,
    ensures
        trace(v, reads) == undivided(v.buffer + reads.flatten()),
    decreases reads.len(),
{
    lemma_drain(v);
    if reads.len() > 0 {
        let first = reads.first();
        let rest = reads.drop_first();
        lemma_all_nonempty_rest(reads);
        let t = v.feed(first);
        assert(reads.take(1).flatten() =~= first) by {
            lemma_flatten_take_next(reads, 0);
        }
        assert forall|k: int| 1 <= k <= rest.len() implies delimiter_at(
            t.state.pattern,
            t.state.buffer + #[trigger] rest.take(k).flatten(),
        ) is None by {
            lemma_flatten_take_next(reads, k);
            assert(v.buffer + reads.take(k + 1).flatten() =~= t.state.buffer + rest.take(
                k,
            ).flatten());
        }
        lemma_undivided(t.state, rest);
        assert(t.state.buffer + rest.flatten() =~= v.buffer + reads.flatten());
    }
}

/// An input in which no delimiter is ever found comes out as one item, the
/// whole input, however it is cut into reads.
pub proof fn lemma_no_delimiter(pattern: Seq<char>, reads: Seq<Seq<u8>>)
    requires
        reads.len() > 0,
        all_nonempty(reads),
        forall|k: int|
            1 <= k <= reads.len() ==> delimiter_at(pattern, #[trigger] reads.take(k).flatten())
                is None,
    ensures
        run(pattern, reads) == seq![reads.flatten()],
{
    let v = ChunkerView::fresh(pattern);
    assert forall|k: int| 1 <= k <= reads.len() implies delimiter_at(
        v.pattern,
        v.buffer + #[trigger] reads.take(k).flatten(),
    ) is None by {
        assert(v.buffer + reads.take(k).flatten() =~= reads.take(k).flatten());
    }
    lemma_undivided(v, reads);
    lemma_all_nonempty_rest(reads);
}

/// The state in which `buffer` is about to be scanned.
spec fn pending(pattern: Seq<char>, buffer: Seq<u8>) -> ChunkerView {
    ChunkerView { pattern, buffer, phase: Phase::HasPendingMatch }
}

/// The state in which `buffer` has been scanned without a find.
spec fn awaiting(pattern: Seq<char>, buffer: Seq<u8>) -> ChunkerView {
    ChunkerView { pattern, buffer, phase: Phase::AwaitingData }
}

/// All the pieces that scanning `buffer` again and again cuts off, and what
/// is left.
spec fn settle(pattern: Seq<char>, buffer: Seq<u8>) -> Drained {
    drain(pending(pattern, buffer))
}

/// The pieces of an input that is all there before the first scan.
spec fn whole(pattern: Seq<char>, input: Seq<u8>) -> Seq<Piece> {
    let a = settle(pattern, input);
    a.pieces + pieces_of(a.state.close())
}

proof fn lemma_settle(pattern: Seq<char>, buffer: Seq<u8>)
    ensures
        settle(pattern, buffer).state == awaiting(pattern, settle(pattern, buffer).state.buffer),
        delimiter_at(pattern, settle(pattern, buffer).state.buffer) is None,
        delimiter_at(pattern, buffer) is None ==> settle(pattern, buffer) == (Drained {
            pieces: Seq::empty(),
            state: awaiting(pattern, buffer),
        }),
{
    lemma_drain(pending(pattern, buffer));
}

proof fn lemma_trace_after_drain(v: ChunkerView, reads: Seq<Seq<u8>>)
    requires
        v.live(),
    ensures
        trace(v, reads) == drain(v).pieces + trace(drain(v).state, reads),
{
    lemma_drain(v);
    lemma_drain(drain(v).state);
}

/// One read, from a state that waits for it: the pieces are those that
/// settling the grown buffer gives, then those of the rest of the run.
proof fn lemma_trace_step(pattern: Seq<char>, buffer: Seq<u8>, reads: Seq<Seq<u8>>)
    requires
        reads.len() > 0,
        reads.first().len() > 0,
    ensures
        trace(awaiting(pattern, buffer), reads) == settle(
            pattern,
            buffer + reads.first(),
        ).pieces + trace(settle(pattern, buffer + reads.first()).state, reads.drop_first()),
{
    let v = awaiting(pattern, buffer);
    let t = v.feed(reads.first());
    lemma_drain(v);
    lemma_scan_keeps_bytes(pending(pattern, buffer + reads.first()));
    lemma_trace_after_drain(t.state, reads.drop_first());
    lemma_drain(t.state);
}

/// Settling the first `n` bytes of a stable input, and then what is left of
/// them with the rest, gives what settling all of it gives.
proof fn lemma_settle_prefix(pattern: Seq<char>, input: Seq<u8>, n: int)
    requires
        stable(pattern, input),
        0 <= n <= input.len(),
    ensures
        ({
            let a = settle(pattern, input.take(n));
            let b = settle(pattern, a.state.buffer + input.skip(n));
            &&& settle(pattern, input).pieces == a.pieces + b.pieces
            &&& settle(pattern, input).state == b.state
            &&& stable(pattern, a.state.buffer + input.skip(n))
        }),
    decreases n,
{
    let head = input.take(n);
    match delimiter_at(pattern, head) {
        None => {
            lemma_settle(pattern, head);
            assert(head + input.skip(n) =~= input);
        },
        Some((start, end)) => {
            let tail = input.skip(end);
            assert(head.skip(end) =~= tail.take(n - end));
            assert(head.take(start) =~= input.take(start));
            assert(head.subrange(start, end) =~= input.subrange(start, end));
            assert(tail.skip(n - end) =~= input.skip(n));
            lemma_settle_prefix(pattern, tail, n - end);
        },
    }
}

proof fn lemma_trace_is_whole(pattern: Seq<char>, buffer: Seq<u8>, reads: Seq<Seq<u8>>)
    requires
        delimiter_at(pattern, buffer) is None,
        all_nonempty(reads),
        stable(pattern, buffer + reads.flatten()),
    ensures
        trace(awaiting(pattern, buffer), reads) == whole(pattern, buffer + reads.flatten()),
    decreases reads.len(),
{
    let v = awaiting(pattern, buffer);
    if reads.len() == 0 {
        lemma_drain(v);
        lemma_settle(pattern, buffer);
    } else {
        let first = reads.first();
        let rest = reads.drop_first();
        let input = buffer + reads.flatten();
        let n = (buffer.len() + first.len()) as int;
        lemma_all_nonempty_rest(reads);
        lemma_trace_step(pattern, buffer, reads);
        assert(input.take(n) =~= buffer + first);
        assert(input.skip(n) =~= rest.flatten());
        lemma_settle_prefix(pattern, input, n);
        lemma_settle(pattern, buffer + first);
        lemma_trace_is_whole(pattern, settle(pattern, buffer + first).state.buffer, rest);
    }
}

/// How an input is cut into reads does not matter, as long as its
/// delimiters are stable: the items are those of one read that holds all of
/// it.
pub proof fn lemma_reads_do_not_matter(pattern: Seq<char>, reads: Seq<Seq<u8>>)
    requires
        all_nonempty(reads),
        stable(pattern, reads.flatten()),
    ensures
        run(pattern, reads) == run(pattern, seq![reads.flatten()]),
{
    let input = reads.flatten();
    let v = ChunkerView::fresh(pattern);
    let empty = Seq::<u8>::empty();
    lemma_trace_is_whole(pattern, empty, reads);
    let once = seq![input];
    if input.len() == 0 {
        lemma_drain(v);
        assert(trace(v.feed(input).state, once.drop_first()) =~= Seq::<Piece>::empty());
        lemma_settle(pattern, input);
    } else {
        assert(once.flatten() =~= input) by {
            assert(once.drop_first().flatten() =~= empty);
        }
        lemma_trace_is_whole(pattern, empty, once);
    }
}

} // verus!
