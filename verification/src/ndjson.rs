//! Newline-delimited JSON: cutting a byte stream that arrives in arbitrary pieces into lines.

use vstd::prelude::*;
use vstd::slice::{slice_subrange, slice_to_vec};

verus! {

/// Whether `b` ends a line or stands in front of the byte that does.
pub open spec fn is_line_end(b: u8) -> bool {
    b == 10 || b == 13
}

/// `line` without the line feeds and carriage returns at its end.
pub open spec fn without_line_end(line: Seq<u8>) -> Seq<u8>
    decreases line.len(),
{
    if line.len() > 0 && is_line_end(line.last()) {
        without_line_end(line.drop_last())
    } else {
        line
    }
}

/// Where the first line feed stands in `bytes`: `bytes.len()` if there is none.
pub open spec fn first_line_feed(bytes: Seq<u8>) -> nat
    decreases bytes.len(),
{
    if bytes.len() == 0 || bytes[0] == 10 {
        0
    } else {
        1 + first_line_feed(bytes.skip(1))
    }
}

/// The lines of a complete stream, in order: what stands before each line feed without its line
/// end, where that is not empty, and at last what follows the last line feed, where that is not
/// empty.
pub open spec fn lines(bytes: Seq<u8>) -> Seq<Seq<u8>>
    decreases bytes.len(),
{
    let end = first_line_feed(bytes);
    if end < bytes.len() {
        let line = without_line_end(bytes.take(end as int + 1));
        let rest = lines(bytes.skip(end as int + 1));
        if line.len() == 0 {
            rest
        } else {
            seq![line] + rest
        }
    } else if bytes.len() == 0 {
        seq![]
    } else {
        seq![bytes]
    }
}

/// The lines of a stream that broke off after `bytes`: those that a line feed ends.
pub open spec fn complete_lines(bytes: Seq<u8>) -> Seq<Seq<u8>>
    decreases bytes.len(),
{
    let end = first_line_feed(bytes);
    if end < bytes.len() {
        let line = without_line_end(bytes.take(end as int + 1));
        let rest = complete_lines(bytes.skip(end as int + 1));
        if line.len() == 0 {
            rest
        } else {
            seq![line] + rest
        }
    } else {
        seq![]
    }
}

/// `line` without the line feeds and carriage returns at its end.
pub fn trim_trailing_newline(line: &[u8]) -> (r: &[u8])
    ensures
        r@ == without_line_end(line@),
{
    let mut end: usize = line.len();
    proof {
        assert(line@.take(line@.len() as int) =~= line@);
    }
    while end > 0 && (line[end - 1] == 10 || line[end - 1] == 13)
        invariant
            end <= line@.len(),
            without_line_end(line@) == without_line_end(line@.take(end as int)),
        decreases end,
    {
        proof {
            assert(line@.take(end as int).drop_last() =~= line@.take(end - 1));
        }
        end = end - 1;
    }
    proof {
        assert(line@.subrange(0, end as int) =~= line@.take(end as int));
    }
    slice_subrange(line, 0, end)
}

/// What a reader holds of a stream: the bytes that no line was cut from yet, whether the source
/// has ended, and whether the stream has nothing more to give.
#[verifier::ext_equal]
pub struct NdjsonView {
    pub buf: Seq<u8>,
    pub eof: bool,
    pub over: bool,
}

/// The next line that `bytes` hold, and what is left behind it. Without a complete line there is
/// none until the source has ended; from then on the last line needs no line feed. Blank lines in
/// front are dropped either way.
pub open spec fn next_line(bytes: Seq<u8>, eof: bool) -> (Option<Seq<u8>>, Seq<u8>)
    decreases bytes.len(),
{
    let end = first_line_feed(bytes);
    if end < bytes.len() {
        let line = without_line_end(bytes.take(end as int + 1));
        let rest = bytes.skip(end as int + 1);
        if line.len() == 0 {
            next_line(rest, eof)
        } else {
            (Some(line), rest)
        }
    } else if eof && bytes.len() > 0 {
        (Some(bytes), Seq::empty())
    } else {
        (None, bytes)
    }
}

/// What [`NdjsonChatStream::poll`] found.
#[derive(Debug)]
pub enum NdjsonStep {
    /// A line to parse.
    Line(Vec<u8>),
    /// Nothing to parse until more of the source is supplied.
    Read,
    /// The stream is over.
    Over,
}

/// The contents of an [`NdjsonStep`].
#[verifier::ext_equal]
pub enum NdjsonStepView {
    Line(Seq<u8>),
    Read,
    Over,
}

impl View for NdjsonStep {
    type V = NdjsonStepView;

    open spec fn view(&self) -> NdjsonStepView {
        match self {
            NdjsonStep::Line(line) => NdjsonStepView::Line(line@),
            NdjsonStep::Read => NdjsonStepView::Read,
            NdjsonStep::Over => NdjsonStepView::Over,
        }
    }
}

/// What a poll of a stream in state `state` finds, and the state that it leaves.
pub open spec fn polled(state: NdjsonView) -> (NdjsonStepView, NdjsonView) {
    if state.over {
        (NdjsonStepView::Over, state)
    } else {
        let (line, rest) = next_line(state.buf, state.eof);
        let over = line is None && state.eof;
        let step = match line {
            Some(l) => NdjsonStepView::Line(l),
            None => if state.eof {
                NdjsonStepView::Over
            } else {
                NdjsonStepView::Read
            },
        };
        (step, NdjsonView { buf: rest, eof: state.eof, over })
    }
}

/// The state that the next packet of the source leaves.
pub open spec fn supplied(state: NdjsonView, packet: Seq<u8>) -> NdjsonView {
    NdjsonView { buf: state.buf + packet, ..state }
}

/// The state that the end of the source leaves.
pub open spec fn ended(state: NdjsonView) -> NdjsonView {
    NdjsonView { eof: true, ..state }
}

/// The state that a failure leaves.
pub open spec fn failed(state: NdjsonView) -> NdjsonView {
    NdjsonView { over: true, ..state }
}

/// The reader of one chat reply: it takes the packets of the reply in as they arrive and gives
/// the lines out.
#[derive(Debug)]
pub struct NdjsonChatStream {
    buf: Vec<u8>,
    eof: bool,
    over: bool,
}

impl View for NdjsonChatStream {
    type V = NdjsonView;

    closed spec fn view(&self) -> NdjsonView {
        NdjsonView { buf: self.buf@, eof: self.eof, over: self.over }
    }
}

impl NdjsonChatStream {
    /// A stream of which nothing has arrived.
    pub fn new() -> (r: NdjsonChatStream)
        ensures
            r@ == (NdjsonView { buf: seq![], eof: false, over: false }),
    {
        NdjsonChatStream { buf: Vec::new(), eof: false, over: false }
    }

    /// Takes the next packet of the source in.
    pub fn supply(&mut self, packet: &[u8])
        ensures
            final(self)@ == (NdjsonView { buf: old(self)@.buf + packet@, ..old(self)@ }),
            final(self)@ == supplied(old(self)@, packet@),
    {
        self.buf.extend_from_slice(packet);
        proof {
            assert(self.buf@ =~= old(self).buf@ + packet@);
        }
    }

    /// Notes that the source has ended.
    pub fn close(&mut self)
        ensures
            final(self)@ == (NdjsonView { eof: true, ..old(self)@ }),
            final(self)@ == ended(old(self)@),
    {
        self.eof = true;
    }

    /// Ends the stream after a failure: nothing follows an error.
    pub fn fail(&mut self)
        ensures
            final(self)@ == (NdjsonView { over: true, ..old(self)@ }),
            final(self)@ == failed(old(self)@),
    {
        self.over = true;
    }

    /// Cuts the next line off, or says what has to happen before there can be one.
    pub fn poll(&mut self) -> (step: NdjsonStep)
        ensures
            (step@, final(self)@) == polled(old(self)@),
            match step {
                NdjsonStep::Line(line) => {
                    &&& !old(self)@.over
                    &&& line@.len() > 0
                    &&& polled(old(self)@).0 matches NdjsonStepView::Line(found)
                    &&& found == line@
                },
                NdjsonStep::Read => {
                    &&& !old(self)@.over
                    &&& !old(self)@.eof
                    &&& !final(self)@.buf.contains(10)
                },
                NdjsonStep::Over => old(self)@.over || old(self)@.eof,
            },
            final(self)@.eof == old(self)@.eof,
    {
        if self.over {
            return NdjsonStep::Over;
        }
        loop
            invariant
                !self.over,
                self.eof == old(self).eof,
                !old(self).over,
                next_line(self.buf@, self.eof) == next_line(old(self).buf@, old(self).eof),
            decreases self.buf@.len(),
        {
            let end: usize = find_line_feed(&self.buf);
            if end < self.buf.len() {
                let ghost whole = self.buf@;
                let mut line: Vec<u8> = self.buf.split_off(end + 1);
                std::mem::swap(&mut self.buf, &mut line);
                proof {
                    assert(line@ =~= whole.take(end as int + 1));
                    assert(self.buf@ =~= whole.skip(end as int + 1));
                }
                let trimmed: &[u8] = trim_trailing_newline(&line);
                if trimmed.len() > 0 {
                    return NdjsonStep::Line(slice_to_vec(trimmed));
                }
            } else if !self.eof {
                proof {
                    lemma_first_line_feed(self.buf@);
                }
                return NdjsonStep::Read;
            } else if self.buf.len() == 0 {
                self.over = true;
                return NdjsonStep::Over;
            } else {
                let mut last: Vec<u8> = Vec::new();
                std::mem::swap(&mut self.buf, &mut last);
                return NdjsonStep::Line(last);
            }
        }
    }
}

/// The position of the first line feed in `bytes`, or their number where there is none.
fn find_line_feed(bytes: &Vec<u8>) -> (end: usize)
    ensures
        end == first_line_feed(bytes@),
        end <= bytes@.len(),
{
    let mut i: usize = 0;
    proof {
        assert(bytes@.skip(0) =~= bytes@);
    }
    while i < bytes.len() && bytes[i] != 10
        invariant
            i <= bytes@.len(),
            first_line_feed(bytes@) == i + first_line_feed(bytes@.skip(i as int)),
        decreases bytes@.len() - i,
    {
        proof {
            assert(bytes@.skip(i as int).skip(1) =~= bytes@.skip(i as int + 1));
        }
        i = i + 1;
    }
    i
}

/// Every line that a reader gives out of `bytes` before it asks for more, and what it then holds.
pub open spec fn drained(bytes: Seq<u8>, eof: bool) -> (Seq<Seq<u8>>, Seq<u8>)
    decreases bytes.len(),
    via drained_decreases
{
    match next_line(bytes, eof) {
        (Some(line), rest) => {
            let (more, left) = drained(rest, eof);
            (seq![line] + more, left)
        },
        (None, left) => (seq![], left),
    }
}

#[via_fn]
proof fn drained_decreases(bytes: Seq<u8>, eof: bool) {
    lemma_next_line_shrinks(bytes, eof);
}

/// Every line that a reader which holds `held` gives out when it is supplied `packets` one after
/// the other, drained after each of them, and the source then ends.
pub open spec fn received(held: Seq<u8>, packets: Seq<Seq<u8>>) -> Seq<Seq<u8>>
    decreases packets.len(),
{
    if packets.len() == 0 {
        drained(held, true).0
    } else {
        let (now, left) = drained(held, false);
        now + received(left + packets[0], packets.skip(1))
    }
}

/// Every line that a reader which holds `held` gives out when it is supplied `packets` one after
/// the other, drained after each of them, and the source then breaks off.
pub open spec fn received_before_break(held: Seq<u8>, packets: Seq<Seq<u8>>) -> Seq<Seq<u8>>
    decreases packets.len(),
{
    let (now, left) = drained(held, false);
    if packets.len() == 0 {
        now
    } else {
        now + received_before_break(left + packets[0], packets.skip(1))
    }
}

/// The bytes of `packets` in a row.
pub open spec fn joined(packets: Seq<Seq<u8>>) -> Seq<u8>
    decreases packets.len(),
{
    if packets.len() == 0 {
        seq![]
    } else {
        packets[0] + joined(packets.skip(1))
    }
}

proof fn lemma_next_line_shrinks(bytes: Seq<u8>, eof: bool)
    ensures
        next_line(bytes, eof).0 is Some ==> next_line(bytes, eof).1.len() < bytes.len(),
    decreases bytes.len(),
{
    let end = first_line_feed(bytes);
    if end < bytes.len() {
        lemma_next_line_shrinks(bytes.skip(end as int + 1), eof);
    }
}

proof fn lemma_first_line_feed(bytes: Seq<u8>)
    ensures
        first_line_feed(bytes) <= bytes.len(),
        forall|i: int| 0 <= i < first_line_feed(bytes) ==> bytes[i] != 10,
        first_line_feed(bytes) < bytes.len() ==> bytes[first_line_feed(bytes) as int] == 10,
    decreases bytes.len(),
{
    if bytes.len() > 0 && bytes[0] != 10 {
        let tail = bytes.skip(1);
        lemma_first_line_feed(tail);
        assert forall|i: int| 0 <= i < first_line_feed(bytes) implies bytes[i] != 10 by {
            if i > 0 {
                assert(bytes[i] == tail[i - 1]);
            }
        }
    }
}

proof fn lemma_first_line_feed_is(bytes: Seq<u8>, end: nat)
    requires
        end <= bytes.len(),
        forall|i: int| 0 <= i < end ==> bytes[i] != 10,
        end < bytes.len() ==> bytes[end as int] == 10,
    ensures
        first_line_feed(bytes) == end,
    decreases bytes.len(),
{
    if end > 0 {
        let tail = bytes.skip(1);
        assert forall|i: int| 0 <= i < end - 1 implies tail[i] != 10 by {
            assert(tail[i] == bytes[i + 1]);
        }
        lemma_first_line_feed_is(tail, (end - 1) as nat);
    }
}

/// What follows a complete line does not change how that line is cut.
proof fn lemma_append_keeps_first_line(bytes: Seq<u8>, more: Seq<u8>)
    requires
        first_line_feed(bytes) < bytes.len(),
    ensures
        first_line_feed(bytes + more) == first_line_feed(bytes),
        (bytes + more).take(first_line_feed(bytes) as int + 1) == bytes.take(
            first_line_feed(bytes) as int + 1,
        ),
        (bytes + more).skip(first_line_feed(bytes) as int + 1) == bytes.skip(
            first_line_feed(bytes) as int + 1,
        ) + more,
{
    let end = first_line_feed(bytes);
    lemma_first_line_feed(bytes);
    lemma_first_line_feed_is(bytes + more, end);
    assert((bytes + more).take(end as int + 1) =~= bytes.take(end as int + 1));
    assert((bytes + more).skip(end as int + 1) =~= bytes.skip(end as int + 1) + more);
}

proof fn lemma_next_line_then_lines(bytes: Seq<u8>, more: Seq<u8>)
    ensures
        ({
            let (line, rest) = next_line(bytes, false);
            lines(bytes + more) == match line {
                Some(l) => seq![l] + lines(rest + more),
                None => lines(rest + more),
            }
        }),
    decreases bytes.len(),
{
    let end = first_line_feed(bytes);
    if end < bytes.len() {
        lemma_append_keeps_first_line(bytes, more);
        lemma_next_line_then_lines(bytes.skip(end as int + 1), more);
    }
}

proof fn lemma_drained_then_lines(bytes: Seq<u8>, more: Seq<u8>)
    ensures
        lines(bytes + more) == drained(bytes, false).0 + lines(drained(bytes, false).1 + more),
    decreases bytes.len(),
{
    lemma_next_line_shrinks(bytes, false);
    lemma_next_line_then_lines(bytes, more);
    let (line, rest) = next_line(bytes, false);
    if line is Some {
        lemma_drained_then_lines(rest, more);
    }
    assert(lines(bytes + more) =~= drained(bytes, false).0 + lines(
        drained(bytes, false).1 + more,
    ));
}

proof fn lemma_next_line_then_complete_lines(bytes: Seq<u8>, more: Seq<u8>)
    ensures
        ({
            let (line, rest) = next_line(bytes, false);
            complete_lines(bytes + more) == match line {
                Some(l) => seq![l] + complete_lines(rest + more),
                None => complete_lines(rest + more),
            }
        }),
        next_line(bytes, false).0 is None ==> first_line_feed(next_line(bytes, false).1)
            >= next_line(bytes, false).1.len(),
    decreases bytes.len(),
{
    let end = first_line_feed(bytes);
    if end < bytes.len() {
        lemma_append_keeps_first_line(bytes, more);
        lemma_next_line_then_complete_lines(bytes.skip(end as int + 1), more);
    }
}

proof fn lemma_drained_then_complete_lines(bytes: Seq<u8>, more: Seq<u8>)
    ensures
        complete_lines(bytes + more) == drained(bytes, false).0 + complete_lines(
            drained(bytes, false).1 + more,
        ),
        complete_lines(drained(bytes, false).1).len() == 0,
    decreases bytes.len(),
{
    lemma_next_line_shrinks(bytes, false);
    lemma_next_line_then_complete_lines(bytes, more);
    let (line, rest) = next_line(bytes, false);
    if line is Some {
        lemma_drained_then_complete_lines(rest, more);
    }
    assert(complete_lines(bytes + more) =~= drained(bytes, false).0 + complete_lines(
        drained(bytes, false).1 + more,
    ));
}

proof fn lemma_drained_at_end(bytes: Seq<u8>)
    ensures
        drained(bytes, true).0 == lines(bytes),
    decreases bytes.len(),
{
    lemma_next_line_shrinks(bytes, true);
    lemma_next_line_at_end(bytes);
    let (line, rest) = next_line(bytes, true);
    if line is Some {
        lemma_drained_at_end(rest);
    }
    assert(drained(bytes, true).0 =~= lines(bytes));
}

proof fn lemma_next_line_at_end(bytes: Seq<u8>)
    ensures
        ({
            let (line, rest) = next_line(bytes, true);
            match line {
                Some(l) => lines(bytes) == seq![l] + lines(rest),
                None => lines(bytes).len() == 0,
            }
        }),
    decreases bytes.len(),
{
    let end = first_line_feed(bytes);
    if end < bytes.len() {
        lemma_next_line_at_end(bytes.skip(end as int + 1));
    } else if bytes.len() > 0 {
        assert(lines(bytes) =~= seq![bytes] + lines(Seq::<u8>::empty()));
    }
}

/// A poll loses nothing: the line that it gives out and the lines of what it leaves behind, with
/// whatever `future` may still bring, are the lines of what it found. Once the source has ended
/// there is no future, and a stream that is over has no line left.
pub proof fn polls_lose_nothing(state: NdjsonView, future: Seq<u8>)
    requires
        !state.over,
        state.eof ==> future.len() == 0,
    ensures
        ({
            let (step, after) = polled(state);
            lines(state.buf + future) == match step {
                NdjsonStepView::Line(line) => seq![line] + lines(after.buf + future),
                NdjsonStepView::Read => lines(after.buf + future),
                NdjsonStepView::Over => seq![],
            }
        }),
{
    if state.eof {
        assert(state.buf + future =~= state.buf);
        let (step, after) = polled(state);
        assert(after.buf + future =~= after.buf);
        lemma_next_line_at_end(state.buf);
        assert(step is Over ==> lines(state.buf) =~= seq![]);
    } else {
        lemma_next_line_then_lines(state.buf, future);
    }
}

/// However the bytes of a stream are split into packets, a reader gives out the same lines: those
/// of the whole stream.
pub proof fn packets_do_not_matter(held: Seq<u8>, packets: Seq<Seq<u8>>)
    ensures
        received(held, packets) == lines(held + joined(packets)),
    decreases packets.len(),
{
    if packets.len() == 0 {
        lemma_drained_at_end(held);
        assert(held + joined(packets) =~= held);
    } else {
        let (now, left) = drained(held, false);
        lemma_drained_then_lines(held, joined(packets));
        packets_do_not_matter(left + packets[0], packets.skip(1));
        assert((left + packets[0]) + joined(packets.skip(1)) =~= left + joined(packets));
    }
}

/// When a stream breaks off, a reader has given out every line that arrived whole, however the
/// bytes were split into packets.
pub proof fn a_break_loses_no_whole_line(held: Seq<u8>, packets: Seq<Seq<u8>>)
    ensures
        received_before_break(held, packets) == complete_lines(held + joined(packets)),
    decreases packets.len(),
{
    let (now, left) = drained(held, false);
    lemma_drained_then_complete_lines(held, joined(packets));
    if packets.len() == 0 {
        assert(left + joined(packets) =~= left);
        assert(now + complete_lines(left) =~= now);
    } else {
        a_break_loses_no_whole_line(left + packets[0], packets.skip(1));
        assert((left + packets[0]) + joined(packets.skip(1)) =~= left + joined(packets));
    }
}

/// `texts` as a sender writes them, each with a line feed behind it.
pub open spec fn written(texts: Seq<Seq<u8>>) -> Seq<u8>
    decreases texts.len(),
{
    if texts.len() == 0 {
        seq![]
    } else {
        texts[0].push(10) + written(texts.skip(1))
    }
}

/// Whether `text` is a line that can be written and read back: not empty, without a line feed,
/// and without a carriage return at its end.
pub open spec fn is_line(text: Seq<u8>) -> bool {
    &&& text.len() > 0
    &&& !text.contains(10)
    &&& text.last() != 13
}

/// Lines come out as they were written, in order.
pub proof fn written_lines_are_read_back(texts: Seq<Seq<u8>>)
    requires
        forall|i: int| 0 <= i < texts.len() ==> is_line(#[trigger] texts[i]),
    ensures
        lines(written(texts)) == texts,
    decreases texts.len(),
{
    if texts.len() > 0 {
        let text = texts[0];
        let rest = texts.skip(1);
        assert forall|i: int| 0 <= i < rest.len() implies is_line(#[trigger] rest[i]) by {
            assert(rest[i] == texts[i + 1]);
        }
        written_lines_are_read_back(rest);
        let all = written(texts);
        assert forall|i: int| 0 <= i < text.len() implies all[i] != 10 by {
            assert(all[i] == text[i]);
            assert(text.contains(text[i]));
        }
        lemma_first_line_feed_is(all, text.len());
        assert(all.take(text.len() as int + 1) =~= text.push(10));
        assert(all.skip(text.len() as int + 1) =~= written(rest));
        assert(text.push(10).drop_last() =~= text);
        assert(text.contains(text.last()));
        assert(without_line_end(text) == text);
        assert(without_line_end(text.push(10)) == text);
        assert(seq![text] + rest =~= texts);
    } else {
        assert(lines(written(texts)) =~= texts);
    }
}

/// Taking the line ends off a line takes all of them and nothing else: `core` is what stands in
/// front of them.
pub proof fn trimming_takes_line_ends_only(core: Seq<u8>, ends: Seq<u8>)
    requires
        forall|i: int| 0 <= i < ends.len() ==> #[trigger] ends[i] == 10 || ends[i] == 13,
        core.len() > 0 ==> core.last() != 10 && core.last() != 13,
    ensures
        without_line_end(core + ends) == core,
    decreases ends.len(),
{
    if ends.len() > 0 {
        let init = ends.drop_last();
        assert forall|i: int| 0 <= i < init.len() implies #[trigger] init[i] == 10 || init[i]
            == 13 by {
            assert(init[i] == ends[i]);
        }
        assert((core + ends).last() == ends[ends.len() - 1]);
        assert((core + ends).drop_last() =~= core + init);
        trimming_takes_line_ends_only(core, init);
    } else {
        assert(core + ends =~= core);
    }
}

proof fn lemma_first_line(core: Seq<u8>, crs: Seq<u8>, rest: Seq<u8>)
    requires
        !core.contains(10),
        core.len() > 0 ==> core.last() != 13,
        forall|i: int| 0 <= i < crs.len() ==> #[trigger] crs[i] == 13,
    ensures
        ({
            let bytes = core + crs + seq![10u8] + rest;
            let end = first_line_feed(bytes);
            &&& end == core.len() + crs.len()
            &&& end < bytes.len()
            &&& without_line_end(bytes.take(end as int + 1)) == core
            &&& bytes.skip(end as int + 1) == rest
        }),
{
    let bytes = core + crs + seq![10u8] + rest;
    let end = core.len() + crs.len();
    assert forall|i: int| 0 <= i < end implies bytes[i] != 10 by {
        if i < core.len() {
            assert(bytes[i] == core[i]);
            assert(core.contains(core[i]));
        } else {
            assert(bytes[i] == crs[i - core.len()]);
        }
    }
    assert(bytes[end as int] == 10);
    lemma_first_line_feed_is(bytes, end);
    let ends = crs + seq![10u8];
    assert forall|i: int| 0 <= i < ends.len() implies #[trigger] ends[i] == 10 || ends[i]
        == 13 by {
        if i < crs.len() {
            assert(ends[i] == crs[i]);
        }
    }
    if core.len() > 0 {
        assert(core.contains(core.last()));
    }
    trimming_takes_line_ends_only(core, ends);
    assert(bytes.take(end as int + 1) =~= core + ends);
    assert(bytes.skip(end as int + 1) =~= rest);
}

/// What the lines of a stream are. Up to the first line feed stands the first line, without the
/// carriage returns in front of the feed, and a line that is empty then does not count. What stands
/// behind the last line feed is a line as it is.
pub proof fn a_line_ends_at_its_feed(core: Seq<u8>, crs: Seq<u8>, rest: Seq<u8>)
    requires
        !core.contains(10),
        core.len() > 0 ==> core.last() != 13,
        forall|i: int| 0 <= i < crs.len() ==> #[trigger] crs[i] == 13,
    ensures
        core.len() > 0 ==> lines(core + crs + seq![10u8] + rest) == seq![core] + lines(rest),
        core.len() == 0 ==> lines(core + crs + seq![10u8] + rest) == lines(rest),
        core.len() > 0 ==> complete_lines(core + crs + seq![10u8] + rest) == seq![core]
            + complete_lines(rest),
        core.len() == 0 ==> complete_lines(core + crs + seq![10u8] + rest) == complete_lines(
            rest,
        ),
{
    lemma_first_line(core, crs, rest);
}

/// What stands behind the last line feed of a stream is a line as it is, unless it is empty. In a
/// stream that broke off it is none.
pub proof fn the_last_line_needs_no_feed(last: Seq<u8>)
    requires
        !last.contains(10),
    ensures
        last.len() > 0 ==> lines(last) == seq![last],
        last.len() == 0 ==> lines(last).len() == 0,
        complete_lines(last).len() == 0,
{
    lemma_first_line_feed(last);
    if first_line_feed(last) < last.len() {
        assert(last.contains(last[first_line_feed(last) as int]));
    }
}

/// A poll gives the first line out as soon as it is there whole, with its line end off and all that
/// stands behind it kept. An empty line is passed over.
pub proof fn a_poll_gives_the_first_line(
    core: Seq<u8>,
    crs: Seq<u8>,
    rest: Seq<u8>,
    eof: bool,
)
    requires
        !core.contains(10),
        core.len() > 0 ==> core.last() != 13,
        forall|i: int| 0 <= i < crs.len() ==> #[trigger] crs[i] == 13,
    ensures
        ({
            let (step, after) = polled(
                NdjsonView { buf: core + crs + seq![10u8] + rest, eof, over: false },
            );
            &&& core.len() > 0 ==> {
                &&& step matches NdjsonStepView::Line(line)
                &&& line == core
                &&& after.buf == rest
                &&& after.eof == eof
                &&& !after.over
            }
            &&& core.len() == 0 ==> (step, after) == polled(
                NdjsonView { buf: rest, eof, over: false },
            )
        }),
{
    lemma_first_line(core, crs, rest);
}

/// Without a whole line a poll asks for more and keeps what is there. Once the source has ended, it
/// gives what is left out as the last line, and then the stream is over and stays so.
pub proof fn a_poll_waits_for_a_whole_line(bytes: Seq<u8>, eof: bool, over: bool)
    requires
        !bytes.contains(10),
    ensures
        ({
            let (step, after) = polled(NdjsonView { buf: bytes, eof, over });
            &&& !over && !eof ==> step is Read && after.buf == bytes && !after.eof && !after.over
            &&& !over && eof && bytes.len() > 0 ==> {
                &&& step matches NdjsonStepView::Line(line)
                &&& line == bytes
                &&& after.buf.len() == 0
                &&& after.eof
                &&& !after.over
            }
            &&& !over && eof && bytes.len() == 0 ==> step is Over && after.over
        }),
{
    lemma_first_line_feed(bytes);
    if first_line_feed(bytes) < bytes.len() {
        assert(bytes.contains(bytes[first_line_feed(bytes) as int]));
    }
}

/// A stream that is over stays over, whatever it holds and whatever still arrives.
pub proof fn over_is_over(state: NdjsonView, packet: Seq<u8>)
    requires
        state.over,
    ensures
        polled(state).0 is Over,
        polled(state).1.over,
        polled(supplied(state, packet)).0 is Over,
        polled(ended(state)).0 is Over,
        polled(failed(state)).0 is Over,
{
}

/// What arrives is kept: a packet is put behind what is held, the end of the source changes nothing
/// of it, and a failure ends the stream.
pub proof fn what_arrives_is_kept(state: NdjsonView, packet: Seq<u8>)
    ensures
        supplied(state, packet).buf == state.buf + packet,
        supplied(state, packet).eof == state.eof,
        supplied(state, packet).over == state.over,
        ended(state).buf == state.buf,
        ended(state).eof,
        ended(state).over == state.over,
        failed(state).over,
        polled(failed(state)).0 is Over,
{
}

} // verus!
