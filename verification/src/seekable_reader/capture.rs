//! The capture of a prefix: chunk after chunk, until the row budget is spent or the stream
//! has ended.

use crate::seekable_reader::prefix::PrefixBuffer;
use crate::seekable_reader::state::{lemma_reads_follow_capture, PrefixState};
use vstd::prelude::*;

verus! {

/// The byte that ends a line.
pub const LINE_FEED: u8 = 10;

/// The size of the buffer that a capture reads a stream with.
pub const BUFFER_SIZE: usize = 8192;

/// The number of line ends among `bytes`.
pub open spec fn line_feeds(bytes: Seq<u8>) -> nat {
    bytes.filter(|byte: u8| byte == LINE_FEED).len()
}

/// True when the bytes hold more line ends than the budget and one more, which is kept for
/// a header line. Without a budget this is never true.
pub open spec fn budget_spent(bytes: Seq<u8>, budget: Option<usize>) -> bool {
    budget matches Some(rows) && line_feeds(bytes) > rows + 1
}

/// A capture, in specifications: the bytes it holds, its budget of rows if it has one, and
/// whether the stream has ended.
pub struct CaptureState {
    pub captured: Seq<u8>,
    pub budget: Option<usize>,
    pub ended: bool,
}

impl CaptureState {
    /// A capture that holds nothing yet.
    pub open spec fn start(budget: Option<usize>) -> CaptureState {
        CaptureState { captured: Seq::empty(), budget, ended: false }
    }

    /// The capture after the next chunk of the stream. An empty chunk tells that the stream
    /// has ended.
    pub open spec fn absorb(self, chunk: Seq<u8>) -> CaptureState {
        CaptureState {
            captured: self.captured + chunk,
            budget: self.budget,
            ended: self.ended || chunk.len() == 0,
        }
    }

    /// The capture after a run of chunks.
    pub open spec fn absorb_all(self, chunks: Seq<Seq<u8>>) -> CaptureState
        decreases chunks.len(),
    {
        if chunks.len() == 0 {
            self
        } else {
            self.absorb_all(chunks.drop_last()).absorb(chunks.last())
        }
    }

    /// True when the capture needs no further chunk: the stream has ended, or the budget
    /// is spent.
    pub open spec fn complete(self) -> bool {
        self.ended || budget_spent(self.captured, self.budget)
    }
}

/// Appending bytes adds up their line ends.
pub proof fn lemma_line_feeds_add(head: Seq<u8>, tail: Seq<u8>)
    ensures
        line_feeds(head + tail) == line_feeds(head) + line_feeds(tail),
{
    Seq::filter_distributes_over_add(head, tail, |byte: u8| byte == LINE_FEED);
}

/// One more byte is one more line end, or none.
pub proof fn lemma_line_feeds_push(head: Seq<u8>, byte: u8)
    ensures
        line_feeds(head.push(byte)) == line_feeds(head) + if byte == LINE_FEED {
            1nat
        } else {
            0nat
        },
{
    reveal(Seq::filter);
    assert(head.push(byte).drop_last() =~= head);
}

/// There are no more line ends than bytes, and no fewer than in a prefix.
pub proof fn lemma_line_feeds_grow(bytes: Seq<u8>, cut: int)
    requires
        0 <= cut <= bytes.len(),
    ensures
        line_feeds(bytes.take(cut)) <= line_feeds(bytes) <= bytes.len(),
{
    assert(bytes =~= bytes.take(cut) + bytes.skip(cut));
    lemma_line_feeds_add(bytes.take(cut), bytes.skip(cut));
    bytes.lemma_filter_len(|byte: u8| byte == LINE_FEED);
}

/// A capture holds every chunk that it took, in the order in which they came, and nothing
/// else.
pub proof fn lemma_capture_holds_every_chunk(state: CaptureState, chunks: Seq<Seq<u8>>)
    ensures
        state.absorb_all(chunks).captured == state.captured + chunks.flatten_alt(),
        state.absorb_all(chunks).budget == state.budget,
    decreases chunks.len(),
{
    if chunks.len() > 0 {
        lemma_capture_holds_every_chunk(state, chunks.drop_last());
    }
    assert(state.absorb_all(chunks).captured =~= state.captured + chunks.flatten_alt());
}

/// A stream shorter than one chunk comes with the first read. The capture is then complete
/// with that chunk or with the empty one that follows, and holds the stream from its first
/// byte to its last; reads from its start hand out the bytes of the stream in their order.
pub proof fn lemma_short_stream_is_captured_whole(
    stream: Seq<u8>,
    budget: Option<usize>,
    wants: Seq<nat>,
)
    requires
        stream.len() < BUFFER_SIZE,
    ensures
        ({
            let first = CaptureState::start(budget).absorb(stream);
            let last = if first.complete() {
                first
            } else {
                first.absorb(Seq::empty())
            };
            let prefix = PrefixState::fresh(last.captured);
            &&& last.complete()
            &&& last.captured == stream
            &&& prefix.bytes_of_reads(wants) == stream.take(prefix.after_reads(wants).cursor as int)
        }),
{
    let first = CaptureState::start(budget).absorb(stream);
    assert(first.captured =~= stream);
    assert(first.absorb(Seq::empty()).captured =~= stream);
    lemma_reads_follow_capture(PrefixState::fresh(stream), wants);
}

/// A complete capture with a budget of rows holds more line ends than the budget and one
/// more, unless the stream ended before.
pub proof fn lemma_complete_capture_covers_budget(state: CaptureState, rows: usize)
    requires
        state.budget == Some(rows),
        state.complete(),
    ensures
        state.ended || line_feeds(state.captured) >= rows + 2,
{
}

/// A capture under way.
///
/// It takes the chunks that were read from a stream, in their order, and says after each
/// whether the capture is complete: the budget is spent, or the stream has ended, which an
/// empty chunk tells.
#[derive(Debug)]
pub struct PrefixCapture {
    buffer: Vec<u8>,
    lines: usize,
    budget: Option<usize>,
    ended: bool,
}

impl View for PrefixCapture {
    type V = CaptureState;

    closed spec fn view(&self) -> CaptureState {
        CaptureState { captured: self.buffer@, budget: self.budget, ended: self.ended }
    }
}

impl PrefixCapture {
    #[verifier::type_invariant]
    spec fn lines_counted(self) -> bool {
        self.lines == line_feeds(self.buffer@)
    }

    /// A capture that holds nothing yet. Without a budget it goes on to the end of the
    /// stream.
    pub fn new(lines_to_buffer: Option<usize>) -> (capture: PrefixCapture)
        ensures
            capture@ == CaptureState::start(lines_to_buffer),
    {
        proof {
            lemma_line_feeds_grow(Seq::<u8>::empty(), 0);
        }
        PrefixCapture {
            buffer: Vec::with_capacity(BUFFER_SIZE),
            lines: 0,
            budget: lines_to_buffer,
            ended: false,
        }
    }

    /// A capture without bytes and without storage, to stand in for one that is rebuilt.
    fn hollow() -> (capture: PrefixCapture)
        ensures
            capture@ == CaptureState::start(None),
    {
        proof {
            lemma_line_feeds_grow(Seq::<u8>::empty(), 0);
        }
        PrefixCapture { buffer: Vec::new(), lines: 0, budget: None, ended: false }
    }

    /// Tells whether the capture needs no further chunk.
    pub fn is_complete(&self) -> (complete: bool)
        ensures
            complete == self@.complete(),
    {
        proof {
            use_type_invariant(self);
        }
        self.ended || match self.budget {
            Some(rows) => self.lines >= 2 && self.lines - 2 >= rows,
            None => false,
        }
    }

    /// Tells whether an empty chunk has come: the stream has ended.
    pub fn is_source_ended(&self) -> (ended: bool)
        ensures
            ended == self@.ended,
    {
        self.ended
    }

    /// Takes the next chunk of the stream, and tells whether the capture is complete with
    /// it. An empty chunk stands for the end of the stream.
    pub fn absorb(&mut self, chunk: &[u8]) -> (complete: bool)
        ensures
            final(self)@ == old(self)@.absorb(chunk@),
            final(self)@.captured.len() <= usize::MAX,
            complete == final(self)@.complete(),
    {
        let mut taken = PrefixCapture::hollow();
        core::mem::swap(self, &mut taken);
        proof {
            use_type_invariant(&taken);
        }
        let PrefixCapture { buffer, lines, budget, ended } = taken;
        let ghost before = buffer@;
        let mut buffer = buffer;
        buffer.extend_from_slice(chunk);
        let found = count_line_feeds(chunk);
        proof {
            lemma_line_feeds_add(before, chunk@);
            lemma_line_feeds_grow(buffer@, buffer@.len() as int);
            assert(buffer@ == before + chunk@);
            assert(buffer@.len() == buffer.len() <= usize::MAX);
        }
        *self = PrefixCapture {
            buffer,
            lines: lines + found,
            budget,
            ended: ended || chunk.len() == 0,
        };
        self.is_complete()
    }

    /// Ends the capture: the captured bytes become a prefix buffer with the cursor at their
    /// start.
    pub fn finish(self) -> (prefix: PrefixBuffer)
        ensures
            prefix@ == PrefixState::fresh(self@.captured),
    {
        PrefixBuffer::new(self.buffer)
    }
}

/// Counts the line ends in a chunk.
pub fn count_line_feeds(chunk: &[u8]) -> (found: usize)
    ensures
        found == line_feeds(chunk@),
{
    let mut found: usize = 0;
    let mut i: usize = 0;
    proof {
        lemma_line_feeds_grow(chunk@, 0);
    }
    while i < chunk.len()
        invariant
            i <= chunk@.len(),
            found == line_feeds(chunk@.take(i as int)),
            found <= i,
        decreases chunk@.len() - i,
    {
        proof {
            assert(chunk@.take(i + 1) =~= chunk@.take(i as int).push(chunk@[i as int]));
            lemma_line_feeds_push(chunk@.take(i as int), chunk@[i as int]);
        }
        if chunk[i] == LINE_FEED {
            found = found + 1;
        }
        i = i + 1;
    }
    proof {
        assert(chunk@.take(i as int) =~= chunk@);
    }
    found
}

} // verus!
