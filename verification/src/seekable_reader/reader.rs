//! The seekable reader: a byte source behind a captured prefix.

use crate::seekable_reader::capture::{budget_spent, PrefixCapture, BUFFER_SIZE};
use crate::seekable_reader::prefix::PrefixBuffer;
use crate::seekable_reader::source::{hands_out, ByteSource, Traced};
use crate::seekable_reader::state::{PrefixState, SeekFrom, StreamSeekError};
use vstd::prelude::*;
use vstd::slice::slice_subrange;

verus! {

/// A reader that can also seek, though only inside a prefix that it has captured.
pub trait SeekRead {
    /// What a failed read reports.
    type Error;

    /// The captured prefix, the cursor and the seekability flag.
    spec fn prefix(&self) -> PrefixState;

    /// Reads into the start of `buf`, and returns how many bytes it wrote.
    ///
    /// While the cursor lies before the end of the captured bytes, these serve the read: as
    /// many bytes as `buf` takes, or those that are left, and never a byte from behind
    /// them. With the cursor at their end, the read goes to the stream, and seeking is
    /// over.
    fn read(&mut self, buf: &mut [u8]) -> (read: Result<usize, Self::Error>)
        ensures
            final(buf)@.len() == old(buf)@.len(),
            final(self).prefix() == old(self).prefix().after_read(old(buf)@.len()),
            read matches Ok(n) ==> n <= old(buf)@.len(),
            old(self).prefix().serves_from_prefix() ==> {
                &&& read matches Ok(n)
                &&& n == old(self).prefix().read_len(old(buf)@.len())
                &&& final(buf)@ == old(self).prefix().read_bytes(old(buf)@.len()) + old(
                    buf,
                )@.skip(n as int)
            },
    ;

    /// Moves the cursor to `pos`, and returns its new offset from the start.
    ///
    /// The seek is granted while no read has gone past the captured bytes, and only to one
    /// of these bytes. A refused seek changes nothing.
    fn seek(&mut self, pos: SeekFrom) -> (moved: Result<u64, StreamSeekError>)
        ensures
            final(self).prefix() == old(self).prefix().after_seek(pos),
            match moved {
                Ok(offset) => old(self).prefix().seek_target(pos) == Some(offset as nat),
                Err(refused) => old(self).prefix().seek_target(pos) is None && refused == old(
                    self,
                ).prefix().seek_error(pos),
            },
    ;

    /// Moves the cursor back to the start of the stream.
    fn rewind(&mut self) -> (moved: Result<(), StreamSeekError>)
        ensures
            final(self).prefix() == old(self).prefix().after_seek(SeekFrom::Start(0)),
            match moved {
                Ok(_) => old(self).prefix().seek_target(SeekFrom::Start(0)) == Some(0nat),
                Err(refused) => old(self).prefix().seek_target(SeekFrom::Start(0)) is None
                    && refused == old(self).prefix().seek_error(SeekFrom::Start(0)),
            },
    {
        match self.seek(SeekFrom::Start(0)) {
            Ok(_) => Ok(()),
            Err(refused) => Err(refused),
        }
    }
}

/// A reader that lets a stream without seek be read twice from its start: once to look at
/// its first rows, and once in full.
///
/// It captures a prefix of the stream when it is made. Reads are served from the prefix
/// first, and seeks are granted inside it. Once a read has gone past the prefix, the reader
/// hands on what the stream gives, and grants no seek any more.
pub struct SeekableReader<R> {
    inner: Traced<R>,
    prefix: PrefixBuffer,
    ended: bool,
}

impl<R> View for SeekableReader<R> {
    type V = PrefixState;

    closed spec fn view(&self) -> PrefixState {
        self.prefix@
    }
}

impl<R> SeekableReader<R> {
    /// The stream behind the prefix, with the record of what it has handed out to this
    /// reader.
    pub closed spec fn source(&self) -> Traced<R> {
        self.inner
    }

    /// True when the capture went on to the end of the stream: its last read brought no
    /// byte.
    pub closed spec fn source_ended(&self) -> bool {
        self.ended
    }

    /// The captured bytes.
    pub fn captured(&self) -> (bytes: &[u8])
        ensures
            bytes@ == self@.captured,
    {
        self.prefix.captured()
    }

    /// The offset of the cursor.
    pub fn position(&self) -> (offset: usize)
        ensures
            offset == self@.cursor,
            self@.wf(),
    {
        self.prefix.position()
    }

    /// Tells whether a seek can still be granted.
    pub fn is_seekable(&self) -> (seekable: bool)
        ensures
            seekable == self@.seekable,
    {
        self.prefix.is_seekable()
    }

    /// Tells whether the capture went on to the end of the stream.
    pub fn is_source_ended(&self) -> (ended: bool)
        ensures
            ended == self.source_ended(),
    {
        self.ended
    }
}

/// True when a capture went no further than it had to: without its last chunk, which is
/// no longer than `BUFFER_SIZE`, the budget was not yet spent.
pub open spec fn ends_with_last_chunk(captured: Seq<u8>, budget: Option<usize>) -> bool {
    exists|cut: int|
        0 <= cut <= captured.len() <= cut + BUFFER_SIZE && !budget_spent(
            #[trigger] captured.take(cut),
            budget,
        )
}

/// True when `captured` holds the first bytes of the content `all` of a stream, and `rest`
/// is the content that the stream has left behind them.
pub open spec fn holds_start_of(captured: Seq<u8>, all: Seq<u8>, rest: Option<Seq<u8>>) -> bool {
    &&& captured.len() <= all.len()
    &&& captured == all.take(captured.len() as int)
    &&& rest == Some(all.skip(captured.len() as int))
}

impl<R: ByteSource> SeekableReader<R> {
    /// Captures a prefix of `reader`, and makes a reader with the cursor at its start.
    ///
    /// The stream is read in chunks of up to `BUFFER_SIZE` bytes, and the capture holds the
    /// bytes that these reads brought, all of them and in their order. With a budget of
    /// rows, the capture ends with the first chunk after which it holds more line ends than
    /// the budget and one more, or with the end of the stream if that comes first. Without
    /// a budget it ends with the end of the stream. An error of the stream ends the capture
    /// and is handed on.
    ///
    /// On a stream that knows its content the capture does not fail. It holds the first
    /// bytes of that content, and the stream is left with those behind them. It holds the
    /// whole content where the capture went on to the end of the stream, as it does without
    /// a budget.
    pub fn from_unbuffered_reader(reader: R, lines_to_buffer: Option<usize>) -> (made: Result<
        Self,
        R::Error,
    >)
        ensures
            made matches Ok(made) ==> {
                &&& made@ == PrefixState::fresh(made@.captured)
                &&& made.source().handed_out() == made@.captured
                &&& made.source_ended() <==> !budget_spent(made@.captured, lines_to_buffer)
                &&& made.source_ended() ==> made.source().has_ended()
                &&& ends_with_last_chunk(made@.captured, lines_to_buffer)
            },
            reader.content() matches Some(all) ==> {
                &&& made matches Ok(made)
                &&& holds_start_of(made@.captured, all, made.source().source().content())
                &&& made.source_ended() ==> made@.captured == all
            },
    {
        let mut inner = Traced::new(reader);
        let mut capture = PrefixCapture::new(lines_to_buffer);
        let mut chunk: Vec<u8> = vec![0u8; BUFFER_SIZE];
        let ghost mut cut: int = 0;
        proof {
            if let Some(all) = reader.content() {
                assert(all.skip(0) =~= all);
                assert(capture@.captured =~= all.take(0));
            }
        }
        loop
            invariant_except_break
                !capture@.complete(),
            invariant
                chunk@.len() == BUFFER_SIZE,
                capture@.budget == lines_to_buffer,
                capture@.captured.len() <= usize::MAX,
                inner.handed_out() == capture@.captured,
                capture@.ended ==> inner.has_ended(),
                reader.content() matches Some(all) ==> holds_start_of(
                    capture@.captured,
                    all,
                    inner.source().content(),
                ),
            ensures
                capture@.complete(),
                capture@.ended ==> !budget_spent(capture@.captured, lines_to_buffer),
                0 <= cut <= capture@.captured.len() <= cut + BUFFER_SIZE,
                !budget_spent(capture@.captured.take(cut), lines_to_buffer),
                reader.content() matches Some(all) ==> capture@.ended ==> capture@.captured
                    == all,
            decreases usize::MAX - capture@.captured.len(),
        {
            let ghost rest = inner.source().content();
            let n = match inner.read(chunk.as_mut_slice()) {
                Ok(n) => n,
                Err(failure) => {
                    return Err(failure);
                },
            };
            let ghost before = capture@.captured;
            proof {
                cut = before.len() as int;
            }
            let complete = capture.absorb(slice_subrange(chunk.as_slice(), 0, n));
            proof {
                assert(capture@.captured.take(cut) =~= before);
                assert(n == 0 ==> capture@.captured =~= before);
                if let Some(all) = reader.content() {
                    let left = rest->0;
                    assert(chunk@.subrange(0, n as int) =~= left.take(n as int));
                    assert(capture@.captured =~= all.take(cut + n));
                    assert(left.skip(n as int) =~= all.skip(cut + n));
                    assert(n == 0 ==> capture@.captured =~= all);
                }
            }
            if complete {
                break ;
            }
        }
        let ended = capture.is_source_ended();
        let made = SeekableReader { inner, prefix: capture.finish(), ended };
        proof {
            assert(!budget_spent(made@.captured.take(cut), lines_to_buffer));
            assert(ends_with_last_chunk(made@.captured, lines_to_buffer));
        }
        Ok(made)
    }
}

impl<R: ByteSource> SeekRead for SeekableReader<R> {
    type Error = R::Error;

    open spec fn prefix(&self) -> PrefixState {
        self@
    }

    /// Reads from the captured bytes, and leaves the stream alone; or, with the cursor at
    /// their end, reads from the stream and hands its result on as it is. Where the stream
    /// knows its content, that read succeeds and brings the next bytes of it.
    fn read(&mut self, buf: &mut [u8]) -> (read: Result<usize, R::Error>)
        ensures
            final(self).source_ended() == old(self).source_ended(),
            old(self)@.serves_from_prefix() ==> final(self).source() == old(self).source(),
            !old(self)@.serves_from_prefix() ==> match read {
                Ok(n) => {
                    &&& final(self).source().handed_out() == old(self).source().handed_out()
                        + final(buf)@.take(n as int)
                    &&& final(self).source().has_ended() == (old(self).source().has_ended() || (n
                        == 0 && old(buf)@.len() > 0))
                },
                Err(_) => {
                    &&& final(self).source().handed_out() == old(self).source().handed_out()
                    &&& final(self).source().has_ended() == old(self).source().has_ended()
                },
            },
            !old(self)@.serves_from_prefix() ==> (old(self).source().source().content() matches Some(
                rest,
            ) ==> hands_out(
                rest,
                old(buf)@,
                final(buf)@,
                read,
                final(self).source().source().content(),
            )),
    {
        match self.prefix.read(buf) {
            Some(n) => Ok(n),
            None => self.inner.read(buf),
        }
    }

    /// Moves the cursor. The stream is not touched.
    fn seek(&mut self, pos: SeekFrom) -> (moved: Result<u64, StreamSeekError>)
        ensures
            final(self).source() == old(self).source(),
            final(self).source_ended() == old(self).source_ended(),
    {
        self.prefix.seek(pos)
    }

    /// Moves the cursor back to the start. The stream is not touched.
    fn rewind(&mut self) -> (moved: Result<(), StreamSeekError>)
        ensures
            final(self).source() == old(self).source(),
            final(self).source_ended() == old(self).source_ended(),
    {
        match self.prefix.seek(SeekFrom::Start(0)) {
            Ok(_) => Ok(()),
            Err(refused) => Err(refused),
        }
    }
}

} // verus!
