//! Byte sources: what a stream must offer to be read, and a source in memory.

use core::convert::Infallible;
use vstd::prelude::*;

verus! {

/// What a read does on a source that knows its content `rest`: it succeeds, writes the next
/// bytes of `rest` to the start of the buffer and leaves the others in the content. It
/// brings at least one byte, unless `rest` has none or the buffer has no room.
pub open spec fn hands_out<E>(
    rest: Seq<u8>,
    buf_before: Seq<u8>,
    buf_after: Seq<u8>,
    read: Result<usize, E>,
    content_after: Option<Seq<u8>>,
) -> bool {
    &&& read matches Ok(n)
    &&& n <= rest.len()
    &&& n <= buf_before.len()
    &&& buf_after == rest.take(n as int) + buf_before.skip(n as int)
    &&& content_after == Some(rest.skip(n as int))
    &&& n == 0 ==> rest.len() == 0 || buf_before.len() == 0
}

/// A stream of bytes that is read from its start to its end, once.
pub trait ByteSource {
    /// What a failed read reports.
    type Error;

    /// The bytes that the source has yet to hand out, where it knows them, as a source in
    /// memory does. A source that reads from outside knows nothing of them.
    open spec fn content(&self) -> Option<Seq<u8>> {
        None
    }

    /// Reads the next bytes of the stream into the start of `buf`, and returns how many
    /// there were. A result of zero on a buffer that is not empty tells that the stream
    /// has ended.
    ///
    /// A source that knows its content does not fail: it hands out the next bytes of the
    /// content, at least one while there is one and `buf` has room.
    fn read(&mut self, buf: &mut [u8]) -> (read: Result<usize, Self::Error>)
        ensures
            final(buf)@.len() == old(buf)@.len(),
            read matches Ok(n) ==> n <= old(buf)@.len(),
            old(self).content() matches Some(rest) ==> hands_out(
                rest,
                old(buf)@,
                final(buf)@,
                read,
                final(self).content(),
            ),
    ;
}

/// A byte source with a record of what it has handed out.
///
/// The record is kept in specifications only. It lets a contract say which bytes came from
/// the stream, and whether the stream has ended.
pub struct Traced<R> {
    inner: R,
    handed: Ghost<Seq<u8>>,
    ended: Ghost<bool>,
}

impl<R> Traced<R> {
    /// The source itself.
    pub closed spec fn source(&self) -> R {
        self.inner
    }

    /// Every byte that the source has handed out since the record began, in the order of
    /// the stream.
    pub closed spec fn handed_out(&self) -> Seq<u8> {
        self.handed@
    }

    /// True once a read into a buffer with room has brought no byte: the stream has ended.
    pub closed spec fn has_ended(&self) -> bool {
        self.ended@
    }

    /// Begins a record for `source`.
    pub fn new(source: R) -> (traced: Traced<R>)
        ensures
            traced.source() == source,
            traced.handed_out() == Seq::<u8>::empty(),
            !traced.has_ended(),
    {
        Traced { inner: source, handed: Ghost(Seq::empty()), ended: Ghost(false) }
    }
}

impl<R: ByteSource> Traced<R> {
    /// Reads from the source, hands on what it gives, and records the bytes that came.
    /// Where the source knows its content, the read succeeds and brings the next bytes of
    /// it.
    pub fn read(&mut self, buf: &mut [u8]) -> (read: Result<usize, R::Error>)
        ensures
            final(buf)@.len() == old(buf)@.len(),
            match read {
                Ok(n) => {
                    &&& n <= old(buf)@.len()
                    &&& final(self).handed_out() == old(self).handed_out() + final(buf)@.take(
                        n as int,
                    )
                    &&& final(self).has_ended() == (old(self).has_ended() || (n == 0 && old(
                        buf,
                    )@.len() > 0))
                },
                Err(_) => {
                    &&& final(self).handed_out() == old(self).handed_out()
                    &&& final(self).has_ended() == old(self).has_ended()
                },
            },
            old(self).source().content() matches Some(rest) ==> hands_out(
                rest,
                old(buf)@,
                final(buf)@,
                read,
                final(self).source().content(),
            ),
    {
        let read = self.inner.read(buf);
        proof {
            if let Ok(n) = read {
                self.handed@ = self.handed@ + buf@.take(n as int);
                self.ended@ = self.ended@ || (n == 0 && buf@.len() > 0);
            }
        }
        read
    }
}

/// A byte source that hands out bytes held in memory, no more than a given number of them
/// in one read.
#[derive(Debug)]
pub struct MemorySource {
    data: Vec<u8>,
    pos: usize,
    max_read: usize,
}

impl MemorySource {
    #[verifier::type_invariant]
    spec fn cursor_in_data(self) -> bool {
        self.pos <= self.data@.len()
    }

    /// The bytes that the source has yet to hand out.
    pub closed spec fn remaining(&self) -> Seq<u8> {
        self.data@.skip(self.pos as int)
    }

    /// The largest number of bytes that one read hands out.
    pub closed spec fn max_read(&self) -> nat {
        self.max_read as nat
    }

    /// A source that hands out `data`, as much in one read as the buffer takes.
    pub fn new(data: Vec<u8>) -> (source: MemorySource)
        ensures
            source.remaining() == data@,
            source.max_read() == usize::MAX,
            source.content() == Some(data@),
    {
        MemorySource { data, pos: 0, max_read: usize::MAX }
    }

    /// A source that hands out `data`, at most `max_read` bytes in one read.
    pub fn with_max_read(data: Vec<u8>, max_read: usize) -> (source: MemorySource)
        ensures
            source.remaining() == data@,
            source.max_read() == max_read,
    {
        MemorySource { data, pos: 0, max_read }
    }

    /// The number of bytes that a read into a buffer of `want` bytes hands out.
    pub open spec fn read_len(&self, want: nat) -> nat {
        let most = if want <= self.max_read() {
            want
        } else {
            self.max_read()
        };
        if most <= self.remaining().len() {
            most
        } else {
            self.remaining().len()
        }
    }
}

impl ByteSource for MemorySource {
    type Error = Infallible;

    /// What is left of the bytes in memory, for a source that hands out at least one byte
    /// in a read.
    open spec fn content(&self) -> Option<Seq<u8>> {
        if self.max_read() > 0 {
            Some(self.remaining())
        } else {
            None
        }
    }

    /// Hands out the next bytes: as many as `buf` takes and as one read may hand out, or
    /// those that are left.
    fn read(&mut self, buf: &mut [u8]) -> (read: Result<usize, Infallible>)
        ensures
            read matches Ok(n) && n == old(self).read_len(old(buf)@.len()),
            read matches Ok(n) ==> final(buf)@ == old(self).remaining().take(n as int) + old(
                buf,
            )@.skip(n as int),
            read matches Ok(n) ==> final(self).remaining() == old(self).remaining().skip(n as int),
            final(self).max_read() == old(self).max_read(),
    {
        proof {
            use_type_invariant(&*self);
        }
        let len = self.data.len();
        let left = len - self.pos;
        let most = if buf.len() <= self.max_read {
            buf.len()
        } else {
            self.max_read
        };
        let n = if most <= left {
            most
        } else {
            left
        };
        let start = self.pos;
        let mut i: usize = 0;
        while i < n
            invariant
                i <= n,
                n <= buf@.len(),
                start + n <= len,
                len == self.data@.len(),
                buf@.len() == old(buf)@.len(),
                forall|k: int| 0 <= k < i ==> buf@[k] == self.data@[start + k],
                forall|k: int| i <= k < buf@.len() ==> buf@[k] == old(buf)@[k],
            decreases n - i,
        {
            buf[i] = self.data[start + i];
            i = i + 1;
        }
        self.pos = start + n;
        proof {
            assert(buf@ =~= old(self).remaining().take(n as int) + old(buf)@.skip(n as int));
            assert(self.remaining() =~= old(self).remaining().skip(n as int));
        }
        Ok(n)
    }
}

} // verus!
