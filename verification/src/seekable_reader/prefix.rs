//! The captured prefix of a stream, with its cursor: reads and seeks inside it.

use crate::seekable_reader::state::{PrefixState, SeekFrom, StreamSeekError};
use vstd::prelude::*;

verus! {

/// The first bytes of a stream, kept in memory, and a cursor into them.
///
/// Reads are served from these bytes until the cursor has reached their end. The read after
/// that is not served: it tells the caller to go to the stream itself, and from then on no
/// seek is granted.
#[derive(Debug)]
pub struct PrefixBuffer {
    buffer: Vec<u8>,
    pos: usize,
    seekable: bool,
}

impl View for PrefixBuffer {
    type V = PrefixState;

    closed spec fn view(&self) -> PrefixState {
        PrefixState { captured: self.buffer@, cursor: self.pos as nat, seekable: self.seekable }
    }
}

impl PrefixBuffer {
    #[verifier::type_invariant]
    spec fn cursor_in_capture(self) -> bool {
        self.pos <= self.buffer@.len()
    }

    /// Takes the captured bytes, and puts the cursor at their start.
    pub fn new(captured: Vec<u8>) -> (prefix: PrefixBuffer)
        ensures
            prefix@ == PrefixState::fresh(captured@),
    {
        PrefixBuffer { buffer: captured, pos: 0, seekable: true }
    }

    /// The captured bytes.
    pub fn captured(&self) -> (bytes: &[u8])
        ensures
            bytes@ == self@.captured,
    {
        self.buffer.as_slice()
    }

    /// The number of captured bytes, which bounds every seek.
    pub fn captured_len(&self) -> (len: usize)
        ensures
            len == self@.captured.len(),
    {
        self.buffer.len()
    }

    /// The offset of the cursor.
    pub fn position(&self) -> (offset: usize)
        ensures
            offset == self@.cursor,
            self@.wf(),
    {
        proof {
            use_type_invariant(self);
        }
        self.pos
    }

    /// Tells whether a seek can still be granted.
    pub fn is_seekable(&self) -> (seekable: bool)
        ensures
            seekable == self@.seekable,
    {
        self.seekable
    }

    /// Moves the cursor to `pos`, and returns its new offset from the start.
    ///
    /// The seek is granted while no read has gone past the captured bytes, and only to one
    /// of these bytes. A refused seek changes nothing.
    pub fn seek(&mut self, pos: SeekFrom) -> (moved: Result<u64, StreamSeekError>)
        ensures
            final(self)@ == old(self)@.after_seek(pos),
            match moved {
                Ok(offset) => old(self)@.seek_target(pos) == Some(offset as nat),
                Err(refused) => old(self)@.seek_target(pos) is None && refused == old(
                    self,
                )@.seek_error(pos),
            },
    {
        proof {
            use_type_invariant(&*self);
        }
        let len = self.buffer.len();
        let refused = StreamSeekError { target: pos, captured_len: len, seekable: self.seekable };
        if !self.seekable {
            return Err(refused);
        }
        match pos {
            SeekFrom::Start(offset) => {
                if offset < len as u64 {
                    self.pos = offset as usize;
                    Ok(offset)
                } else {
                    Err(refused)
                }
            },
            SeekFrom::Current(distance) => {
                let target: i128 = self.pos as i128 + distance as i128;
                if 0 <= target && target < len as i128 {
                    self.pos = target as usize;
                    Ok(target as u64)
                } else {
                    Err(refused)
                }
            },
            SeekFrom::End(_) => Err(refused),
        }
    }

    /// Reads into `buf` from the captured bytes, and returns how many bytes it wrote to the
    /// start of `buf`: as many as `buf` takes, or those that are left.
    ///
    /// With the cursor at the end of the captured bytes the read is not served: the result
    /// is `None`, `buf` is left as it is, and seeking is over. The caller then reads from
    /// the stream itself.
    pub fn read(&mut self, buf: &mut [u8]) -> (served: Option<usize>)
        ensures
            final(self)@ == old(self)@.after_read(old(buf)@.len()),
            final(buf)@.len() == old(buf)@.len(),
            match served {
                Some(n) => old(self)@.serves_from_prefix() && n == old(self)@.read_len(
                    old(buf)@.len(),
                ) && final(buf)@ == old(self)@.read_bytes(old(buf)@.len()) + old(buf)@.skip(
                    n as int,
                ),
                None => !old(self)@.serves_from_prefix() && final(buf)@ == old(buf)@,
            },
    {
        proof {
            use_type_invariant(&*self);
        }
        let len = self.buffer.len();
        if self.pos >= len {
            self.seekable = false;
            return None;
        }
        let left = len - self.pos;
        let n = if buf.len() <= left {
            buf.len()
        } else {
            left
        };
        let start = self.pos;
        let mut i: usize = 0;
        while i < n
            invariant
                i <= n,
                n <= buf@.len(),
                start + n <= len,
                len == self.buffer@.len(),
                buf@.len() == old(buf)@.len(),
                forall|k: int| 0 <= k < i ==> buf@[k] == self.buffer@[start + k],
                forall|k: int| i <= k < buf@.len() ==> buf@[k] == old(buf)@[k],
            decreases n - i,
        {
            buf[i] = self.buffer[start + i];
            i = i + 1;
        }
        self.pos = start + n;
        proof {
            assert(buf@ =~= self.buffer@.subrange(start as int, start + n) + old(buf)@.skip(
                n as int,
            ));
        }
        Some(n)
    }
}

} // verus!
