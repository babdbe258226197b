//! What a prefix buffer is, in specifications: the captured bytes, a cursor and the
//! seekability flag, with the effect of a seek and of a read on them.

use vstd::prelude::*;

verus! {

/// A place to seek to. Only the first two can be reached.
#[derive(Clone, Copy, Debug, PartialEq, Eq, Structural)]
pub enum SeekFrom {
    /// The given offset from the start of the stream.
    Start(u64),
    /// The given distance from the end of the stream. The end of the stream is not known,
    /// so such a seek always fails.
    End(i64),
    /// The given distance from the cursor, forwards or backwards.
    Current(i64),
}

/// A seek that was refused: the place asked for, the length of the captured prefix, and
/// whether seeking was still possible at all.
#[derive(Clone, Copy, Debug, PartialEq, Eq, Structural)]
pub struct StreamSeekError {
    pub target: SeekFrom,
    pub captured_len: usize,
    pub seekable: bool,
}

/// The state of a prefix buffer.
pub struct PrefixState {
    /// The bytes captured from the start of the stream.
    pub captured: Seq<u8>,
    /// The offset of the next byte to hand out, while it lies in the captured bytes.
    pub cursor: nat,
    /// True until a read has gone past the captured bytes.
    pub seekable: bool,
}

impl PrefixState {
    /// The state after a capture: the cursor at the start, seeking possible.
    pub open spec fn fresh(captured: Seq<u8>) -> PrefixState {
        PrefixState { captured, cursor: 0, seekable: true }
    }

    /// The cursor never lies behind the end of the captured bytes.
    pub open spec fn wf(self) -> bool {
        self.cursor <= self.captured.len()
    }

    /// The offset that a seek moves the cursor to, or `None` where the seek is refused.
    /// A seek is granted while seeking is possible, to an offset from the start or a
    /// distance from the cursor that leads to one of the captured bytes.
    pub open spec fn seek_target(self, pos: SeekFrom) -> Option<nat> {
        if !self.seekable {
            None
        } else {
            match pos {
                SeekFrom::Start(offset) => if offset < self.captured.len() {
                    Some(offset as nat)
                } else {
                    None
                },
                SeekFrom::Current(distance) => if 0 <= self.cursor + distance
                    < self.captured.len() {
                    Some((self.cursor + distance) as nat)
                } else {
                    None
                },
                SeekFrom::End(_) => None,
            }
        }
    }

    /// The state after a seek: the cursor at the target, or nothing changed where the seek
    /// is refused.
    pub open spec fn after_seek(self, pos: SeekFrom) -> PrefixState {
        match self.seek_target(pos) {
            Some(target) => PrefixState { cursor: target, ..self },
            None => self,
        }
    }

    /// The error that a refused seek reports.
    pub open spec fn seek_error(self, pos: SeekFrom) -> StreamSeekError {
        StreamSeekError {
            target: pos,
            captured_len: self.captured.len() as usize,
            seekable: self.seekable,
        }
    }

    /// True while a read is served from the captured bytes: the cursor lies before their
    /// end.
    pub open spec fn serves_from_prefix(self) -> bool {
        self.cursor < self.captured.len()
    }

    /// The number of bytes that a read into a buffer of `want` bytes takes from the
    /// captured bytes: as many as are asked for, or those that are left.
    pub open spec fn read_len(self, want: nat) -> nat {
        if !self.serves_from_prefix() {
            0
        } else if want <= self.captured.len() - self.cursor {
            want
        } else {
            (self.captured.len() - self.cursor) as nat
        }
    }

    /// The bytes that a read into a buffer of `want` bytes takes from the captured bytes.
    pub open spec fn read_bytes(self, want: nat) -> Seq<u8> {
        self.captured.subrange(self.cursor as int, (self.cursor + self.read_len(want)) as int)
    }

    /// The state after a read into a buffer of `want` bytes. Served from the captured
    /// bytes, it moves the cursor. Else it goes to the source, and seeking is over.
    pub open spec fn after_read(self, want: nat) -> PrefixState {
        if self.serves_from_prefix() {
            PrefixState { cursor: self.cursor + self.read_len(want), ..self }
        } else {
            PrefixState { seekable: false, ..self }
        }
    }

    /// The state after a run of reads into buffers of the given sizes.
    pub open spec fn after_reads(self, wants: Seq<nat>) -> PrefixState
        decreases wants.len(),
    {
        if wants.len() == 0 {
            self
        } else {
            self.after_reads(wants.drop_last()).after_read(wants.last())
        }
    }

    /// The bytes that a run of reads takes from the captured bytes, one read after the
    /// other.
    pub open spec fn bytes_of_reads(self, wants: Seq<nat>) -> Seq<u8>
        decreases wants.len(),
    {
        if wants.len() == 0 {
            Seq::empty()
        } else {
            self.bytes_of_reads(wants.drop_last()) + self.after_reads(
                wants.drop_last(),
            ).read_bytes(wants.last())
        }
    }

    /// The state after a step: a read or a seek.
    pub open spec fn after_step(self, step: Step) -> PrefixState {
        match step {
            Step::Read(want) => self.after_read(want),
            Step::Seek(pos) => self.after_seek(pos),
        }
    }

    /// The state after a run of steps.
    pub open spec fn after_steps(self, steps: Seq<Step>) -> PrefixState
        decreases steps.len(),
    {
        if steps.len() == 0 {
            self
        } else {
            self.after_steps(steps.drop_last()).after_step(steps.last())
        }
    }
}

/// One use of a prefix buffer.
pub enum Step {
    /// A read into a buffer of the given size.
    Read(nat),
    /// A seek to the given place.
    Seek(SeekFrom),
}

/// Reads and seeks keep the cursor inside the captured bytes, and leave these as they are.
pub proof fn lemma_steps_keep_capture(state: PrefixState, steps: Seq<Step>)
    requires
        state.wf(),
    ensures
        state.after_steps(steps).wf(),
        state.after_steps(steps).captured == state.captured,
    decreases steps.len(),
{
    if steps.len() > 0 {
        lemma_steps_keep_capture(state, steps.drop_last());
    }
}

/// Reads hand out the captured bytes in order, without a gap and without a repetition:
/// a run of reads takes the bytes from where the cursor stood to where it stands then.
pub proof fn lemma_reads_follow_capture(state: PrefixState, wants: Seq<nat>)
    requires
        state.wf(),
    ensures
        state.after_reads(wants).wf(),
        state.after_reads(wants).captured == state.captured,
        state.cursor <= state.after_reads(wants).cursor,
        state.bytes_of_reads(wants) == state.captured.subrange(
            state.cursor as int,
            state.after_reads(wants).cursor as int,
        ),
    decreases wants.len(),
{
    if wants.len() > 0 {
        lemma_reads_follow_capture(state, wants.drop_last());
        let before = state.after_reads(wants.drop_last());
        assert(state.bytes_of_reads(wants) =~= state.captured.subrange(
            state.cursor as int,
            state.after_reads(wants).cursor as int,
        ));
    } else {
        assert(state.bytes_of_reads(wants) =~= state.captured.subrange(
            state.cursor as int,
            state.cursor as int,
        ));
    }
}

/// After a seek to the start, a read of no more bytes than were captured hands out the
/// first bytes of the capture, all that were asked for. The capture must hold a byte, or
/// the seek is refused.
pub proof fn lemma_rewind_then_read(state: PrefixState, want: nat)
    requires
        state.seekable,
        0 < state.captured.len(),
        want <= state.captured.len(),
    ensures
        state.seek_target(SeekFrom::Start(0)) == Some(0nat),
        state.after_seek(SeekFrom::Start(0)).read_len(want) == want,
        state.after_seek(SeekFrom::Start(0)).read_bytes(want) == state.captured.take(want as int),
{
}

/// A seek to an offset at or behind the end of the captured bytes is refused, from the
/// start or from the cursor, and so is every seek from the end. A refused seek changes
/// nothing.
pub proof fn lemma_seek_outside_capture_fails(state: PrefixState, pos: SeekFrom)
    requires
        match pos {
            SeekFrom::Start(offset) => offset >= state.captured.len(),
            SeekFrom::Current(distance) => state.cursor + distance >= state.captured.len(),
            SeekFrom::End(_) => true,
        },
    ensures
        state.seek_target(pos) is None,
        state.after_seek(pos) == state,
{
}

/// Once a read has gone past the captured bytes, every seek is refused, whatever reads and
/// seeks come between, and also a seek to the start.
pub proof fn lemma_seeking_ends_for_good(
    state: PrefixState,
    want: nat,
    steps: Seq<Step>,
    pos: SeekFrom,
)
    requires
        !state.serves_from_prefix(),
    ensures
        !state.after_read(want).after_steps(steps).seekable,
        state.after_read(want).after_steps(steps).seek_target(pos) is None,
    decreases steps.len(),
{
    if steps.len() > 0 {
        lemma_seeking_ends_for_good(state, want, steps.drop_last(), pos);
    }
}

} // verus!
