//! Room for an outgoing frame.

use vstd::prelude::*;
use vstd::slice::slice_subrange;

verus! {

/// Somewhere to build an outgoing frame in a fixed amount of room.
#[derive(Debug)]
pub struct FrameWriter<const N: usize> {
    bytes: [u8; N],
    len: usize,
    /// Running out of room is not reported where it happens, so it is recorded
    /// here and checked once the frame is built.
    overflowed: bool,
}

/// What a [`FrameWriter`] holds.
pub struct FrameWriterView {
    /// The bytes written so far, as far as there was room for them.
    pub written: Seq<u8>,
    /// Whether there was not enough room.
    pub overflowed: bool,
}

impl<const N: usize> View for FrameWriter<N> {
    type V = FrameWriterView;

    closed spec fn view(&self) -> FrameWriterView {
        FrameWriterView {
            written: self.bytes@.take(self.len as int),
            overflowed: self.overflowed,
        }
    }
}

impl<const N: usize> FrameWriter<N> {
    /// What was written lies inside the room.
    pub closed spec fn wf(self) -> bool {
        self.len <= N
    }

    /// A writer that holds nothing.
    pub fn new() -> (writer: Self)
        ensures
            writer.wf(),
            writer@ == (FrameWriterView { written: Seq::empty(), overflowed: false }),
    {
        let writer = Self { bytes: [0; N], len: 0, overflowed: false };
        assert(writer@.written == Seq::<u8>::empty());
        writer
    }

    /// The finished frame, or `None` if it did not fit.
    pub fn frame(&self) -> (frame: Option<&[u8]>)
        requires
            self.wf(),
        ensures
            match frame {
                Some(frame) => !self@.overflowed && frame@ == self@.written,
                None => self@.overflowed,
            },
    {
        if self.overflowed {
            None
        } else {
            Some(slice_subrange(&self.bytes, 0, self.len))
        }
    }

    /// Writes `bytes` behind what has been written, as far as there is room.
    pub fn extend(&mut self, bytes: &[u8])
        requires
            old(self).wf(),
        ensures
            final(self).wf(),
            final(self)@ == if old(self)@.written.len() + bytes@.len() <= N {
                FrameWriterView { written: old(self)@.written + bytes@, ..old(self)@ }
            } else {
                FrameWriterView {
                    written: (old(self)@.written + bytes@).take(N as int),
                    overflowed: true,
                }
            },
    {
        let mut at: usize = 0;
        while at < bytes.len()
            invariant
                at <= bytes.len(),
                self.wf(),
                old(self).wf(),
                self.len == if old(self).len + at <= N {
                    old(self).len + at
                } else {
                    N as int
                },
                self.overflowed == (old(self).overflowed || old(self).len + at > N),
                self.bytes@.take(self.len as int) == (old(self)@.written + bytes@).take(
                    self.len as int,
                ),
            decreases bytes.len() - at,
        {
            let ghost before = self.bytes@;
            if self.len < N {
                self.bytes[self.len] = bytes[at];
                self.len = self.len + 1;
                assert(self.bytes@.take(self.len as int) == before.take(self.len - 1).push(
                    bytes@[at as int],
                ));
                assert((old(self)@.written + bytes@).take(self.len as int) == (old(self)@.written
                    + bytes@).take(self.len - 1).push(bytes@[at as int]));
            } else {
                self.overflowed = true;
            }
            at = at + 1;
        }
        assert(old(self).len + bytes.len() <= N ==> (old(self)@.written + bytes@).take(
            self.len as int,
        ) == old(self)@.written + bytes@);
    }
}

} // verus!
