//! The bytes that have arrived and are not yet read as frames.
//!
//! A byte stream hands its bytes over in pieces of any size: one frame may
//! come in several reads, and one read may bring the end of a frame and the
//! start of the next. The buffer collects what arrives and gives out frames
//! of the configured size, each as soon as it is complete.

use vstd::prelude::*;
use crate::frame::append;

verus! {

/// The bytes received and not yet handed out, for frames of one size.
#[derive(Debug)]
pub struct FrameBuffer {
    frame_size: usize,
    pending: Vec<u8>,
}

impl View for FrameBuffer {
    type V = Seq<u8>;

    /// The bytes received and not yet handed out, oldest first.
    closed spec fn view(&self) -> Seq<u8> {
        self.pending@
    }
}

impl FrameBuffer {
    /// The size of the frames that the buffer gives out.
    pub closed spec fn frame_len(&self) -> nat {
        self.frame_size as nat
    }

    /// An empty buffer for frames of `frame_size` bytes.
    pub fn new(frame_size: usize) -> (buffer: FrameBuffer)
        ensures
            buffer@ == Seq::<u8>::empty(),
            buffer.frame_len() == frame_size,
    {
        FrameBuffer { frame_size, pending: Vec::new() }
    }

    /// The size of the frames that the buffer gives out.
    pub fn frame_size(&self) -> (size: usize)
        ensures
            size == self.frame_len(),
    {
        self.frame_size
    }

    /// The number of bytes received and not yet handed out.
    pub fn len(&self) -> (len: usize)
        ensures
            len == self@.len(),
    {
        self.pending.len()
    }

    /// Takes in the bytes of one read, which may be none.
    pub fn push(&mut self, bytes: &[u8])
        ensures
            final(self)@ == old(self)@ + bytes@,
            final(self).frame_len() == old(self).frame_len(),
    {
        append(&mut self.pending, bytes);
    }

    /// Hands out the oldest frame if all its bytes have arrived; what came
    /// after it stays for the next call.
    pub fn take_frame(&mut self) -> (frame: Option<Vec<u8>>)
        ensures
            final(self).frame_len() == old(self).frame_len(),
            match frame {
                Some(frame) => {
                    &&& old(self)@.len() >= old(self).frame_len()
                    &&& frame@ == old(self)@.take(old(self).frame_len() as int)
                    &&& final(self)@ == old(self)@.skip(old(self).frame_len() as int)
                },
                None => {
                    &&& old(self)@.len() < old(self).frame_len()
                    &&& final(self)@ == old(self)@
                },
            },
    {
        if self.pending.len() < self.frame_size {
            return None;
        }
        let mut rest = self.pending.split_off(self.frame_size);
        core::mem::swap(&mut self.pending, &mut rest);
        assert(rest@ =~= old(self)@.take(old(self).frame_len() as int));
        assert(self.pending@ =~= old(self)@.skip(old(self).frame_len() as int));
        Some(rest)
    }
}

} // verus!
