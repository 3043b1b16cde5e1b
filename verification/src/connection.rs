use vstd::prelude::*;

use crate::error::Error;
use crate::msg::{FrameCheck, FrameMsg};
use core::marker::PhantomData;

verus! {

/// A streaming frame assembler for one direction of a connection.
///
/// Bytes arrive in arbitrary chunks through `feed`; `parse_frame` yields
/// complete frames one at a time, tolerating frames split across reads. A
/// cursor marks the bytes already consumed, and the buffer is released as
/// soon as every buffered byte has been consumed, bounding memory to the
/// largest in-flight frame. The view of a `Connection` is its unconsumed
/// byte sequence.
#[derive(Debug)]
pub struct Connection<T: FrameMsg> {
    buffer: Vec<u8>,
    cursor: usize,
    marker: PhantomData<T>,
}

impl<T: FrameMsg> View for Connection<T> {
    type V = Seq<u8>;

    closed spec fn view(&self) -> Seq<u8> {
        self.buffer@.skip(self.cursor as int)
    }
}

impl<T: FrameMsg> Connection<T> {
    /// The cursor never runs past the buffered bytes.
    pub closed spec fn wf(&self) -> bool {
        self.cursor <= self.buffer@.len()
    }

    /// A fresh assembler holding no bytes.
    pub fn new() -> (c: Self)
        ensures
            c.wf(),
            c@ == Seq::<u8>::empty(),
    {
        let c = Connection { buffer: Vec::new(), cursor: 0, marker: PhantomData };
        proof {
            assert(c@ =~= Seq::<u8>::empty());
        }
        c
    }

    /// Releases every buffered byte, consumed or not.
    pub fn clear(&mut self)
        ensures
            final(self).wf(),
            final(self)@ == Seq::<u8>::empty(),
    {
        self.buffer.clear();
        self.cursor = 0;
        proof {
            assert(self@ =~= Seq::<u8>::empty());
        }
    }

    /// Appends bytes read from the transport to the unconsumed tail.
    pub fn feed(&mut self, data: &[u8])
        requires
            old(self).wf(),
        ensures
            final(self).wf(),
            final(self)@ == old(self)@ + data@,
    {
        self.buffer.extend_from_slice(data);
        proof {
            assert(self@ =~= old(self)@ + data@);
        }
    }

    /// Attempts to decode one frame from the unconsumed bytes.
    ///
    /// A complete leading frame is consumed and returned; bytes that do not
    /// yet hold a whole frame are kept untouched, to be retried from the
    /// same position after more input arrives; an unrecognized leading tag
    /// is a fatal error that consumes nothing.
    pub fn parse_frame(&mut self) -> (r: Result<Option<T>, Error>)
        requires
            old(self).wf(),
        ensures
            final(self).wf(),
            match T::spec_check(old(self)@) {
                FrameCheck::Ready(n) => {
                    &&& r matches Ok(Some(f)) && f@ == T::spec_parse(old(self)@)
                    &&& final(self)@ == old(self)@.skip(n)
                },
                FrameCheck::Incomplete => r == Ok::<Option<T>, Error>(None) && final(self)@
                    == old(self)@,
                FrameCheck::Invalid(b) => r == Err::<Option<T>, Error>(Error::Invalid(b))
                    && final(self)@ == old(self)@,
            },
    {
        let ghost s = self@;
        let mut p: usize = self.cursor;
        match T::check(self.buffer.as_slice(), &mut p) {
            Ok(()) => {
                proof {
                    T::lemma_ready_bounds(s);
                }
                let mut q: usize = self.cursor;
                let f = T::parse(self.buffer.as_slice(), &mut q);
                self.cursor = q;
                proof {
                    match T::spec_check(s) {
                        FrameCheck::Ready(n) => {
                            assert(self.buffer@.skip(q as int) =~= s.skip(n));
                        },
                        _ => {},
                    }
                }
                if self.cursor == self.buffer.len() {
                    self.clear();
                    proof {
                        match T::spec_check(s) {
                            FrameCheck::Ready(n) => {
                                assert(self@ =~= s.skip(n));
                            },
                            _ => {},
                        }
                    }
                }
                Ok(Some(f))
            },
            Err(Error::Incomplete) => Ok(None),
            Err(e) => Err(e),
        }
    }
}

} // verus!
