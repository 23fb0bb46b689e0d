//! Small shared utilities.

use vstd::prelude::*;
use vstd::slice::slice_subrange;
use vstd::string::StringSliceAdditionalSpecFns;

verus! {

/// A default value, by type inference at the call site.
pub fn default<T: Default>() -> T {
    T::default()
}

/// The three trailing period bytes that mark a truncated buffer.
pub open spec fn ellipsis_bytes() -> Seq<u8> {
    seq![46u8, 46u8, 46u8]
}

/// What one write leaves in a capacity-bounded buffer: everything, when it
/// fits with room to spare; otherwise the buffer is filled to capacity and
/// its last three bytes are replaced by `...`.
pub open spec fn bounded_write_spec(buf: Seq<u8>, s: Seq<u8>, cap: int) -> Seq<u8> {
    if s.len() < cap - buf.len() {
        buf + s
    } else {
        (buf + s).take(cap - 3) + ellipsis_bytes()
    }
}

/// A formatting buffer limited to `CAP` bytes. Unlike a fixed array that
/// reports an error on overflow, it silently truncates: once exhausted, the
/// last three bytes of the content read `...`.
pub struct LimitedFormatter<const CAP: usize> {
    buf: Vec<u8>,
}

impl<const CAP: usize> LimitedFormatter<CAP> {
    /// The bytes written so far.
    pub closed spec fn view(self) -> Seq<u8> {
        self.buf@
    }

    /// The content never exceeds the capacity.
    pub open spec fn wf(self) -> bool {
        self.view().len() <= CAP
    }

    pub fn new() -> (r: LimitedFormatter<CAP>)
        ensures
            r.wf(),
            r@ == Seq::<u8>::empty(),
    {
        LimitedFormatter { buf: Vec::new() }
    }

    /// Append a string's bytes, truncating at capacity with an `...` mark.
    pub fn write_str(&mut self, s: &str)
        requires
            old(self).wf(),
            CAP >= 3,
        ensures
            final(self).wf(),
            final(self)@ == bounded_write_spec(old(self)@, s.spec_bytes(), CAP as int),
    {
        let bytes = s.as_bytes();
        let rem = CAP - self.buf.len();
        if bytes.len() < rem {
            self.buf.extend_from_slice(bytes);
            proof {
                assert(self.buf@ =~= bounded_write_spec(old(self)@, s.spec_bytes(), CAP as int));
            }
        } else {
            let take = if rem < bytes.len() {
                rem
            } else {
                bytes.len()
            };
            self.buf.extend_from_slice(slice_subrange(bytes, 0, take));
            self.buf.truncate(CAP - 3);
            self.buf.push(46);
            self.buf.push(46);
            self.buf.push(46);
            proof {
                assert(self.buf@ =~= bounded_write_spec(old(self)@, s.spec_bytes(), CAP as int));
            }
        }
    }

    /// The written content, capped at `CAP` bytes.
    pub fn as_bytes(&self) -> (r: &Vec<u8>)
        ensures
            r@ == self@,
    {
        &self.buf
    }
}

} // verus!
