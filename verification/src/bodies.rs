use vstd::prelude::*;

verus! {

/// The state of a single-chunk streaming body: a handle over at most one
/// in-memory byte buffer, used for every synthesized response. The first
/// read yields the buffer as one frame; the handle is then exhausted, a
/// terminal state, and every later read signals end-of-stream.
pub struct SingleChunkBody {
    data: Option<Vec<u8>>,
}

impl SingleChunkBody {
    /// The pending chunk, or `None` once the body is exhausted.
    pub closed spec fn spec_data(&self) -> Option<Seq<u8>> {
        self.data.deep_view()
    }

    /// Wraps one byte buffer as a pending single-chunk body.
    pub fn new(data: Vec<u8>) -> (r: Self)
        ensures
            r.spec_data() == Some(data@),
    {
        Self { data: Some(data) }
    }

    /// Produces the next frame: the one chunk on the first read, then
    /// end-of-stream forever; an exhausted body stays exhausted.
    pub fn next_frame(&mut self) -> (r: Option<Vec<u8>>)
        ensures
            final(self).spec_data() is None,
            match old(self).spec_data() {
                Some(d) => r matches Some(frame) && frame@ == d,
                None => r is None,
            },
    {
        let chunk = self.data.take();
        chunk
    }

    /// Whether the body is exhausted: `false` before the single read,
    /// `true` after it.
    pub fn is_end_stream(&self) -> (r: bool)
        ensures
            r == (self.spec_data() is None),
    {
        self.data.is_none()
    }
}

} // verus!
