use vstd::prelude::*;
use crate::message::{frame, has_frame, unwrap_size, variant_bytes, variant_of, wrap_size, FrameError, Request, Response};
use crate::bytes::from_be64;

verus! {

/// The frame codec of a client: it reads responses and writes requests.
pub struct RemnantCodec;

impl RemnantCodec {
    /// Appends the frame of `item` to `dst`.
    pub fn encode(&mut self, item: Request, dst: &mut Vec<u8>)
        ensures
            final(dst)@ == old(dst)@ + frame(variant_bytes(item.index())),
    {
        let b = item.to_bytes();
        wrap_size(b.as_slice(), dst);
    }

    /// The next response in `src`, taking its frame off; `Ok(None)` while no
    /// whole frame has arrived. A frame of length zero is the default response.
    pub fn decode(&mut self, src: &mut Vec<u8>) -> (r: Result<Option<Response>, FrameError>)
        ensures
            !has_frame(old(src)@) ==> r == Ok::<Option<Response>, FrameError>(None)
                && final(src)@ == old(src)@,
            has_frame(old(src)@) ==> ({
                let end = 8 + from_be64(old(src)@);
                let p = old(src)@.subrange(8, end);
                &&& final(src)@ == old(src)@.subrange(end, old(src)@.len() as int)
                &&& p.len() == 0 ==> r == Ok::<Option<Response>, FrameError>(Some(Response::Empty))
                &&& p.len() != 0 ==> match variant_of(p, 2) {
                    Some(i) => (r matches Ok(Some(q)) && q.index() == i),
                    None => r == Err::<Option<Response>, FrameError>(FrameError::Invalid),
                }
            }),
    {
        match unwrap_size(src) {
            None => Ok(None),
            Some(p) => match Response::from_bytes(p.as_slice()) {
                Some(q) => Ok(Some(q)),
                None => Err(FrameError::Invalid),
            },
        }
    }
}

} // verus!
