use vstd::prelude::*;
use crate::message::{frame, has_frame, unwrap_size, variant_bytes, variant_of, wrap_size, FrameError, Request, Response};
use crate::bytes::from_be64;

verus! {

/// The frame codec of a server: it reads requests and writes responses.
pub struct RemnantCodec;

impl RemnantCodec {
    /// Appends the frame of `item` to `dst`.
    pub fn encode(&mut self, item: Response, dst: &mut Vec<u8>)
        ensures
            final(dst)@ == old(dst)@ + frame(variant_bytes(item.index())),
    {
        let b = item.to_bytes();
        wrap_size(b.as_slice(), dst);
    }

    /// The next request in `src`, taking its frame off; `Ok(None)` while no
    /// whole frame has arrived. A frame of length zero is the default request.
    pub fn decode(&mut self, src: &mut Vec<u8>) -> (r: Result<Option<Request>, FrameError>)
        ensures
            !has_frame(old(src)@) ==> r == Ok::<Option<Request>, FrameError>(None)
                && final(src)@ == old(src)@,
            has_frame(old(src)@) ==> ({
                let end = 8 + from_be64(old(src)@);
                let p = old(src)@.subrange(8, end);
                &&& final(src)@ == old(src)@.subrange(end, old(src)@.len() as int)
                &&& p.len() == 0 ==> r == Ok::<Option<Request>, FrameError>(Some(Request::Empty))
                &&& p.len() != 0 ==> match variant_of(p, 2) {
                    Some(i) => (r matches Ok(Some(q)) && q.index() == i),
                    None => r == Err::<Option<Request>, FrameError>(FrameError::Invalid),
                }
            }),
    {
        match unwrap_size(src) {
            None => Ok(None),
            Some(p) => match Request::from_bytes(p.as_slice()) {
                Some(q) => Ok(Some(q)),
                None => Err(FrameError::Invalid),
            },
        }
    }
}

/// The service a server runs: it answers each request in kind.
pub struct RemnantService;

impl RemnantService {
    pub fn call(&self, req: Request) -> (r: Response)
        ensures
            r.index() == req.index(),
    {
        match req {
            Request::Empty => Response::Empty,
            Request::Ping => Response::Ping,
        }
    }
}

} // verus!
