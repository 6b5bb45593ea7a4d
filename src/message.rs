use vstd::prelude::*;
use crate::bytes::{be64, copy_range, from_be64, push_all, push_be64, read_be64};

verus! {

/// A request from a peer.
#[derive(Clone, Copy, Debug, PartialEq, Eq)]
pub enum Request {
    Empty,
    Ping,
}

/// A response to a peer.
#[derive(Clone, Copy, Debug, PartialEq, Eq)]
pub enum Response {
    Empty,
    Ping,
}

impl Default for Request {
    fn default() -> (r: Request)
        ensures
            r == Request::Empty,
    {
        Request::Empty
    }
}

impl Default for Response {
    fn default() -> (r: Response)
        ensures
            r == Response::Empty,
    {
        Response::Empty
    }
}

/// The payload of a message whose variant has index `i`: the index as four
/// little-endian bytes.
pub open spec fn variant_bytes(i: u8) -> Seq<u8> {
    seq![i, 0u8, 0u8, 0u8]
}

/// The variant index that a payload holds, if it is one of `count` variants.
pub open spec fn variant_of(b: Seq<u8>, count: u8) -> Option<u8> {
    if b.len() == 4 && b[1] == 0 && b[2] == 0 && b[3] == 0 && b[0] < count {
        Some(b[0])
    } else {
        None
    }
}

/// The variant index of `b` among `count` variants, if it is one.
fn read_variant(b: &[u8], count: u8) -> (r: Option<u8>)
    ensures
        r == variant_of(b@, count),
{
    if b.len() == 4 && b[1] == 0 && b[2] == 0 && b[3] == 0 && b[0] < count {
        Some(b[0])
    } else {
        None
    }
}

impl Request {
    pub open spec fn index(self) -> u8 {
        match self {
            Request::Empty => 0,
            Request::Ping => 1,
        }
    }

    /// The payload of this request.
    pub fn to_bytes(&self) -> (r: Vec<u8>)
        ensures
            r@ == variant_bytes(self.index()),
    {
        let i: u8 = match self {
            Request::Empty => 0,
            Request::Ping => 1,
        };
        let r = vec![i, 0u8, 0u8, 0u8];
        assert(r@ =~= variant_bytes(self.index()));
        r
    }

    /// The request that a payload holds; an empty payload is the default.
    pub fn from_bytes(b: &[u8]) -> (r: Option<Request>)
        ensures
            b@.len() == 0 ==> r == Some(Request::Empty),
            b@.len() != 0 ==> match variant_of(b@, 2) {
                Some(i) => (r matches Some(q) && q.index() == i),
                None => r is None,
            },
    {
        if b.len() == 0 {
            return Some(Request::default());
        }
        match read_variant(b, 2) {
            Some(0) => Some(Request::Empty),
            Some(_) => Some(Request::Ping),
            None => None,
        }
    }
}

impl Response {
    pub open spec fn index(self) -> u8 {
        match self {
            Response::Empty => 0,
            Response::Ping => 1,
        }
    }

    /// The payload of this response.
    pub fn to_bytes(&self) -> (r: Vec<u8>)
        ensures
            r@ == variant_bytes(self.index()),
    {
        let i: u8 = match self {
            Response::Empty => 0,
            Response::Ping => 1,
        };
        let r = vec![i, 0u8, 0u8, 0u8];
        assert(r@ =~= variant_bytes(self.index()));
        r
    }

    /// The response that a payload holds; an empty payload is the default.
    pub fn from_bytes(b: &[u8]) -> (r: Option<Response>)
        ensures
            b@.len() == 0 ==> r == Some(Response::Empty),
            b@.len() != 0 ==> match variant_of(b@, 2) {
                Some(i) => (r matches Some(q) && q.index() == i),
                None => r is None,
            },
    {
        if b.len() == 0 {
            return Some(Response::default());
        }
        match read_variant(b, 2) {
            Some(0) => Some(Response::Empty),
            Some(_) => Some(Response::Ping),
            None => None,
        }
    }
}

/// A frame: the payload's length as eight big-endian bytes, then the payload.
pub open spec fn frame(payload: Seq<u8>) -> Seq<u8> {
    be64(payload.len() as u64) + payload
}

/// Appends the frame of `payload` to `dst`.
pub fn wrap_size(payload: &[u8], dst: &mut Vec<u8>)
    ensures
        final(dst)@ == old(dst)@ + frame(payload@),
{
    push_be64(dst, payload.len() as u64);
    push_all(dst, payload);
    assert(final(dst)@ =~= old(dst)@ + frame(payload@));
}

/// Whether `buf` starts with a whole frame: its eight length bytes and that
/// many payload bytes.
pub open spec fn has_frame(buf: Seq<u8>) -> bool {
    buf.len() >= 8 && from_be64(buf) <= buf.len() - 8
}

/// Takes the first whole frame off the front of `src` and gives its payload.
/// Where `src` does not yet hold a whole frame, it is left as it was.
pub fn unwrap_size(src: &mut Vec<u8>) -> (r: Option<Vec<u8>>)
    ensures
        !has_frame(old(src)@) ==> r is None && final(src)@ == old(src)@,
        has_frame(old(src)@) ==> ({
            let end = 8 + from_be64(old(src)@);
            &&& r matches Some(p) && p@ == old(src)@.subrange(8, end)
            &&& final(src)@ == old(src)@.subrange(end, old(src)@.len() as int)
        }),
{
    let n = src.len();
    if n < 8 {
        return None;
    }
    let len = read_be64(src.as_slice(), 0);
    assert(from_be64(src@.subrange(0, 8)) == from_be64(src@));
    if len > (n - 8) as u64 {
        return None;
    }
    let end = 8 + len as usize;
    let payload = copy_range(src.as_slice(), 8, end);
    let rest = copy_range(src.as_slice(), end, n);
    *src = rest;
    Some(payload)
}

/// Why bytes from a peer could not be read.
#[derive(Debug, PartialEq, Eq)]
pub enum FrameError {
    /// A whole frame whose payload is no message.
    Invalid,
}

} // verus!
