use vstd::prelude::*;
use crate::hex::{hex_of, push_hex};

verus! {

/// How many leading bytes `display_bytes` shows.
pub const DISPLAY_BYTES: usize = 5;

/// The hexadecimal text of `bytes` in parentheses.
pub fn debug_bytes(bytes: &[u8]) -> (r: String)
    ensures
        r@ == seq!['('] + hex_of(bytes@) + seq![')'],
{
    let mut r = String::new();
    r.push('(');
    push_hex(&mut r, bytes, 0, bytes.len());
    r.push(')');
    assert(bytes@.subrange(0, bytes@.len() as int) == bytes@);
    assert(r@ =~= seq!['('] + hex_of(bytes@) + seq![')']);
    r
}

/// The hexadecimal text of the first `DISPLAY_BYTES` bytes of `b` (all of
/// them, if there are fewer).
pub open spec fn shown(b: Seq<u8>) -> Seq<char> {
    hex_of(
        b.take(
            if b.len() < DISPLAY_BYTES {
                b.len() as int
            } else {
                DISPLAY_BYTES as int
            },
        ),
    )
}

/// The hexadecimal text of the first `DISPLAY_BYTES` bytes of `bytes` (all of
/// them, if there are fewer).
pub fn display_bytes(bytes: &[u8]) -> (r: String)
    ensures
        r@ == shown(bytes@),
{
    let n = if bytes.len() < DISPLAY_BYTES {
        bytes.len()
    } else {
        DISPLAY_BYTES
    };
    let mut r = String::new();
    push_hex(&mut r, bytes, 0, n);
    assert(r@ =~= hex_of(bytes@.subrange(0, n as int)));
    r
}

} // verus!
