use vstd::prelude::*;
use crate::bytes::{array32_at, push_all};
use crate::hex::{digit, hex_digit, hex_of, is_hex_char};
use crate::remnant::{Body, Content, ContentView, NodeId};

verus! {

/// A command given on the command line.
#[derive(Debug, PartialEq, Eq)]
pub enum Command {
    /// Append `body` after the record whose ID is the hexadecimal text `parent`.
    Append { parent: String, body: Vec<u8> },
    /// Start a timeline named `name`.
    Origin { name: String },
    /// Join the records whose IDs are the hexadecimal texts `left` and `right`.
    Join { left: String, right: String },
}

/// The text of a node ID: 64 lowercase hexadecimal digits.
pub open spec fn is_id_text(s: Seq<char>) -> bool {
    s.len() == 64 && forall|i: int| 0 <= i < 64 ==> is_hex_char(#[trigger] s[i])
}

/// The node ID whose hexadecimal text is `s`.
pub fn parse_node_id(s: &str) -> (r: Option<NodeId>)
    ensures
        r is Some <==> is_id_text(s@),
        r matches Some(id) ==> hex_of(id.0@) == s@,
{
    if s.unicode_len() != 64 {
        return None;
    }
    let mut v: Vec<u8> = Vec::new();
    let mut i: usize = 0;
    while i < 32
        invariant
            i <= 32,
            s@.len() == 64,
            v@.len() == i,
            hex_of(v@) == s@.subrange(0, 2 * i),
            forall|j: int| 0 <= j < 2 * i ==> is_hex_char(#[trigger] s@[j]),
        decreases 32 - i,
    {
        let hi = match digit(s.get_char(2 * i)) {
            Some(d) => d,
            None => {
                return None;
            },
        };
        let lo = match digit(s.get_char(2 * i + 1)) {
            Some(d) => d,
            None => {
                return None;
            },
        };
        let b: u8 = hi * 16 + lo;
        assert(b / 16 == hi && b % 16 == lo);
        let ghost before = v@;
        v.push(b);
        assert(v@.drop_last() =~= before);
        assert(v@.last() == b);
        assert(hex_of(v@) == hex_of(before) + seq![hex_digit(b / 16), hex_digit(b % 16)]);
        assert(s@.subrange(0, 2 * (i + 1)) =~= s@.subrange(0, 2 * i).push(s@[2 * i as int]).push(
            s@[2 * i + 1],
        ));
        i = i + 1;
    }
    assert(s@.subrange(0, 64) =~= s@);
    let id = NodeId(array32_at(v.as_slice(), 0));
    assert(id.0@ =~= v@);
    Some(id)
}

impl Command {
    /// The content this command makes; `None` where an ID is not the text of one.
    pub fn content(&self) -> (r: Option<Content>)
        ensures
            match self {
                Command::Origin { name } => (r matches Some(c) && c@ == (ContentView::Origin { name: name@ })),
                Command::Append { parent, body } => if is_id_text(parent@) {
                    r matches Some(c) && c@ matches ContentView::Append { parent: p, body: b }
                        && hex_of(p) == parent@ && b == body@
                } else {
                    r is None
                },
                Command::Join { left, right } => if is_id_text(left@) && is_id_text(right@) {
                    r matches Some(c) && c@ matches ContentView::Join { left: l, right: q }
                        && hex_of(l) == left@ && hex_of(q) == right@
                } else {
                    r is None
                },
            },
    {
        match self {
            Command::Origin { name } => Some(Content::Origin { name: name.clone() }),
            Command::Append { parent, body } => match parse_node_id(parent.as_str()) {
                Some(p) => {
                    let mut b: Vec<u8> = Vec::new();
                    push_all(&mut b, body.as_slice());
                    Some(Content::Append { parent: p, body: Body(b) })
                },
                None => None,
            },
            Command::Join { left, right } => match (
                parse_node_id(left.as_str()),
                parse_node_id(right.as_str()),
            ) {
                (Some(l), Some(q)) => Some(Content::Join { left: l, right: q }),
                _ => None,
            },
        }
    }
}

} // verus!
