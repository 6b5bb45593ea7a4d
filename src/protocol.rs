use vstd::prelude::*;
use crate::author::{AuthorId, PartialAuthor};
use crate::remnant::{NodeId, Remnant};

verus! {

/// What one peer asks another.
#[derive(Debug)]
pub enum Request {
    /// The first message sent, with the sender's public part.
    Hello(PartialAuthor),
    /// The last message before a clean disconnect.
    Goodbye,
    /// Asks for the public key of an author.
    LookupAuthor(AuthorId),
    /// Asks for a record the peer may hold.
    LookupRemnant(NodeId),
    /// Tells the peer of a record by its ID.
    AdvertiseRemnant(NodeId),
}

/// What a peer answers.
#[derive(Debug)]
pub enum Response {
    /// The answer to Hello: the receiver's own public part.
    Hello(PartialAuthor),
    Goodbye,
    /// The author asked for, if known.
    LookupAuthor(Option<PartialAuthor>),
    /// The record asked for, if held.
    LookupRemnant(Option<Remnant>),
    AdvertiseRemnant,
}

} // verus!
