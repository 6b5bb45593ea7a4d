use vstd::prelude::*;
use crate::author::{Author, PartialAuthor};
use crate::remnant::Remnant;

verus! {

/// The authors and records a process knows, in the order they became known,
/// and the author it acts as.
#[derive(Debug)]
pub struct Universe {
    authors: Vec<PartialAuthor>,
    remnants: Vec<Remnant>,
    author: Author,
}

impl Universe {
    pub closed spec fn known_authors(&self) -> Seq<PartialAuthor> {
        self.authors@
    }

    pub closed spec fn known_remnants(&self) -> Seq<Remnant> {
        self.remnants@
    }

    pub closed spec fn acting_as(&self) -> Author {
        self.author
    }

    /// A universe that knows nothing yet and acts as `author`.
    pub fn new(author: &Author) -> (r: Universe)
        ensures
            r.known_authors().len() == 0,
            r.known_remnants().len() == 0,
            r.acting_as() == *author,
    {
        Universe { authors: Vec::new(), remnants: Vec::new(), author: *author }
    }
}

} // verus!
