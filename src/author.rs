use vstd::prelude::*;
use crate::bytes::bytes_eq;
use crate::primitives::{keypair_from_seed, random_seed, seed_keypair, sha256, sha256_digest};

verus! {

/// An author ID: the SHA-256 digest of the author's public key.
#[derive(Clone, Copy, Debug, PartialEq, Eq, Hash)]
pub struct AuthorId(pub [u8; 32]);

impl AuthorId {
    pub fn bytes(&self) -> (r: &[u8])
        ensures
            r@ == self.0@,
    {
        self.0.as_slice()
    }
}

/// The public part of an author: what others need to check its records.
#[derive(Clone, Copy, Debug, PartialEq, Eq)]
pub struct PartialAuthor {
    pub pk: [u8; 32],
    pub id: AuthorId,
}

/// An author: an Ed25519 key pair and the digest of its public key.
#[derive(Clone, Copy, Debug, PartialEq, Eq)]
pub struct Author {
    pk: [u8; 32],
    sk: [u8; 64],
    id: AuthorId,
}

impl Author {
    pub closed spec fn pk_view(&self) -> Seq<u8> {
        self.pk@
    }

    pub closed spec fn sk_view(&self) -> Seq<u8> {
        self.sk@
    }

    pub closed spec fn id_view(&self) -> Seq<u8> {
        self.id.0@
    }

    /// The keys are the pair grown from some 32-byte seed, and the ID is the
    /// digest of the public key.
    pub open spec fn wf(&self) -> bool {
        &&& exists|seed: Seq<u8>|
            seed.len() == 32 && #[trigger] seed_keypair(seed) == (self.pk_view(), self.sk_view())
        &&& self.id_view() == sha256_digest(self.pk_view())
    }

    /// The author whose key pair grows from the 32-byte `seed`.
    pub fn from_seed(seed: &[u8]) -> (a: Author)
        requires
            seed@.len() == 32,
        ensures
            a.wf(),
            seed_keypair(seed@) == (a.pk_view(), a.sk_view()),
            a.id_view() == sha256_digest(a.pk_view()),
    {
        let (pk, sk) = keypair_from_seed(seed);
        let id = AuthorId(sha256(pk.as_slice()));
        Author { pk, sk, id }
    }

    /// A fresh author, from a random seed.
    pub fn new() -> (a: Author)
        ensures
            a.wf(),
    {
        let seed = random_seed();
        Author::from_seed(seed.as_slice())
    }

    /// An author from stored keys and ID. The first 32 bytes of an Ed25519
    /// secret key are its seed: the keys are accepted only when that seed
    /// grows exactly this pair, and the ID only when it is the digest of the
    /// public key.
    pub fn from_keys(pk: [u8; 32], sk: [u8; 64], id: [u8; 32]) -> (r: Option<Author>)
        ensures
            r is Some <==> (seed_keypair(sk@.subrange(0, 32)) == (pk@, sk@) && id@ == sha256_digest(pk@)),
            r matches Some(a) ==> a.wf() && a.pk_view() == pk@ && a.sk_view() == sk@ && a.id_view() == id@,
    {
        let seed = crate::bytes::array32_at(sk.as_slice(), 0);
        let (pk2, sk2) = keypair_from_seed(seed.as_slice());
        let digest = sha256(pk.as_slice());
        if bytes_eq(pk2.as_slice(), pk.as_slice()) && bytes_eq(sk2.as_slice(), sk.as_slice())
            && bytes_eq(digest.as_slice(), id.as_slice()) {
            assert(pk2@ == pk@ && sk2@ == sk@);
            Some(Author { pk, sk, id: AuthorId(id) })
        } else {
            None
        }
    }

    pub fn id(&self) -> (r: &AuthorId)
        ensures
            r.0@ == self.id_view(),
    {
        &self.id
    }

    pub fn sk(&self) -> (r: &[u8; 64])
        ensures
            r@ == self.sk_view(),
    {
        &self.sk
    }

    pub fn pk(&self) -> (r: &[u8; 32])
        ensures
            r@ == self.pk_view(),
    {
        &self.pk
    }

    /// The public key and ID of this author.
    pub fn partial(&self) -> (r: PartialAuthor)
        ensures
            r.pk@ == self.pk_view(),
            r.id.0@ == self.id_view(),
    {
        PartialAuthor { pk: self.pk, id: self.id }
    }
}

} // verus!
