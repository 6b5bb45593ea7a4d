use vstd::prelude::*;
use vstd::utf8::{decode_utf8, encode_utf8, valid_utf8};
use crate::author::{Author, AuthorId, PartialAuthor};
use crate::bytes::{
    array32_at, array64_at, be64, bytes_eq, copy_range, from_be64, lemma_be64_round_trip, push_all,
    push_be64, read_be64,
};
use crate::triefort::Triefort;
use crate::util::{display_bytes, shown};
use crate::primitives::{
    detached_signature, sha256, sha256_digest, sign_detached, signature_valid, string_from_utf8,
    verify_detached,
};

verus! {

/// An identifier for a node: the SHA-256 digest of its content's canonical bytes.
#[derive(Clone, Copy, Debug, PartialEq, Eq, Hash)]
pub struct NodeId(pub [u8; 32]);

impl NodeId {
    pub fn bytes(&self) -> (r: &[u8])
        ensures
            r@ == self.0@,
    {
        self.0.as_slice()
    }
}

/// The body of an Append: arbitrary bytes.
#[derive(Debug, PartialEq, Eq)]
pub struct Body(pub Vec<u8>);

impl Body {
    pub fn bytes(&self) -> (r: &[u8])
        ensures
            r@ == self.0@,
    {
        self.0.as_slice()
    }
}

/// An Ed25519 signature over a node ID.
#[derive(Clone, Copy, Debug, PartialEq, Eq)]
pub struct Signature(pub [u8; 64]);

/// The content variants of a Remnant.
#[derive(Debug, PartialEq, Eq)]
pub enum Content {
    /// The start of a timeline, named.
    Origin { name: String },
    /// New data after one parent.
    Append { parent: NodeId, body: Body },
    /// Two parents that everything after this node follows.
    Join { left: NodeId, right: NodeId },
}

/// What a `Content` holds, as values.
pub enum ContentView {
    Origin { name: Seq<char> },
    Append { parent: Seq<u8>, body: Seq<u8> },
    Join { left: Seq<u8>, right: Seq<u8> },
}

impl View for Content {
    type V = ContentView;

    open spec fn view(&self) -> ContentView {
        match self {
            Content::Origin { name } => ContentView::Origin { name: name@ },
            Content::Append { parent, body } => ContentView::Append {
                parent: parent.0@,
                body: body.0@,
            },
            Content::Join { left, right } => ContentView::Join { left: left.0@, right: right.0@ },
        }
    }
}

/// The canonical bytes of a content, which its ID is the digest of.
pub open spec fn canonical_bytes(c: ContentView) -> Seq<u8> {
    match c {
        ContentView::Origin { name } => encode_utf8(name),
        ContentView::Append { parent, body } => parent + body,
        ContentView::Join { left, right } => left + right,
    }
}

/// The ID of a content.
pub open spec fn id_of(c: ContentView) -> Seq<u8> {
    sha256_digest(canonical_bytes(c))
}

impl Content {
    /// The canonical bytes of this content.
    pub fn bytes(&self) -> (r: Vec<u8>)
        ensures
            r@ == canonical_bytes(self@),
    {
        match self {
            Content::Origin { name } => {
                let mut v: Vec<u8> = Vec::new();
                push_all(&mut v, name.as_str().as_bytes());
                v
            },
            Content::Append { parent, body } => {
                let mut v: Vec<u8> = Vec::new();
                push_all(&mut v, parent.bytes());
                push_all(&mut v, body.bytes());
                v
            },
            Content::Join { left, right } => {
                let mut v: Vec<u8> = Vec::new();
                push_all(&mut v, left.bytes());
                push_all(&mut v, right.bytes());
                v
            },
        }
    }
}

/// The ID of a content: the digest of its canonical bytes.
pub fn derive_id(content: &Content) -> (r: NodeId)
    ensures
        r.0@ == id_of(content@),
{
    let b = content.bytes();
    NodeId(sha256(b.as_slice()))
}


/// The primary record: an ID, an author ID, some content and a signature.
#[derive(Debug, PartialEq, Eq)]
pub struct Remnant {
    id: NodeId,
    author: AuthorId,
    content: Content,
    signature: Signature,
}

/// What a `Remnant` holds, as values.
pub struct RemnantView {
    pub id: Seq<u8>,
    pub author: Seq<u8>,
    pub content: ContentView,
    pub signature: Seq<u8>,
}

impl View for Remnant {
    type V = RemnantView;

    closed spec fn view(&self) -> RemnantView {
        RemnantView {
            id: self.id.0@,
            author: self.author.0@,
            content: self.content@,
            signature: self.signature.0@,
        }
    }
}

/// The record that `author` makes of `content`.
pub open spec fn built_by(author: Author, content: ContentView) -> RemnantView {
    RemnantView {
        id: id_of(content),
        author: author.id_view(),
        content,
        signature: detached_signature(author.sk_view(), id_of(content)),
    }
}

/// Why a record is not authentic. Each variant holds the value found in the
/// record and the value it was checked against.
#[derive(Debug, PartialEq, Eq)]
pub enum ValidationErr {
    /// The record's author ID, and the ID of the author checked against.
    AuthorMismatch(AuthorId, AuthorId),
    /// The record's node ID, and the ID computed from its content.
    IdentifierMismatch(NodeId, NodeId),
    /// The record's signature, and the node ID it fails to verify over under
    /// the author's public key.
    SignatureMismatch(Signature, NodeId),
}

/// Which check a record fails for an author, if any.
pub enum Verdict {
    Authentic,
    AuthorMismatch,
    IdentifierMismatch,
    SignatureMismatch,
}

/// The first check that `r` fails for the author with public key `pk` and
/// author ID `id`: the author ID, then the node ID, then the signature under
/// `pk`.
pub open spec fn verdict(r: RemnantView, pk: Seq<u8>, id: Seq<u8>) -> Verdict {
    if r.author != id {
        Verdict::AuthorMismatch
    } else if r.id != id_of(r.content) {
        Verdict::IdentifierMismatch
    } else if !signature_valid(pk, r.id, r.signature) {
        Verdict::SignatureMismatch
    } else {
        Verdict::Authentic
    }
}

/// The verdict that a result of `validate` reports.
pub open spec fn verdict_of(r: Result<(), ValidationErr>) -> Verdict {
    match r {
        Ok(()) => Verdict::Authentic,
        Err(ValidationErr::AuthorMismatch(..)) => Verdict::AuthorMismatch,
        Err(ValidationErr::IdentifierMismatch(..)) => Verdict::IdentifierMismatch,
        Err(ValidationErr::SignatureMismatch(..)) => Verdict::SignatureMismatch,
    }
}

/// The node IDs of a content are 32 bytes long, as a digest is.
pub open spec fn content_wf(c: ContentView) -> bool {
    match c {
        ContentView::Origin { .. } => true,
        ContentView::Append { parent, .. } => parent.len() == 32,
        ContentView::Join { left, right } => left.len() == 32 && right.len() == 32,
    }
}

/// Contents with the same canonical bytes have the same ID.
pub proof fn lemma_same_bytes_same_id(c1: ContentView, c2: ContentView)
    requires
        canonical_bytes(c1) == canonical_bytes(c2),
    ensures
        id_of(c1) == id_of(c2),
{
}

/// Within one variant, two contents have the same canonical bytes exactly when
/// they are equal field by field.
pub proof fn lemma_canonical_bytes_within_variant(c1: ContentView, c2: ContentView)
    requires
        content_wf(c1),
        content_wf(c2),
        (c1 is Origin && c2 is Origin) || (c1 is Append && c2 is Append) || (c1 is Join
            && c2 is Join),
    ensures
        canonical_bytes(c1) == canonical_bytes(c2) <==> c1 == c2,
{
    if canonical_bytes(c1) == canonical_bytes(c2) {
        match (c1, c2) {
            (ContentView::Origin { name: n1 }, ContentView::Origin { name: n2 }) => {
                vstd::utf8::encode_utf8_decode_utf8(n1);
                vstd::utf8::encode_utf8_decode_utf8(n2);
            },
            (ContentView::Append { parent: p1, body: b1 }, ContentView::Append {
                parent: p2,
                body: b2,
            }) => {
                assert(p1 =~= (p1 + b1).subrange(0, 32));
                assert(p2 =~= (p2 + b2).subrange(0, 32));
                assert(b1 =~= (p1 + b1).subrange(32, (p1 + b1).len() as int));
                assert(b2 =~= (p2 + b2).subrange(32, (p2 + b2).len() as int));
            },
            (ContentView::Join { left: l1, right: r1 }, ContentView::Join {
                left: l2,
                right: r2,
            }) => {
                assert(l1 =~= (l1 + r1).subrange(0, 32));
                assert(l2 =~= (l2 + r2).subrange(0, 32));
                assert(r1 =~= (l1 + r1).subrange(32, 64));
                assert(r2 =~= (l2 + r2).subrange(32, 64));
            },
            _ => {},
        }
    }
}

/// A record that an author built is authentic for that author, wherever the
/// signature it made over the record's ID verifies under its public key.
pub proof fn lemma_built_is_authentic(a: Author, c: ContentView)
    requires
        signature_valid(a.pk_view(), id_of(c), detached_signature(a.sk_view(), id_of(c))),
    ensures
        verdict(built_by(a, c), a.pk_view(), a.id_view()) == Verdict::Authentic,
{
}

/// A built record whose content is replaced by one with another ID fails the
/// node ID check.
pub proof fn lemma_changed_content_fails(a: Author, c: ContentView, changed: ContentView)
    requires
        id_of(changed) != id_of(c),
    ensures
        verdict(
            RemnantView {
                id: built_by(a, c).id,
                author: built_by(a, c).author,
                content: changed,
                signature: built_by(a, c).signature,
            },
            a.pk_view(),
            a.id_view(),
        ) == Verdict::IdentifierMismatch,
{
}

/// A built record that names another author ID fails the author check.
pub proof fn lemma_changed_author_fails(a: Author, c: ContentView, other: Seq<u8>)
    requires
        other != a.id_view(),
    ensures
        verdict(
            RemnantView {
                id: built_by(a, c).id,
                author: other,
                content: c,
                signature: built_by(a, c).signature,
            },
            a.pk_view(),
            a.id_view(),
        ) == Verdict::AuthorMismatch,
{
}

/// A built record whose signature is replaced by one that does not verify
/// fails the signature check.
pub proof fn lemma_changed_signature_fails(a: Author, c: ContentView, sig: Seq<u8>)
    requires
        !signature_valid(a.pk_view(), id_of(c), sig),
    ensures
        verdict(
            RemnantView {
                id: built_by(a, c).id,
                author: built_by(a, c).author,
                content: c,
                signature: sig,
            },
            a.pk_view(),
            a.id_view(),
        ) == Verdict::SignatureMismatch,
{
}

/// The node ID of `content` and the signature of `author` over it.
fn remnant_id_and_sig(author: &Author, content: &Content) -> (r: (NodeId, Signature))
    ensures
        r.0.0@ == id_of(content@),
        r.1.0@ == detached_signature(author.sk_view(), id_of(content@)),
{
    let nodeid = derive_id(content);
    let sig = sign_detached(nodeid.bytes(), author.sk());
    (nodeid, Signature(sig))
}

/// The record that `author` makes of `content`.
pub fn build_remnant(author: &Author, content: Content) -> (r: Remnant)
    ensures
        r@ == built_by(*author, content@),
{
    let (nodeid, sig) = remnant_id_and_sig(author, &content);
    Remnant { id: nodeid, author: *author.id(), content, signature: sig }
}

/// A record from its parts, as they are: it may not be authentic.
pub fn build_remnant_from_parts(
    id: NodeId,
    author: AuthorId,
    content: Content,
    signature: Signature,
) -> (r: Remnant)
    ensures
        r@ == (RemnantView {
            id: id.0@,
            author: author.0@,
            content: content@,
            signature: signature.0@,
        }),
{
    Remnant { id, author, content, signature }
}

impl Remnant {
    pub fn id(&self) -> (r: &NodeId)
        ensures
            r.0@ == self@.id,
    {
        &self.id
    }

    pub fn author(&self) -> (r: &AuthorId)
        ensures
            r.0@ == self@.author,
    {
        &self.author
    }

    pub fn content(&self) -> (r: &Content)
        ensures
            r@ == self@.content,
    {
        &self.content
    }

    pub fn signature(&self) -> (r: &Signature)
        ensures
            r.0@ == self@.signature,
    {
        &self.signature
    }

    /// A new timeline origin named `name`.
    pub fn origin(author: &Author, name: &str) -> (r: Remnant)
        ensures
            r@ == built_by(*author, ContentView::Origin { name: name@ }),
    {
        let c = Content::Origin { name: name.to_owned() };
        build_remnant(author, c)
    }

    /// A new Append after this record.
    pub fn append(&self, author: &Author, body: &[u8]) -> (r: Remnant)
        ensures
            r@ == built_by(*author, ContentView::Append { parent: self@.id, body: body@ }),
    {
        let mut b: Vec<u8> = Vec::new();
        push_all(&mut b, body);
        let c = Content::Append { parent: self.id, body: Body(b) };
        build_remnant(author, c)
    }

    /// A new Join of `left` and `right`.
    pub fn join(author: &Author, left: &Remnant, right: &Remnant) -> (r: Remnant)
        ensures
            r@ == built_by(*author, ContentView::Join { left: left@.id, right: right@.id }),
    {
        let c = Content::Join { left: left.id, right: right.id };
        build_remnant(author, c)
    }

    /// One line naming this record by the leading bytes of its ID, author ID
    /// and signature.
    pub fn describe(&self) -> (r: String)
        ensures
            r@ == "Remnant(id: "@ + shown(self@.id) + ", author: "@ + shown(self@.author)
                + ", signature: "@ + shown(self@.signature) + ")"@,
    {
        let mut r = String::new();
        r.append("Remnant(id: ");
        r.append(display_bytes(self.id.bytes()).as_str());
        r.append(", author: ");
        r.append(display_bytes(self.author.bytes()).as_str());
        r.append(", signature: ");
        r.append(display_bytes(self.signature.0.as_slice()).as_str());
        r.append(")");
        r
    }

    /// Checks that this record is authentic for the author whose public part
    /// is `author`: the author ID matches, the node ID is that of the content,
    /// and the signature verifies under the author's public key. The first
    /// check that fails gives the error. No secret key is needed.
    pub fn validate(&self, author: &PartialAuthor) -> (r: Result<(), ValidationErr>)
        ensures
            verdict_of(r) == verdict(self@, author.pk@, author.id.0@),
            (exists|a: Author|
                a.pk_view() == author.pk@ && a.id_view() == author.id.0@ && self@
                    == #[trigger] built_by(a, self@.content)) && signature_valid(
                author.pk@,
                self@.id,
                self@.signature,
            ) ==> r is Ok,
            r matches Err(ValidationErr::AuthorMismatch(found, expected)) ==> found.0@ == self@.author
                && expected.0@ == author.id.0@,
            r matches Err(ValidationErr::IdentifierMismatch(found, computed)) ==> found.0@
                == self@.id && computed.0@ == id_of(self@.content),
            r matches Err(ValidationErr::SignatureMismatch(found, checked)) ==> found.0@
                == self@.signature && checked.0@ == self@.id,
    {
        if !bytes_eq(author.id.bytes(), self.author.bytes()) {
            return Err(ValidationErr::AuthorMismatch(self.author, author.id));
        }
        let id = derive_id(&self.content);
        if !bytes_eq(id.bytes(), self.id.bytes()) {
            return Err(ValidationErr::IdentifierMismatch(self.id, id));
        }
        if !verify_detached(&self.signature.0, self.id.bytes(), &author.pk) {
            return Err(ValidationErr::SignatureMismatch(self.signature, self.id));
        }
        Ok(())
    }
}


/// The stored bytes of a content: a tag byte, then its fields; a variable
/// field comes after its length, as eight big-endian bytes.
pub open spec fn content_encoding(c: ContentView) -> Seq<u8> {
    match c {
        ContentView::Origin { name } => seq![0u8] + be64(encode_utf8(name).len() as u64)
            + encode_utf8(name),
        ContentView::Append { parent, body } => seq![1u8] + parent + be64(body.len() as u64)
            + body,
        ContentView::Join { left, right } => seq![2u8] + left + right,
    }
}

/// The stored bytes of a record: ID, author ID and signature, then the content.
pub open spec fn record_encoding(v: RemnantView) -> Seq<u8> {
    v.id + v.author + v.signature + content_encoding(v.content)
}

/// The content that a tag and the bytes after it encode, if any.
pub open spec fn content_decoding(tag: u8, rest: Seq<u8>) -> Option<ContentView> {
    if tag == 0 {
        if rest.len() >= 8 && from_be64(rest) == rest.len() - 8 && valid_utf8(
            rest.subrange(8, rest.len() as int),
        ) {
            Some(ContentView::Origin { name: decode_utf8(rest.subrange(8, rest.len() as int)) })
        } else {
            None
        }
    } else if tag == 1 {
        if rest.len() >= 40 && from_be64(rest.subrange(32, 40)) == rest.len() - 40 {
            Some(
                ContentView::Append {
                    parent: rest.subrange(0, 32),
                    body: rest.subrange(40, rest.len() as int),
                },
            )
        } else {
            None
        }
    } else if tag == 2 {
        if rest.len() == 64 {
            Some(ContentView::Join { left: rest.subrange(0, 32), right: rest.subrange(32, 64) })
        } else {
            None
        }
    } else {
        None
    }
}

/// The record that `b` encodes, if any.
pub open spec fn record_decoding(b: Seq<u8>) -> Option<RemnantView> {
    if b.len() < 129 {
        None
    } else {
        match content_decoding(b[128], b.subrange(129, b.len() as int)) {
            Some(c) => Some(
                RemnantView {
                    id: b.subrange(0, 32),
                    author: b.subrange(32, 64),
                    signature: b.subrange(64, 128),
                    content: c,
                },
            ),
            None => None,
        }
    }
}

/// The fixed fields have their sizes, and each variable field's length fits
/// in its eight length bytes.
pub open spec fn record_encodable(v: RemnantView) -> bool {
    &&& v.id.len() == 32
    &&& v.author.len() == 32
    &&& v.signature.len() == 64
    &&& content_wf(v.content)
    &&& match v.content {
        ContentView::Origin { name } => encode_utf8(name).len() <= u64::MAX,
        ContentView::Append { body, .. } => body.len() <= u64::MAX,
        ContentView::Join { .. } => true,
    }
}

/// Decoding the encoding of a record gives the record back.
pub proof fn lemma_record_round_trip(v: RemnantView)
    requires
        record_encodable(v),
    ensures
        record_decoding(record_encoding(v)) == Some(v),
{
    let b = record_encoding(v);
    let ce = content_encoding(v.content);
    assert(b.subrange(0, 32) =~= v.id);
    assert(b.subrange(32, 64) =~= v.author);
    assert(b.subrange(64, 128) =~= v.signature);
    assert(b.subrange(128, b.len() as int) =~= ce);
    assert(b[128] == ce[0]);
    let rest = b.subrange(129, b.len() as int);
    assert(rest =~= ce.subrange(1, ce.len() as int));
    match v.content {
        ContentView::Origin { name } => {
            let nb = encode_utf8(name);
            lemma_be64_round_trip(nb.len() as u64);
            assert(rest =~= be64(nb.len() as u64) + nb);
            assert(rest.subrange(0, 8) =~= be64(nb.len() as u64));
            assert(from_be64(rest) == from_be64(rest.subrange(0, 8)));
            assert(rest.subrange(8, rest.len() as int) =~= nb);
            vstd::utf8::encode_utf8_valid_utf8(name);
            vstd::utf8::encode_utf8_decode_utf8(name);
        },
        ContentView::Append { parent, body } => {
            lemma_be64_round_trip(body.len() as u64);
            assert(rest =~= parent + be64(body.len() as u64) + body);
            assert(rest.subrange(0, 32) =~= parent);
            assert(rest.subrange(32, 40) =~= be64(body.len() as u64));
            assert(rest.subrange(40, rest.len() as int) =~= body);
        },
        ContentView::Join { left, right } => {
            assert(rest =~= left + right);
            assert(rest.subrange(0, 32) =~= left);
            assert(rest.subrange(32, 64) =~= right);
        },
    }
}

impl Triefort for Remnant {
    open spec fn key_of(v: RemnantView) -> Seq<u8> {
        v.id
    }

    open spec fn encoding(v: RemnantView) -> Seq<u8> {
        record_encoding(v)
    }

    open spec fn decoding(b: Seq<u8>) -> Option<RemnantView> {
        record_decoding(b)
    }

    open spec fn encodable(v: RemnantView) -> bool {
        record_encodable(v)
    }

    proof fn lemma_round_trip(v: RemnantView) {
        lemma_record_round_trip(v);
    }

    fn key(&self) -> (r: &[u8]) {
        self.id.bytes()
    }

    fn encode(&self) -> (r: Vec<u8>) {
        let mut v: Vec<u8> = Vec::new();
        push_all(&mut v, self.id.bytes());
        push_all(&mut v, self.author.bytes());
        push_all(&mut v, self.signature.0.as_slice());
        match &self.content {
            Content::Origin { name } => {
                let nb = name.as_str().as_bytes();
                v.push(0u8);
                push_be64(&mut v, nb.len() as u64);
                push_all(&mut v, nb);
            },
            Content::Append { parent, body } => {
                v.push(1u8);
                push_all(&mut v, parent.bytes());
                push_be64(&mut v, body.bytes().len() as u64);
                push_all(&mut v, body.bytes());
            },
            Content::Join { left, right } => {
                v.push(2u8);
                push_all(&mut v, left.bytes());
                push_all(&mut v, right.bytes());
            },
        }
        assert(v@ =~= record_encoding(self@));
        v
    }

    fn decode(enc: &[u8]) -> (r: Option<Remnant>) {
        let n = enc.len();
        if n < 129 {
            return None;
        }
        let ghost rest = enc@.subrange(129, n as int);
        let id = NodeId(array32_at(enc, 0));
        let author = AuthorId(array32_at(enc, 32));
        let signature = Signature(array64_at(enc, 64));
        let tag = enc[128];
        let content = if tag == 0 {
            if n < 137 {
                return None;
            }
            assert(rest.subrange(0, 8) =~= enc@.subrange(129, 137));
            if read_be64(enc, 129) != (n - 137) as u64 {
                return None;
            }
            assert(rest.subrange(8, rest.len() as int) =~= enc@.subrange(137, n as int));
            match string_from_utf8(copy_range(enc, 137, n)) {
                Some(name) => Content::Origin { name },
                None => {
                    return None;
                },
            }
        } else if tag == 1 {
            if n < 169 {
                return None;
            }
            assert(rest.subrange(32, 40) =~= enc@.subrange(161, 169));
            if read_be64(enc, 161) != (n - 169) as u64 {
                return None;
            }
            assert(rest.subrange(0, 32) =~= enc@.subrange(129, 161));
            assert(rest.subrange(40, rest.len() as int) =~= enc@.subrange(169, n as int));
            Content::Append {
                parent: NodeId(array32_at(enc, 129)),
                body: Body(copy_range(enc, 169, n)),
            }
        } else if tag == 2 {
            if n != 193 {
                return None;
            }
            assert(rest.subrange(0, 32) =~= enc@.subrange(129, 161));
            assert(rest.subrange(32, 64) =~= enc@.subrange(161, 193));
            Content::Join { left: NodeId(array32_at(enc, 129)), right: NodeId(array32_at(enc, 161)) }
        } else {
            return None;
        };
        Some(Remnant { id, author, content, signature })
    }
}

} // verus!
