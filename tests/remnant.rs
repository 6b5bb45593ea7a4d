use remnant::author::{Author, AuthorId, PartialAuthor};
use remnant::remnant::{
    build_remnant, build_remnant_from_parts, derive_id, Body, Content, NodeId, Remnant, Signature,
    ValidationErr,
};
use remnant::triefort::Triefort;

fn sha256(data: &[u8]) -> [u8; 32] {
    sodiumoxide::crypto::hash::sha256::hash(data).0
}

fn sign(msg: &[u8], author: &Author) -> [u8; 64] {
    let sk = sodiumoxide::crypto::sign::SecretKey(*author.sk());
    sodiumoxide::crypto::sign::sign_detached(msg, &sk).to_bytes()
}

#[test]
fn remnant_it_works() {
    let author = Author::new();
    let name = "hello world".to_string();

    // The ID is the digest of the content's canonical bytes alone.
    let node_id = NodeId(sha256(name.as_bytes()));
    let sig = Signature(sign(node_id.bytes(), &author));

    let expected = build_remnant_from_parts(
        node_id,
        *author.id(),
        Content::Origin { name: name.clone() },
        sig,
    );

    assert_eq!(expected, Remnant::origin(&author, &name));
}

#[test]
fn different_authors_have_different_remnants() {
    let a1 = Author::new();
    let a2 = Author::new();

    assert_ne!(a1, a2);

    let r1 = build_remnant(&a1, Content::Origin { name: "now what".to_string() });
    let r2 = build_remnant(&a2, Content::Origin { name: "now what".to_string() });

    assert_ne!(r1, r2);

    let ra1 = r1.append(&a2, b"this is new");
    let ra2 = r2.append(&a1, b"this is also new");

    let j = Remnant::join(&a1, &ra1, &ra2);
    println!("j: {}", j.describe());

    j.validate(&a1.partial()).unwrap();
}

#[test]
fn author_id_is_digest_of_public_key() {
    let a = Author::new();
    assert_eq!(a.id().0, sha256(a.pk()));
    assert_eq!(a.partial().pk, *a.pk());
    assert_eq!(a.partial().id, *a.id());
}

#[test]
fn author_round_trips_through_its_keys() {
    let a = Author::new();
    let b = Author::from_keys(*a.pk(), *a.sk(), a.id().0).unwrap();
    assert_eq!(a, b);
    let mut wrong_id = a.id().0;
    wrong_id[0] ^= 1;
    assert!(Author::from_keys(*a.pk(), *a.sk(), wrong_id).is_none());
    let other = Author::new();
    assert!(Author::from_keys(*other.pk(), *a.sk(), sha256(other.pk())).is_none());
}

#[test]
fn canonical_bytes_per_variant() {
    let origin = Content::Origin { name: "héllo".to_string() };
    assert_eq!(origin.bytes(), "héllo".as_bytes().to_vec());

    let append = Content::Append { parent: NodeId([3; 32]), body: Body(vec![9, 8]) };
    let mut expected = vec![3u8; 32];
    expected.extend_from_slice(&[9, 8]);
    assert_eq!(append.bytes(), expected);

    let join = Content::Join { left: NodeId([1; 32]), right: NodeId([2; 32]) };
    let mut expected = vec![1u8; 32];
    expected.extend_from_slice(&[2u8; 32]);
    assert_eq!(join.bytes(), expected);
}

#[test]
fn same_canonical_bytes_same_id() {
    let c1 = Content::Origin { name: "x".to_string() };
    let c2 = Content::Origin { name: "x".to_string() };
    assert_eq!(derive_id(&c1), derive_id(&c2));
    assert_eq!(derive_id(&c1).0, sha256(b"x"));

    // Bytes decide, not the variant: a name made of two IDs' worth of bytes
    // and a join of those IDs share their canonical bytes.
    let join = Content::Join { left: NodeId([0x41; 32]), right: NodeId([0x42; 32]) };
    let name: String = std::iter::repeat('A').take(32).chain(std::iter::repeat('B').take(32)).collect();
    let origin = Content::Origin { name };
    assert_eq!(join.bytes(), origin.bytes());
    assert_eq!(derive_id(&join), derive_id(&origin));

    let other = Content::Origin { name: "y".to_string() };
    assert_ne!(derive_id(&c1), derive_id(&other));
}

#[test]
fn built_records_validate() {
    let a = Author::new();
    let o = Remnant::origin(&a, "t");
    assert_eq!(o.validate(&a.partial()), Ok(()));
    let p = o.append(&a, b"body");
    assert_eq!(p.validate(&a.partial()), Ok(()));
    assert_eq!(p.content(), &Content::Append { parent: *o.id(), body: Body(b"body".to_vec()) });
    assert_eq!(p.author(), a.id());
    let j = Remnant::join(&a, &o, &p);
    assert_eq!(j.validate(&a.partial()), Ok(()));
    assert_eq!(j.id().0, sha256(&[o.id().0, p.id().0].concat()));
}

#[test]
fn changed_content_is_identifier_mismatch() {
    let a = Author::new();
    let e = Remnant::origin(&a, "as written");
    let tampered = build_remnant_from_parts(
        *e.id(),
        *e.author(),
        Content::Origin { name: "changed".to_string() },
        *e.signature(),
    );
    let computed = derive_id(&Content::Origin { name: "changed".to_string() });
    assert_eq!(
        tampered.validate(&a.partial()),
        Err(ValidationErr::IdentifierMismatch(*e.id(), computed))
    );
}

#[test]
fn changed_author_is_author_mismatch() {
    let a = Author::new();
    let b = Author::new();
    let e = Remnant::origin(&a, "mine");
    let tampered = build_remnant_from_parts(
        *e.id(),
        *b.id(),
        Content::Origin { name: "mine".to_string() },
        *e.signature(),
    );
    assert_eq!(
        tampered.validate(&a.partial()),
        Err(ValidationErr::AuthorMismatch(*b.id(), *a.id()))
    );
    // Checked against another author, an untouched record fails the same way.
    assert_eq!(e.validate(&b.partial()), Err(ValidationErr::AuthorMismatch(*a.id(), *b.id())));
}

#[test]
fn corrupted_signature_is_signature_mismatch() {
    let a = Author::new();
    let e = Remnant::origin(&a, "signed");
    let mut bytes = e.signature().0;
    bytes[0] ^= 0x01;
    let tampered = build_remnant_from_parts(
        *e.id(),
        *e.author(),
        Content::Origin { name: "signed".to_string() },
        Signature(bytes),
    );
    assert_eq!(
        tampered.validate(&a.partial()),
        Err(ValidationErr::SignatureMismatch(Signature(bytes), *e.id()))
    );
}

#[test]
fn record_encoding_round_trips() {
    let a = Author::new();
    let o = Remnant::origin(&a, "naïve");
    let p = o.append(&a, &[0, 1, 2, 255]);
    let j = Remnant::join(&a, &o, &p);
    for r in [o, p, j] {
        let bytes = r.encode();
        assert_eq!(Remnant::decode(&bytes), Some(r));
    }
}

#[test]
fn record_encoding_layout() {
    let r = build_remnant_from_parts(
        NodeId([1; 32]),
        AuthorId([2; 32]),
        Content::Origin { name: "ab".to_string() },
        Signature([3; 64]),
    );
    let mut expected = vec![1u8; 32];
    expected.extend_from_slice(&[2u8; 32]);
    expected.extend_from_slice(&[3u8; 64]);
    expected.push(0);
    expected.extend_from_slice(&[0, 0, 0, 0, 0, 0, 0, 2]);
    expected.extend_from_slice(b"ab");
    assert_eq!(r.encode(), expected);
    assert_eq!(r.key(), &[1u8; 32][..]);
}

#[test]
fn malformed_record_bytes_do_not_decode() {
    let r = build_remnant_from_parts(
        NodeId([1; 32]),
        AuthorId([2; 32]),
        Content::Join { left: NodeId([4; 32]), right: NodeId([5; 32]) },
        Signature([3; 64]),
    );
    let bytes = r.encode();
    assert_eq!(bytes.len(), 193);
    assert_eq!(Remnant::decode(&bytes[..192]), None);
    let mut bad_tag = bytes.clone();
    bad_tag[128] = 7;
    assert_eq!(Remnant::decode(&bad_tag), None);
    assert_eq!(Remnant::decode(&[]), None);

    let o = build_remnant_from_parts(
        NodeId([1; 32]),
        AuthorId([2; 32]),
        Content::Origin { name: "ab".to_string() },
        Signature([3; 64]),
    );
    let mut bad_utf8 = o.encode();
    let n = bad_utf8.len();
    bad_utf8[n - 1] = 0xff;
    assert_eq!(Remnant::decode(&bad_utf8), None);
    let mut long = o.encode();
    long.push(b'c');
    assert_eq!(Remnant::decode(&long), None);
}

#[test]
fn describe_shows_leading_bytes() {
    let r = build_remnant_from_parts(
        NodeId([0xab; 32]),
        AuthorId([1; 32]),
        Content::Origin { name: "x".to_string() },
        Signature([0x0f; 64]),
    );
    assert_eq!(
        r.describe(),
        "Remnant(id: ababababab, author: 0101010101, signature: 0f0f0f0f0f)"
    );
}

#[test]
fn a_peer_validates_with_the_public_part_only() {
    let a = Author::new();
    let r = Remnant::origin(&a, "shared");
    let public = PartialAuthor { pk: *a.pk(), id: *a.id() };
    assert_eq!(r.validate(&public), Ok(()));
    let other = Author::new();
    let wrong_key = PartialAuthor { pk: *other.pk(), id: *a.id() };
    assert_eq!(
        r.validate(&wrong_key),
        Err(ValidationErr::SignatureMismatch(*r.signature(), *r.id()))
    );
}

#[test]
fn author_from_seed_is_deterministic() {
    let seed = [5u8; 32];
    let a = Author::from_seed(&seed);
    let b = Author::from_seed(&seed);
    assert_eq!(a, b);
    let (pk, sk) = sodiumoxide::crypto::sign::keypair_from_seed(
        &sodiumoxide::crypto::sign::Seed::from_slice(&seed).unwrap(),
    );
    assert_eq!(*a.pk(), pk.0);
    assert_eq!(*a.sk(), sk.0);
    assert_eq!(a.id().0, sha256(&pk.0));
    assert_ne!(Author::from_seed(&[6u8; 32]), a);
}
