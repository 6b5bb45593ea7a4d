use remnant::hex::to_hex;
use remnant::plan::{parse_node_id, Command};
use remnant::remnant::{Body, Content, NodeId};
use remnant::util::{debug_bytes, display_bytes};

#[test]
fn hex_is_lowercase_two_digits_a_byte() {
    assert_eq!(to_hex(&[0x00, 0x0f, 0xa0, 0xff]), "000fa0ff");
    assert_eq!(to_hex(&[]), "");
}

#[test]
fn byte_display() {
    assert_eq!(debug_bytes(&[1, 0xab]), "(01ab)");
    assert_eq!(debug_bytes(&[]), "()");
    assert_eq!(display_bytes(&[1, 2, 3, 4, 5, 6, 7]), "0102030405");
    assert_eq!(display_bytes(&[0xfe]), "fe");
}

#[test]
fn node_id_text() {
    let text = "00112233445566778899aabbccddeeff00112233445566778899aabbccddeeff";
    let id = parse_node_id(text).unwrap();
    assert_eq!(id.0[1], 0x11);
    assert_eq!(id.0[15], 0xff);
    assert_eq!(to_hex(&id.0), text);
    assert!(parse_node_id(&text[..62]).is_none());
    assert!(parse_node_id(&text.to_uppercase()).is_none());
    assert!(parse_node_id(&text.replace('a', "g")).is_none());
}

#[test]
fn commands_make_content() {
    let origin = Command::Origin { name: "t".to_string() };
    assert_eq!(origin.content(), Some(Content::Origin { name: "t".to_string() }));
    let id = "07".repeat(32);
    let append = Command::Append { parent: id.clone(), body: b"x".to_vec() };
    assert_eq!(
        append.content(),
        Some(Content::Append { parent: NodeId([7; 32]), body: Body(b"x".to_vec()) })
    );
    let join = Command::Join { left: id.clone(), right: "08".repeat(32) };
    assert_eq!(
        join.content(),
        Some(Content::Join { left: NodeId([7; 32]), right: NodeId([8; 32]) })
    );
    let bad = Command::Join { left: id, right: "zz".to_string() };
    assert_eq!(bad.content(), None);
}
