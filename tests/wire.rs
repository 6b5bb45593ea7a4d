use remnant::client;
use remnant::message::{unwrap_size, wrap_size, FrameError, Request, Response};
use remnant::server::{self, RemnantService};

#[test]
fn frame_is_big_endian_length_then_payload() {
    let mut dst = vec![0xaa];
    wrap_size(&[1, 2, 3], &mut dst);
    assert_eq!(dst, vec![0xaa, 0, 0, 0, 0, 0, 0, 0, 3, 1, 2, 3]);
    let mut big = Vec::new();
    wrap_size(&vec![0u8; 0x0102], &mut big);
    assert_eq!(&big[..8], &[0, 0, 0, 0, 0, 0, 1, 2]);
}

#[test]
fn unwrap_waits_for_whole_frame() {
    let mut src = vec![0, 0, 0, 0, 0, 0, 0];
    assert_eq!(unwrap_size(&mut src), None);
    assert_eq!(src.len(), 7);
    let mut src = vec![0, 0, 0, 0, 0, 0, 0, 4, 9, 9];
    assert_eq!(unwrap_size(&mut src), None);
    assert_eq!(src, vec![0, 0, 0, 0, 0, 0, 0, 4, 9, 9]);
    src.extend_from_slice(&[9, 9, 5]);
    assert_eq!(unwrap_size(&mut src), Some(vec![9, 9, 9, 9]));
    assert_eq!(src, vec![5]);
}

#[test]
fn message_payloads() {
    assert_eq!(Request::Empty.to_bytes(), vec![0, 0, 0, 0]);
    assert_eq!(Request::Ping.to_bytes(), vec![1, 0, 0, 0]);
    assert_eq!(Response::Ping.to_bytes(), vec![1, 0, 0, 0]);
    assert_eq!(Request::from_bytes(&[]), Some(Request::Empty));
    assert_eq!(Response::from_bytes(&[1, 0, 0, 0]), Some(Response::Ping));
    assert_eq!(Request::from_bytes(&[2, 0, 0, 0]), None);
    assert_eq!(Request::from_bytes(&[1, 0, 0]), None);
    assert_eq!(Request::default(), Request::Empty);
    assert_eq!(Response::default(), Response::Empty);
}

#[test]
fn server_and_client_codecs_meet() {
    let mut wire = Vec::new();
    let mut c = client::RemnantCodec;
    let mut s = server::RemnantCodec;
    c.encode(Request::Ping, &mut wire);
    c.encode(Request::Empty, &mut wire);
    assert_eq!(wire.len(), 24);
    assert_eq!(s.decode(&mut wire), Ok(Some(Request::Ping)));
    assert_eq!(s.decode(&mut wire), Ok(Some(Request::Empty)));
    assert_eq!(s.decode(&mut wire), Ok(None));

    let svc = RemnantService;
    let mut back = Vec::new();
    s.encode(svc.call(Request::Ping), &mut back);
    s.encode(svc.call(Request::Empty), &mut back);
    assert_eq!(c.decode(&mut back), Ok(Some(Response::Ping)));
    assert_eq!(c.decode(&mut back), Ok(Some(Response::Empty)));
}

#[test]
fn zero_length_frame_is_empty_message() {
    let mut src = vec![0u8; 8];
    assert_eq!(server::RemnantCodec.decode(&mut src), Ok(Some(Request::Empty)));
    assert!(src.is_empty());
    let mut src = vec![0u8; 8];
    assert_eq!(client::RemnantCodec.decode(&mut src), Ok(Some(Response::Empty)));
}

#[test]
fn unknown_payload_is_invalid() {
    let mut src = vec![0, 0, 0, 0, 0, 0, 0, 4, 7, 0, 0, 0];
    assert_eq!(server::RemnantCodec.decode(&mut src), Err(FrameError::Invalid));
    assert!(src.is_empty());
}
