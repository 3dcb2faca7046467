//! Framing of the wire and admin protocols.
use bifrost::admin::{admin_header, admin_len, AdminError, MAX_ADMIN_FRAME};
use bifrost::codec::{FrameCodec, ProtoError, HEADER_LEN};
use bifrost::frame::MAX_FRAME_LEN;
use bytes::{BufMut, BytesMut};

fn ping(nonce: u64) -> Vec<u8> {
    postcard::to_allocvec(&(11u32, nonce)).unwrap()
}

fn pong(nonce: u64) -> Vec<u8> {
    postcard::to_allocvec(&(12u32, nonce)).unwrap()
}

fn text(s: &str) -> Vec<u8> {
    postcard::to_allocvec(&(6u32, s)).unwrap()
}

#[test]
fn empty_buffer_returns_none() {
    let codec = FrameCodec::new();
    let mut buf = BytesMut::new();
    assert!(codec.decode(&mut buf).unwrap().is_none());
}

#[test]
fn header_only_returns_none_and_preserves_buffer() {
    let codec = FrameCodec::new();
    let mut buf = BytesMut::new();
    buf.put_u32(100);
    assert!(codec.decode(&mut buf).unwrap().is_none());
    assert_eq!(buf.len(), HEADER_LEN);
}

#[test]
fn declared_length_over_max_is_rejected() {
    let codec = FrameCodec::with_max_len(64);
    let mut buf = BytesMut::new();
    buf.put_u32(200);
    match codec.decode(&mut buf) {
        Err(ProtoError::FrameTooLarge(200, 64)) => {}
        other => panic!("unexpected: {:?}", other),
    }
}

#[test]
fn ping_pong_minimal_roundtrip() {
    let codec = FrameCodec::new();
    let mut buf = BytesMut::new();
    codec.encode(&ping(7), &mut buf).unwrap();
    codec.encode(&pong(7), &mut buf).unwrap();
    let first: (u32, u64) =
        postcard::from_bytes(&codec.decode(&mut buf).unwrap().unwrap()).unwrap();
    let second: (u32, u64) =
        postcard::from_bytes(&codec.decode(&mut buf).unwrap().unwrap()).unwrap();
    assert_eq!(first, (11, 7));
    assert_eq!(second, (12, 7));
    assert!(codec.decode(&mut buf).unwrap().is_none());
}

#[test]
fn partial_frame_returns_none_until_complete() {
    let codec = FrameCodec::new();
    let mut buf = BytesMut::new();
    let mut encoded = BytesMut::new();
    codec.encode(&text("partial"), &mut encoded).unwrap();

    for byte in &encoded[..encoded.len() - 1] {
        buf.put_u8(*byte);
        assert!(codec.decode(&mut buf).unwrap().is_none());
    }
    buf.put_u8(*encoded.last().unwrap());
    let payload = codec.decode(&mut buf).unwrap().unwrap();
    let frame: (u32, String) = postcard::from_bytes(&payload).unwrap();
    assert_eq!(frame, (6, "partial".to_string()));
}

#[test]
fn multiple_frames_in_one_buffer() {
    let codec = FrameCodec::new();
    let mut buf = BytesMut::new();
    let frames = [ping(1), ping(2), ping(3)];
    for f in &frames {
        codec.encode(f, &mut buf).unwrap();
    }
    for f in &frames {
        assert_eq!(codec.decode(&mut buf).unwrap().unwrap(), *f);
    }
    assert!(codec.decode(&mut buf).unwrap().is_none());
}

#[test]
fn declared_length_above_max_is_rejected() {
    let codec = FrameCodec::with_max_len(64);
    let mut buf = BytesMut::new();
    buf.put_u32(200);
    let err = codec.decode(&mut buf).unwrap_err();
    assert!(matches!(err, ProtoError::FrameTooLarge(200, 64)));
}

#[test]
fn encoding_payload_above_max_is_rejected() {
    let codec = FrameCodec::with_max_len(8);
    let mut buf = BytesMut::new();
    let err = codec.encode(&vec![0; 1500], &mut buf).unwrap_err();
    assert!(matches!(err, ProtoError::FrameTooLarge(_, 8)));
    assert!(buf.is_empty(), "no bytes should be written on rejection");
}

#[test]
fn frame_bytes_are_a_big_endian_length_and_the_payload() {
    let codec = FrameCodec::new();
    let mut buf = BytesMut::new();
    codec.encode(&vec![0xAA; 258], &mut buf).unwrap();
    assert_eq!(&buf[..4], &[0, 0, 1, 2]);
    assert_eq!(buf.len(), 262);
    assert!(buf[4..].iter().all(|b| *b == 0xAA));
}

#[test]
fn empty_payload_is_read_back() {
    let codec = FrameCodec::new();
    let mut buf = BytesMut::new();
    codec.encode(&Vec::new(), &mut buf).unwrap();
    assert_eq!(&buf[..], &[0, 0, 0, 0]);
    assert_eq!(codec.decode(&mut buf).unwrap(), Some(Vec::new()));
    assert!(buf.is_empty());
}

#[test]
fn limit_is_inclusive_both_ways() {
    let codec = FrameCodec::with_max_len(8);
    assert_eq!(codec.max_len(), 8);
    let mut buf = BytesMut::new();
    codec.encode(&vec![1; 8], &mut buf).unwrap();
    assert_eq!(codec.decode(&mut buf).unwrap(), Some(vec![1; 8]));
    assert_eq!(codec.encode(&vec![1; 9], &mut buf), Err(ProtoError::FrameTooLarge(9, 8)));
    buf.put_u32(9);
    assert_eq!(codec.decode(&mut buf), Err(ProtoError::FrameTooLarge(9, 8)));
}

#[test]
fn default_limit_holds_a_full_ethernet_frame() {
    assert_eq!(FrameCodec::new().max_len(), MAX_FRAME_LEN);
    assert_eq!(FrameCodec::default().max_len(), MAX_FRAME_LEN);
    assert!(MAX_FRAME_LEN >= 64 * 1024);
    assert!(MAX_FRAME_LEN <= 1024 * 1024);
}

#[test]
fn wire_errors_have_messages() {
    assert_eq!(
        ProtoError::FrameTooLarge(200, 64).to_text(),
        "frame too large: declared 200 bytes, max allowed 64"
    );
    assert_eq!(ProtoError::Postcard("x".to_string()).to_text(), "postcard codec: x");
    assert_eq!(ProtoError::Io("broken pipe".to_string()).to_text(), "io: broken pipe");
}

#[test]
fn rejects_oversized_payload_on_encode() {
    let big = "x".repeat(9 * 1024 * 1024);
    let payload = postcard::to_allocvec(&(10u32, big)).unwrap();
    let err = admin_header(payload.len()).unwrap_err();
    assert!(matches!(err, AdminError::FrameTooLarge(_, _)));
}

#[test]
fn admin_lengths_are_read_back() {
    for len in [0usize, 1, 255, 256, 65536, MAX_ADMIN_FRAME] {
        let h = admin_header(len).unwrap();
        assert_eq!(admin_len([h[0], h[1], h[2], h[3]]), Ok(len));
    }
    assert_eq!(
        admin_header(MAX_ADMIN_FRAME + 1),
        Err(AdminError::FrameTooLarge(MAX_ADMIN_FRAME + 1, MAX_ADMIN_FRAME))
    );
    assert_eq!(
        admin_len([0, 128, 0, 1]),
        Err(AdminError::FrameTooLarge(MAX_ADMIN_FRAME + 1, MAX_ADMIN_FRAME))
    );
}

#[test]
fn admin_errors_have_messages() {
    assert_eq!(
        AdminError::FrameTooLarge(9, 8).to_text(),
        "frame too large: 9 bytes (max 8)"
    );
    assert_eq!(AdminError::Io("x".to_string()).to_text(), "io: x");
    assert_eq!(AdminError::Postcard("y".to_string()).to_text(), "postcard: y");
}

#[test]
fn serialized_values_come_off_the_stream_in_order() {
    let codec = FrameCodec::new();
    let sent = vec!["hello".to_string(), String::new(), "世界".to_string()];
    let mut stream = BytesMut::new();
    for s in &sent {
        codec.encode(&postcard::to_allocvec(s).unwrap(), &mut stream).unwrap();
    }
    stream.put_u8(0);
    let mut got: Vec<String> = Vec::new();
    while let Some(payload) = codec.decode(&mut stream).unwrap() {
        got.push(postcard::from_bytes(&payload).unwrap());
    }
    assert_eq!(got, sent);
    assert_eq!(stream.len(), 1);
}
