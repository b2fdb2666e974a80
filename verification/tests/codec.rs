use bytes::{Bytes, BytesMut};
use rabbit::codec::{encode_frame, CodecError, FrameDecoder, MAX_FRAME_LEN};

fn roundtrip(payload: &[u8]) -> serde_json::Value {
    let encoded = encode_frame(payload);
    let mut dec = FrameDecoder::new();
    dec.feed(encoded);
    let frame = dec.next_frame().expect("frame present").expect("decode ok");
    assert_eq!(frame.as_ref(), payload);
    serde_json::from_slice(&frame).expect("json")
}

#[test]
fn codec_hello_roundtrip() {
    let v = roundtrip(br#"{"Hello":{"assigned_port":9000}}"#);
    assert_eq!(v["Hello"]["assigned_port"], 9000);
}

#[test]
fn codec_heartbeat_roundtrip() {
    let v = roundtrip(br#""Heartbeat""#);
    assert_eq!(v, "Heartbeat");
}

#[test]
fn codec_error_roundtrip() {
    let v = roundtrip(br#"{"Error":"oops"}"#);
    assert_eq!(v["Error"], "oops");
}

#[test]
fn codec_response_meta_roundtrip() {
    let v = roundtrip(
        br#"{"ResponseMeta":{"request_id":"r1","status":200,"headers":{"content-type":"application/json"}}}"#,
    );
    assert_eq!(v["ResponseMeta"]["request_id"], "r1");
    assert_eq!(v["ResponseMeta"]["status"], 200);
    assert_eq!(v["ResponseMeta"]["headers"]["content-type"], "application/json");
}

#[test]
fn codec_response_chunk_roundtrip() {
    let v = roundtrip(br#"{"ResponseChunk":{"request_id":"r2","data":[0,222,173,190,239]}}"#);
    assert_eq!(v["ResponseChunk"]["request_id"], "r2");
    let data: Vec<u8> = v["ResponseChunk"]["data"]
        .as_array()
        .unwrap()
        .iter()
        .map(|x| x.as_u64().unwrap() as u8)
        .collect();
    assert_eq!(data, b"\x00\xde\xad\xbe\xef".to_vec());
}

#[test]
fn codec_response_end_roundtrip() {
    let v = roundtrip(br#"{"ResponseEnd":{"request_id":"r3"}}"#);
    assert_eq!(v["ResponseEnd"]["request_id"], "r3");
}

#[test]
fn inbound_roundtrip() {
    let v = roundtrip(
        br#"{"Inbound":{"id":"r4","method":"POST","path":"/api","query":"k=v","headers":{"x-foo":"bar"},"body":[98,111,100,121,32,98,121,116,101,115]}}"#,
    );
    assert_eq!(v["Inbound"]["id"], "r4");
    assert_eq!(v["Inbound"]["method"], "POST");
    let body: Vec<u8> = v["Inbound"]["body"]
        .as_array()
        .unwrap()
        .iter()
        .map(|x| x.as_u64().unwrap() as u8)
        .collect();
    assert_eq!(body, b"body bytes".to_vec());
}

#[test]
fn partial_feed_then_complete() {
    let payload = br#"{"Hello":{"assigned_port":42}}"#;
    let encoded = encode_frame(payload);
    let mid = encoded.len() / 2;
    let (first, second) = encoded.split_at(mid);

    let mut dec = FrameDecoder::new();
    dec.feed(Bytes::copy_from_slice(first));
    assert!(dec.next_frame().is_none(), "incomplete — should yield nothing");
    dec.feed(Bytes::copy_from_slice(second));
    let f = dec.next_frame().expect("frame present").expect("decode ok");
    assert_eq!(f.as_ref(), payload.as_ref());
    let v: serde_json::Value = serde_json::from_slice(&f).unwrap();
    assert_eq!(v["Hello"]["assigned_port"], 42);
}

#[test]
fn two_frames_in_one_feed() {
    let a = encode_frame(br#""Heartbeat""#);
    let b = encode_frame(br#"{"Hello":{"assigned_port":7}}"#);
    let mut combined = BytesMut::new();
    combined.extend_from_slice(&a);
    combined.extend_from_slice(&b);

    let mut dec = FrameDecoder::new();
    dec.feed(combined.freeze());
    assert_eq!(dec.next_frame().unwrap().unwrap().as_ref(), br#""Heartbeat""#.as_ref());
    assert_eq!(
        dec.next_frame().unwrap().unwrap().as_ref(),
        br#"{"Hello":{"assigned_port":7}}"#.as_ref()
    );
    assert!(dec.next_frame().is_none());
}

#[test]
fn encode_frame_prefixes_big_endian_length() {
    let encoded = encode_frame(b"abc");
    assert_eq!(encoded.as_ref(), &[0, 0, 0, 3, b'a', b'b', b'c']);
}

#[test]
fn oversized_header_is_refused_and_kept() {
    let mut dec = FrameDecoder::new();
    let n = MAX_FRAME_LEN + 1;
    dec.feed(Bytes::copy_from_slice(&n.to_be_bytes()));
    match dec.next_frame() {
        Some(Err(CodecError::FrameTooLarge(len))) => assert_eq!(len, n),
        _ => panic!("expected FrameTooLarge"),
    }
    // The header stays buffered: the same error comes again.
    assert!(matches!(dec.next_frame(), Some(Err(CodecError::FrameTooLarge(_)))));
}

#[test]
fn drain_takes_complete_frames_and_keeps_partial() {
    let a = encode_frame(b"one");
    let b = encode_frame(b"two");
    let c = encode_frame(b"three");
    let mut all = BytesMut::new();
    all.extend_from_slice(&a);
    all.extend_from_slice(&b);
    all.extend_from_slice(&c[..5]);
    let mut dec = FrameDecoder::new();
    dec.feed(all.freeze());
    let (frames, err) = dec.drain();
    assert!(err.is_none());
    assert_eq!(frames.len(), 2);
    assert_eq!(frames[0].as_ref(), b"one");
    assert_eq!(frames[1].as_ref(), b"two");
    dec.feed(Bytes::copy_from_slice(&c[5..]));
    let (frames, err) = dec.drain();
    assert!(err.is_none());
    assert_eq!(frames.len(), 1);
    assert_eq!(frames[0].as_ref(), b"three");
}

#[test]
fn frames_fed_byte_by_byte_come_out_in_order() {
    let payloads: Vec<&[u8]> = vec![b"first", b"", b"third frame"];
    let mut all = BytesMut::new();
    for p in &payloads {
        all.extend_from_slice(&encode_frame(p));
    }
    let mut dec = FrameDecoder::new();
    let mut out: Vec<Vec<u8>> = Vec::new();
    for b in all.iter() {
        dec.feed(Bytes::copy_from_slice(&[*b]));
        let (frames, err) = dec.drain();
        assert!(err.is_none());
        out.extend(frames.into_iter().map(|f| f.to_vec()));
    }
    assert_eq!(out, payloads.iter().map(|p| p.to_vec()).collect::<Vec<_>>());
    assert_eq!(dec.buffered(), 0);
}
