use message_io::frame::{encode_frame, FramedDecoder, FRAME_HEADER_LEN};

#[test]
fn encode_exact_bytes() {
    let encoded = encode_frame(&vec![1u8, 2, 3]);
    assert_eq!(encoded, vec![3u8, 0, 0, 0, 1, 2, 3]);
    assert_eq!(FRAME_HEADER_LEN, 4);
}

#[test]
fn encode_empty_payload() {
    let encoded = encode_frame(&Vec::new());
    assert_eq!(encoded, vec![0u8, 0, 0, 0]);
}

#[test]
fn single_frame_roundtrip() {
    let payload = vec![10u8, 20, 30, 40, 50];
    let mut decoder = FramedDecoder::new();
    decoder.push_bytes(&encode_frame(&payload));
    assert_eq!(decoder.next_frame(), Some(payload));
    assert_eq!(decoder.next_frame(), None);
}

#[test]
fn frames_in_order_whatever_the_split() {
    let payloads = vec![vec![1u8, 2], vec![], vec![3u8, 4, 5, 6, 7]];
    let mut stream = Vec::new();
    for p in &payloads {
        stream.extend_from_slice(&encode_frame(p));
    }
    // feed the same stream one byte at a time
    let mut decoder = FramedDecoder::new();
    let mut received = Vec::new();
    for b in &stream {
        decoder.push_bytes(&vec![*b]);
        while let Some(frame) = decoder.next_frame() {
            received.push(frame);
        }
    }
    assert_eq!(received, payloads);
}

#[test]
fn incomplete_frame_waits() {
    let mut decoder = FramedDecoder::new();
    decoder.push_bytes(&vec![5u8, 0, 0]);
    assert_eq!(decoder.next_frame(), None);
    decoder.push_bytes(&vec![0u8, 100, 101]);
    assert_eq!(decoder.next_frame(), None);
    decoder.push_bytes(&vec![102u8, 103, 104]);
    assert_eq!(decoder.next_frame(), Some(vec![100u8, 101, 102, 103, 104]));
    assert_eq!(decoder.next_frame(), None);
}
