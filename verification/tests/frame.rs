use nothing_core::frame::HEADER_LEN;
use nothing_core::{crc16_arc, Frame, FrameDecoder, ProtocolError, START_BYTE};

#[test]
fn known_crc_vector() {
    assert_eq!(crc16_arc(b"123456789"), 0x4b37);
}

#[test]
fn exact_empty_frame_vector() {
    let frame = Frame::new(0xc001, 1, vec![]).unwrap_or_else(|e| panic!("{}", e.message()));
    assert_eq!(
        frame.encode().unwrap_or_else(|e| panic!("{}", e.message())),
        vec![0x55, 0x60, 0x01, 0x01, 0xc0, 0, 0, 1, 0x24, 0xdf]
    );
}

#[test]
fn partial_and_multiple_frames() {
    let first = Frame::new(0xc007, 254, vec![])
        .unwrap_or_else(|e| panic!("{}", e.message()))
        .encode()
        .unwrap_or_else(|e| panic!("{}", e.message()));
    let second = Frame::new(0xc01f, 255, vec![1])
        .unwrap_or_else(|e| panic!("{}", e.message()))
        .encode()
        .unwrap_or_else(|e| panic!("{}", e.message()));
    let mut decoder = FrameDecoder::new();
    assert!(decoder
        .push(&first[..3])
        .unwrap_or_else(|e| panic!("{}", e.message()))
        .is_empty());
    let mut remaining = first[3..].to_vec();
    remaining.extend(second);
    let decoded = decoder
        .push(&remaining)
        .unwrap_or_else(|e| panic!("{}", e.message()));
    assert_eq!(decoded.len(), 2);
    assert_eq!(decoded[1].sequence, 255);
}

#[test]
fn rejects_crc_and_oversized_lengths() {
    let mut bad = Frame::new(0xc007, 1, vec![1])
        .unwrap_or_else(|e| panic!("{}", e.message()))
        .encode()
        .unwrap_or_else(|e| panic!("{}", e.message()));
    let last = bad.len() - 1;
    bad[last] ^= 0xff;
    assert!(matches!(
        FrameDecoder::new().push(&bad),
        Err(ProtocolError::BadCrc { .. })
    ));
    let header = [START_BYTE, 0x60, 1, 7, 0xc0, 1, 0x10, 1];
    assert_eq!(
        FrameDecoder::new().push(&header),
        Err(ProtocolError::FrameTooLarge(4097))
    );
}

#[test]
fn decoding_an_encoded_frame_gives_it_back() {
    let payload: Vec<u8> = (0..=255u8).collect();
    let frame = Frame::new(0x4018, 42, payload.clone()).unwrap();
    let bytes = frame.encode().unwrap();
    assert_eq!(bytes.len(), HEADER_LEN + payload.len() + 2);
    let decoded = FrameDecoder::new().push(&bytes).unwrap();
    assert_eq!(decoded.len(), 1);
    assert_eq!(decoded[0].command, 0x4018);
    assert_eq!(decoded[0].sequence, 42);
    assert_eq!(decoded[0].payload, payload);
}

#[test]
fn byte_by_byte_input_decodes_like_one_chunk() {
    let mut stream = Vec::new();
    for (sequence, payload) in [(1u8, vec![]), (2, vec![9, 8, 7]), (3, vec![0x55, 0x55])] {
        stream.extend(Frame::new(0xc01e, sequence, payload).unwrap().encode().unwrap());
    }
    let whole = FrameDecoder::new().push(&stream).unwrap();
    let mut decoder = FrameDecoder::new();
    let mut pieces = Vec::new();
    for byte in &stream {
        pieces.extend(decoder.push(&[*byte]).unwrap());
    }
    assert_eq!(whole.len(), 3);
    assert_eq!(pieces.len(), 3);
    for (a, b) in whole.iter().zip(pieces.iter()) {
        assert_eq!(a.sequence, b.sequence);
        assert_eq!(a.payload, b.payload);
    }
}

#[test]
fn noise_before_a_start_byte_is_skipped() {
    let mut stream = vec![0x00, 0x13, 0x37];
    stream.extend(Frame::new(0xc007, 5, vec![1, 2]).unwrap().encode().unwrap());
    let frames = FrameDecoder::new().push(&stream).unwrap();
    assert_eq!(frames.len(), 1);
    assert_eq!(frames[0].payload, vec![1, 2]);
}

#[test]
fn oversized_payloads_are_refused() {
    assert_eq!(
        Frame::new(0xc007, 1, vec![0; 4097]).err(),
        Some(ProtocolError::FrameTooLarge(4097))
    );
    assert!(Frame::new(0xc007, 1, vec![0; 4096]).is_ok());
}

#[test]
fn protocol_errors_describe_themselves() {
    assert_eq!(
        ProtocolError::BadCrc { received: 0x1234, expected: 0xabcd }.message(),
        "frame checksum mismatch: received 0x1234, expected 0xabcd"
    );
    assert_eq!(
        ProtocolError::FrameTooLarge(4097).message(),
        "payload exceeds the 4097-byte safety bound"
    );
    assert_eq!(
        ProtocolError::MalformedLength.message(),
        "declared frame length is malformed"
    );
}

#[test]
fn garbage_without_start_bytes_is_dropped() {
    let mut decoder = FrameDecoder::new();
    assert!(decoder.push(&vec![0u8; 5000]).unwrap().is_empty());
    let frame = Frame::new(0xc007, 9, vec![7]).unwrap().encode().unwrap();
    let decoded = decoder.push(&frame).unwrap();
    assert_eq!(decoded.len(), 1);
    assert_eq!(decoded[0].payload, vec![7]);
}
