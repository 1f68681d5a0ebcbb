use sysmon_companion::frame::{encode_frame, frame_length, FrameError, MAX_FRAME_BYTES, PROTOCOL_VERSION};

#[test]
fn protocol_constants() {
    assert_eq!(PROTOCOL_VERSION, 4);
    assert_eq!(MAX_FRAME_BYTES, 1024 * 1024);
}

#[test]
fn length_prefix_is_little_endian() {
    assert_eq!(frame_length([5, 0, 0, 0]), Ok(5));
    assert_eq!(frame_length([0x34, 0x12, 0, 0]), Ok(0x1234));
    assert_eq!(frame_length([0, 0, 0x10, 0]), Ok(1024 * 1024));
}

#[test]
fn zero_length_is_refused() {
    assert_eq!(frame_length([0, 0, 0, 0]), Err(FrameError::InvalidLength));
}

#[test]
fn oversized_length_is_refused() {
    assert_eq!(frame_length([1, 0, 0x10, 0]), Err(FrameError::InvalidLength));
    assert_eq!(frame_length([0xff, 0xff, 0xff, 0xff]), Err(FrameError::InvalidLength));
    assert_eq!(frame_length([0, 0, 0, 1]), Err(FrameError::InvalidLength));
}

#[test]
fn encode_prefixes_the_length() {
    let framed = encode_frame(b"{\"type\":\"ready\",\"v\":1}").unwrap();
    assert_eq!(&framed[..4], &[22, 0, 0, 0]);
    assert_eq!(&framed[4..], b"{\"type\":\"ready\",\"v\":1}");
}

#[test]
fn encode_refuses_empty_payload() {
    assert_eq!(encode_frame(&[]), Err(FrameError::InvalidSize));
}

#[test]
fn encode_refuses_oversized_payload() {
    let big = vec![b'a'; MAX_FRAME_BYTES + 1];
    assert_eq!(encode_frame(&big), Err(FrameError::InvalidSize));
    let max = vec![b'a'; MAX_FRAME_BYTES];
    let framed = encode_frame(&max).unwrap();
    assert_eq!(framed.len(), MAX_FRAME_BYTES + 4);
    assert_eq!(&framed[..4], &[0, 0, 0x10, 0]);
}

#[test]
fn frame_roundtrip() {
    let payload: Vec<u8> = (0..300u32).map(|i| (i % 251) as u8).collect();
    let framed = encode_frame(&payload).unwrap();
    let prefix = [framed[0], framed[1], framed[2], framed[3]];
    let n = frame_length(prefix).unwrap();
    assert_eq!(n, 300);
    assert_eq!(&framed[4..4 + n], payload.as_slice());
}

#[test]
fn frame_error_messages() {
    assert_eq!(FrameError::InvalidLength.message(), "invalid frame length");
    assert_eq!(FrameError::InvalidSize.message(), "outbound frame has an invalid size");
}
