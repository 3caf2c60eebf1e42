use minimux::protocol::{decode, encode, HEADER_LEN, PIPE_NAME};

#[test]
fn encode_prefixes_little_endian_length() {
    let frame = encode(&[7, 8, 9]);
    assert_eq!(frame, vec![3, 0, 0, 0, 7, 8, 9]);
}

#[test]
fn encode_empty_payload() {
    assert_eq!(encode(&[]), vec![0, 0, 0, 0]);
}

#[test]
fn encode_length_over_255() {
    let payload = vec![0xabu8; 300];
    let frame = encode(&payload);
    assert_eq!(&frame[..4], &[0x2c, 0x01, 0, 0]);
    assert_eq!(frame.len(), 304);
}

#[test]
fn decode_needs_full_header() {
    assert!(decode(&[]).is_none());
    assert!(decode(&[1, 0, 0]).is_none());
}

#[test]
fn decode_needs_full_payload() {
    assert!(decode(&[3, 0, 0, 0, 1, 2]).is_none());
}

#[test]
fn decode_reads_one_frame_and_leaves_the_rest() {
    let mut buf = encode(b"hello");
    buf.extend_from_slice(&encode(b"world"));
    let (payload, consumed) = decode(&buf).unwrap();
    assert_eq!(payload, b"hello".to_vec());
    assert_eq!(consumed, 9);
    let (payload2, consumed2) = decode(&buf[consumed..]).unwrap();
    assert_eq!(payload2, b"world".to_vec());
    assert_eq!(consumed2, 9);
    assert_eq!(consumed + consumed2, buf.len());
}

#[test]
fn decode_empty_frame() {
    let (payload, consumed) = decode(&[0, 0, 0, 0, 42]).unwrap();
    assert!(payload.is_empty());
    assert_eq!(consumed, HEADER_LEN);
}

#[test]
fn decode_of_every_partial_frame_is_none() {
    let frame = encode(&[1, 2, 3, 4, 5]);
    for k in 0..frame.len() {
        assert!(decode(&frame[..k]).is_none(), "prefix of {} bytes", k);
    }
    assert!(decode(&frame).is_some());
}

#[test]
fn decode_huge_announced_length_waits() {
    assert!(decode(&[0xff, 0xff, 0xff, 0xff, 1, 2, 3]).is_none());
}

#[test]
fn pipe_name_is_the_minimux_pipe() {
    assert_eq!(PIPE_NAME, r"\\.\pipe\minimux");
}

use minimux::protocol::FrameBuffer;

#[test]
fn frame_buffer_reassembles_frames_from_pieces() {
    let mut bytes = encode(b"first");
    bytes.extend_from_slice(&encode(b"second"));
    bytes.extend_from_slice(&encode(b"third")[..5]);
    let mut fb = FrameBuffer::new();
    let mut got = Vec::new();
    for piece in bytes.chunks(3) {
        fb.extend(piece);
        while let Some((payload, n)) = fb.next_frame() {
            fb.consume(n);
            got.push(payload);
        }
    }
    assert_eq!(got, vec![b"first".to_vec(), b"second".to_vec()]);
    // Only the incomplete trailing frame is kept.
    assert!(fb.next_frame().is_none());
    fb.extend(&encode(b"third")[5..]);
    assert_eq!(fb.next_frame(), Some((b"third".to_vec(), 9)));
}

#[test]
fn frame_buffer_keeps_an_unconsumed_frame() {
    let mut fb = FrameBuffer::new();
    fb.extend(&encode(b"x"));
    assert_eq!(fb.next_frame(), Some((b"x".to_vec(), 5)));
    assert_eq!(fb.next_frame(), Some((b"x".to_vec(), 5)));
    fb.consume(5);
    assert!(fb.next_frame().is_none());
}

#[test]
fn draining_keeps_only_the_trailing_partial_frame() {
    let mut bytes = encode(b"a");
    bytes.extend_from_slice(&encode(b""));
    bytes.extend_from_slice(&encode(b"bcd"));
    let partial = encode(b"efgh");
    bytes.extend_from_slice(&partial[..6]);
    let mut fb = FrameBuffer::new();
    fb.extend(&bytes);
    let mut taken = Vec::new();
    while let Some((payload, n)) = fb.next_frame() {
        fb.consume(n);
        taken.extend_from_slice(&encode(&payload));
    }
    taken.extend_from_slice(&partial[..6]);
    assert_eq!(taken, bytes);
    assert!(fb.next_frame().is_none());
}
