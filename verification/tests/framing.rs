use bank_network::framing::{encode_frame, split_frames, BUFFER_SIZE};

#[test]
fn encode_frame_puts_big_endian_length_first() {
    assert_eq!(encode_frame(b"abc"), vec![0, 3, b'a', b'b', b'c']);
    let long = vec![7u8; 300];
    let framed = encode_frame(&long);
    assert_eq!(framed.len(), 302);
    assert_eq!(&framed[..2], &[1, 44]);
    assert_eq!(&framed[2..], &long[..]);
}

#[test]
fn encode_frame_of_empty_payload_is_bare_header() {
    assert_eq!(encode_frame(&[]), vec![0, 0]);
}

#[test]
fn encode_frame_truncates_length_to_sixteen_bits() {
    let huge = vec![1u8; 65536 + 5];
    let framed = encode_frame(&huge);
    assert_eq!(&framed[..2], &[0, 5]);
    assert_eq!(framed.len(), 65536 + 7);
}

#[test]
fn split_frames_takes_every_complete_frame() {
    let mut buf = encode_frame(b"hello");
    buf.extend(encode_frame(b"world"));
    buf.extend(vec![0, 9, b'x']);
    let (frames, rest) = split_frames(&buf);
    assert_eq!(frames, vec![b"hello".to_vec(), b"world".to_vec()]);
    assert_eq!(rest, vec![0, 9, b'x']);
}

#[test]
fn split_frames_keeps_short_buffers() {
    let (frames, rest) = split_frames(&vec![0, 1]);
    assert!(frames.is_empty());
    assert_eq!(rest, vec![0, 1]);
    let (frames, rest) = split_frames(&vec![]);
    assert!(frames.is_empty());
    assert!(rest.is_empty());
}

#[test]
fn split_frames_leaves_trailing_empty_frame() {
    // A lone header announcing an empty payload is not taken for a frame.
    let (frames, rest) = split_frames(&vec![0, 0]);
    assert!(frames.is_empty());
    assert_eq!(rest, vec![0, 0]);
    // Followed by more bytes, it is.
    let (frames, rest) = split_frames(&vec![0, 0, 0, 1, b'z']);
    assert_eq!(frames, vec![Vec::<u8>::new(), b"z".to_vec()]);
    assert!(rest.is_empty());
}

#[test]
fn split_frames_is_indifferent_to_read_boundaries() {
    let mut stream = encode_frame(b"first");
    stream.extend(encode_frame(b"second message"));
    stream.extend(encode_frame(b"third"));
    let (all, all_rest) = split_frames(&stream);
    for cut in 0..=stream.len() {
        let (mut frames, rest) = split_frames(&stream[..cut].to_vec());
        let mut next = rest.clone();
        next.extend_from_slice(&stream[cut..]);
        let (more, rest2) = split_frames(&next);
        frames.extend(more);
        assert_eq!(frames, all);
        assert_eq!(rest2, all_rest);
    }
}

#[test]
fn read_buffer_size_is_512() {
    assert_eq!(BUFFER_SIZE, 512);
}
