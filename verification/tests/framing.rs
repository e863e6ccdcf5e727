use course_chat::constants::CLIENT_MSG_BUFFER_SIZE;
use course_chat::framing::{
    content_from_buffer, encoded_length, frame_encoded, u32_from_be_bytes, u32_to_be_bytes,
    FrameError, FrameReader,
};

#[test]
fn be_bytes_of_known_values() {
    assert_eq!(u32_to_be_bytes(0), [0, 0, 0, 0]);
    assert_eq!(u32_to_be_bytes(258), [0, 0, 1, 2]);
    assert_eq!(u32_to_be_bytes(0x0102_0304), [1, 2, 3, 4]);
    assert_eq!(u32_to_be_bytes(u32::MAX), [255, 255, 255, 255]);
}

#[test]
fn be_roundtrip_on_samples() {
    for v in [0u32, 1, 255, 256, 65_535, 65_536, 0xdead_beef, u32::MAX] {
        let b = u32_to_be_bytes(v);
        assert_eq!(u32_from_be_bytes(b[0], b[1], b[2], b[3]), v);
        assert_eq!(v.to_be_bytes(), b);
    }
}

#[test]
fn encoded_length_is_the_length() {
    assert_eq!(encoded_length(&vec![1, 2, 3]), 3);
    assert_eq!(encoded_length(&Vec::new()), 0);
}

#[test]
fn frame_puts_length_first() {
    let framed = frame_encoded(3, vec![7, 8, 9]).unwrap();
    assert_eq!(framed, vec![0, 0, 0, 3, 7, 8, 9]);
}

#[test]
fn frame_at_the_buffer_limit() {
    let limit = (CLIENT_MSG_BUFFER_SIZE - 4) as u32;
    let content = vec![1u8; limit as usize];
    let framed = frame_encoded(limit, content).unwrap();
    assert_eq!(framed.len(), CLIENT_MSG_BUFFER_SIZE);
    assert_eq!(frame_encoded(limit + 1, vec![1u8; limit as usize + 1]), Err(FrameError::ExceedsBuffer));
}

#[test]
fn buffer_gives_back_the_framed_content() {
    let content = b"hello, chat".to_vec();
    let mut buffer = frame_encoded(content.len() as u32, content.clone()).unwrap();
    buffer.resize(CLIENT_MSG_BUFFER_SIZE, 0xaa);
    assert_eq!(content_from_buffer(&buffer), content);
}

#[test]
fn buffer_with_short_content_gives_what_is_there() {
    let buffer = [0u8, 0, 0, 10, 1, 2, 3];
    assert_eq!(content_from_buffer(&buffer), vec![1, 2, 3]);
    let empty = [0u8, 0, 0, 0, 9, 9];
    assert_eq!(content_from_buffer(&empty), Vec::<u8>::new());
}

fn feed(reader: &mut FrameReader, bytes: &[u8]) -> Option<usize> {
    for (i, b) in bytes.iter().enumerate() {
        if reader.push_byte(*b) {
            return Some(i);
        }
    }
    None
}

#[test]
fn reader_reassembles_a_frame() {
    let content = b"abcdef".to_vec();
    let framed = frame_encoded(6, content.clone()).unwrap();
    let mut reader = FrameReader::new();
    assert_eq!(feed(&mut reader, &framed), Some(framed.len() - 1));
    assert_eq!(reader.into_content(), content);
}

#[test]
fn reader_ignores_what_follows_a_frame() {
    let mut bytes = frame_encoded(2, vec![5, 6]).unwrap();
    bytes.extend_from_slice(&[7, 8, 9]);
    let mut reader = FrameReader::new();
    assert_eq!(feed(&mut reader, &bytes), Some(5));
    assert_eq!(reader.content(), &vec![5, 6]);
}

#[test]
fn reader_takes_two_bytes_for_a_one_byte_frame() {
    let mut reader = FrameReader::new();
    assert_eq!(feed(&mut reader, &[0, 0, 0, 1, 42]), None);
    assert!(reader.push_byte(43));
    assert_eq!(reader.into_content(), vec![42, 43]);
}

#[test]
fn reader_of_an_empty_frame_keeps_restarting() {
    let mut reader = FrameReader::new();
    assert_eq!(feed(&mut reader, &[0, 0, 0, 0, 1, 2, 3]), None);
    assert_eq!(reader.into_content(), vec![3]);
}

#[test]
fn lengths_near_the_top_are_too_large() {
    assert_eq!(frame_encoded(u32::MAX, vec![1, 2]), Err(FrameError::ExceedsBuffer));
    assert_eq!(frame_encoded(u32::MAX - 3, vec![]), Err(FrameError::ExceedsBuffer));
}
