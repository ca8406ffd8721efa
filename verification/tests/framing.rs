use not_rsync::read_message;
use not_rsync::read_message_len_header;
use not_rsync::write_message;
use not_rsync::write_message_len;
use not_rsync::ByteReader;
use not_rsync::FrameError;

#[test]
fn header_is_big_endian_length() {
    let mut buf: Vec<u8> = Vec::new();
    let message = b"hello".to_vec();
    assert!(write_message_len(&mut buf, &message).is_ok());
    assert_eq!(buf, vec![0, 0, 0, 5]);
}

#[test]
fn header_of_large_length() {
    let mut buf: Vec<u8> = vec![9];
    let message = vec![7u8; 0x0102];
    assert!(write_message_len(&mut buf, &message).is_ok());
    assert_eq!(buf, vec![9, 0, 0, 1, 2]);
}

#[test]
fn header_decodes_big_endian() {
    let mut reader = ByteReader::new(vec![1, 2, 3, 4, 5]);
    assert_eq!(read_message_len_header(&mut reader), Ok(0x01020304));
    assert_eq!(reader.remaining_len(), 1);
}

#[test]
fn frame_roundtrip() {
    let message = b"a framed message".to_vec();
    let mut wire: Vec<u8> = Vec::new();
    write_message_len(&mut wire, &message).unwrap();
    write_message(&mut wire, message.clone()).unwrap();
    wire.extend_from_slice(b"next");
    let mut reader = ByteReader::new(wire);
    let len = read_message_len_header(&mut reader).unwrap();
    assert_eq!(len as usize, message.len());
    let body = read_message(&mut reader, len as usize).unwrap();
    assert_eq!(body, message);
    assert_eq!(reader.remaining_len(), 4);
}

#[test]
fn empty_message_roundtrip() {
    let mut wire: Vec<u8> = Vec::new();
    write_message_len(&mut wire, &Vec::new()).unwrap();
    write_message(&mut wire, Vec::new()).unwrap();
    assert_eq!(wire, vec![0, 0, 0, 0]);
    let mut reader = ByteReader::new(wire);
    assert_eq!(read_message_len_header(&mut reader), Ok(0));
    assert_eq!(read_message(&mut reader, 0), Ok(Vec::new()));
}

#[test]
fn short_header_is_eof_and_drains() {
    let mut reader = ByteReader::new(vec![0, 0, 1]);
    assert_eq!(read_message_len_header(&mut reader), Err(FrameError::UnexpectedEof));
    assert_eq!(reader.remaining_len(), 0);
}

#[test]
fn short_body_is_eof_and_drains() {
    let mut reader = ByteReader::new(vec![1, 2, 3]);
    assert_eq!(read_message(&mut reader, 4), Err(FrameError::UnexpectedEof));
    assert_eq!(reader.remaining_len(), 0);
}

#[test]
fn write_message_appends() {
    let mut buf: Vec<u8> = vec![1, 2];
    assert!(write_message(&mut buf, vec![3, 4]).is_ok());
    assert_eq!(buf, vec![1, 2, 3, 4]);
}
