use xous_tools::reader::{process_tag, process_tags, read_next_tag, TagError, TagRecord};
use xous_tools::xous_arguments::make_type;

fn tag(code: &[u8; 4], body: &[u8]) -> Vec<u8> {
    let mut bytes = code.to_vec();
    bytes.extend_from_slice(&crc::crc16::checksum_x25(body).to_le_bytes());
    bytes.extend_from_slice(&((body.len() / 4) as u16).to_le_bytes());
    bytes.extend_from_slice(body);
    bytes
}

fn header(total: u32) -> Vec<u8> {
    let mut body = (total / 4).to_le_bytes().to_vec();
    body.extend_from_slice(&1u32.to_le_bytes());
    body.extend_from_slice(&0x4000_0000u32.to_le_bytes());
    body.extend_from_slice(&0x0100_0000u32.to_le_bytes());
    body.extend_from_slice(b"sram");
    tag(b"XArg", &body)
}

#[test]
fn read_next_tag_gives_code_checksum_and_size_in_bytes() {
    let bytes = [b'I', b'n', b'i', b't', 0x34, 0x12, 0x07, 0x00, 0xff];
    assert_eq!(read_next_tag(&bytes, 0), Some((make_type("Init"), 0x1234, 28)));
    assert_eq!(read_next_tag(&bytes, 1), Some((0x3474_696e, 0x0712, 0xff00 * 4)));
    assert_eq!(read_next_tag(&bytes, 2), None);
    assert_eq!(read_next_tag(&bytes[..7], 0), None);
    assert_eq!(read_next_tag(&bytes, usize::MAX), None);
}

#[test]
fn process_tag_copies_the_body() {
    let mut bytes = vec![0xff; 3];
    bytes.extend_from_slice(&tag(b"Bflg", &[4, 0, 0, 0]));
    let record = process_tag(&bytes, 3).expect("the tag is whole");
    assert_eq!(
        record,
        TagRecord {
            code: make_type("Bflg"),
            crc: crc::crc16::checksum_x25(&[4, 0, 0, 0]),
            body: vec![4, 0, 0, 0],
        }
    );
    assert_eq!(process_tag(&bytes[..bytes.len() - 1], 3), None);
    assert_eq!(process_tag(&bytes, 8), None);
}

#[test]
fn a_table_is_read_up_to_the_length_in_its_header() {
    let mut bytes = header(28 + 12 + 16);
    bytes.extend_from_slice(&tag(b"Bflg", &[4, 0, 0, 0]));
    bytes.extend_from_slice(&tag(b"abcd", &[1, 2, 3, 4, 5, 6, 7, 8]));
    bytes.extend_from_slice(&tag(b"past", &[0; 4]));
    let records = process_tags(&bytes).expect("the table is whole");
    assert_eq!(records.len(), 3);
    assert_eq!(records[0].code, make_type("XArg"));
    assert_eq!(records[1].body, vec![4, 0, 0, 0]);
    assert_eq!(records[2].code, make_type("abcd"));
    assert_eq!(records[2].body, vec![1, 2, 3, 4, 5, 6, 7, 8]);
}

#[test]
fn a_table_that_ends_early_is_truncated() {
    assert_eq!(process_tags(&[]), Err(TagError::Truncated));
    assert_eq!(process_tags(&header(28)[..27]), Err(TagError::Truncated));
    let mut bytes = header(28 + 12);
    bytes.extend_from_slice(&tag(b"Bflg", &[4, 0, 0, 0])[..11]);
    assert_eq!(process_tags(&bytes), Err(TagError::Truncated));
    assert_eq!(process_tags(&header(28 + 12)), Err(TagError::Truncated));
}

#[test]
fn a_table_must_start_with_the_header_tag() {
    let bytes = tag(b"Bflg", &[0; 20]);
    assert_eq!(process_tags(&bytes), Err(TagError::MissingHeader));
    let bytes = tag(b"XArg", &[0; 16]);
    assert_eq!(process_tags(&bytes), Err(TagError::MissingHeader));
}

#[test]
fn a_body_that_was_changed_is_found_out() {
    let mut bytes = header(28 + 12);
    bytes.extend_from_slice(&tag(b"Bflg", &[4, 0, 0, 0]));
    assert!(process_tags(&bytes).is_ok());
    bytes[36] ^= 1;
    assert_eq!(process_tags(&bytes), Err(TagError::BadChecksum));
    let mut bytes = header(28);
    bytes[12] ^= 0x80;
    assert_eq!(process_tags(&bytes), Err(TagError::BadChecksum));
}

#[test]
fn a_tag_beyond_the_length_in_the_header_is_an_overrun() {
    let mut bytes = header(28 + 8);
    bytes.extend_from_slice(&tag(b"Bflg", &[4, 0, 0, 0]));
    assert_eq!(process_tags(&bytes), Err(TagError::Overrun));
    assert_eq!(process_tags(&header(0)), Err(TagError::Overrun));
    assert_eq!(process_tags(&header(24)), Err(TagError::Overrun));
}
