use xous_tools::reader::{process_tags, TagRecord};
use xous_tools::tags::bflg::Bflg;
use xous_tools::tags::inie::IniE;
use xous_tools::tags::init::Init;
use xous_tools::tags::memory::{MemoryRegion, MemoryRegions};
use xous_tools::tags::xkrn::XousKernel;
use xous_tools::tags::Tag;
use xous_tools::xous_arguments::{make_type, WriteError, XousArgument, XousArguments};

/// A tag that declares one length and writes another.
struct Liar {
    declared: u32,
    body: Vec<u8>,
}

/// A tag that writes less than it says it wrote.
struct Miscount;

impl XousArgument for Miscount {
    fn spec_code(&self) -> u32 {
        panic!("only used in contracts")
    }

    fn spec_length(&self) -> u32 {
        panic!("only used in contracts")
    }

    fn spec_body(&self) -> vstd::seq::Seq<u8> {
        panic!("only used in contracts")
    }

    fn spec_body_at(&self, _offset: usize) -> vstd::seq::Seq<u8> {
        panic!("only used in contracts")
    }

    fn spec_last_data(&self) -> vstd::seq::Seq<u8> {
        panic!("only used in contracts")
    }

    fn spec_text(&self) -> vstd::seq::Seq<char> {
        panic!("only used in contracts")
    }

    fn code(&self) -> u32 {
        make_type("Misc")
    }

    fn length(&self) -> u32 {
        8
    }

    fn finalize(&mut self, _offset: usize) -> usize {
        0
    }

    fn serialize(&self, output: &mut Vec<u8>) -> usize {
        output.extend_from_slice(&[1, 2, 3, 4]);
        8
    }

    fn last_data(&self) -> &[u8] {
        &[]
    }

    fn to_string(&self) -> String {
        String::from("    miscount\n")
    }
}

impl XousArgument for Liar {
    fn spec_code(&self) -> u32 {
        panic!("only used in contracts")
    }

    fn spec_length(&self) -> u32 {
        panic!("only used in contracts")
    }

    fn spec_body(&self) -> vstd::seq::Seq<u8> {
        panic!("only used in contracts")
    }

    fn spec_body_at(&self, _offset: usize) -> vstd::seq::Seq<u8> {
        panic!("only used in contracts")
    }

    fn spec_last_data(&self) -> vstd::seq::Seq<u8> {
        panic!("only used in contracts")
    }

    fn spec_text(&self) -> vstd::seq::Seq<char> {
        panic!("only used in contracts")
    }

    fn code(&self) -> u32 {
        make_type("Liar")
    }

    fn to_string(&self) -> String {
        format!("    liar: {} bytes declared\n", self.declared)
    }

    fn length(&self) -> u32 {
        self.declared
    }

    fn finalize(&mut self, _offset: usize) -> usize {
        0
    }

    fn serialize(&self, output: &mut Vec<u8>) -> usize {
        output.extend_from_slice(&self.body);
        self.body.len()
    }

    fn last_data(&self) -> &[u8] {
        &[]
    }
}

fn sample() -> XousArguments<Tag> {
    let mut args = XousArguments::new(0x4000_0000, 0x0100_0000, make_type("sram"));
    let mut regions = MemoryRegions::new();
    regions.add(MemoryRegion::new(0xe000_0000, 0x10000, "ioio"));
    regions.add(MemoryRegion::new(0xb000_0000, 0x8000, "mlcd"));
    args.add(Tag::MemoryRegions(regions));
    args.add(Tag::XousKernel(XousKernel::new(128, 16, 0x1000, 0x2000, 8, 0x1004)));
    args.add(Tag::Init(Init::new(144, 0x1000, 16, 0x2000, 8, 4, 0x1000)));
    args.add(Tag::Bflg(Bflg::new().debug()));
    args
}

#[test]
fn an_empty_table_is_the_header_tag_alone() {
    let mut args: XousArguments<Tag> = XousArguments::new(0x4000_0000, 0x0100_0000, 0x6d61_7273);
    assert_eq!(args.header_len(), 8);
    assert_eq!(args.len(), 28);
    assert!(args.fits());
    let mut image = Vec::new();
    assert_eq!(args.write(&mut image), Ok(()));
    let body = [
        7, 0, 0, 0, 1, 0, 0, 0, 0, 0, 0, 0x40, 0, 0, 0, 0x01, b's', b'r', b'a', b'm',
    ];
    let crc = crc::crc16::checksum_x25(&body);
    let mut expected = b"XArg".to_vec();
    expected.extend_from_slice(&crc.to_le_bytes());
    expected.extend_from_slice(&[5, 0]);
    expected.extend_from_slice(&body);
    assert_eq!(image, expected);
}

#[test]
fn len_counts_headers_and_declared_bodies() {
    let args = sample();
    assert_eq!(args.len(), 28 + (8 + 24) + (8 + 24) + (8 + 28) + (8 + 4));
    assert!(args.fits());
}

#[test]
fn write_appends_to_what_the_output_holds() {
    let mut args = sample();
    let mut image = vec![0xee, 0xff];
    assert_eq!(args.write(&mut image), Ok(()));
    assert_eq!(&image[..2], &[0xee, 0xff]);
    assert_eq!(&image[2..6], b"XArg");
    assert_eq!(image.len(), 2 + 140);
}

#[test]
fn every_tag_has_the_checksum_of_its_body() {
    let mut args = sample();
    let mut image = Vec::new();
    assert_eq!(args.write(&mut image), Ok(()));
    let mut offset = 0;
    let mut seen = 0;
    while offset < image.len() {
        let stored = u16::from_le_bytes([image[offset + 4], image[offset + 5]]);
        let size = u16::from_le_bytes([image[offset + 6], image[offset + 7]]) as usize * 4;
        let body = &image[offset + 8..offset + 8 + size];
        assert_eq!(stored, crc::crc16::checksum_x25(body));
        assert_ne!(stored as usize, size);
        offset += 8 + size;
        seen += 1;
    }
    assert_eq!(offset, image.len());
    assert_eq!(seen, 5);
}

#[test]
fn reading_a_written_table_gives_the_tags_in_order() {
    let mut args = sample();
    let mut image = Vec::new();
    assert_eq!(args.write(&mut image), Ok(()));
    image.extend_from_slice(&[0x55; 33]);
    let records = process_tags(&image).expect("the table is read back");
    let codes: Vec<u32> = records.iter().map(|record| record.code).collect();
    assert_eq!(
        codes,
        vec![
            make_type("XArg"),
            make_type("MBLK"),
            make_type("XKrn"),
            make_type("Init"),
            make_type("Bflg"),
        ]
    );
    for (record, arg) in records[1..].iter().zip(args.arguments.iter()) {
        let mut body = Vec::new();
        arg.serialize(&mut body);
        assert_eq!(record.body, body);
        assert_eq!(record.crc, crc::crc16::checksum_x25(&record.body));
        assert_eq!(record.body.len() % 4, 0);
    }
    assert_eq!(records[0].body.len(), 20);
    assert_eq!(&records[0].body[0..4], &(140u32 / 4).to_le_bytes());
    assert_eq!(&records[0].body[4..8], &1u32.to_le_bytes());
}

#[test]
fn equal_inputs_give_equal_bytes() {
    let mut first = Vec::new();
    let mut second = Vec::new();
    assert_eq!(sample().write(&mut first), Ok(()));
    assert_eq!(sample().write(&mut second), Ok(()));
    assert_eq!(first, second);
}

#[test]
fn the_length_in_the_header_is_where_the_first_payload_starts() {
    let mut args = XousArguments::new(0x4000_0000, 0x0100_0000, make_type("sram"));
    args.add(IniE::new(0x1000, Vec::new(), vec![0xa1; 10]));
    args.add(IniE::new(0x2000, Vec::new(), vec![0xb2; 6]));
    assert_eq!(args.len(), 28 + 16 + 16);
    let mut image = Vec::new();
    assert_eq!(args.write(&mut image), Ok(()));
    assert_eq!(image.len(), 60 + 10 + 6);
    let total_words = u32::from_le_bytes([image[8], image[9], image[10], image[11]]);
    assert_eq!(total_words * 4, 60);
    assert_eq!(&image[60..70], &[0xa1; 10]);
    assert_eq!(&image[70..76], &[0xb2; 6]);

    let records = process_tags(&image).expect("the table is read back");
    assert_eq!(records.len(), 3);
    assert_eq!(&records[1].body[0..4], &60u32.to_le_bytes());
    assert_eq!(&records[2].body[0..4], &70u32.to_le_bytes());
    assert_eq!(args.arguments[0].load_offset, 60);
    assert_eq!(args.arguments[1].load_offset, 70);
}

#[test]
fn finalize_alone_hands_out_the_offsets() {
    let mut args = XousArguments::new(0, 0, 0);
    args.add(Tag::IniE(IniE::new(1, Vec::new(), vec![1; 3])));
    args.add(Tag::Bflg(Bflg::new()));
    args.add(Tag::IniE(IniE::new(2, Vec::new(), vec![2; 5])));
    args.finalize();
    let offsets: Vec<u32> = args
        .arguments
        .iter()
        .map(|tag| match tag {
            Tag::IniE(tag) => tag.load_offset,
            _ => 0,
        })
        .collect();
    assert_eq!(offsets, vec![72, 0, 75]);
    assert_eq!(args.len(), 72);
}

#[test]
fn a_tag_that_writes_less_than_it_declares_stops_the_writing() {
    let mut args = XousArguments::new(0, 0, 0);
    args.add(Liar { declared: 4, body: vec![1, 2, 3, 4] });
    args.add(Liar { declared: 8, body: vec![5, 6, 7, 8] });
    args.add(Liar { declared: 4, body: vec![9, 9, 9, 9] });
    let mut image = Vec::new();
    assert_eq!(
        args.write(&mut image),
        Err(WriteError::LengthMismatch { index: 1, advertised: 8, actual: 4 })
    );
    assert_eq!(image.len(), 28 + 12);
    assert_eq!(&image[28..32], b"Liar");
    assert_eq!(&image[36..40], &[1, 2, 3, 4]);
}

#[test]
fn a_tag_that_writes_more_than_it_declares_stops_the_writing() {
    let mut args = XousArguments::new(0, 0, 0);
    args.add(Liar { declared: 4, body: vec![0; 8] });
    let mut image = Vec::new();
    assert_eq!(
        args.write(&mut image),
        Err(WriteError::LengthMismatch { index: 0, advertised: 4, actual: 8 })
    );
    assert_eq!(image.len(), 28);
}

#[test]
fn a_tag_that_miscounts_what_it_wrote_stops_the_writing() {
    let mut args = XousArguments::new(0, 0, 0);
    args.add(Miscount);
    let mut image = Vec::new();
    assert_eq!(
        args.write(&mut image),
        Err(WriteError::LengthMismatch { index: 0, advertised: 8, actual: 4 })
    );
    assert_eq!(image.len(), 28);
}

#[test]
fn a_body_that_is_not_whole_words_stops_the_writing() {
    let mut args = XousArguments::new(0, 0, 0);
    args.add(Liar { declared: 6, body: vec![0; 6] });
    let mut image = Vec::new();
    assert_eq!(args.write(&mut image), Err(WriteError::BodySize { index: 0, length: 6 }));
    assert_eq!(image.len(), 28);
}

#[test]
fn a_body_with_too_many_words_stops_the_writing() {
    let mut args = XousArguments::new(0, 0, 0);
    args.add(Liar { declared: 0x3_fffc, body: vec![0; 0x3_fffc] });
    args.add(Liar { declared: 0x4_0000, body: vec![0; 0x4_0000] });
    let mut image = Vec::new();
    assert_eq!(
        args.write(&mut image),
        Err(WriteError::BodySize { index: 1, length: 0x4_0000 })
    );
    assert_eq!(image.len(), 28 + 8 + 0x3_fffc);
    assert_eq!(&image[34..36], &[0xff, 0xff]);
}

#[test]
fn a_table_longer_than_32_bits_does_not_fit() {
    let mut args = XousArguments::new(0, 0, 0);
    args.add(Liar { declared: u32::MAX - 40, body: Vec::new() });
    assert!(args.fits());
    args.add(Liar { declared: 8, body: Vec::new() });
    assert!(!args.fits());
}

#[test]
fn a_table_describes_main_memory_and_every_tag() {
    let mut args = XousArguments::new(0x4000_0000, 0x0100_0000, make_type("sram"));
    args.add(Liar { declared: 12, body: Vec::new() });
    args.add(Liar { declared: 0, body: Vec::new() });
    assert_eq!(
        args.to_string(),
        "Xous Arguments with 2 parameters\n    Main RAM \"sram\" (6d617273): 40000000 - 41000000\n    \
         liar: 12 bytes declared\n    liar: 0 bytes declared\n"
    );
    assert_eq!(args.arguments[0].name(), "Liar");

    let empty: XousArguments<Liar> = XousArguments::new(0xffff_0000, 0x0002_0000, 0);
    assert_eq!(
        empty.to_string(),
        "Xous Arguments with 0 parameters\n    Main RAM \"\0\0\0\0\" (00000000): ffff0000 - 100010000\n"
    );
}

#[test]
fn records_compare_by_their_fields() {
    let a = TagRecord { code: 1, crc: 2, body: vec![3] };
    let b = TagRecord { code: 1, crc: 2, body: vec![3] };
    assert_eq!(a, b);
}

#[test]
fn a_second_finalize_leaves_the_tags_as_the_first_did() {
    let mut args = XousArguments::new(0, 0, 0);
    args.add(Tag::IniE(IniE::new(1, Vec::new(), vec![1; 3])));
    args.add(Tag::Bflg(Bflg::new()));
    args.add(Tag::IniE(IniE::new(2, Vec::new(), vec![2; 5])));
    args.finalize();
    let once: Vec<Vec<u8>> = args
        .arguments
        .iter()
        .map(|tag| {
            let mut body = Vec::new();
            tag.serialize(&mut body);
            body
        })
        .collect();
    let len = args.len();
    args.finalize();
    let twice: Vec<Vec<u8>> = args
        .arguments
        .iter()
        .map(|tag| {
            let mut body = Vec::new();
            tag.serialize(&mut body);
            body
        })
        .collect();
    assert_eq!(once, twice);
    assert_eq!(args.len(), len);
    assert_eq!(&once[0][0..4], &72u32.to_le_bytes());
    assert_eq!(&once[2][0..4], &75u32.to_le_bytes());

    let mut first = Vec::new();
    assert_eq!(args.write(&mut first), Ok(()));
    let mut second = Vec::new();
    assert_eq!(args.write(&mut second), Ok(()));
    assert_eq!(first, second);
}
