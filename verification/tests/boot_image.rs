use xous_tools::elf::ProgramDescription;
use xous_tools::image::{
    create_image, image_arguments, pad_to_4_bytes, write_image, ImageError,
};
use xous_tools::tags::inie::IniE;
use xous_tools::tags::Tag;
use xous_tools::xous_arguments::{WriteError, XousArguments};
use xous_tools::reader::process_tags;
use xous_tools::tags::memory::{MemoryRegion, MemoryRegions};
use xous_tools::xous_arguments::make_type;

fn program(fill: u8, len: usize) -> ProgramDescription {
    ProgramDescription {
        text_offset: 0x0001_0000,
        text_size: len as u32,
        data_offset: 0x0002_0000,
        data_size: 16,
        bss_size: 32,
        entry_point: 0x0001_0004,
        program: vec![fill; len],
    }
}

fn word(bytes: &[u8], at: usize) -> u32 {
    u32::from_le_bytes([bytes[at], bytes[at + 1], bytes[at + 2], bytes[at + 3]])
}

#[test]
fn a_kernel_alone_follows_its_tag() {
    let kernel = program(0xcc, 65536);
    let image = create_image(
        0x4000_0000,
        0x0100_0000,
        make_type("sram"),
        MemoryRegions::new(),
        &kernel,
        &Vec::new(),
        false,
    )
    .expect("the image is put together");
    let table_len = 28 + 8 + 24;
    assert_eq!(&image[0..4], b"XArg");
    assert_eq!(word(&image, 8) * 4, table_len as u32);
    assert_eq!(word(&image, 16), 0x4000_0000);
    assert_eq!(word(&image, 20), 0x0100_0000);
    assert_eq!(&image[24..28], b"sram");
    assert_eq!(&image[28..32], b"XKrn");
    assert_eq!(word(&image, 36), table_len as u32);
    assert_eq!(word(&image, 40), 65536);
    assert_eq!(word(&image, 44), 0x0001_0000);
    assert_eq!(word(&image, 48), 0x0002_0000);
    assert_eq!(word(&image, 52), 16);
    assert_eq!(word(&image, 56), 0x0001_0004);
    assert_eq!(&image[table_len..], &vec![0xcc; 65536][..]);
    assert_eq!(image.len(), table_len + 65536);
    assert_eq!(image.len() % 4, 0);

    let records = process_tags(&image).expect("the table is read back");
    assert_eq!(records.len(), 2);
    assert_eq!(records[1].code, make_type("XKrn"));
}

#[test]
fn every_program_starts_at_the_offset_in_its_tag() {
    let mut regions = MemoryRegions::new();
    regions.add(MemoryRegion::new(0xe000_0000, 0x10000, "ioio"));
    let kernel = program(0x11, 10);
    let programs = vec![program(0x22, 7), program(0x33, 0), program(0x44, 5)];
    let image = create_image(1, 2, 3, regions, &kernel, &programs, true)
        .expect("the image is put together");

    let records = process_tags(&image).expect("the table is read back");
    let codes: Vec<u32> = records.iter().map(|record| record.code).collect();
    assert_eq!(
        codes,
        vec![
            make_type("XArg"),
            make_type("MBLK"),
            make_type("XKrn"),
            make_type("Init"),
            make_type("Init"),
            make_type("Init"),
            make_type("Bflg"),
        ]
    );
    let table_len = 28 + 20 + 32 + 3 * 36 + 12;
    assert_eq!(word(&records[0].body, 0) * 4, table_len);
    let starts: Vec<u32> = records[2..6].iter().map(|record| word(&record.body, 0)).collect();
    assert_eq!(starts, vec![200, 212, 220, 220]);
    assert_eq!(word(&records[2].body, 4), 10);
    assert_eq!(word(&records[3].body, 8), 7);
    assert_eq!(word(&records[3].body, 20), 32);
    assert_eq!(records[6].body, vec![4, 0, 0, 0]);

    assert_eq!(&image[200..210], &[0x11; 10]);
    assert_eq!(&image[210..212], &[0, 0]);
    assert_eq!(&image[212..219], &[0x22; 7]);
    assert_eq!(image[219], 0);
    assert_eq!(&image[220..225], &[0x44; 5]);
    assert_eq!(image.len(), 225);
}

#[test]
fn equal_inputs_give_equal_images() {
    let build = || {
        let mut regions = MemoryRegions::new();
        regions.add(MemoryRegion::new(0xb000_0000, 0x8000, "mlcd"));
        create_image(1, 2, 3, regions, &program(9, 12), &vec![program(8, 3)], false)
    };
    assert_eq!(build(), build());
    assert!(build().is_ok());
}

#[test]
fn more_regions_than_a_tag_can_hold_are_refused() {
    let mut regions = MemoryRegions::new();
    for i in 0..21845 {
        regions.add(MemoryRegion::new(i, 1, "regn"));
    }
    let mut more = MemoryRegions::new();
    for i in 0..21846 {
        more.add(MemoryRegion::new(i, 1, "regn"));
    }
    let kernel = program(0, 4);
    let image = create_image(0, 0, 0, regions, &kernel, &Vec::new(), false)
        .expect("the regions fit one tag");
    assert_eq!(&image[34..36], &[0xff, 0xff]);
    assert_eq!(
        create_image(0, 0, 0, more, &kernel, &Vec::new(), false),
        Err(ImageError::TooLarge)
    );
}

#[test]
fn padding_brings_a_length_to_the_next_multiple_of_four() {
    for len in 0..9usize {
        let mut bytes = vec![0xee; len];
        pad_to_4_bytes(&mut bytes);
        assert_eq!(bytes.len(), (len + 3) / 4 * 4);
        assert_eq!(&bytes[..len], &vec![0xee; len][..]);
        assert!(bytes[len..].iter().all(|byte| *byte == 0));
    }
}

#[test]
fn the_table_of_an_image_can_be_had_alone() {
    let mut regions = MemoryRegions::new();
    regions.add(MemoryRegion::new(0xe000_0000, 0x10000, "ioio"));
    let kernel = program(0x11, 10);
    let programs = vec![program(0x22, 7)];
    let mut args = image_arguments(1, 2, 3, regions, &kernel, &programs, false)
        .expect("the table is put together");
    assert_eq!(args.arguments.len(), 3);
    assert_eq!(args.len(), 28 + 20 + 32 + 36);
    assert_eq!(
        args.to_string(),
        "Xous Arguments with 3 parameters\n    Main RAM \"\u{3}\0\0\0\" (00000003): 00000001 - \
         00000003\nAdditional regions:\n    ioio (6f696f69): e0000000 - e0010000\n    kernel: 10 \
         bytes long, loaded from 00000074 to 00010000 with entrypoint @ 00010004, and 16 bytes of \
         data @ 00020000\n    init: 7 bytes long, loaded from 00000080 to 00010000 with \
         entrypoint @ 00010004 and 16 bytes of data @ 00020000, 32 bytes of .bss\n"
    );
    let mut table = Vec::new();
    assert_eq!(args.write(&mut table), Ok(()));
    let mut regions = MemoryRegions::new();
    regions.add(MemoryRegion::new(0xe000_0000, 0x10000, "ioio"));
    let image = create_image(1, 2, 3, regions, &kernel, &programs, false)
        .expect("the image is put together");
    assert_eq!(&image[..table.len()], &table[..]);
}

#[test]
fn programs_without_bytes_take_no_room() {
    let kernel = program(0, 4);
    let programs: Vec<ProgramDescription> = (0..3).map(|_| program(1, 0)).collect();
    let image = create_image(0, 0, 0, MemoryRegions::new(), &kernel, &programs, true)
        .expect("the image is put together");
    let table_len = 28 + 32 + 3 * 36 + 12;
    assert_eq!(image.len(), table_len + 4);
    let records = process_tags(&image).expect("the table is read back");
    for record in &records[2..5] {
        assert_eq!(word(&record.body, 0), table_len as u32 + 4);
    }
}

#[test]
fn programs_follow_the_payloads_of_the_table() {
    let mut args = XousArguments::new(0, 0, 0);
    args.add(Tag::IniE(IniE::new(0x1000, Vec::new(), vec![0xaa; 5])));
    let image = write_image(&mut args, &program(0xbb, 3), &vec![program(0xcc, 2)])
        .expect("the image is written");
    assert_eq!(image.len(), 28 + 16 + 5 + 3 + 3 + 1 + 2);
    assert_eq!(word(&image, 36), 44);
    assert_eq!(&image[44..49], &[0xaa; 5]);
    assert_eq!(&image[49..52], &[0; 3]);
    assert_eq!(&image[52..55], &[0xbb; 3]);
    assert_eq!(image[55], 0);
    assert_eq!(&image[56..58], &[0xcc; 2]);
}

#[test]
fn a_table_that_is_not_written_gives_no_image() {
    let mut regions = MemoryRegions::new();
    for i in 0..21846 {
        regions.add(MemoryRegion::new(i, 1, "regn"));
    }
    let mut args = XousArguments::new(0, 0, 0);
    args.add(Tag::MemoryRegions(regions));
    assert_eq!(
        write_image(&mut args, &program(0, 4), &Vec::new()),
        Err(WriteError::BodySize { index: 0, length: 21846 * 12 })
    );
}
