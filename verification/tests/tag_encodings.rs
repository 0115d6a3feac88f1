use xous_tools::elf::MiniElfSection;
use xous_tools::memory;
use xous_tools::pid1::PID1;
use xous_tools::tags::bflg::Bflg;
use xous_tools::tags::inie::IniE;
use xous_tools::tags::init::Init;
use xous_tools::tags::memory::{MemoryRegion, MemoryRegions};
use xous_tools::tags::xkrn::XousKernel;
use xous_tools::tags::Tag;
use xous_tools::xkrn;
use xous_tools::xous_arguments::{make_type, XousArgument};

fn body_of<A: XousArgument>(tag: &A) -> Vec<u8> {
    let mut body = vec![0xaa];
    let written = tag.serialize(&mut body);
    assert_eq!(written, body.len() - 1);
    assert_eq!(body[0], 0xaa);
    body.split_off(1)
}

fn words(values: &[u32]) -> Vec<u8> {
    let mut bytes = Vec::new();
    for value in values {
        bytes.extend_from_slice(&value.to_le_bytes());
    }
    bytes
}

#[test]
fn make_type_reads_the_code_least_significant_byte_first() {
    assert_eq!(make_type("XArg"), 0x6772_4158);
    assert_eq!(make_type("XKrn"), u32::from_le_bytes(*b"XKrn"));
    assert_eq!(make_type("sram").to_le_bytes(), *b"sram");
}

#[test]
fn two_memory_regions_take_six_words() {
    let mut regions = MemoryRegions::new();
    assert_eq!(regions.len(), 0);
    assert_eq!(regions.length(), 0);
    regions.add(MemoryRegion::new(0xe000_0000, 0x10000, "ioio"));
    regions.add(MemoryRegion::new(0xb000_0000, 0x8000, "mlcd"));
    assert_eq!(regions.len(), 2);
    assert_eq!(regions.code(), make_type("MBLK"));
    assert_eq!(regions.length(), 24);
    assert_eq!(regions.length() / 4, 6);
    assert_eq!(
        body_of(&regions),
        vec![
            0x00, 0x00, 0x00, 0xe0, 0x00, 0x00, 0x01, 0x00, b'i', b'o', b'i', b'o', 0x00, 0x00,
            0x00, 0xb0, 0x00, 0x80, 0x00, 0x00, b'm', b'l', b'c', b'd',
        ]
    );
    assert!(regions.last_data().is_empty());
}

#[test]
fn memory_regions_without_entries_have_an_empty_body() {
    let regions = MemoryRegions::new();
    assert_eq!(body_of(&regions), Vec::<u8>::new());
}

#[test]
fn first_memory_regions_tag_has_the_same_layout() {
    let mut regions = memory::MemoryRegions::new();
    regions.add(memory::MemoryRegion::new(0x4000_0000, 0x0040_0000, "sram"));
    assert_eq!(regions.code(), make_type("MBLK"));
    assert_eq!(regions.length(), 12);
    assert_eq!(body_of(&regions), words(&[0x4000_0000, 0x0040_0000, make_type("sram")]));
}

#[test]
fn kernel_tag_holds_six_words_in_order() {
    let tag = XousKernel::new(60, 65536, 0x0200_0000, 0x0400_0000, 32768, 0x0200_0010);
    assert_eq!(XousKernel::len(), 24);
    assert_eq!(tag.code(), make_type("XKrn"));
    assert_eq!(tag.length(), 24);
    assert_eq!(
        body_of(&tag),
        words(&[60, 65536, 0x0200_0000, 0x0400_0000, 32768, 0x0200_0010])
    );
    assert!(tag.last_data().is_empty());
}

#[test]
fn first_kernel_tag_holds_the_trap_handler_last() {
    let tag = xkrn::XousKernel::new(0x2050_0000, 65536, 0x0200_0000, 0x0400_0000, 32768, 0x44320);
    assert_eq!(tag.code(), make_type("XKRN"));
    assert_eq!(tag.length(), 24);
    assert_eq!(
        body_of(&tag),
        words(&[0x2050_0000, 65536, 0x0200_0000, 0x0400_0000, 32768, 0x44320])
    );
}

#[test]
fn init_tag_holds_seven_words_in_order() {
    let tag = Init::new(0x2050_0000, 0x1000_0000, 131072, 0x2000_0000, 32768, 4096, 0x1000_0004);
    assert_eq!(Init::len(), 28);
    assert_eq!(tag.code(), make_type("Init"));
    assert_eq!(tag.length(), 28);
    assert_eq!(
        body_of(&tag),
        words(&[0x2050_0000, 0x1000_0000, 131072, 0x2000_0000, 32768, 4096, 0x1000_0004])
    );
}

#[test]
fn pid1_tag_holds_seven_words_in_order() {
    let tag = PID1::new(1, 2, 3, 4, 5, 6, 0xc000_0000);
    assert_eq!(tag.code(), make_type("PID1"));
    assert_eq!(tag.length(), 28);
    assert_eq!(body_of(&tag), words(&[1, 2, 3, 4, 5, 6, 0xc000_0000]));
}

#[test]
fn flags_tag_holds_one_bit_for_each_flag() {
    assert_eq!(body_of(&Bflg::new()), words(&[0]));
    assert_eq!(body_of(&Bflg::new().no_copy()), words(&[1]));
    assert_eq!(body_of(&Bflg::new().absolute()), words(&[2]));
    assert_eq!(body_of(&Bflg::new().debug()), words(&[4]));
    assert_eq!(body_of(&Bflg::new().debug().no_copy().absolute()), words(&[7]));
    assert_eq!(Bflg::new().code(), make_type("Bflg"));
    assert_eq!(Bflg::new().length(), 4);
}

#[test]
fn section_word_holds_the_size_in_words_and_the_flags() {
    let sections = vec![
        MiniElfSection { virt: 0x0001_0000, size: 0x1234, flags: 0x05 },
        MiniElfSection { virt: 0x0002_0000, size: 0x0400_0008, flags: 0x81 },
    ];
    let mut tag = IniE::new(0x0001_0040, sections, vec![1, 2, 3, 4, 5]);
    assert_eq!(tag.code(), make_type("IniE"));
    assert_eq!(tag.length(), 4 + 4 + 2 * 8);
    assert_eq!(
        body_of(&tag),
        vec![
            0, 0, 0, 0, 0x40, 0x00, 0x01, 0x00, 0x00, 0x00, 0x01, 0x00, 0x8d, 0x04, 0x00, 0x05,
            0x00, 0x00, 0x02, 0x00, 0x02, 0x00, 0x00, 0x81,
        ]
    );
    assert_eq!(tag.last_data(), &[1, 2, 3, 4, 5]);

    assert_eq!(tag.finalize(0x1_0000_0094), 5);
    assert_eq!(&body_of(&tag)[0..4], &[0x94, 0, 0, 0]);
    assert_eq!(tag.last_data(), &[1, 2, 3, 4, 5]);
}

#[test]
fn a_tag_without_payload_ignores_finalize() {
    let mut tag = XousKernel::new(1, 2, 3, 4, 5, 6);
    let before = body_of(&tag);
    assert_eq!(tag.finalize(4096), 0);
    assert_eq!(body_of(&tag), before);
}

#[test]
fn any_tag_behaves_as_the_tag_inside_it() {
    let inner = Init::new(1, 2, 3, 4, 5, 6, 7);
    let expected = body_of(&inner);
    let mut tag = Tag::Init(inner);
    assert_eq!(tag.code(), make_type("Init"));
    assert_eq!(tag.length(), 28);
    assert_eq!(body_of(&tag), expected);
    assert_eq!(tag.finalize(100), 0);
    assert!(tag.last_data().is_empty());

    let mut payload = Tag::IniE(IniE::new(8, Vec::new(), vec![9; 7]));
    assert_eq!(payload.length(), 8);
    assert_eq!(payload.finalize(0x30), 7);
    assert_eq!(body_of(&payload), words(&[0x30, 8]));
    assert_eq!(payload.last_data(), &[9; 7]);
}

#[test]
fn finalize_changes_the_offset_of_a_program_and_nothing_else() {
    let sections = vec![
        MiniElfSection { virt: 0x0001_0000, size: 0x1237, flags: 0x05 },
        MiniElfSection { virt: 0x0002_0000, size: 0x0400_000b, flags: 0x81 },
    ];
    let mut tag = IniE::new(0x0001_0040, sections, vec![1, 2, 3, 4, 5]);
    assert_eq!(tag.finalize(96), 5);
    assert_eq!(tag.load_offset, 96);
    assert_eq!(tag.entrypoint, 0x0001_0040);
    assert_eq!(tag.data, vec![1, 2, 3, 4, 5]);
    assert_eq!(tag.sections.len(), 2);
    assert_eq!(tag.sections[0].virt, 0x0001_0000);
    assert_eq!(tag.sections[0].size, 0x1237);
    assert_eq!(tag.sections[0].flags, 0x05);
    assert_eq!(tag.sections[1].virt, 0x0002_0000);
    assert_eq!(tag.sections[1].size, 0x0400_000b);
    assert_eq!(tag.sections[1].flags, 0x81);
    assert_eq!(tag.finalize(0x1_0000_0060), 5);
    assert_eq!(tag.load_offset, 96);
}
