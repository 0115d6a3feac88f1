use xous_tools::elf::{ElfReadError, MiniElfSection};
use xous_tools::memory;
use xous_tools::pid1::PID1;
use xous_tools::tags::bflg::Bflg;
use xous_tools::tags::inie::IniE;
use xous_tools::tags::init::Init;
use xous_tools::tags::memory::{MemoryRegion, MemoryRegions};
use xous_tools::tags::xkrn::XousKernel;
use xous_tools::tags::Tag;
use xous_tools::text::{push_decimal, push_hex, push_name};
use xous_tools::xkrn;
use xous_tools::xous_arguments::{make_type, XousArgument};

#[test]
fn numbers_are_written_as_format_writes_them() {
    for value in [0u128, 1, 9, 10, 15, 16, 255, 4096, 0xdead_beef, u64::MAX as u128, u128::MAX] {
        let mut text = String::from(">");
        push_decimal(&mut text, value);
        assert_eq!(text, format!(">{}", value));
        let mut text = String::from(">");
        push_hex(&mut text, value, 8);
        assert_eq!(text, format!(">{:08x}", value));
        let mut text = String::new();
        push_hex(&mut text, value, 2);
        assert_eq!(text, format!("{:02x}", value));
        let mut text = String::new();
        push_hex(&mut text, value, 0);
        assert_eq!(text, format!("{:x}", value));
    }
}

#[test]
fn a_code_is_named_by_its_four_bytes() {
    let mut text = String::from("tag ");
    push_name(&mut text, make_type("MBLK"));
    assert_eq!(text, "tag MBLK");
    let mut text = String::new();
    push_name(&mut text, 0x41ff_4241);
    assert_eq!(text, "AB\u{fffd}A");
    assert_eq!(XousKernel::new(0, 0, 0, 0, 0, 0).name(), "XKrn");
}

#[test]
fn the_kernel_describes_itself() {
    let tag = XousKernel::new(0x3c, 65536, 0x0200_0000, 0x0400_0000, 32768, 0x0200_0010);
    assert_eq!(
        tag.to_string(),
        "    kernel: 65536 bytes long, loaded from 0000003c to 02000000 with entrypoint @ \
         02000010, and 32768 bytes of data @ 04000000\n"
    );
    let tag = xkrn::XousKernel::new(0x2050_0000, 65536, 0x0200_0000, 0x0400_0000, 32768, 0x44320);
    assert_eq!(
        tag.to_string(),
        "XousKernel: 65536 bytes long, loaded from 20500000 to 02000000 with trap_handler @ \
         00044320, and 32768 bytes of data @ 04000000\n"
    );
}

#[test]
fn a_program_describes_itself() {
    let tag = Init::new(0x2050_0000, 0x1000_0000, 131072, 0x2000_0000, 32768, 4096, 0x1000_0004);
    assert_eq!(
        tag.to_string(),
        "    init: 131072 bytes long, loaded from 20500000 to 10000000 with entrypoint @ \
         10000004 and 32768 bytes of data @ 20000000, 4096 bytes of .bss\n"
    );
    let inner = tag.to_string();
    assert_eq!(Tag::Init(tag).to_string(), inner);
    let tag =
        PID1::new(0x2050_0000, 131072, 0x1000_0000, 0x2000_0000, 32768, 0x1000_0000, 0xc000_0000);
    assert_eq!(
        tag.to_string(),
        "PID1: 131072 bytes long, loaded from 20500000 to 10000000 with entrypoint @ 10000000, \
         stack @ c0000000, and 32768 bytes of data @ 20000000\n"
    );
}

#[test]
fn memory_regions_describe_themselves() {
    let mut regions = MemoryRegions::new();
    assert_eq!(regions.to_string(), "Additional regions:\n");
    regions.add(MemoryRegion::new(0xe000_0000, 0x10000, "ioio"));
    regions.add(MemoryRegion::new(0xffff_0000, 0x10000, "mlcd"));
    assert_eq!(
        regions.to_string(),
        "Additional regions:\n    ioio (6f696f69): e0000000 - e0010000\n    mlcd (64636c6d): \
         ffff0000 - 100000000\n"
    );

    let mut regions = memory::MemoryRegions::new();
    assert_eq!(regions.to_string(), "Memory regions:\n    [None]\n");
    regions.add(memory::MemoryRegion::new(0x4000_0000, 0x0040_0000, "sram"));
    regions.add(memory::MemoryRegion::new(0x2000_0000, 0x0100_0000, "ospi"));
    regions.add(memory::MemoryRegion::new(0xe000_0000, 0x10000, "ioio"));
    assert_eq!(
        regions.to_string(),
        "Memory regions:\n    RAM: 40000000 - 40400000\n    mem: 20000000 - 21000000\n    mem: \
         e0000000 - e0010000\n"
    );
}

#[test]
fn flags_describe_themselves() {
    assert_eq!(Bflg::new().to_string(), "    Bflg:\n");
    assert_eq!(Bflg::new().debug().to_string(), "    Bflg: debug\n");
    assert_eq!(
        Bflg::new().absolute().debug().no_copy().to_string(),
        "    Bflg: no_copy absolute debug\n"
    );
}

#[test]
fn a_program_in_sections_describes_each_section() {
    let sections = vec![
        MiniElfSection { virt: 0x0001_0000, size: 0x1234, flags: 0x05 },
        MiniElfSection { virt: 0xffff_fff0, size: 0x20, flags: 0x81 },
    ];
    let mut tag = IniE::new(0x0001_0040, sections, vec![0; 8]);
    tag.finalize(0x400);
    assert_eq!(
        tag.to_string(),
        "    IniE: entrypoint @ 00010040, loaded from 00000400.  Sections:\n        Loaded from \
         00000400 - 00010000 - 00011234 (4660 bytes), flags 05\n        Loaded from 00001634 - \
         fffffff0 - 100000010 (32 bytes), flags 81\n"
    );
}

#[test]
fn errors_describe_themselves() {
    assert_eq!(
        ElfReadError::WrongReadSize(72, 64).to_string(),
        "expected to read 72 bytes, but instead read 64"
    );
    assert_eq!(
        ElfReadError::ParseElfError("Did not find ELF magic number").to_string(),
        "couldn't parse the elf file: Did not find ELF magic number"
    );
    assert_eq!(
        ElfReadError::SectionRangeError.to_string(),
        "elf section pointed outside of the file"
    );
    assert_eq!(
        ElfReadError::AddressOverflow.to_string(),
        "elf address or size did not fit in 32 bits"
    );
    assert_eq!(
        ElfReadError::SectionOrderError.to_string(),
        "elf section started before the end of the text"
    );
    let missing = || std::io::Error::new(std::io::ErrorKind::NotFound, "no such file");
    assert_eq!(
        ElfReadError::OpenElfError(missing()).to_string(),
        "couldn't open the elf file: no such file"
    );
    assert_eq!(
        ElfReadError::ReadFileError(missing()).to_string(),
        "couldn't read from the file: no such file"
    );
    assert_eq!(
        ElfReadError::SeekFromEndError(missing()).to_string(),
        "couldn't seek from the end of the file: no such file"
    );
    assert_eq!(
        ElfReadError::FileSeekError(missing()).to_string(),
        "couldn't seek in the output file: no such file"
    );
    assert_eq!(
        ElfReadError::WriteSectionError(missing()).to_string(),
        "couldn't write a section to the output file: no such file"
    );
}
