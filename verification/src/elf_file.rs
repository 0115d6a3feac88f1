//! The headers of an ELF file, as the `xmas_elf` crate reads them.
//!
//! The functions of this module that call `xmas_elf` are not verified:
//! their contracts are taken on trust. `xmas_elf` reads a header in place,
//! and stops the program if the header does not lie in the file, is shorter
//! than the header of its class, or lies at an address that is not aligned
//! for its fields. The contracts leave out the files in which a header
//! lies where it cannot be read. The address is taken care of by
//! `AlignedBytes`: the file is read from a copy of its bytes that starts
//! at a multiple of eight.

use crate::elf::{ElfReadError, Segment};
use vstd::prelude::*;
use vstd::slice::slice_subrange;
use xmas_elf::header::Class;
use xmas_elf::program::Type;
use xmas_elf::sections::ShType;
use xmas_elf::ElfFile;

verus! {

/// An ELF file whose header `xmas_elf` has read.
#[verifier::external_type_specification]
#[verifier::external_body]
pub struct ExElfFile<'a>(ElfFile<'a>);

/// What the layout depends on in the header of an ELF file.
#[derive(Debug, Clone, Copy)]
pub struct ElfHeader {
    /// Whether the file is of the 64-bit class
    pub wide: bool,
    /// Virtual address of the entry point
    pub entry_point: u64,
    /// Offset of the program header table in the file
    pub ph_offset: u64,
    /// Bytes that one program header takes
    pub ph_entry_size: u16,
    /// Number of program headers
    pub ph_count: u16,
    /// Offset of the section header table in the file
    pub sh_offset: u64,
    /// Bytes that one section header takes
    pub sh_entry_size: u16,
    /// Number of section headers
    pub sh_count: u16,
    /// Index of the section that holds the section names
    pub sh_str_index: u16,
}

/// What kind of section a section header describes.
#[derive(Debug, Clone, Copy, PartialEq, Eq, Structural)]
pub enum SectionKind {
    /// An unused section header
    Null,
    /// A section that takes memory and has no bytes in the file
    NoBits,
    /// Any other kind that `xmas_elf` knows
    Other,
    /// A kind that `xmas_elf` does not know
    Invalid,
}

/// What the layout depends on in one section header.
#[derive(Debug, Clone, Copy)]
pub struct SectionHeader {
    /// Offset of the section's name in the section that holds the names
    pub name: u32,
    pub kind: SectionKind,
    /// Virtual address of the section
    pub address: u64,
    /// Offset of the section's bytes in the file
    pub offset: u64,
    /// Bytes that the section takes
    pub size: u64,
}

/// The bytes of the file that `elf` was read from.
pub uninterp spec fn elf_input(elf: &ElfFile) -> Seq<u8>;

/// The header that `xmas_elf` reads from the file `input`.
pub uninterp spec fn elf_header_in(input: Seq<u8>) -> ElfHeader;

/// The program header at `index` that `xmas_elf` reads from the file
/// `input`.
pub uninterp spec fn elf_segment(input: Seq<u8>, index: u16) -> Segment;

/// The section header at `index` that `xmas_elf` reads from the file
/// `input`.
pub uninterp spec fn elf_section(input: Seq<u8>, index: u16) -> SectionHeader;

/// The bytes of a file, held where every header of the file is aligned:
/// the first byte lies at an address that is a multiple of eight.
pub struct AlignedBytes {
    buffer: Vec<u8>,
    start: usize,
    end: usize,
}

/// The alignment of the widest field of a header.
pub const ALIGNMENT: usize = 8;

/// Asks `Vec::as_ptr` for the address at which the bytes of `buffer` lie.
/// The address is the machine's business, so the contract says nothing of
/// it.
#[verifier::external_body]
fn address_of(buffer: &Vec<u8>) -> (address: usize) {
    buffer.as_ptr() as usize
}

impl View for AlignedBytes {
    type V = Seq<u8>;

    closed spec fn view(&self) -> Seq<u8> {
        self.buffer@.subrange(self.start as int, self.end as int)
    }
}

impl AlignedBytes {
    #[verifier::type_invariant]
    spec fn lies_within(self) -> bool {
        self.start <= self.end <= self.buffer@.len()
    }

    /// A copy of `input` that starts at a multiple of eight: the bytes are
    /// written into a buffer that is seven bytes longer, from the first
    /// place of the buffer that is aligned.
    pub fn new(input: &[u8]) -> (bytes: AlignedBytes)
        ensures
            bytes@ == input@,
    {
        let len = input.len();
        let mut buffer: Vec<u8> = Vec::new();
        let mut i: usize = 0;
        while i < ALIGNMENT - 1
            invariant
                i <= ALIGNMENT - 1,
                buffer@.len() == i,
            decreases ALIGNMENT - 1 - i,
        {
            buffer.push(0);
            i += 1;
        }
        let mut i: usize = 0;
        while i < len
            invariant
                i <= len,
                buffer@.len() == ALIGNMENT - 1 + i,
            decreases len - i,
        {
            buffer.push(0);
            i += 1;
        }
        let total = buffer.len();
        // From here on the buffer stays where it is: it is written in place.
        let start = (ALIGNMENT - address_of(&buffer) % ALIGNMENT) % ALIGNMENT;
        let mut i: usize = 0;
        while i < len
            invariant
                i <= len,
                len == input@.len(),
                start < ALIGNMENT,
                buffer@.len() == ALIGNMENT - 1 + len,
                buffer@.len() == total,
                forall|j: int| 0 <= j < i ==> buffer@[start + j] == input@[j],
            decreases len - i,
        {
            buffer.set(start + i, input[i]);
            i += 1;
        }
        assert(buffer@.subrange(start as int, start + len) =~= input@);
        AlignedBytes { buffer, start, end: start + len }
    }

    /// The bytes, where they lie.
    pub fn as_slice(&self) -> (bytes: &[u8])
        ensures
            bytes@ == self@,
    {
        proof {
            use_type_invariant(self);
        }
        let total = self.buffer.len();
        slice_subrange(self.buffer.as_slice(), self.start, self.end)
    }
}

/// Bytes that the first part of an ELF header takes.
pub const IDENT_LEN: usize = 16;

/// Bytes that the header of a 32-bit file takes.
pub const HEADER_LEN_32: usize = 52;

/// Bytes that the header of a 64-bit file takes.
pub const HEADER_LEN_64: usize = 64;

/// Whether `input` starts with the four bytes that mark an ELF file.
pub open spec fn has_magic(input: Seq<u8>) -> bool {
    &&& input.len() >= IDENT_LEN
    &&& input[0] == 0x7f
    &&& input[1] == 0x45
    &&& input[2] == 0x4c
    &&& input[3] == 0x46
}

/// Whether `input` starts as an ELF file of the 32-bit or the 64-bit class
/// does.
pub open spec fn has_class(input: Seq<u8>) -> bool {
    has_magic(input) && (input[4] == 1 || input[4] == 2)
}

/// Whether `input` holds all of the header that its class asks for.
pub open spec fn header_fits(input: Seq<u8>) -> bool {
    has_magic(input) ==> {
        &&& input[4] == 1 ==> input.len() >= HEADER_LEN_32
        &&& input[4] == 2 ==> input.len() >= HEADER_LEN_64
    }
}

/// Bytes that `xmas_elf` reads of one program header.
pub open spec fn program_header_len(header: ElfHeader) -> int {
    if header.wide {
        56
    } else {
        32
    }
}

/// Bytes that `xmas_elf` reads of one section header.
pub open spec fn section_header_len(header: ElfHeader) -> int {
    if header.wide {
        64
    } else {
        40
    }
}

/// The alignment of the headers of a file.
pub open spec fn header_align(header: ElfHeader) -> int {
    if header.wide {
        8
    } else {
        4
    }
}

/// Whether a file has a program header table.
pub open spec fn has_program_headers(header: ElfHeader) -> bool {
    header.ph_offset > 0 && header.ph_entry_size > 0
}

/// Whether the program header at `index` lies in a file of `len` bytes,
/// where it can be read.
pub open spec fn program_header_fits(header: ElfHeader, len: int, index: u16) -> bool {
    &&& header.ph_entry_size >= program_header_len(header)
    &&& header.ph_offset + (index + 1) * header.ph_entry_size <= len
    &&& (header.ph_offset + index * header.ph_entry_size) % header_align(header) == 0
}

/// Whether the section header at `index` lies in a file of `len` bytes,
/// where it can be read.
pub open spec fn section_header_fits(header: ElfHeader, len: int, index: u16) -> bool {
    &&& index < 0xff00
    &&& header.sh_entry_size >= section_header_len(header)
    &&& header.sh_offset + (index + 1) * header.sh_entry_size <= len
    &&& (header.sh_offset + index * header.sh_entry_size) % header_align(header) == 0
}

/// Whether every program header and every section header of the file
/// `input` lies in the file, where it can be read.
pub open spec fn tables_fit(input: Seq<u8>) -> bool {
    let header = elf_header_in(input);
    &&& has_program_headers(header) ==> forall|i: u16|
        i < header.ph_count ==> #[trigger] program_header_fits(header, input.len() as int, i)
    &&& forall|i: u16|
        i < header.sh_count ==> #[trigger] section_header_fits(header, input.len() as int, i)
}

/// Whether the headers of the file `input` can be read: it starts as an
/// ELF file of a known class does, and holds its header and the headers of
/// its tables.
pub open spec fn readable(input: Seq<u8>) -> bool {
    has_class(input) && header_fits(input) && tables_fit(input)
}

/// What `ElfHeaders` stands for.
pub struct ElfHeadersView {
    pub entry_point: u64,
    pub names_index: u16,
    pub segments: Seq<Segment>,
    pub sections: Seq<SectionHeader>,
}

/// The headers that `xmas_elf` reads from the file `input`: the entry
/// point and the index of the section of names from the header, every
/// program header if the file has a program header table, and every
/// section header.
pub open spec fn headers_in(input: Seq<u8>) -> ElfHeadersView {
    let header = elf_header_in(input);
    ElfHeadersView {
        entry_point: header.entry_point,
        names_index: header.sh_str_index,
        segments: if has_program_headers(header) {
            Seq::new(header.ph_count as nat, |i: int| elf_segment(input, i as u16))
        } else {
            Seq::empty()
        },
        sections: Seq::new(header.sh_count as nat, |i: int| elf_section(input, i as u16)),
    }
}

/// Calls `xmas_elf::ElfFile::new`, which reads the header of the file and
/// keeps the bytes. The contract says when the file is read, namely when
/// it starts as an ELF file of the 32-bit or the 64-bit class does, and
/// that the file read keeps the bytes. The bytes start at a multiple of
/// eight, where `AlignedBytes::new` has put them, so the header lies where
/// `xmas_elf` accepts it.
#[verifier::external_body]
fn open_elf<'a>(bytes: &'a AlignedBytes) -> (result: Result<ElfFile<'a>, &'static str>)
    requires
        header_fits(bytes@),
    ensures
        result is Ok <==> has_class(bytes@),
        result matches Ok(elf) ==> elf_input(&elf) == bytes@,
{
    ElfFile::new(&bytes.buffer[bytes.start..bytes.end])
}

/// Hands out the fields of `elf.header`, through the getters of
/// `xmas_elf::header::HeaderPt2` and `HeaderPt1::class`. The contract gives
/// the result its name: the header of the file that `elf` was read from.
#[verifier::external_body]
fn header_of(elf: &ElfFile) -> (header: ElfHeader)
    ensures
        header == elf_header_in(elf_input(elf)),
{
    let pt2 = elf.header.pt2;
    ElfHeader {
        wide: matches!(elf.header.pt1.class(), Class::SixtyFour),
        entry_point: pt2.entry_point(),
        ph_offset: pt2.ph_offset(),
        ph_entry_size: pt2.ph_entry_size(),
        ph_count: pt2.ph_count(),
        sh_offset: pt2.sh_offset(),
        sh_entry_size: pt2.sh_entry_size(),
        sh_count: pt2.sh_count(),
        sh_str_index: pt2.sh_str_index(),
    }
}

/// Calls `xmas_elf::ElfFile::program_header` and hands out the fields of
/// the header that it reads, with `load` set for the type `PT_LOAD`. The
/// contract says when there is a result, namely unless the file has no
/// program header table, and gives the result its name.
#[verifier::external_body]
fn program_header_at(elf: &ElfFile, index: u16) -> (segment: Option<Segment>)
    requires
        index < elf_header_in(elf_input(elf)).ph_count,
        has_program_headers(elf_header_in(elf_input(elf))) ==> program_header_fits(
            elf_header_in(elf_input(elf)),
            elf_input(elf).len() as int,
            index,
        ),
    ensures
        segment is Some <==> has_program_headers(elf_header_in(elf_input(elf))),
        segment matches Some(header) ==> header == elf_segment(elf_input(elf), index),
{
    let header = elf.program_header(index).ok()?;
    let load = matches!(header.get_type(), Ok(Type::Load));
    let (virtual_addr, physical_addr) = (header.virtual_addr(), header.physical_addr());
    Some(Segment { load, virtual_addr, physical_addr, file_size: header.file_size() })
}

/// Calls `xmas_elf::ElfFile::section_header`, which reads every header
/// that lies in the file, and hands out the fields of the header, with the
/// type as one of four kinds. The contract gives the result its name.
#[verifier::external_body]
fn section_header_at(elf: &ElfFile, index: u16) -> (section: Option<SectionHeader>)
    requires
        section_header_fits(elf_header_in(elf_input(elf)), elf_input(elf).len() as int, index),
    ensures
        section == Some(elf_section(elf_input(elf), index)),
{
    let header = elf.section_header(index).ok()?;
    let kind = match header.get_type() {
        Ok(ShType::Null) => SectionKind::Null,
        Ok(ShType::NoBits) => SectionKind::NoBits,
        Ok(_) => SectionKind::Other,
        Err(_) => SectionKind::Invalid,
    };
    let (name, address) = (header.name(), header.address());
    Some(SectionHeader { name, kind, address, offset: header.offset(), size: header.size() })
}

/// Whether `input` holds all of the header that its class asks for.
fn check_header(input: &[u8]) -> (fits: bool)
    ensures
        fits == header_fits(input@),
{
    let len = input.len();
    if len < IDENT_LEN {
        return true;
    }
    if input[0] != 0x7f || input[1] != 0x45 || input[2] != 0x4c || input[3] != 0x46 {
        return true;
    }
    if input[4] == 1 {
        len >= HEADER_LEN_32
    } else if input[4] == 2 {
        len >= HEADER_LEN_64
    } else {
        true
    }
}

/// Whether entry `index` of a table at `offset`, of entries of `entry_size`
/// bytes each, lies in a file of `len` bytes, is at least `least` bytes
/// long and starts at a multiple of `align`.
fn check_entry(
    offset: u64,
    entry_size: u16,
    index: u16,
    len: usize,
    least: u16,
    align: u8,
) -> (fits: bool)
    requires
        align > 0,
    ensures
        fits == {
            &&& entry_size >= least
            &&& offset + (index + 1) * entry_size <= len
            &&& (offset + index * entry_size) % (align as int) == 0
        },
{
    assert(index * entry_size <= 0xffff * 0xffff && (index + 1) * entry_size <= 0x1_0000 * 0xffff)
        by (nonlinear_arith)
        requires
            index <= 0xffff,
            entry_size <= 0xffff,
    ;
    let start: u128 = offset as u128 + index as u128 * entry_size as u128;
    let end: u128 = offset as u128 + (index as u128 + 1) * entry_size as u128;
    entry_size >= least && end <= len as u128 && start % (align as u128) == 0
}

/// The headers of an ELF file, as far as the layout depends on them.
#[derive(Debug)]
pub struct ElfHeaders {
    /// Virtual address of the entry point
    pub entry_point: u64,
    /// Index of the section that holds the names of the sections
    pub names_index: u16,
    /// The program headers, in the order of the file
    pub segments: Vec<Segment>,
    /// The section headers, in the order of the file
    pub sections: Vec<SectionHeader>,
}

impl View for ElfHeaders {
    type V = ElfHeadersView;

    open spec fn view(&self) -> ElfHeadersView {
        ElfHeadersView {
            entry_point: self.entry_point,
            names_index: self.names_index,
            segments: self.segments@,
            sections: self.sections@,
        }
    }
}

/// Reads the headers of the ELF file `input` with `xmas_elf`: the entry
/// point, the index of the section of names, and the program and section
/// headers in the order of their tables.
///
/// The headers are read if and only if the file starts as an ELF file of
/// a known class does and holds its header and every header of its
/// tables where it can be read. They are then the headers that `xmas_elf`
/// reads from these bytes.
pub fn read_headers(input: &[u8]) -> (result: Result<ElfHeaders, ElfReadError>)
    ensures
        result is Ok <==> readable(input@),
        result matches Ok(headers) ==> headers@ == headers_in(input@),
        result matches Err(e) ==> e matches ElfReadError::ParseElfError(_),
{
    if !check_header(input) {
        return Err(ElfReadError::ParseElfError("File is shorter than the ELF header"));
    }
    let bytes = AlignedBytes::new(input);
    let elf = match open_elf(&bytes) {
        Ok(elf) => elf,
        Err(message) => {
            return Err(ElfReadError::ParseElfError(message));
        },
    };
    let header = header_of(&elf);
    let len = input.len();
    let (least_ph, least_sh, align): (u16, u16, u8) = if header.wide {
        (56, 64, 8)
    } else {
        (32, 40, 4)
    };

    let mut segments: Vec<Segment> = Vec::new();
    if header.ph_offset > 0 && header.ph_entry_size > 0 {
        let mut index: u16 = 0;
        while index < header.ph_count
            invariant
                index <= header.ph_count,
                header == elf_header_in(input@),
                elf_input(&elf) == input@,
                len == input@.len(),
                least_ph == program_header_len(header),
                align == header_align(header),
                has_program_headers(header),
                segments@.len() == index,
                forall|i: int|
                    0 <= i < index ==> #[trigger] segments@[i] == elf_segment(input@, i as u16),
                forall|i: u16|
                    i < index ==> #[trigger] program_header_fits(header, len as int, i),
            decreases header.ph_count - index,
        {
            if !check_entry(header.ph_offset, header.ph_entry_size, index, len, least_ph, align) {
                assert(!program_header_fits(header, len as int, index));
                return Err(
                    ElfReadError::ParseElfError("Program header lies outside of the file"),
                );
            }
            match program_header_at(&elf, index) {
                Some(segment) => segments.push(segment),
                None => {
                    return Err(ElfReadError::ParseElfError("Program header cannot be read"));
                },
            }
            index += 1;
        }
    }

    let mut sections: Vec<SectionHeader> = Vec::new();
    let mut index: u16 = 0;
    while index < header.sh_count
        invariant
            index <= header.sh_count,
            header == elf_header_in(input@),
            elf_input(&elf) == input@,
            len == input@.len(),
            least_sh == section_header_len(header),
            align == header_align(header),
            sections@.len() == index,
            forall|i: int|
                0 <= i < index ==> #[trigger] sections@[i] == elf_section(input@, i as u16),
            forall|i: u16| i < index ==> #[trigger] section_header_fits(header, len as int, i),
        decreases header.sh_count - index,
    {
        if index >= 0xff00 || !check_entry(
            header.sh_offset,
            header.sh_entry_size,
            index,
            len,
            least_sh,
            align,
        ) {
            assert(!section_header_fits(header, len as int, index));
            return Err(ElfReadError::ParseElfError("Section header lies outside of the file"));
        }
        match section_header_at(&elf, index) {
            Some(section) => sections.push(section),
            None => {
                return Err(ElfReadError::ParseElfError("Section header cannot be read"));
            },
        }
        index += 1;
    }

    let headers = ElfHeaders {
        entry_point: header.entry_point,
        names_index: header.sh_str_index,
        segments,
        sections,
    };
    assert(headers@.segments =~= headers_in(input@).segments);
    assert(headers@.sections =~= headers_in(input@).sections);
    Ok(headers)
}

} // verus!
