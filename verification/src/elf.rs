//! The layout of a program, read from its ELF file.
//!
//! A program is handed to the loader as one flat run of bytes, the bytes of
//! its sections in the order of the section table. `ElfImage` holds what
//! the layout depends on; `extract` computes the layout from it, and
//! `read_program` does so for the bytes of a file.

use crate::elf_file::{headers_in, read_headers, readable};
use crate::elf_image::{build_image, image_of};
use crate::text::{decimal_text, push_decimal};
use crate::words::{put_bytes, zeros};
use vstd::prelude::*;
use vstd::string::*;

verus! {

/// The error type of `std::io`, which the errors of reading a file carry.
#[verifier::external_type_specification]
#[verifier::external_body]
pub struct ExIoError(std::io::Error);

#[derive(Debug)]
pub struct ProgramDescription {
    /// Virtual address of .text section in RAM
    pub text_offset: u32,
    /// Size of the .text section in RAM
    pub text_size: u32,
    /// Virtual address of .data section in RAM
    pub data_offset: u32,
    /// Size of .data section
    pub data_size: u32,
    /// Size of the .bss section
    pub bss_size: u32,
    /// Virtual address of the entrypoint
    pub entry_point: u32,
    /// Program contents
    pub program: Vec<u8>,
}

/// One section of a program that is loaded section by section.
#[derive(Debug)]
pub struct MiniElfSection {
    /// Virtual address of the section
    pub virt: u32,
    /// Size of the section in bytes
    pub size: u32,
    /// How the section is to be mapped
    pub flags: u8,
}

#[derive(Debug)]
pub enum ElfReadError {
    /// Read an unexpected number of bytes
    WrongReadSize(u64  /* expected */ , u64  /* actual */ ),
    /// Couldn't seek to end of file
    SeekFromEndError(std::io::Error),
    /// Couldn't read ELF file
    ReadFileError(std::io::Error),
    /// Couldn't open the ELF file
    OpenElfError(std::io::Error),
    /// Couldn't parse the ELF file
    ParseElfError(&'static str),
    /// Section wasn't in range
    SectionRangeError,
    /// Couldn't seek the file to write the section
    FileSeekError(std::io::Error),
    /// Couldn't write the section to the file
    WriteSectionError(std::io::Error),
    /// An address or a size does not fit the 32 bits that a program
    /// description has for it
    AddressOverflow,
    /// A section starts before the end of the text laid out so far
    SectionOrderError,
}

/// Formats an error of `std::io` as its `Display` does. The text comes
/// from the operating system, so the contract says nothing of it.
#[verifier::external_body]
fn io_error_text(error: &std::io::Error) -> (text: String) {
    format!("{}", error)
}

impl ElfReadError {
    /// What the description of the error starts with. For an error of
    /// reading a file, the rest is what that error says of itself.
    pub open spec fn spec_heading(&self) -> Seq<char> {
        match self {
            ElfReadError::WrongReadSize(expected, actual) => "expected to read "@ + decimal_text(
                *expected as nat,
            ) + " bytes, but instead read "@ + decimal_text(*actual as nat),
            ElfReadError::SeekFromEndError(_) => "couldn't seek from the end of the file: "@,
            ElfReadError::ReadFileError(_) => "couldn't read from the file: "@,
            ElfReadError::OpenElfError(_) => "couldn't open the elf file: "@,
            ElfReadError::ParseElfError(reason) => "couldn't parse the elf file: "@ + reason@,
            ElfReadError::SectionRangeError => "elf section pointed outside of the file"@,
            ElfReadError::FileSeekError(_) => "couldn't seek in the output file: "@,
            ElfReadError::WriteSectionError(_) => "couldn't write a section to the output file: "@,
            ElfReadError::AddressOverflow => "elf address or size did not fit in 32 bits"@,
            ElfReadError::SectionOrderError => "elf section started before the end of the text"@,
        }
    }

    /// Whether the error is one of reading or writing a file.
    pub open spec fn is_io(&self) -> bool {
        match self {
            ElfReadError::SeekFromEndError(_) => true,
            ElfReadError::ReadFileError(_) => true,
            ElfReadError::OpenElfError(_) => true,
            ElfReadError::FileSeekError(_) => true,
            ElfReadError::WriteSectionError(_) => true,
            _ => false,
        }
    }

    /// A description of the error for people to read.
    pub fn to_string(&self) -> (text: String)
        ensures
            self.spec_heading().len() <= text@.len(),
            text@.subrange(0, self.spec_heading().len() as int) == self.spec_heading(),
            !self.is_io() ==> text@ == self.spec_heading(),
    {
        let mut text = String::new();
        match self {
            ElfReadError::WrongReadSize(expected, actual) => {
                text.append("expected to read ");
                push_decimal(&mut text, *expected as u128);
                text.append(" bytes, but instead read ");
                push_decimal(&mut text, *actual as u128);
            },
            ElfReadError::SeekFromEndError(error) => {
                text.append("couldn't seek from the end of the file: ");
                text.append(io_error_text(error).as_str());
            },
            ElfReadError::ReadFileError(error) => {
                text.append("couldn't read from the file: ");
                text.append(io_error_text(error).as_str());
            },
            ElfReadError::OpenElfError(error) => {
                text.append("couldn't open the elf file: ");
                text.append(io_error_text(error).as_str());
            },
            ElfReadError::ParseElfError(reason) => {
                text.append("couldn't parse the elf file: ");
                text.append(reason);
            },
            ElfReadError::SectionRangeError => {
                text.append("elf section pointed outside of the file");
            },
            ElfReadError::FileSeekError(error) => {
                text.append("couldn't seek in the output file: ");
                text.append(io_error_text(error).as_str());
            },
            ElfReadError::WriteSectionError(error) => {
                text.append("couldn't write a section to the output file: ");
                text.append(io_error_text(error).as_str());
            },
            ElfReadError::AddressOverflow => {
                text.append("elf address or size did not fit in 32 bits");
            },
            ElfReadError::SectionOrderError => {
                text.append("elf section started before the end of the text");
            },
        }
        assert(text@.subrange(0, self.spec_heading().len() as int) =~= self.spec_heading());
        assert(!self.is_io() ==> text@ =~= self.spec_heading());
        text
    }
}

/// One program header of an ELF file.
#[derive(Debug, Clone, Copy)]
pub struct Segment {
    /// Whether the header is of type `PT_LOAD`
    pub load: bool,
    /// Virtual address of the segment
    pub virtual_addr: u64,
    /// Physical address of the segment
    pub physical_addr: u64,
    /// Bytes that the segment takes in the file
    pub file_size: u64,
}

/// One section of an ELF file, as far as the layout depends on it.
#[derive(Debug)]
pub enum Section {
    /// The section named `.data`, with its bytes.
    Data { address: u64, bytes: Vec<u8> },
    /// A section that takes memory and has no bytes in the file.
    NoBits { address: u64, size: u64 },
    /// Any other section, with its bytes.
    Loadable { address: u64, bytes: Vec<u8> },
}

/// What the layout of a program depends on: the entry point, the program
/// headers and the sections, each in the order of its table.
#[derive(Debug)]
pub struct ElfImage {
    pub entry_point: u64,
    pub segments: Vec<Segment>,
    pub sections: Vec<Section>,
}

/// What a `ProgramDescription` stands for.
pub struct ProgramView {
    pub text_offset: u32,
    pub text_size: u32,
    pub data_offset: u32,
    pub data_size: u32,
    pub bss_size: u32,
    pub entry_point: u32,
    pub program: Seq<u8>,
}

impl View for ProgramDescription {
    type V = ProgramView;

    open spec fn view(&self) -> ProgramView {
        ProgramView {
            text_offset: self.text_offset,
            text_size: self.text_size,
            data_offset: self.data_offset,
            data_size: self.data_size,
            bss_size: self.bss_size,
            entry_point: self.entry_point,
            program: self.program@,
        }
    }
}

/// What a `Section` stands for.
pub enum SectionView {
    Data { address: u64, bytes: Seq<u8> },
    NoBits { address: u64, size: u64 },
    Loadable { address: u64, bytes: Seq<u8> },
}

impl View for Section {
    type V = SectionView;

    open spec fn view(&self) -> SectionView {
        match self {
            Section::Data { address, bytes } => SectionView::Data {
                address: *address,
                bytes: bytes@,
            },
            Section::NoBits { address, size } => SectionView::NoBits {
                address: *address,
                size: *size,
            },
            Section::Loadable { address, bytes } => SectionView::Loadable {
                address: *address,
                bytes: bytes@,
            },
        }
    }
}

impl SectionView {
    /// Virtual address of the section.
    pub open spec fn address(self) -> u64 {
        match self {
            SectionView::Data { address, .. } => address,
            SectionView::NoBits { address, .. } => address,
            SectionView::Loadable { address, .. } => address,
        }
    }

    /// Bytes that the section takes in memory.
    pub open spec fn size(self) -> int {
        match self {
            SectionView::Data { bytes, .. } => bytes.len() as int,
            SectionView::NoBits { size, .. } => size as int,
            SectionView::Loadable { bytes, .. } => bytes.len() as int,
        }
    }

    /// Whether the section takes part in the layout: one at address 0 does
    /// not.
    pub open spec fn placed(self) -> bool {
        self.address() != 0
    }
}

/// What an `ElfImage` stands for.
pub struct ImageView {
    pub entry_point: u64,
    pub segments: Seq<Segment>,
    pub sections: Seq<SectionView>,
}

impl View for ElfImage {
    type V = ImageView;

    open spec fn view(&self) -> ImageView {
        ImageView {
            entry_point: self.entry_point,
            segments: self.segments@,
            sections: self.sections@.map_values(|section: Section| section@),
        }
    }
}

/// The layout as far as the sections seen so far determine it.
pub struct Layout {
    pub text_offset: u32,
    pub text_size: u32,
    pub data_offset: u32,
    pub data_size: u32,
    pub bss_size: u32,
    /// The bytes copied so far.
    pub program: Seq<u8>,
    /// Zero bytes that the next section copied will be preceded by.
    pub gap: nat,
}

/// The layout before any section is seen.
pub open spec fn empty_layout() -> Layout {
    Layout {
        text_offset: 0,
        text_size: 0,
        data_offset: 0,
        data_size: 0,
        bss_size: 0,
        program: Seq::empty(),
        gap: 0,
    }
}

/// Whether the `size` bytes at `address` lie within `segment`, which must
/// be of type `PT_LOAD`.
pub open spec fn holds(segment: Segment, address: u64, size: int) -> bool {
    &&& segment.load
    &&& segment.virtual_addr <= address
    &&& address + size <= segment.virtual_addr + segment.file_size
}

/// Whether the `size` bytes at `address` lie within one of `segments`.
pub open spec fn covered(segments: Seq<Segment>, address: u64, size: int) -> bool {
    exists|i: int| 0 <= i < segments.len() && holds(#[trigger] segments[i], address, size)
}

/// Bytes that the `PT_LOAD` headers among the first `n` of `segments` take
/// in the file.
pub open spec fn load_size(segments: Seq<Segment>, n: int) -> int
    decreases n,
{
    if n <= 0 {
        0
    } else if segments[n - 1].load {
        load_size(segments, n - 1) + segments[n - 1].file_size
    } else {
        load_size(segments, n - 1)
    }
}

/// Copies `bytes`, the contents of a section at `address`, to the end of
/// the program, after the zero bytes of the gap before it. A section
/// without bytes is not copied.
pub open spec fn copy(layout: Layout, address: u64, bytes: Seq<u8>, segments: Seq<Segment>)
    -> Result<Layout, ElfReadError> {
    if bytes.len() == 0 {
        Ok(layout)
    } else if !covered(segments, address, bytes.len() as int) {
        Err(ElfReadError::SectionRangeError)
    } else {
        Ok(Layout { program: layout.program + zeros(layout.gap) + bytes, gap: 0, ..layout })
    }
}

/// The layout after one more section.
///
/// A section at address 0 changes nothing. The section named `.data` gives
/// the data its address and adds to its size. A section without bytes in
/// the file adds to the size of the bss and is not copied. The first other
/// section that is not empty gives the text its address. Every other
/// section after that extends the text up to its own end: if it does not
/// start where the text ends, the gap becomes part of the text and is
/// filled with zero bytes in the program.
pub open spec fn place(layout: Layout, section: SectionView, segments: Seq<Segment>) -> Result<
    Layout,
    ElfReadError,
> {
    if !section.placed() {
        Ok(layout)
    } else {
        match section {
            SectionView::Data { address, bytes } => {
                if address > u32::MAX || layout.data_size + bytes.len() > u32::MAX {
                    Err(ElfReadError::AddressOverflow)
                } else {
                    copy(
                        Layout {
                            data_offset: address as u32,
                            data_size: (layout.data_size + bytes.len()) as u32,
                            ..layout
                        },
                        address,
                        bytes,
                        segments,
                    )
                }
            },
            SectionView::NoBits { address, size } => {
                if layout.bss_size + size > u32::MAX {
                    Err(ElfReadError::AddressOverflow)
                } else {
                    Ok(Layout { bss_size: (layout.bss_size + size) as u32, ..layout })
                }
            },
            SectionView::Loadable { address, bytes } => {
                if address > u32::MAX {
                    Err(ElfReadError::AddressOverflow)
                } else if layout.text_offset == 0 && bytes.len() != 0 {
                    if layout.text_size + bytes.len() > u32::MAX {
                        Err(ElfReadError::AddressOverflow)
                    } else {
                        copy(
                            Layout {
                                text_offset: address as u32,
                                text_size: (layout.text_size + bytes.len()) as u32,
                                ..layout
                            },
                            address,
                            bytes,
                            segments,
                        )
                    }
                } else if layout.text_offset + layout.text_size > u32::MAX {
                    Err(ElfReadError::AddressOverflow)
                } else if address < layout.text_offset + layout.text_size {
                    Err(ElfReadError::SectionOrderError)
                } else if address - layout.text_offset + bytes.len() > u32::MAX {
                    Err(ElfReadError::AddressOverflow)
                } else {
                    copy(
                        Layout {
                            text_size: (address - layout.text_offset + bytes.len()) as u32,
                            gap: (layout.gap + address - layout.text_offset
                                - layout.text_size) as nat,
                            ..layout
                        },
                        address,
                        bytes,
                        segments,
                    )
                }
            },
        }
    }
}

/// The layout after the first `n` of `sections`, or the error that the
/// first of them that cannot be placed gives.
pub open spec fn layout_of(sections: Seq<SectionView>, segments: Seq<Segment>, n: int) -> Result<
    Layout,
    ElfReadError,
>
    decreases n,
{
    if n <= 0 {
        Ok(empty_layout())
    } else {
        match layout_of(sections, segments, n - 1) {
            Err(e) => Err(e),
            Ok(layout) => place(layout, sections[n - 1], segments),
        }
    }
}

/// The description of the program that `image` holds, or the error that
/// stops the extraction.
pub open spec fn extracted(image: ImageView) -> Result<ProgramView, ElfReadError> {
    let expected = load_size(image.segments, image.segments.len() as int);
    if image.entry_point > u32::MAX || expected > u64::MAX {
        Err(ElfReadError::AddressOverflow)
    } else {
        match layout_of(image.sections, image.segments, image.sections.len() as int) {
            Err(e) => Err(e),
            Ok(layout) => {
                if expected != layout.program.len() {
                    Err(ElfReadError::WrongReadSize(expected as u64, layout.program.len() as u64))
                } else {
                    Ok(
                        ProgramView {
                            text_offset: layout.text_offset,
                            text_size: layout.text_size,
                            data_offset: layout.data_offset,
                            data_size: layout.data_size,
                            bss_size: layout.bss_size,
                            entry_point: image.entry_point as u32,
                            program: layout.program,
                        },
                    )
                }
            },
        }
    }
}

/// Whether the `size` bytes at `address` lie within one of `segments`.
fn find_segment(segments: &Vec<Segment>, address: u64, size: usize) -> (found: bool)
    ensures
        found == covered(segments@, address, size as int),
{
    let mut i: usize = 0;
    while i < segments.len()
        invariant
            i <= segments@.len(),
            forall|j: int| 0 <= j < i ==> !holds(#[trigger] segments@[j], address, size as int),
        decreases segments@.len() - i,
    {
        let segment = &segments[i];
        if segment.load && segment.virtual_addr <= address && address as u128 + size as u128
            <= segment.virtual_addr as u128 + segment.file_size as u128 {
            return true;
        }
        i += 1;
    }
    false
}

/// Appends the `gap` zero bytes and then `bytes` to `program`, if there are
/// bytes and a segment holds them.
fn copy_section(
    program: &mut Vec<u8>,
    gap: &mut u64,
    segments: &Vec<Segment>,
    address: u64,
    bytes: &Vec<u8>,
    layout: Ghost<Layout>,
) -> (result: Result<(), ElfReadError>)
    requires
        old(program)@ == layout@.program,
        *old(gap) == layout@.gap,
    ensures
        match result {
            Ok(()) => {
                &&& copy(layout@, address, bytes@, segments@) matches Ok(next)
                &&& final(program)@ == next.program
                &&& *final(gap) == next.gap
            },
            Err(e) => copy(layout@, address, bytes@, segments@) == Err::<Layout, ElfReadError>(e),
        },
{
    if bytes.len() == 0 {
        return Ok(());
    }
    if !find_segment(segments, address, bytes.len()) {
        return Err(ElfReadError::SectionRangeError);
    }
    let mut filled: u64 = 0;
    while filled < *gap
        invariant
            filled <= *gap,
            *gap == layout@.gap,
            program@ == layout@.program + zeros(filled as nat),
        decreases *gap - filled,
    {
        program.push(0);
        filled += 1;
        assert(program@ =~= layout@.program + zeros(filled as nat));
    }
    *gap = 0;
    put_bytes(program, bytes.as_slice());
    Ok(())
}

/// The layout of the program that `image` holds: where its text and data
/// lie, how large they and the bss are, and the bytes of its sections in
/// one run.
///
/// The run is as long as the `PT_LOAD` headers say: otherwise the result is
/// `WrongReadSize`. The bytes of a section must lie within one such header:
/// otherwise the result is `SectionRangeError`.
pub fn extract(image: &ElfImage) -> (result: Result<ProgramDescription, ElfReadError>)
    ensures
        match result {
            Ok(description) => extracted(image@) == Ok::<ProgramView, ElfReadError>(
                description@,
            ),
            Err(e) => extracted(image@) == Err::<ProgramView, ElfReadError>(e),
        },
{
    if image.entry_point > u32::MAX as u64 {
        return Err(ElfReadError::AddressOverflow);
    }
    let entry_point = image.entry_point as u32;

    let mut expected_size: u64 = 0;
    let mut i: usize = 0;
    while i < image.segments.len()
        invariant
            i <= image.segments@.len(),
            expected_size == load_size(image.segments@, i as int),
        decreases image.segments@.len() - i,
    {
        let segment = &image.segments[i];
        if segment.load {
            if segment.file_size > u64::MAX - expected_size {
                proof {
                    lemma_load_size_monotonic(
                        image.segments@,
                        i + 1,
                        image.segments@.len() as int,
                    );
                }
                return Err(ElfReadError::AddressOverflow);
            }
            expected_size = expected_size + segment.file_size;
        }
        i += 1;
    }

    let mut program: Vec<u8> = Vec::new();
    let mut gap: u64 = 0;
    let mut data_offset: u32 = 0;
    let mut data_size: u32 = 0;
    let mut text_offset: u32 = 0;
    let mut text_size: u32 = 0;
    let mut bss_size: u32 = 0;
    let ghost mut layout = empty_layout();

    let mut i: usize = 0;
    while i < image.sections.len()
        invariant
            i <= image.sections@.len(),
            image.entry_point <= u32::MAX,
            expected_size == load_size(image.segments@, image.segments@.len() as int),
            layout_of(image@.sections, image.segments@, i as int) == Ok::<Layout, ElfReadError>(
                layout,
            ),
            layout.text_offset == text_offset,
            layout.text_size == text_size,
            layout.data_offset == data_offset,
            layout.data_size == data_size,
            layout.bss_size == bss_size,
            layout.program == program@,
            layout.gap == gap,
            gap <= text_size,
        decreases image.sections@.len() - i,
    {
        proof {
            lemma_layout_error_stays(
                image@.sections,
                image.segments@,
                i + 1,
                image.sections@.len() as int,
            );
            assert(image@.sections[i as int] == image.sections@[i as int]@);
        }
        match &image.sections[i] {
            Section::Data { address, bytes } => {
                if *address != 0 {
                    if *address > u32::MAX as u64 || bytes.len() > (u32::MAX - data_size) as usize {
                        return Err(ElfReadError::AddressOverflow);
                    }
                    data_offset = *address as u32;
                    data_size = data_size + bytes.len() as u32;
                    proof {
                        layout = Layout { data_offset, data_size, ..layout };
                    }
                    match copy_section(
                        &mut program,
                        &mut gap,
                        &image.segments,
                        *address,
                        bytes,
                        Ghost(layout),
                    ) {
                        Err(e) => {
                            return Err(e);
                        },
                        Ok(()) => {
                            proof {
                                layout = Layout { program: program@, gap: gap as nat, ..layout };
                            }
                        },
                    }
                }
            },
            Section::NoBits { address, size } => {
                if *address != 0 {
                    if *size > (u32::MAX - bss_size) as u64 {
                        return Err(ElfReadError::AddressOverflow);
                    }
                    bss_size = bss_size + *size as u32;
                    proof {
                        layout = Layout { bss_size, ..layout };
                    }
                }
            },
            Section::Loadable { address, bytes } => {
                if *address != 0 {
                    if *address > u32::MAX as u64 {
                        return Err(ElfReadError::AddressOverflow);
                    }
                    if text_offset == 0 && bytes.len() != 0 {
                        if bytes.len() > (u32::MAX - text_size) as usize {
                            return Err(ElfReadError::AddressOverflow);
                        }
                        text_offset = *address as u32;
                        text_size = text_size + bytes.len() as u32;
                    } else {
                        if text_size > u32::MAX - text_offset {
                            return Err(ElfReadError::AddressOverflow);
                        }
                        let text_end = text_offset + text_size;
                        if *address < text_end as u64 {
                            return Err(ElfReadError::SectionOrderError);
                        }
                        let bytes_to_add = *address as u32 - text_end;
                        if bytes_to_add > u32::MAX - text_size || bytes.len() > (u32::MAX
                            - text_size - bytes_to_add) as usize {
                            return Err(ElfReadError::AddressOverflow);
                        }
                        text_size = text_size + bytes_to_add + bytes.len() as u32;
                        gap = gap + bytes_to_add as u64;
                    }
                    proof {
                        layout = Layout { text_offset, text_size, gap: gap as nat, ..layout };
                    }
                    match copy_section(
                        &mut program,
                        &mut gap,
                        &image.segments,
                        *address,
                        bytes,
                        Ghost(layout),
                    ) {
                        Err(e) => {
                            return Err(e);
                        },
                        Ok(()) => {
                            proof {
                                layout = Layout { program: program@, gap: gap as nat, ..layout };
                            }
                        },
                    }
                }
            },
        }
        i += 1;
    }

    let observed_size = program.len();
    if expected_size != observed_size as u64 {
        Err(ElfReadError::WrongReadSize(expected_size, observed_size as u64))
    } else {
        Ok(
            ProgramDescription {
                entry_point,
                program,
                data_size,
                data_offset,
                text_offset,
                text_size,
                bss_size,
            },
        )
    }
}

/// What the layout of the program in the file `input` depends on, if its
/// headers can be read: the image of the headers that `xmas_elf` reads.
pub open spec fn image_in(input: Seq<u8>) -> Result<ImageView, ElfReadError> {
    image_of(input, headers_in(input))
}

/// The description of the program in the file `input`, if its headers can
/// be read, or the error that stops the work.
pub open spec fn program_in(input: Seq<u8>) -> Result<ProgramView, ElfReadError> {
    match image_in(input) {
        Ok(image) => extracted(image),
        Err(e) => Err(e),
    }
}

/// Reads from the ELF file `input` what the layout of its program depends
/// on: `read_headers`, then `build_image`.
///
/// A file whose headers cannot be read is refused with `ParseElfError`.
/// Of any other file the result is the image of its headers, or the error
/// of the first section that cannot be loaded.
pub fn read_image(input: &[u8]) -> (result: Result<ElfImage, ElfReadError>)
    ensures
        result is Ok <==> readable(input@) && image_in(input@) is Ok,
        result matches Ok(image) ==> image_in(input@) == Ok::<ImageView, ElfReadError>(image@),
        result matches Err(e) ==> if readable(input@) {
            image_in(input@) == Err::<ImageView, ElfReadError>(e)
        } else {
            e matches ElfReadError::ParseElfError(_)
        },
{
    match read_headers(input) {
        Ok(headers) => build_image(input, &headers),
        Err(e) => Err(e),
    }
}

/// The layout of the program in the ELF file `input`: `read_image`, then
/// `extract`.
///
/// A file whose headers cannot be read is refused with `ParseElfError`.
/// Of any other file the result is the description that `extracted` gives
/// for the image of its headers, or the error that stops the work.
pub fn read_program(input: &[u8]) -> (result: Result<ProgramDescription, ElfReadError>)
    ensures
        result is Ok <==> readable(input@) && program_in(input@) is Ok,
        result matches Ok(description) ==> program_in(input@) == Ok::<
            ProgramView,
            ElfReadError,
        >(description@),
        result matches Err(e) ==> if readable(input@) {
            program_in(input@) == Err::<ProgramView, ElfReadError>(e)
        } else {
            e matches ElfReadError::ParseElfError(_)
        },
{
    match read_image(input) {
        Ok(image) => extract(&image),
        Err(e) => Err(e),
    }
}

/// Memory that the sections without bytes in the file take, among the
/// first `n` of `sections`.
pub open spec fn bss_total(sections: Seq<SectionView>, n: int) -> int
    decreases n,
{
    if n <= 0 {
        0
    } else if sections[n - 1].placed() && sections[n - 1] is NoBits {
        bss_total(sections, n - 1) + sections[n - 1].size()
    } else {
        bss_total(sections, n - 1)
    }
}

/// In every layout the sizes of the sections without bytes in the file add
/// up to the size of the bss, and none of their memory is in the program:
/// the program, with the gap still to be filled, is as long as the text
/// and the data together.
pub proof fn lemma_layout_sizes(sections: Seq<SectionView>, segments: Seq<Segment>, n: int)
    requires
        0 <= n <= sections.len(),
        layout_of(sections, segments, n) is Ok,
    ensures
        layout_of(sections, segments, n)->Ok_0.bss_size == bss_total(sections, n),
        layout_of(sections, segments, n)->Ok_0.program.len() + layout_of(
            sections,
            segments,
            n,
        )->Ok_0.gap == layout_of(sections, segments, n)->Ok_0.text_size + layout_of(
            sections,
            segments,
            n,
        )->Ok_0.data_size,
    decreases n,
{
    if 0 < n {
        lemma_layout_sizes(sections, segments, n - 1);
    }
}

/// A program that was extracted is as long as the `PT_LOAD` headers of its
/// file say, and its bss is as large as the sections without bytes in the
/// file are together.
pub proof fn lemma_extracted_sizes(image: ImageView)
    requires
        extracted(image) is Ok,
    ensures
        extracted(image)->Ok_0.program.len() == load_size(
            image.segments,
            image.segments.len() as int,
        ),
        extracted(image)->Ok_0.bss_size == bss_total(
            image.sections,
            image.sections.len() as int,
        ),
        extracted(image)->Ok_0.program.len() <= extracted(image)->Ok_0.text_size + extracted(
            image,
        )->Ok_0.data_size,
{
    lemma_layout_sizes(image.sections, image.segments, image.sections.len() as int);
}

/// The file size of a prefix of the program headers is at most that of a
/// longer prefix.
pub proof fn lemma_load_size_monotonic(segments: Seq<Segment>, i: int, j: int)
    requires
        0 <= i <= j,
    ensures
        0 <= load_size(segments, i) <= load_size(segments, j),
    decreases j,
{
    if i < j {
        lemma_load_size_monotonic(segments, i, j - 1);
    } else if 0 < i {
        lemma_load_size_monotonic(segments, i - 1, i - 1);
    }
}

/// Once a section cannot be placed, the sections after it do not change
/// the error.
pub proof fn lemma_layout_error_stays(
    sections: Seq<SectionView>,
    segments: Seq<Segment>,
    i: int,
    n: int,
)
    requires
        0 <= i <= n,
    ensures
        layout_of(sections, segments, i) is Err ==> layout_of(sections, segments, n) == layout_of(
            sections,
            segments,
            i,
        ),
    decreases n,
{
    if i < n {
        lemma_layout_error_stays(sections, segments, i, n - 1);
    }
}

} // verus!
