//! From the headers of an ELF file to what the layout of its program
//! depends on.
//!
//! Each section header that has an address gives one section of the image.
//! The section named `.data` is the section of data; a section whose type
//! says that it has no bytes in the file takes memory only; every other
//! section is copied to the program. The bytes of a section are the bytes
//! of the file at the offset that its header gives.

use crate::elf::{ElfImage, ElfReadError, ImageView, Section, SectionView, Segment};
use crate::elf_file::{ElfHeaders, ElfHeadersView, SectionHeader, SectionKind};
use crate::words::put_bytes;
use vstd::prelude::*;
use vstd::slice::slice_subrange;

verus! {

/// The name that marks the section of initialized data, with the zero byte
/// that ends a name.
pub open spec fn data_name() -> Seq<u8> {
    seq![0x2eu8, 0x64u8, 0x61u8, 0x74u8, 0x61u8, 0u8]
}

/// Whether the name that starts at `at` in `input` is `.data`.
pub open spec fn names_data(input: Seq<u8>, at: int) -> bool {
    0 <= at && at + 6 <= input.len() && input.subrange(at, at + 6) == data_name()
}

/// Whether the name that starts at `at` in `input` is `.data`.
fn is_data_name(input: &[u8], at: u64) -> (is_data: bool)
    ensures
        is_data == names_data(input@, at as int),
{
    let len = input.len();
    if len < 6 || at > (len - 6) as u64 {
        return false;
    }
    let start = at as usize;
    let found = input[start] == 0x2e && input[start + 1] == 0x64 && input[start + 2] == 0x61
        && input[start + 3] == 0x74 && input[start + 4] == 0x61 && input[start + 5] == 0;
    proof {
        let name = input@.subrange(at as int, at + 6);
        if found {
            assert(name =~= data_name());
        } else {
            assert(name[0] == input@[at as int]);
            assert(name[1] == input@[at + 1]);
            assert(name[2] == input@[at + 2]);
            assert(name[3] == input@[at + 3]);
            assert(name[4] == input@[at + 4]);
            assert(name[5] == input@[at + 5]);
        }
    }
    found
}

/// The bytes that a section of `size` bytes at `offset` has in the file,
/// if the file holds them.
fn section_bytes(input: &[u8], offset: u64, size: u64) -> (bytes: Option<Vec<u8>>)
    ensures
        match bytes {
            Some(bytes) => offset + size <= input@.len() && bytes@ == input@.subrange(
                offset as int,
                offset + size,
            ),
            None => offset + size > input@.len(),
        },
{
    let len = input.len();
    if size > len as u64 || offset > len as u64 - size {
        return None;
    }
    let mut bytes: Vec<u8> = Vec::new();
    put_bytes(&mut bytes, slice_subrange(input, offset as usize, (offset + size) as usize));
    Some(bytes)
}

/// Whether a section header has a type that `xmas_elf` knows and that is
/// not the type of an unused header.
pub open spec fn has_type(header: SectionHeader) -> bool {
    header.kind != SectionKind::Null && header.kind != SectionKind::Invalid
}

/// Whether the section that `header` describes is named `.data`: it has a
/// type, and its name in the section of names is `.data`.
pub open spec fn named_data(input: Seq<u8>, headers: ElfHeadersView, header: SectionHeader)
    -> bool {
    &&& has_type(header)
    &&& headers.names_index < headers.sections.len()
    &&& names_data(input, headers.sections[headers.names_index as int].offset + header.name)
}

/// Why the section that `header` describes cannot be loaded, if it cannot:
/// it has bytes and no type, or its bytes do not lie in the file.
pub open spec fn load_error(header: SectionHeader, named: bool, input: Seq<u8>) -> Option<
    ElfReadError,
> {
    if !named && header.kind == SectionKind::NoBits {
        None
    } else if header.size == 0 {
        None
    } else if !has_type(header) {
        Some(ElfReadError::ParseElfError("Section has bytes and no type"))
    } else if header.offset + header.size > input.len() {
        Some(ElfReadError::SectionRangeError)
    } else {
        None
    }
}

/// The section that the section header `header` of the file `input`
/// describes: a section of its address, of the kind that the name and the
/// type give, with its bytes from the file.
pub open spec fn section_of(header: SectionHeader, named: bool, input: Seq<u8>) -> SectionView {
    let bytes = if header.size == 0 {
        Seq::empty()
    } else {
        input.subrange(header.offset as int, header.offset + header.size)
    };
    if named {
        SectionView::Data { address: header.address, bytes }
    } else if header.kind == SectionKind::NoBits {
        SectionView::NoBits { address: header.address, size: header.size }
    } else {
        SectionView::Loadable { address: header.address, bytes }
    }
}

/// Whether the section header at `i` has an address and a section that
/// cannot be loaded.
pub open spec fn unloadable(input: Seq<u8>, headers: ElfHeadersView, i: int) -> bool {
    headers.sections[i].address != 0 && load_error(
        headers.sections[i],
        named_data(input, headers, headers.sections[i]),
        input,
    ) is Some
}

/// The index of the first of the first `n` section headers that has an
/// address and cannot be loaded, or `n` if there is none.
pub open spec fn first_unloadable(input: Seq<u8>, headers: ElfHeadersView, n: int) -> int
    decreases n,
{
    if n <= 0 {
        0
    } else if first_unloadable(input, headers, n - 1) < n - 1 {
        first_unloadable(input, headers, n - 1)
    } else if unloadable(input, headers, n - 1) {
        n - 1
    } else {
        n
    }
}

/// The sections of the first `n` section headers: one for each header
/// that has an address, in the order of the headers.
pub open spec fn loaded(input: Seq<u8>, headers: ElfHeadersView, n: int) -> Seq<SectionView>
    decreases n,
{
    if n <= 0 {
        Seq::empty()
    } else if headers.sections[n - 1].address != 0 {
        loaded(input, headers, n - 1).push(
            section_of(
                headers.sections[n - 1],
                named_data(input, headers, headers.sections[n - 1]),
                input,
            ),
        )
    } else {
        loaded(input, headers, n - 1)
    }
}

/// What the headers `headers` of the file `input` describe: the entry
/// point and the program headers as they are, and a section for each
/// section header that has an address; or the error of the first section
/// that cannot be loaded.
pub open spec fn image_of(input: Seq<u8>, headers: ElfHeadersView) -> Result<
    ImageView,
    ElfReadError,
> {
    let n = headers.sections.len() as int;
    let k = first_unloadable(input, headers, n);
    if k < n {
        match load_error(
            headers.sections[k],
            named_data(input, headers, headers.sections[k]),
            input,
        ) {
            Some(e) => Err(e),
            None => Err(ElfReadError::SectionRangeError),
        }
    } else {
        Ok(
            ImageView {
                entry_point: headers.entry_point,
                segments: headers.segments,
                sections: loaded(input, headers, n),
            },
        )
    }
}

/// Makes the section that `header` describes, with its bytes from `input`.
fn load_section(input: &[u8], header: &SectionHeader, named: bool) -> (result: Result<
    Section,
    ElfReadError,
>)
    ensures
        match result {
            Ok(section) => load_error(*header, named, input@) is None && section@ == section_of(
                *header,
                named,
                input@,
            ),
            Err(e) => load_error(*header, named, input@) == Some(e),
        },
{
    if !named && header.kind == SectionKind::NoBits {
        return Ok(Section::NoBits { address: header.address, size: header.size });
    }
    let bytes = if header.size == 0 {
        Vec::new()
    } else if header.kind == SectionKind::Null || header.kind == SectionKind::Invalid {
        return Err(ElfReadError::ParseElfError("Section has bytes and no type"));
    } else {
        match section_bytes(input, header.offset, header.size) {
            Some(bytes) => bytes,
            None => {
                return Err(ElfReadError::SectionRangeError);
            },
        }
    };
    if named {
        Ok(Section::Data { address: header.address, bytes })
    } else {
        Ok(Section::Loadable { address: header.address, bytes })
    }
}

/// Whether the section that `header` describes is named `.data`.
fn is_named_data(input: &[u8], headers: &ElfHeaders, header: &SectionHeader) -> (named: bool)
    ensures
        named == named_data(input@, headers@, *header),
{
    let len = input.len();
    if header.kind == SectionKind::Null || header.kind == SectionKind::Invalid {
        return false;
    }
    if headers.names_index as usize >= headers.sections.len() {
        return false;
    }
    let names = &headers.sections[headers.names_index as usize];
    if names.offset > u64::MAX - header.name as u64 {
        return false;
    }
    is_data_name(input, names.offset + header.name as u64)
}

/// `first_unloadable` is the least index of a section header whose
/// section cannot be loaded.
pub proof fn lemma_first_unloadable(input: Seq<u8>, headers: ElfHeadersView, n: int)
    requires
        0 <= n,
    ensures
        0 <= first_unloadable(input, headers, n) <= n,
        forall|i: int|
            0 <= i < first_unloadable(input, headers, n) ==> !#[trigger] unloadable(
                input,
                headers,
                i,
            ),
        first_unloadable(input, headers, n) < n ==> unloadable(
            input,
            headers,
            first_unloadable(input, headers, n),
        ),
    decreases n,
{
    if 0 < n {
        lemma_first_unloadable(input, headers, n - 1);
    }
}

/// Where the first section that cannot be loaded lies, seen from a prefix
/// in which all can: at the next header if its section cannot be loaded,
/// else further on.
proof fn lemma_first_unloadable_step(input: Seq<u8>, headers: ElfHeadersView, i: int, n: int)
    requires
        0 <= i < n,
        first_unloadable(input, headers, i) == i,
    ensures
        unloadable(input, headers, i) ==> first_unloadable(input, headers, n) == i,
        !unloadable(input, headers, i) ==> first_unloadable(input, headers, i + 1) == i + 1,
    decreases n,
{
    if i + 1 < n {
        lemma_first_unloadable_step(input, headers, i, n - 1);
    }
}

/// What the layout of the program in the file `input` depends on, from the
/// headers of the file: the entry point, the program headers, and for each
/// section header that has an address a section, with its bytes from the
/// file. A section is the section of data if it is named `.data`, else one
/// without bytes if its type says so, else one of the other sections.
///
/// The first section that has bytes and no type, or whose bytes do not lie
/// in the file, stops the work with its error.
pub fn build_image(input: &[u8], headers: &ElfHeaders) -> (result: Result<ElfImage, ElfReadError>)
    ensures
        match result {
            Ok(image) => image_of(input@, headers@) == Ok::<ImageView, ElfReadError>(image@),
            Err(e) => image_of(input@, headers@) == Err::<ImageView, ElfReadError>(e),
        },
{
    let count = headers.sections.len();
    let mut segments: Vec<Segment> = Vec::new();
    let mut i: usize = 0;
    while i < headers.segments.len()
        invariant
            i <= headers.segments@.len(),
            segments@ == headers.segments@.subrange(0, i as int),
        decreases headers.segments@.len() - i,
    {
        segments.push(headers.segments[i]);
        assert(segments@ =~= headers.segments@.subrange(0, i + 1));
        i += 1;
    }
    assert(segments@ =~= headers.segments@);

    let mut sections: Vec<Section> = Vec::new();
    let mut i: usize = 0;
    while i < count
        invariant
            i <= count,
            count == headers.sections@.len(),
            first_unloadable(input@, headers@, i as int) == i,
            sections@.map_values(|section: Section| section@) == loaded(
                input@,
                headers@,
                i as int,
            ),
        decreases count - i,
    {
        let header = &headers.sections[i];
        let ghost before = sections@;
        proof {
            lemma_first_unloadable_step(input@, headers@, i as int, count as int);
        }
        if header.address != 0 {
            let named = is_named_data(input, headers, header);
            match load_section(input, header, named) {
                Ok(section) => {
                    sections.push(section);
                    assert(sections@.map_values(|section: Section| section@) =~= before.map_values(
                        |section: Section| section@,
                    ).push(section_of(*header, named, input@)));
                },
                Err(e) => {
                    return Err(e);
                },
            }
        }
        i += 1;
    }
    Ok(ElfImage { entry_point: headers.entry_point, segments, sections })
}

} // verus!
