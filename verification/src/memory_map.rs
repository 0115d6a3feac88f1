//! Main memory and the other memory regions of a machine, chosen from the
//! regions that a description of the board lists.
//!
//! Main memory is the largest region whose name has `ram` in it. Every
//! other region that is not empty becomes a memory region of the boot
//! image, rounded up to whole pages.

use crate::tags::memory::{MemoryRegion, MemoryRegions};
use crate::xous_arguments::{code_of, XousArgumentCode, XousSize};
use vstd::bytes::u32_from_le_bytes;
use vstd::prelude::*;
use vstd::string::*;

verus! {

/// A memory region as the description of a board lists it.
#[derive(Debug)]
pub struct CsrMemoryRegion {
    pub name: String,
    pub start: u32,
    pub length: u32,
}

/// The memory of a machine as a boot image describes it.
#[derive(Debug)]
pub struct MemoryMap {
    /// First address of main memory
    pub ram_start: XousSize,
    /// Bytes of main memory, in whole pages
    pub ram_size: XousSize,
    /// Name of main memory
    pub ram_name: XousArgumentCode,
    /// The regions besides main memory
    pub regions: MemoryRegions,
    /// Pages of all regions together, main memory included
    pub memory_required: u32,
}

/// Why no memory map could be made.
#[derive(Debug, PartialEq, Eq, Clone, Copy)]
pub enum MapError {
    /// The name of the region at this index is not ASCII.
    BadName(usize),
    /// A region is too long to be rounded up to whole pages, or the regions
    /// have more pages together than 32 bits can count.
    TooLarge,
    /// No region larger than main memory so far has `ram` in its name.
    NoRam,
}

/// Bytes of a page of memory.
pub const PAGE_SIZE: u32 = 4096;

/// The largest length that can be rounded up to whole pages.
pub const MAX_REGION_LEN: u32 = 0xffff_f000;

/// Whether `name` has `ram` in it.
pub open spec fn contains_ram(name: Seq<char>) -> bool {
    exists|i: int| #[trigger] ram_at(name, i)
}

/// Whether `ram` stands at `i` in `name`.
pub open spec fn ram_at(name: Seq<char>, i: int) -> bool {
    0 <= i && i + 3 <= name.len() && name[i] == 'r' && name[i + 1] == 'a' && name[i + 2] == 'm'
}

/// Character `i` of `name`, or a space where the name has ended.
pub open spec fn padded(name: Seq<char>, i: int) -> char {
    if i < name.len() {
        name[i]
    } else {
        ' '
    }
}

/// The code that names a region: its first four characters, with spaces
/// after a shorter name.
pub open spec fn name_code(name: Seq<char>) -> XousArgumentCode {
    code_of(padded(name, 0), padded(name, 1), padded(name, 2), padded(name, 3))
}

/// Whether a name is made of ASCII characters.
pub open spec fn is_ascii_name(name: Seq<char>) -> bool {
    forall|i: int| 0 <= i < name.len() ==> '\0' <= #[trigger] name[i] <= '\u{7f}'
}

/// `length` rounded up to whole pages.
pub open spec fn rounded(length: u32) -> int {
    (length + PAGE_SIZE - 1) / (PAGE_SIZE as int) * PAGE_SIZE
}

/// `length` rounded up to whole pages.
pub fn round_mem(length: u32) -> (result: u32)
    requires
        length <= MAX_REGION_LEN,
    ensures
        result == rounded(length),
        result % PAGE_SIZE == 0,
        length <= result < length + PAGE_SIZE,
{
    let sum = length + 4095;
    assert((sum & !4095u32) == sum / 4096 * 4096) by (bit_vector);
    sum & !4095
}

/// Whether the first `n` regions can be used: their names are ASCII and
/// their lengths can be rounded up to whole pages.
pub open spec fn usable(listed: Seq<CsrMemoryRegion>, n: int) -> bool {
    forall|i: int|
        0 <= i < n ==> is_ascii_name((#[trigger] listed[i]).name@) && listed[i].length
            <= MAX_REGION_LEN
}

/// Main memory as chosen so far: its size and first address, and the index
/// of the region that it is, if it is one.
pub struct MainMemory {
    pub size: u32,
    pub start: u32,
    pub region: Option<int>,
}

/// Main memory after the first `n` regions, starting from a main memory of
/// `size` bytes at `start`: each region that has `ram` in its name and is
/// longer than main memory so far takes its place, rounded up to whole
/// pages.
pub open spec fn main_memory(listed: Seq<CsrMemoryRegion>, n: int, start: u32, size: u32)
    -> MainMemory
    decreases n,
{
    if n <= 0 {
        MainMemory { size, start, region: None }
    } else {
        let before = main_memory(listed, n - 1, start, size);
        if contains_ram(listed[n - 1].name@) && listed[n - 1].length > before.size {
            MainMemory {
                size: rounded(listed[n - 1].length) as u32,
                start: listed[n - 1].start,
                region: Some(n - 1),
            }
        } else {
            before
        }
    }
}

/// Pages that the first `n` regions take together.
pub open spec fn pages(listed: Seq<CsrMemoryRegion>, n: int) -> int
    decreases n,
{
    if n <= 0 {
        0
    } else {
        pages(listed, n - 1) + rounded(listed[n - 1].length) / (PAGE_SIZE as int)
    }
}

/// The regions of the boot image among the first `n` regions: those that
/// are not named as main memory is and are not empty, in whole pages.
pub open spec fn other_regions(listed: Seq<CsrMemoryRegion>, n: int, ram_name: XousArgumentCode)
    -> Seq<MemoryRegion>
    decreases n,
{
    if n <= 0 {
        Seq::empty()
    } else if name_code(listed[n - 1].name@) == ram_name || rounded(listed[n - 1].length) == 0 {
        other_regions(listed, n - 1, ram_name)
    } else {
        other_regions(listed, n - 1, ram_name).push(
            MemoryRegion {
                start: listed[n - 1].start,
                length: rounded(listed[n - 1].length) as u32,
                name: name_code(listed[n - 1].name@),
            },
        )
    }
}

/// Whether `ram` stands in the ASCII name `name`.
fn has_ram(name: &str) -> (found: bool)
    requires
        name.is_ascii(),
    ensures
        found == contains_ram(name@),
{
    broadcast use is_ascii_spec_bytes;

    let bytes = name.as_bytes();
    let len = bytes.len();
    if len < 3 {
        assert forall|i: int| !ram_at(name@, i) by {}
        return false;
    }
    let mut i: usize = 0;
    while i <= len - 3
        invariant
            len == name@.len(),
            3 <= len,
            bytes@ == name.spec_bytes(),
            name.is_ascii(),
            forall|j: int| 0 <= j < i ==> !ram_at(name@, j),
        decreases len - i,
    {
        if bytes[i] == 0x72 && bytes[i + 1] == 0x61 && bytes[i + 2] == 0x6d {
            assert(name@[i as int] as u8 == 0x72 && name@[i + 1] as u8 == 0x61 && name@[i + 2] as u8
                == 0x6d);
            assert(ram_at(name@, i as int));
            return true;
        }
        assert(!ram_at(name@, i as int));
        i += 1;
    }
    assert forall|j: int| !ram_at(name@, j) by {}
    false
}

/// The code that names a region, for an ASCII name.
pub fn make_name(name: &str) -> (code: XousArgumentCode)
    requires
        name.is_ascii(),
    ensures
        code == name_code(name@),
{
    broadcast use is_ascii_spec_bytes;

    let bytes = name.as_bytes();
    let len = bytes.len();
    let mut four: Vec<u8> = Vec::new();
    let mut i: usize = 0;
    while i < 4
        invariant
            i <= 4,
            len == name@.len(),
            bytes@ == name.spec_bytes(),
            name.is_ascii(),
            four@.len() == i,
            forall|j: int| 0 <= j < i ==> four@[j] == padded(name@, j) as u8,
        decreases 4 - i,
    {
        if i < len {
            four.push(bytes[i]);
        } else {
            four.push(0x20);
        }
        i += 1;
    }
    assert(four@ =~= seq![
        padded(name@, 0) as u8,
        padded(name@, 1) as u8,
        padded(name@, 2) as u8,
        padded(name@, 3) as u8,
    ]);
    u32_from_le_bytes(four.as_slice())
}

/// The index of the first of the first `n` regions that cannot be used,
/// or `n` if they all can.
pub open spec fn first_unusable(listed: Seq<CsrMemoryRegion>, n: int) -> int
    decreases n,
{
    if n <= 0 {
        0
    } else if first_unusable(listed, n - 1) < n - 1 {
        first_unusable(listed, n - 1)
    } else if is_ascii_name(listed[n - 1].name@) && listed[n - 1].length <= MAX_REGION_LEN {
        n
    } else {
        n - 1
    }
}

/// `first_unusable` is the least index of a region that cannot be used.
pub proof fn lemma_first_unusable(listed: Seq<CsrMemoryRegion>, n: int)
    requires
        0 <= n,
    ensures
        0 <= first_unusable(listed, n) <= n,
        usable(listed, first_unusable(listed, n)),
        first_unusable(listed, n) < n ==> !(is_ascii_name(
            listed[first_unusable(listed, n)].name@,
        ) && listed[first_unusable(listed, n)].length <= MAX_REGION_LEN),
    decreases n,
{
    if 0 < n {
        lemma_first_unusable(listed, n - 1);
    }
}

/// Where the first region that cannot be used lies, seen from a prefix in
/// which all can: at the next region if that cannot be used, else further
/// on.
proof fn lemma_first_unusable_step(listed: Seq<CsrMemoryRegion>, i: int, n: int)
    requires
        0 <= i < n,
        first_unusable(listed, i) == i,
    ensures
        !(is_ascii_name(listed[i].name@) && listed[i].length <= MAX_REGION_LEN)
            ==> first_unusable(listed, n) == i,
        is_ascii_name(listed[i].name@) && listed[i].length <= MAX_REGION_LEN ==> first_unusable(
            listed,
            i + 1,
        ) == i + 1,
    decreases n,
{
    if i + 1 < n {
        lemma_first_unusable_step(listed, i, n - 1);
    }
}

/// The pages of a prefix of the regions are at most those of a longer
/// prefix.
pub proof fn lemma_pages_monotonic(listed: Seq<CsrMemoryRegion>, i: int, j: int)
    requires
        0 <= i <= j,
    ensures
        0 <= pages(listed, i) <= pages(listed, j),
    decreases j,
{
    if i < j {
        lemma_pages_monotonic(listed, i, j - 1);
    } else if 0 < i {
        lemma_pages_monotonic(listed, i - 1, i - 1);
    }
}

/// The error for a region that cannot be used.
pub open spec fn unusable_error(region: CsrMemoryRegion, index: usize) -> MapError {
    if !is_ascii_name(region.name@) {
        MapError::BadName(index)
    } else {
        MapError::TooLarge
    }
}

/// The memory map that the regions `listed` give, if main memory is
/// `ram_size` bytes at `ram_start` before any region is looked at, or why
/// there is none.
pub open spec fn memory_map(listed: Seq<CsrMemoryRegion>, ram_start: u32, ram_size: u32) -> Result<
    (MainMemory, Seq<MemoryRegion>, int),
    MapError,
> {
    let n = listed.len() as int;
    let bad = first_unusable(listed, n);
    let main = main_memory(listed, n, ram_start, ram_size);
    let required = ram_size / PAGE_SIZE + pages(listed, n);
    if bad < n {
        Err(unusable_error(listed[bad], bad as usize))
    } else if main.region is None {
        Err(MapError::NoRam)
    } else if required > u32::MAX {
        Err(MapError::TooLarge)
    } else {
        Ok((main, other_regions(listed, n, name_code(listed[main.region->0].name@)), required))
    }
}

/// Chooses main memory among the regions `listed` and makes the memory
/// regions of the others. Main memory is the last region that has `ram` in
/// its name and is longer than main memory was before it; before the
/// first region, main memory is `ram_size` bytes at `ram_start`.
///
/// Every region but those named as main memory is, and but the empty ones,
/// becomes a memory region, its length rounded up to whole pages.
pub fn map_memory(listed: &Vec<CsrMemoryRegion>, ram_start: u32, ram_size: u32) -> (result: Result<
    MemoryMap,
    MapError,
>)
    ensures
        match result {
            Ok(map) => {
                &&& memory_map(listed@, ram_start, ram_size) matches Ok((main, regions, required))
                &&& map.ram_start == main.start
                &&& map.ram_size == main.size
                &&& main.region matches Some(index)
                &&& map.ram_name == name_code(listed@[index].name@)
                &&& map.regions.regions@ == regions
                &&& map.memory_required == required
            },
            Err(e) => memory_map(listed@, ram_start, ram_size) == Err::<
                (MainMemory, Seq<MemoryRegion>, int),
                MapError,
            >(e),
        },
{
    let count = listed.len();
    let mut start = ram_start;
    let mut size = ram_size;
    let mut found: Option<usize> = None;
    let mut required: u128 = (ram_size / 4096) as u128;
    let mut i: usize = 0;
    while i < count
        invariant
            i <= count,
            count == listed@.len(),
            first_unusable(listed@, i as int) == i,
            usable(listed@, i as int),
            main_memory(listed@, i as int, ram_start, ram_size) == (MainMemory {
                size,
                start,
                region: match found {
                    Some(index) => Some(index as int),
                    None => None,
                },
            }),
            found matches Some(index) ==> index < i,
            required == ram_size / PAGE_SIZE + pages(listed@, i as int),
            required <= 0x10_0000 + i * 0x10_0000,
        decreases count - i,
    {
        let region = &listed[i];
        proof {
            lemma_first_unusable_step(listed@, i as int, count as int);
        }
        if !region.name.as_str().is_ascii() {
            return Err(MapError::BadName(i));
        }
        if region.length > MAX_REGION_LEN {
            return Err(MapError::TooLarge);
        }
        if has_ram(region.name.as_str()) && region.length > size {
            size = round_mem(region.length);
            start = region.start;
            found = Some(i);
        }
        required = required + (round_mem(region.length) / 4096) as u128;
        i += 1;
    }
    proof {
        lemma_first_unusable(listed@, count as int);
    }
    let index = match found {
        Some(index) => index,
        None => {
            return Err(MapError::NoRam);
        },
    };
    if required > u32::MAX as u128 {
        return Err(MapError::TooLarge);
    }
    let ram_name = make_name(listed[index].name.as_str());

    let mut regions = MemoryRegions::new();
    let mut i: usize = 0;
    while i < count
        invariant
            i <= count,
            count == listed@.len(),
            usable(listed@, count as int),
            regions.regions@ == other_regions(listed@, i as int, ram_name),
        decreases count - i,
    {
        let region = &listed[i];
        assert(is_ascii_name(listed@[i as int].name@));
        let name = make_name(region.name.as_str());
        let length = round_mem(region.length);
        if name != ram_name && length != 0 {
            regions.add(MemoryRegion { start: region.start, length, name });
        }
        i += 1;
    }
    Ok(
        MemoryMap {
            ram_start: start,
            ram_size: size,
            ram_name,
            regions,
            memory_required: required as u32,
        },
    )
}

} // verus!
