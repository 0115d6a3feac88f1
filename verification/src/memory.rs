//! The `MBLK` tag, which lists the memory regions of the machine, main
//! memory first.

use crate::text::{hex_text, push_hex};
use crate::words::{le32, lemma_le_len, put_u32};
use crate::xous_arguments::{
    code_of, is_fourcc, make_type, XousArgument, XousArgumentCode, XousSize,
};
use vstd::prelude::*;
use vstd::string::*;

verus! {

/// Bytes that one region takes in the tag's body.
pub const REGION_LEN: usize = 12;

#[derive(Debug)]
pub struct MemoryRegion {
    /// Starting offset (in bytes)
    pub start: u32,
    /// Length (in bytes)
    pub length: u32,
    /// Region name (as a type)
    pub name: XousArgumentCode,
}

#[derive(Debug)]
pub struct MemoryRegions {
    pub regions: Vec<MemoryRegion>,
}

/// One region in the body: start, length and name, a word each.
pub open spec fn region_bytes(region: MemoryRegion) -> Seq<u8> {
    le32(region.start) + le32(region.length) + le32(region.name)
}

/// The first `n` of `regions` in the body, one after the other.
pub open spec fn regions_bytes(regions: Seq<MemoryRegion>, n: int) -> Seq<u8>
    decreases n,
{
    if n <= 0 {
        Seq::empty()
    } else {
        regions_bytes(regions, n - 1) + region_bytes(regions[n - 1])
    }
}

/// The line that describes one region: what it is, its first address and
/// the address after its last.
pub open spec fn region_text(region: MemoryRegion, main: bool) -> Seq<char> {
    (if main {
        "    RAM: "@
    } else {
        "    mem: "@
    }) + hex_text(region.start as nat, 8) + " - "@ + hex_text(
        (region.start + region.length) as nat,
        8,
    ) + "\n"@
}

/// The lines that describe the first `n` of `regions`, of which the first
/// is main memory.
pub open spec fn regions_text(regions: Seq<MemoryRegion>, n: int) -> Seq<char>
    decreases n,
{
    if n <= 0 {
        Seq::empty()
    } else {
        regions_text(regions, n - 1) + region_text(regions[n - 1], n == 1)
    }
}

/// Each region takes twelve bytes of the body.
pub proof fn lemma_regions_bytes_len(regions: Seq<MemoryRegion>, n: int)
    requires
        0 <= n,
    ensures
        regions_bytes(regions, n).len() == REGION_LEN * n,
    decreases n,
{
    lemma_le_len();
    if 0 < n {
        lemma_regions_bytes_len(regions, n - 1);
    }
}

impl MemoryRegion {
    /// A region of `length` bytes at `start`, named by four ASCII characters.
    pub fn new(start: XousSize, length: XousSize, name: &str) -> (region: MemoryRegion)
        requires
            is_fourcc(name@),
        ensures
            region == (MemoryRegion {
                start,
                length,
                name: code_of(name@[0], name@[1], name@[2], name@[3]),
            }),
    {
        MemoryRegion { start, length, name: make_type(name) }
    }
}

impl MemoryRegions {
    pub fn new() -> (list: MemoryRegions)
        ensures
            list.regions@ == Seq::<MemoryRegion>::empty(),
    {
        MemoryRegions { regions: Vec::new() }
    }

    pub fn add(&mut self, region: MemoryRegion)
        ensures
            final(self).regions@ == old(self).regions@.push(region),
    {
        self.regions.push(region)
    }
}

impl XousArgument for MemoryRegions {
    open spec fn spec_code(&self) -> XousArgumentCode {
        code_of('M', 'B', 'L', 'K')
    }

    open spec fn spec_length(&self) -> XousSize {
        (self.regions@.len() * REGION_LEN) as XousSize
    }

    open spec fn spec_body(&self) -> Seq<u8> {
        regions_bytes(self.regions@, self.regions@.len() as int)
    }

    open spec fn spec_body_at(&self, offset: usize) -> Seq<u8> {
        self.spec_body()
    }

    open spec fn spec_last_data(&self) -> Seq<u8> {
        Seq::empty()
    }

    open spec fn spec_text(&self) -> Seq<char> {
        "Memory regions:\n"@ + (if self.regions@.len() == 0 {
            "    [None]\n"@
        } else {
            regions_text(self.regions@, self.regions@.len() as int)
        })
    }

    fn code(&self) -> (code: XousArgumentCode) {
        proof {
            reveal_strlit("MBLK");
        }
        make_type("MBLK")
    }

    fn length(&self) -> (length: XousSize) {
        (self.regions.len() as u128 * 12) as XousSize
    }

    fn finalize(&mut self, offset: usize) -> (reserved: usize) {
        0
    }

    fn serialize(&self, output: &mut Vec<u8>) -> (written: usize) {
        let mut written: usize = 0;
        let mut i: usize = 0;
        while i < self.regions.len()
            invariant
                i <= self.regions@.len(),
                written == REGION_LEN * i,
                output@ == old(output)@ + regions_bytes(self.regions@, i as int),
            decreases self.regions@.len() - i,
        {
            let region = &self.regions[i];
            let start = put_u32(output, region.start);
            let length = put_u32(output, region.length);
            let name = put_u32(output, region.name);
            assert(output@ =~= old(output)@ + regions_bytes(self.regions@, i as int + 1));
            let total = output.len();
            proof {
                lemma_regions_bytes_len(self.regions@, i as int + 1);
            }
            written = written + start + length + name;
            i += 1;
        }
        proof {
            lemma_regions_bytes_len(self.regions@, i as int);
        }
        written
    }

    fn last_data(&self) -> (data: &[u8]) {
        let data: &[u8] = &[];
        data
    }

    fn to_string(&self) -> (text: String) {
        let mut text = String::new();
        text.append("Memory regions:\n");
        if self.regions.len() == 0 {
            text.append("    [None]\n");
            return text;
        }
        let mut i: usize = 0;
        while i < self.regions.len()
            invariant
                i <= self.regions@.len(),
                text@ == "Memory regions:\n"@ + regions_text(self.regions@, i as int),
            decreases self.regions@.len() - i,
        {
            let region = &self.regions[i];
            if i == 0 {
                text.append("    RAM: ");
            } else {
                text.append("    mem: ");
            }
            push_hex(&mut text, region.start as u128, 8);
            text.append(" - ");
            push_hex(&mut text, region.start as u128 + region.length as u128, 8);
            text.append("\n");
            assert(text@ =~= "Memory regions:\n"@ + regions_text(self.regions@, i as int + 1));
            i += 1;
        }
        text
    }
}

} // verus!
