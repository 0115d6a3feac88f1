//! The `IniE` tag, which describes a program section by section and owns
//! the program's bytes as its payload.

use crate::elf::MiniElfSection;
use crate::text::{decimal_text, hex_text, push_decimal, push_hex};
use crate::words::{le32, lemma_le_len, put_bytes, put_u32, word_at};
use crate::xous_arguments::{code_of, make_type, XousArgument, XousArgumentCode, XousSize};
use vstd::bytes::{lemma_auto_spec_u32_to_from_le_bytes, u32_to_le_bytes};
use vstd::prelude::*;
use vstd::string::*;

verus! {

/// Bytes that one section takes in the tag's body.
pub const SECTION_LEN: usize = 8;

#[derive(Debug)]
pub struct IniE {
    /// Offset of the program in the image
    pub load_offset: u32,
    /// Virtual address entry point
    pub entrypoint: u32,
    /// Array of minielf sections
    pub sections: Vec<MiniElfSection>,
    /// Actual program data
    pub data: Vec<u8>,
}

/// One section in the body: its address, then a word that holds the size in
/// words in its three low bytes and the flags in its high byte.
pub open spec fn section_bytes(section: MiniElfSection) -> Seq<u8> {
    le32(section.virt) + le32(section.size >> 2).update(3, section.flags)
}

/// The first `n` of `sections` in the body, one after the other.
pub open spec fn sections_bytes(sections: Seq<MiniElfSection>, n: int) -> Seq<u8>
    decreases n,
{
    if n <= 0 {
        Seq::empty()
    } else {
        sections_bytes(sections, n - 1) + section_bytes(sections[n - 1])
    }
}

/// The body of a tag with these sections, for a payload at `load_offset`.
pub open spec fn inie_body(
    load_offset: u32,
    entrypoint: u32,
    sections: Seq<MiniElfSection>,
) -> Seq<u8> {
    le32(load_offset) + le32(entrypoint) + sections_bytes(sections, sections.len() as int)
}

/// Bytes that the first `n` of `sections` take together.
pub open spec fn sections_size(sections: Seq<MiniElfSection>, n: int) -> nat
    decreases n,
{
    if n <= 0 {
        0
    } else {
        sections_size(sections, n - 1) + sections[n - 1].size as nat
    }
}

/// The line that describes one section, which is loaded from `from`.
pub open spec fn section_text(section: MiniElfSection, from: nat) -> Seq<char> {
    "        Loaded from "@ + hex_text(from, 8) + " - "@ + hex_text(section.virt as nat, 8)
        + " - "@ + hex_text((section.virt + section.size) as nat, 8) + " ("@ + decimal_text(
        section.size as nat,
    ) + " bytes), flags "@ + hex_text(section.flags as nat, 2) + "\n"@
}

/// The lines that describe the first `n` of `sections`, which are loaded
/// one after the other from `load_offset` on.
pub open spec fn sections_text(sections: Seq<MiniElfSection>, load_offset: u32, n: int) -> Seq<
    char,
>
    decreases n,
{
    if n <= 0 {
        Seq::empty()
    } else {
        sections_text(sections, load_offset, n - 1) + section_text(
            sections[n - 1],
            (load_offset + sections_size(sections, n - 1)) as nat,
        )
    }
}

/// The first line of the description of a tag.
pub open spec fn inie_text(load_offset: u32, entrypoint: u32) -> Seq<char> {
    "    IniE: entrypoint @ "@ + hex_text(entrypoint as nat, 8) + ", loaded from "@ + hex_text(
        load_offset as nat,
        8,
    ) + ".  Sections:\n"@
}

/// The sections before any section take at most four gigabytes each.
pub proof fn lemma_sections_size(sections: Seq<MiniElfSection>, n: int)
    requires
        0 <= n,
    ensures
        sections_size(sections, n) <= n * 0xffff_ffff,
    decreases n,
{
    if 0 < n {
        lemma_sections_size(sections, n - 1);
    }
}

/// Each section takes eight bytes of the body.
pub proof fn lemma_sections_bytes_len(sections: Seq<MiniElfSection>, n: int)
    requires
        0 <= n,
    ensures
        sections_bytes(sections, n).len() == SECTION_LEN * n,
    decreases n,
{
    lemma_le_len();
    if 0 < n {
        lemma_sections_bytes_len(sections, n - 1);
    }
}

/// Once `finalize` has told a tag an offset that fits 32 bits, the first
/// word of its body is that offset and the second the entry point.
pub proof fn lemma_load_offset(tag: IniE, offset: usize)
    requires
        offset <= u32::MAX,
    ensures
        tag.spec_body_at(offset).len() >= 8,
        word_at(tag.spec_body_at(offset), 0) == offset,
        word_at(tag.spec_body_at(offset), 4) == tag.entrypoint,
{
    lemma_le_len();
    lemma_auto_spec_u32_to_from_le_bytes();
    let body = tag.spec_body_at(offset);
    assert(body.subrange(0, 4) =~= le32(offset as u32));
    assert(body.subrange(4, 8) =~= le32(tag.entrypoint));
}

impl IniE {
    /// A tag for a program whose payload has no place in the image yet.
    pub fn new(entrypoint: u32, sections: Vec<MiniElfSection>, data: Vec<u8>) -> (tag: IniE)
        ensures
            tag == (IniE { load_offset: 0, entrypoint, sections, data }),
    {
        IniE { load_offset: 0, entrypoint, sections, data }
    }
}

impl XousArgument for IniE {
    open spec fn spec_code(&self) -> XousArgumentCode {
        code_of('I', 'n', 'i', 'E')
    }

    open spec fn spec_length(&self) -> XousSize {
        (4 + 4 + self.sections@.len() * SECTION_LEN) as XousSize
    }

    open spec fn spec_body(&self) -> Seq<u8> {
        inie_body(self.load_offset, self.entrypoint, self.sections@)
    }

    open spec fn spec_body_at(&self, offset: usize) -> Seq<u8> {
        inie_body(offset as u32, self.entrypoint, self.sections@)
    }

    open spec fn spec_last_data(&self) -> Seq<u8> {
        self.data@
    }

    open spec fn spec_text(&self) -> Seq<char> {
        inie_text(self.load_offset, self.entrypoint) + sections_text(
            self.sections@,
            self.load_offset,
            self.sections@.len() as int,
        )
    }

    fn code(&self) -> (code: XousArgumentCode) {
        proof {
            reveal_strlit("IniE");
        }
        make_type("IniE")
    }

    fn length(&self) -> (length: XousSize) {
        (4 + 4 + self.sections.len() as u128 * 8) as XousSize
    }

    fn finalize(&mut self, offset: usize) -> (reserved: usize)
        ensures
            *final(self) == (IniE { load_offset: offset as u32, ..*old(self) }),
    {
        self.load_offset = offset as u32;
        self.data.len()
    }

    fn last_data(&self) -> (data: &[u8]) {
        self.data.as_slice()
    }

    fn to_string(&self) -> (text: String) {
        let mut text = String::new();
        text.append("    IniE: entrypoint @ ");
        push_hex(&mut text, self.entrypoint as u128, 8);
        text.append(", loaded from ");
        push_hex(&mut text, self.load_offset as u128, 8);
        text.append(".  Sections:\n");
        assert(text@ =~= inie_text(self.load_offset, self.entrypoint));
        let mut load_offset: u128 = self.load_offset as u128;
        let mut i: usize = 0;
        while i < self.sections.len()
            invariant
                i <= self.sections@.len(),
                load_offset == self.load_offset + sections_size(self.sections@, i as int),
                text@ == inie_text(self.load_offset, self.entrypoint) + sections_text(
                    self.sections@,
                    self.load_offset,
                    i as int,
                ),
            decreases self.sections@.len() - i,
        {
            let section = &self.sections[i];
            proof {
                lemma_sections_size(self.sections@, i as int);
                assert(i * 0xffff_ffff <= 0xffff_ffff_ffff_ffff * 0xffff_ffff) by (nonlinear_arith)
                    requires
                        i <= 0xffff_ffff_ffff_ffff,
                ;
            }
            text.append("        Loaded from ");
            push_hex(&mut text, load_offset, 8);
            text.append(" - ");
            push_hex(&mut text, section.virt as u128, 8);
            text.append(" - ");
            push_hex(&mut text, section.virt as u128 + section.size as u128, 8);
            text.append(" (");
            push_decimal(&mut text, section.size as u128);
            text.append(" bytes), flags ");
            push_hex(&mut text, section.flags as u128, 2);
            text.append("\n");
            assert(text@ =~= inie_text(self.load_offset, self.entrypoint) + sections_text(
                self.sections@,
                self.load_offset,
                i as int + 1,
            ));
            load_offset = load_offset + section.size as u128;
            i += 1;
        }
        text
    }

    fn serialize(&self, output: &mut Vec<u8>) -> (written: usize) {
        let mut written: usize = 0;
        written += put_u32(output, self.load_offset);
        written += put_u32(output, self.entrypoint);
        let mut i: usize = 0;
        while i < self.sections.len()
            invariant
                i <= self.sections@.len(),
                written == 4 + 4 + SECTION_LEN * i,
                output@ == old(output)@ + le32(self.load_offset) + le32(self.entrypoint)
                    + sections_bytes(self.sections@, i as int),
            decreases self.sections@.len() - i,
        {
            let section = &self.sections[i];
            let virt = put_u32(output, section.virt);
            let mut word2 = u32_to_le_bytes(section.size >> 2);
            proof {
                lemma_le_len();
            }
            word2.set(3, section.flags);
            let rest = put_bytes(output, word2.as_slice());
            assert(output@ =~= old(output)@ + le32(self.load_offset) + le32(self.entrypoint)
                + sections_bytes(self.sections@, i as int + 1));
            let total = output.len();
            proof {
                lemma_sections_bytes_len(self.sections@, i as int + 1);
            }
            written = written + virt + rest;
            i += 1;
        }
        proof {
            lemma_le_len();
            lemma_sections_bytes_len(self.sections@, i as int);
            assert(output@ =~= old(output)@ + self.spec_body());
        }
        written
    }
}

} // verus!
