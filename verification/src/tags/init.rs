//! The `Init` tag, which describes one program that the kernel starts.

use crate::text::{decimal_text, hex_text, push_decimal, push_hex};
use crate::words::{le32, lemma_le_len, put_u32};
use crate::xous_arguments::{code_of, make_type, XousArgument, XousArgumentCode, XousSize};
use vstd::prelude::*;
use vstd::string::*;

verus! {

#[derive(Debug)]
pub struct Init {
    /// Offset of the program in the image
    pub load_offset: u32,
    /// Virtual address of .text section in RAM
    pub text_offset: u32,
    /// Size of the text section
    pub text_size: u32,
    /// Virtual address of .data section in RAM
    pub data_offset: u32,
    /// Size of .data section
    pub data_size: u32,
    /// Size of the .bss section
    pub bss_size: u32,
    /// Virtual address entry point
    pub entrypoint: u32,
}

impl Init {
    pub fn new(
        load_offset: u32,
        text_offset: u32,
        text_size: u32,
        data_offset: u32,
        data_size: u32,
        bss_size: u32,
        entrypoint: u32,
    ) -> (tag: Init)
        ensures
            tag == (Init {
                load_offset,
                text_offset,
                text_size,
                data_offset,
                data_size,
                bss_size,
                entrypoint,
            }),
    {
        Init { load_offset, text_offset, text_size, data_offset, data_size, bss_size, entrypoint }
    }

    /// Length of the tag's body in bytes.
    pub fn len() -> (len: usize)
        ensures
            len == 28,
    {
        28
    }
}

impl XousArgument for Init {
    open spec fn spec_code(&self) -> XousArgumentCode {
        code_of('I', 'n', 'i', 't')
    }

    open spec fn spec_length(&self) -> XousSize {
        28
    }

    open spec fn spec_body(&self) -> Seq<u8> {
        le32(self.load_offset) + le32(self.text_offset) + le32(self.text_size) + le32(
            self.data_offset,
        ) + le32(self.data_size) + le32(self.bss_size) + le32(self.entrypoint)
    }

    open spec fn spec_body_at(&self, offset: usize) -> Seq<u8> {
        self.spec_body()
    }

    open spec fn spec_last_data(&self) -> Seq<u8> {
        Seq::empty()
    }

    open spec fn spec_text(&self) -> Seq<char> {
        "    init: "@
            + decimal_text(self.text_size as nat)
            + " bytes long, loaded from "@
            + hex_text(self.load_offset as nat, 8)
            + " to "@
            + hex_text(self.text_offset as nat, 8)
            + " with entrypoint @ "@
            + hex_text(self.entrypoint as nat, 8)
            + " and "@
            + decimal_text(self.data_size as nat)
            + " bytes of data @ "@
            + hex_text(self.data_offset as nat, 8)
            + ", "@
            + decimal_text(self.bss_size as nat)
            + " bytes of .bss\n"@
    }

    fn code(&self) -> (code: XousArgumentCode) {
        proof {
            reveal_strlit("Init");
        }
        make_type("Init")
    }

    fn length(&self) -> (length: XousSize) {
        28
    }

    fn finalize(&mut self, offset: usize) -> (reserved: usize) {
        0
    }

    fn serialize(&self, output: &mut Vec<u8>) -> (written: usize) {
        let mut written: usize = 0;
        written += put_u32(output, self.load_offset);
        written += put_u32(output, self.text_offset);
        written += put_u32(output, self.text_size);
        written += put_u32(output, self.data_offset);
        written += put_u32(output, self.data_size);
        written += put_u32(output, self.bss_size);
        written += put_u32(output, self.entrypoint);
        proof {
            lemma_le_len();
            assert(output@ =~= old(output)@ + self.spec_body());
        }
        written
    }

    fn last_data(&self) -> (data: &[u8]) {
        let data: &[u8] = &[];
        data
    }

    fn to_string(&self) -> (text: String) {
        let mut text = String::new();
            text.append("    init: ");
            push_decimal(&mut text, self.text_size as u128);
            text.append(" bytes long, loaded from ");
            push_hex(&mut text, self.load_offset as u128, 8);
            text.append(" to ");
            push_hex(&mut text, self.text_offset as u128, 8);
            text.append(" with entrypoint @ ");
            push_hex(&mut text, self.entrypoint as u128, 8);
            text.append(" and ");
            push_decimal(&mut text, self.data_size as u128);
            text.append(" bytes of data @ ");
            push_hex(&mut text, self.data_offset as u128, 8);
            text.append(", ");
            push_decimal(&mut text, self.bss_size as u128);
            text.append(" bytes of .bss\n");
        assert(text@ =~= self.spec_text());
        text
    }
}

} // verus!
