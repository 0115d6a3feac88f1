//! The `XKRN` tag, which tells the loader where the kernel and its trap
//! handler lie.

use crate::text::{decimal_text, hex_text, push_decimal, push_hex};
use crate::words::{le32, lemma_le_len, put_u32};
use crate::xous_arguments::{code_of, make_type, XousArgument, XousArgumentCode, XousSize};
use vstd::prelude::*;
use vstd::string::*;

verus! {

#[derive(Debug)]
pub struct XousKernel {
    /// Address of the kernel in RAM (i.e. SPI flash)
    pub load_offset: u32,
    /// Size of the kernel
    pub load_size: u32,
    /// Virtual address of .text section in RAM
    pub text_offset: u32,
    /// Virtual address of .data and .bss section in RAM
    pub data_offset: u32,
    /// Size of .data and .bss section
    pub data_size: u32,
    /// Virtual address trap handler
    pub trap_handler: u32,
}

impl XousKernel {
    pub fn new(
        load_offset: u32,
        load_size: u32,
        text_offset: u32,
        data_offset: u32,
        data_size: u32,
        trap_handler: u32,
    ) -> (tag: XousKernel)
        ensures
            tag == (XousKernel {
                load_offset,
                load_size,
                text_offset,
                data_offset,
                data_size,
                trap_handler,
            }),
    {
        XousKernel { load_offset, load_size, text_offset, data_offset, data_size, trap_handler }
    }
}

impl XousArgument for XousKernel {
    open spec fn spec_code(&self) -> XousArgumentCode {
        code_of('X', 'K', 'R', 'N')
    }

    open spec fn spec_length(&self) -> XousSize {
        24
    }

    open spec fn spec_body(&self) -> Seq<u8> {
        le32(self.load_offset) + le32(self.load_size) + le32(self.text_offset) + le32(
            self.data_offset,
        ) + le32(self.data_size) + le32(self.trap_handler)
    }

    open spec fn spec_body_at(&self, offset: usize) -> Seq<u8> {
        self.spec_body()
    }

    open spec fn spec_last_data(&self) -> Seq<u8> {
        Seq::empty()
    }

    open spec fn spec_text(&self) -> Seq<char> {
        "XousKernel: "@
            + decimal_text(self.load_size as nat)
            + " bytes long, loaded from "@
            + hex_text(self.load_offset as nat, 8)
            + " to "@
            + hex_text(self.text_offset as nat, 8)
            + " with trap_handler @ "@
            + hex_text(self.trap_handler as nat, 8)
            + ", and "@
            + decimal_text(self.data_size as nat)
            + " bytes of data @ "@
            + hex_text(self.data_offset as nat, 8)
            + "\n"@
    }

    fn code(&self) -> (code: XousArgumentCode) {
        proof {
            reveal_strlit("XKRN");
        }
        make_type("XKRN")
    }

    fn length(&self) -> (length: XousSize) {
        24
    }

    fn finalize(&mut self, offset: usize) -> (reserved: usize) {
        0
    }

    fn serialize(&self, output: &mut Vec<u8>) -> (written: usize) {
        let mut written: usize = 0;
        written += put_u32(output, self.load_offset);
        written += put_u32(output, self.load_size);
        written += put_u32(output, self.text_offset);
        written += put_u32(output, self.data_offset);
        written += put_u32(output, self.data_size);
        written += put_u32(output, self.trap_handler);
        proof {
            lemma_le_len();
            assert(output@ =~= old(output)@ + self.spec_body());
        }
        written
    }

    fn last_data(&self) -> (data: &[u8]) {
        let data: &[u8] = &[];
        data
    }

    fn to_string(&self) -> (text: String) {
        let mut text = String::new();
            text.append("XousKernel: ");
            push_decimal(&mut text, self.load_size as u128);
            text.append(" bytes long, loaded from ");
            push_hex(&mut text, self.load_offset as u128, 8);
            text.append(" to ");
            push_hex(&mut text, self.text_offset as u128, 8);
            text.append(" with trap_handler @ ");
            push_hex(&mut text, self.trap_handler as u128, 8);
            text.append(", and ");
            push_decimal(&mut text, self.data_size as u128);
            text.append(" bytes of data @ ");
            push_hex(&mut text, self.data_offset as u128, 8);
            text.append("\n");
        assert(text@ =~= self.spec_text());
        text
    }
}

} // verus!
