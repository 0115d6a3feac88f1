//! The `Bflg` tag, which switches features of the loader on.

use crate::words::{le32, lemma_le_len, put_u32};
use crate::xous_arguments::{code_of, make_type, XousArgument, XousArgumentCode, XousSize};
use vstd::prelude::*;
use vstd::string::*;

verus! {

/// The bit that tells the loader not to copy programs into RAM.
pub const NO_COPY: u32 = 1;

/// The bit that tells the loader that offsets are absolute addresses.
pub const ABSOLUTE: u32 = 2;

/// The bit that enables debugging at the cost of isolation.
pub const DEBUG: u32 = 4;

#[derive(Debug)]
pub struct Bflg {
    /// Programs run from where they lie
    pub no_copy: bool,
    /// Offsets are absolute addresses
    pub absolute: bool,
    /// Debugging is enabled
    pub debug: bool,
}

/// The word that holds these flags, a bit each.
pub open spec fn flag_word(no_copy: bool, absolute: bool, debug: bool) -> u32 {
    ((if no_copy {
        NO_COPY
    } else {
        0
    }) + (if absolute {
        ABSOLUTE
    } else {
        0
    }) + (if debug {
        DEBUG
    } else {
        0
    })) as u32
}

impl Bflg {
    /// A tag with no flag set.
    pub fn new() -> (tag: Bflg)
        ensures
            tag == (Bflg { no_copy: false, absolute: false, debug: false }),
    {
        Bflg { no_copy: false, absolute: false, debug: false }
    }

    /// The same tag with `no_copy` set.
    pub fn no_copy(self) -> (tag: Bflg)
        ensures
            tag == (Bflg { no_copy: true, ..self }),
    {
        Bflg { no_copy: true, absolute: self.absolute, debug: self.debug }
    }

    /// The same tag with `absolute` set.
    pub fn absolute(self) -> (tag: Bflg)
        ensures
            tag == (Bflg { absolute: true, ..self }),
    {
        Bflg { no_copy: self.no_copy, absolute: true, debug: self.debug }
    }

    /// The same tag with `debug` set.
    pub fn debug(self) -> (tag: Bflg)
        ensures
            tag == (Bflg { debug: true, ..self }),
    {
        Bflg { no_copy: self.no_copy, absolute: self.absolute, debug: true }
    }
}

impl XousArgument for Bflg {
    open spec fn spec_code(&self) -> XousArgumentCode {
        code_of('B', 'f', 'l', 'g')
    }

    open spec fn spec_length(&self) -> XousSize {
        4
    }

    open spec fn spec_body(&self) -> Seq<u8> {
        le32(flag_word(self.no_copy, self.absolute, self.debug))
    }

    open spec fn spec_body_at(&self, offset: usize) -> Seq<u8> {
        self.spec_body()
    }

    open spec fn spec_last_data(&self) -> Seq<u8> {
        Seq::empty()
    }

    open spec fn spec_text(&self) -> Seq<char> {
        "    Bflg:"@ + (if self.no_copy {
            " no_copy"@
        } else {
            Seq::empty()
        }) + (if self.absolute {
            " absolute"@
        } else {
            Seq::empty()
        }) + (if self.debug {
            " debug"@
        } else {
            Seq::empty()
        }) + "\n"@
    }

    fn code(&self) -> (code: XousArgumentCode) {
        proof {
            reveal_strlit("Bflg");
        }
        make_type("Bflg")
    }

    fn length(&self) -> (length: XousSize) {
        4
    }

    fn finalize(&mut self, offset: usize) -> (reserved: usize) {
        0
    }

    fn serialize(&self, output: &mut Vec<u8>) -> (written: usize) {
        let mut word: u32 = 0;
        if self.no_copy {
            word = word + NO_COPY;
        }
        if self.absolute {
            word = word + ABSOLUTE;
        }
        if self.debug {
            word = word + DEBUG;
        }
        proof {
            lemma_le_len();
        }
        put_u32(output, word)
    }

    fn last_data(&self) -> (data: &[u8]) {
        let data: &[u8] = &[];
        data
    }

    fn to_string(&self) -> (text: String) {
        let mut text = String::new();
        text.append("    Bflg:");
        if self.no_copy {
            text.append(" no_copy");
        }
        if self.absolute {
            text.append(" absolute");
        }
        if self.debug {
            text.append(" debug");
        }
        text.append("\n");
        assert(text@ =~= self.spec_text());
        text
    }
}

} // verus!
