//! The concrete tags of a boot image, and the type that holds any of them.

pub mod bflg;
pub mod inie;
pub mod init;
pub mod memory;
pub mod xkrn;

use crate::tags::bflg::Bflg;
use crate::tags::inie::IniE;
use crate::tags::init::Init;
use crate::tags::memory::MemoryRegions;
use crate::tags::xkrn::XousKernel;
use crate::xous_arguments::{XousArgument, XousArgumentCode, XousSize};
use vstd::prelude::*;

verus! {

/// Any tag that a boot image holds, so that one table can hold tags of
/// different kinds. It behaves as the tag inside it does.
#[derive(Debug)]
pub enum Tag {
    MemoryRegions(MemoryRegions),
    XousKernel(XousKernel),
    Init(Init),
    IniE(IniE),
    Bflg(Bflg),
}

impl XousArgument for Tag {
    open spec fn spec_code(&self) -> XousArgumentCode {
        match self {
            Tag::MemoryRegions(tag) => tag.spec_code(),
            Tag::XousKernel(tag) => tag.spec_code(),
            Tag::Init(tag) => tag.spec_code(),
            Tag::IniE(tag) => tag.spec_code(),
            Tag::Bflg(tag) => tag.spec_code(),
        }
    }

    open spec fn spec_length(&self) -> XousSize {
        match self {
            Tag::MemoryRegions(tag) => tag.spec_length(),
            Tag::XousKernel(tag) => tag.spec_length(),
            Tag::Init(tag) => tag.spec_length(),
            Tag::IniE(tag) => tag.spec_length(),
            Tag::Bflg(tag) => tag.spec_length(),
        }
    }

    open spec fn spec_body(&self) -> Seq<u8> {
        match self {
            Tag::MemoryRegions(tag) => tag.spec_body(),
            Tag::XousKernel(tag) => tag.spec_body(),
            Tag::Init(tag) => tag.spec_body(),
            Tag::IniE(tag) => tag.spec_body(),
            Tag::Bflg(tag) => tag.spec_body(),
        }
    }

    open spec fn spec_body_at(&self, offset: usize) -> Seq<u8> {
        match self {
            Tag::MemoryRegions(tag) => tag.spec_body_at(offset),
            Tag::XousKernel(tag) => tag.spec_body_at(offset),
            Tag::Init(tag) => tag.spec_body_at(offset),
            Tag::IniE(tag) => tag.spec_body_at(offset),
            Tag::Bflg(tag) => tag.spec_body_at(offset),
        }
    }

    open spec fn spec_last_data(&self) -> Seq<u8> {
        match self {
            Tag::MemoryRegions(tag) => tag.spec_last_data(),
            Tag::XousKernel(tag) => tag.spec_last_data(),
            Tag::Init(tag) => tag.spec_last_data(),
            Tag::IniE(tag) => tag.spec_last_data(),
            Tag::Bflg(tag) => tag.spec_last_data(),
        }
    }

    open spec fn spec_text(&self) -> Seq<char> {
        match self {
            Tag::MemoryRegions(tag) => tag.spec_text(),
            Tag::XousKernel(tag) => tag.spec_text(),
            Tag::Init(tag) => tag.spec_text(),
            Tag::IniE(tag) => tag.spec_text(),
            Tag::Bflg(tag) => tag.spec_text(),
        }
    }

    fn code(&self) -> (code: XousArgumentCode) {
        match self {
            Tag::MemoryRegions(tag) => tag.code(),
            Tag::XousKernel(tag) => tag.code(),
            Tag::Init(tag) => tag.code(),
            Tag::IniE(tag) => tag.code(),
            Tag::Bflg(tag) => tag.code(),
        }
    }

    fn length(&self) -> (length: XousSize) {
        match self {
            Tag::MemoryRegions(tag) => tag.length(),
            Tag::XousKernel(tag) => tag.length(),
            Tag::Init(tag) => tag.length(),
            Tag::IniE(tag) => tag.length(),
            Tag::Bflg(tag) => tag.length(),
        }
    }

    fn finalize(&mut self, offset: usize) -> (reserved: usize) {
        match self {
            Tag::MemoryRegions(tag) => tag.finalize(offset),
            Tag::XousKernel(tag) => tag.finalize(offset),
            Tag::Init(tag) => tag.finalize(offset),
            Tag::IniE(tag) => tag.finalize(offset),
            Tag::Bflg(tag) => tag.finalize(offset),
        }
    }

    fn serialize(&self, output: &mut Vec<u8>) -> (written: usize) {
        match self {
            Tag::MemoryRegions(tag) => tag.serialize(output),
            Tag::XousKernel(tag) => tag.serialize(output),
            Tag::Init(tag) => tag.serialize(output),
            Tag::IniE(tag) => tag.serialize(output),
            Tag::Bflg(tag) => tag.serialize(output),
        }
    }

    fn last_data(&self) -> (data: &[u8]) {
        match self {
            Tag::MemoryRegions(tag) => tag.last_data(),
            Tag::XousKernel(tag) => tag.last_data(),
            Tag::Init(tag) => tag.last_data(),
            Tag::IniE(tag) => tag.last_data(),
            Tag::Bflg(tag) => tag.last_data(),
        }
    }

    fn to_string(&self) -> (text: String) {
        match self {
            Tag::MemoryRegions(tag) => tag.to_string(),
            Tag::XousKernel(tag) => tag.to_string(),
            Tag::Init(tag) => tag.to_string(),
            Tag::IniE(tag) => tag.to_string(),
            Tag::Bflg(tag) => tag.to_string(),
        }
    }
}

} // verus!
