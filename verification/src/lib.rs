//! Boot images for Xous.
//!
//! A boot image is a table of tags followed by the programs that the
//! loader starts. This crate lays out a program from its ELF file (`elf`),
//! builds and writes the table (`xous_arguments`, `tags`), reads a table
//! back (`reader`) and puts a whole image together (`image`).

pub mod checksum;
pub mod elf;
pub mod elf_file;
pub mod elf_image;
pub mod image;
pub mod memory;
pub mod memory_map;
pub mod pid1;
pub mod reader;
pub mod tags;
pub mod text;
pub mod words;
pub mod xkrn;
pub mod xous_arguments;
