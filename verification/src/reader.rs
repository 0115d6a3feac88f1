//! Reading a tag table back.
//!
//! The table starts with the `XArg` tag, whose first word is the length of
//! the table in words. The tags are read one after the other until that
//! length is reached; each body is checked against the checksum in its
//! header.

use crate::checksum::{checksum_x25, crc16_x25};
use crate::words::{get_u16, get_u32, half_at, le16, le32, lemma_le_len, put_bytes, word_at};
use crate::xous_arguments::{
    body_fits, consistent, declared_len, lemma_declared_len_monotonic, lemma_tags_len,
    lemma_tags_prefix, make_xarg, payloads, tag_bytes, tags, xarg_body, xarg_code, XousArgument,
    XousArgumentCode, XousArguments, TAG_HEADER_LEN, XARG_BODY_LEN,
};
use vstd::bytes::{lemma_auto_spec_u16_to_from_le_bytes, lemma_auto_spec_u32_to_from_le_bytes};
use vstd::prelude::*;
use vstd::slice::slice_subrange;

verus! {

/// One tag as it was read: its code, the checksum in its header and its body.
#[derive(Debug, PartialEq, Eq)]
pub struct TagRecord {
    pub code: XousArgumentCode,
    pub crc: u16,
    pub body: Vec<u8>,
}

/// What a `TagRecord` stands for.
pub struct TagView {
    pub code: XousArgumentCode,
    pub crc: u16,
    pub body: Seq<u8>,
}

impl View for TagRecord {
    type V = TagView;

    open spec fn view(&self) -> TagView {
        TagView { code: self.code, crc: self.crc, body: self.body@ }
    }
}

/// Why a table could not be read.
#[derive(Debug, Clone, Copy, PartialEq, Eq)]
pub enum TagError {
    /// The bytes end inside a tag.
    Truncated,
    /// The first tag is not an `XArg` tag with a body of five words.
    MissingHeader,
    /// A tag's body does not have the checksum that its header gives.
    BadChecksum,
    /// A tag reaches beyond the length that the `XArg` tag gives.
    Overrun,
}

/// What each of `records` stands for.
pub open spec fn views(records: Seq<TagRecord>) -> Seq<TagView> {
    records.map_values(|record: TagRecord| record@)
}

/// The tag that starts at `at` in `bytes`, if the bytes hold all of it.
pub open spec fn tag_at(bytes: Seq<u8>, at: int) -> Option<TagView> {
    if at < 0 || at + TAG_HEADER_LEN > bytes.len() {
        None
    } else if at + TAG_HEADER_LEN + half_at(bytes, at + 6) * 4 > bytes.len() {
        None
    } else {
        Some(
            TagView {
                code: word_at(bytes, at),
                crc: half_at(bytes, at + 4),
                body: bytes.subrange(
                    at + TAG_HEADER_LEN,
                    at + TAG_HEADER_LEN + half_at(bytes, at + 6) * 4,
                ),
            },
        )
    }
}

/// `first`, then what `rest` holds; the error of `rest` if it is one.
pub open spec fn prepend(first: Seq<TagView>, rest: Result<Seq<TagView>, TagError>) -> Result<
    Seq<TagView>,
    TagError,
> {
    match rest {
        Ok(more) => Ok(first + more),
        Err(e) => Err(e),
    }
}

/// The tags from `at` up to `end`: the tag at `at` and, unless it ends at
/// `end`, the tags after it.
pub open spec fn tags_from(bytes: Seq<u8>, at: int, end: int) -> Result<Seq<TagView>, TagError>
    decreases end - at,
{
    match tag_at(bytes, at) {
        None => Err(TagError::Truncated),
        Some(tag) => {
            let next = at + TAG_HEADER_LEN + tag.body.len();
            if tag.crc != crc16_x25(tag.body) {
                Err(TagError::BadChecksum)
            } else if next == end {
                Ok(seq![tag])
            } else if next > end {
                Err(TagError::Overrun)
            } else {
                prepend(seq![tag], tags_from(bytes, next, end))
            }
        },
    }
}

/// The tags of the table that `bytes` starts with.
pub open spec fn parse_table(bytes: Seq<u8>) -> Result<Seq<TagView>, TagError> {
    match tag_at(bytes, 0) {
        None => Err(TagError::Truncated),
        Some(first) => {
            if first.code != xarg_code() || first.body.len() != XARG_BODY_LEN {
                Err(TagError::MissingHeader)
            } else {
                tags_from(bytes, 0, word_at(first.body, 0) * 4)
            }
        },
    }
}

/// The record that reading a tag with this code and body gives.
pub open spec fn record(code: XousArgumentCode, body: Seq<u8>) -> TagView {
    TagView { code, crc: crc16_x25(body), body }
}

/// The records that reading the table of `args` gives: the `XArg` tag, then
/// each tag in order.
pub open spec fn records_of<A: XousArgument>(args: XousArguments<A>) -> Seq<TagView> {
    seq![
        record(
            xarg_code(),
            xarg_body(args.spec_len() as u32, args.ram_start, args.ram_length, args.ram_name),
        ),
    ] + records_from(args.arguments@, 0)
}

/// The records of the tags of `args` from the one at `k` on.
pub open spec fn records_from<A: XousArgument>(args: Seq<A>, k: int) -> Seq<TagView> {
    Seq::new(
        (args.len() - k) as nat,
        |i: int| record(args[k + i].spec_code(), args[k + i].spec_body()),
    )
}

/// A tag that stands at `at` in `bytes` is read as it was written.
pub proof fn lemma_tag_at(bytes: Seq<u8>, at: int, code: XousArgumentCode, body: Seq<u8>)
    requires
        0 <= at,
        at + TAG_HEADER_LEN + body.len() <= bytes.len(),
        bytes.subrange(at, at + TAG_HEADER_LEN + body.len()) == tag_bytes(code, body),
        body_fits(body),
    ensures
        tag_at(bytes, at) == Some(record(code, body)),
{
    lemma_le_len();
    lemma_auto_spec_u32_to_from_le_bytes();
    lemma_auto_spec_u16_to_from_le_bytes();
    let tag = tag_bytes(code, body);
    let whole = bytes.subrange(at, at + TAG_HEADER_LEN + body.len());
    let words = (body.len() / 4) as u16;
    assert(words * 4 == body.len());
    assert(bytes.subrange(at, at + 4) =~= whole.subrange(0, 4));
    assert(tag.subrange(0, 4) =~= le32(code));
    assert(bytes.subrange(at + 4, at + 4 + 2) =~= whole.subrange(4, 6));
    assert(tag.subrange(4, 6) =~= le16(crc16_x25(body)));
    assert(bytes.subrange(at + 6, at + 6 + 2) =~= whole.subrange(6, 8));
    assert(tag.subrange(6, 8) =~= le16(words));
    assert(bytes.subrange(at + TAG_HEADER_LEN, at + TAG_HEADER_LEN + body.len())
        =~= whole.subrange(8, 8 + body.len() as int));
    assert(tag.subrange(8, 8 + body.len() as int) =~= body);
}

/// In a table of consistent tags, followed by anything, the tags from the
/// one at `k` on are read as they were written.
proof fn lemma_tags_from<A: XousArgument>(args: XousArguments<A>, rest: Seq<u8>, k: int)
    requires
        args.all_consistent(),
        0 <= k < args.arguments@.len(),
    ensures
        tags_from(
            args.table() + rest,
            XARG_BODY_LEN + TAG_HEADER_LEN + declared_len(args.arguments@, k),
            args.spec_len(),
        ) == Ok::<Seq<TagView>, TagError>(records_from(args.arguments@, k)),
    decreases args.arguments@.len() - k,
{
    let list = args.arguments@;
    let n = list.len() as int;
    let bytes = args.table() + rest;
    let at = XARG_BODY_LEN + TAG_HEADER_LEN + declared_len(list, k);
    let code = list[k].spec_code();
    let body = list[k].spec_body();
    lemma_le_len();
    assert(consistent(list[k]));
    lemma_tags_len(list, k);
    lemma_tags_len(list, k + 1);
    lemma_tags_len(list, n);
    lemma_tags_prefix(list, k + 1, n);
    lemma_declared_len_monotonic(list, k + 1, n);
    assert(bytes.subrange(at, at + TAG_HEADER_LEN + body.len()) =~= tag_bytes(code, body)) by {
        let all = tags(list, n);
        let upto = tags(list, k + 1);
        assert(upto == tags(list, k) + tag_bytes(code, body));
        assert(all.subrange(0, upto.len() as int) == upto);
        assert forall|i: int| 0 <= i < TAG_HEADER_LEN + body.len() implies bytes[at + i]
            == tag_bytes(code, body)[i] by {
            assert(bytes[at + i] == all[declared_len(list, k) + i]);
            assert(all[declared_len(list, k) + i] == all.subrange(0, upto.len() as int)[
                declared_len(list, k) + i
            ]);
        }
    }
    lemma_tag_at(bytes, at, code, body);
    let next = at + TAG_HEADER_LEN + body.len();
    assert(next == XARG_BODY_LEN + TAG_HEADER_LEN + declared_len(list, k + 1));
    if k + 1 < n {
        lemma_tags_from(args, rest, k + 1);
        lemma_declared_len_monotonic(list, k + 2, n);
        assert(seq![record(code, body)] + records_from(list, k + 1) =~= records_from(list, k));
    } else {
        assert(seq![record(code, body)] =~= records_from(list, k));
    }
}

/// A table of consistent tags, followed by anything, is read as it was
/// written.
proof fn lemma_table_reads_back<A: XousArgument>(args: XousArguments<A>, rest: Seq<u8>)
    requires
        args.all_consistent(),
        args.spec_len() <= u32::MAX,
    ensures
        parse_table(args.table() + rest) == Ok::<Seq<TagView>, TagError>(records_of(args)),
{
    let list = args.arguments@;
    let n = list.len() as int;
    let bytes = args.table() + rest;
    let total = args.spec_len() as u32;
    let body = xarg_body(total, args.ram_start, args.ram_length, args.ram_name);
    lemma_le_len();
    lemma_auto_spec_u32_to_from_le_bytes();
    lemma_tags_len(list, n);
    assert(bytes.subrange(0, 0 + TAG_HEADER_LEN + body.len()) =~= tag_bytes(xarg_code(), body));
    lemma_tag_at(bytes, 0, xarg_code(), body);
    assert(body.subrange(0, 4) =~= le32(total / 4));
    assert(word_at(body, 0) * 4 == args.spec_len());
    if 0 < n {
        lemma_tags_from(args, rest, 0);
        lemma_declared_len_monotonic(list, 1, n);
    } else {
        assert(records_of(args) =~= seq![record(xarg_code(), body)]);
    }
}

/// Reading a table of consistent tags back gives the tags that were
/// written: in the same order, with the same codes and bodies, each with
/// the checksum of its body. What follows the table does not matter, so
/// the same holds of the image, in which the payloads follow.
pub proof fn lemma_round_trip<A: XousArgument>(args: XousArguments<A>, rest: Seq<u8>)
    requires
        args.all_consistent(),
        args.spec_len() <= u32::MAX,
    ensures
        parse_table(args.table() + rest) == Ok::<Seq<TagView>, TagError>(records_of(args)),
        parse_table(args.image()) == Ok::<Seq<TagView>, TagError>(records_of(args)),
        records_of(args).len() == args.arguments@.len() + 1,
        forall|i: int|
            0 <= i < args.arguments@.len() ==> {
                &&& (#[trigger] records_of(args)[i + 1]).code == args.arguments@[i].spec_code()
                &&& records_of(args)[i + 1].body == args.arguments@[i].spec_body()
                &&& records_of(args)[i + 1].crc == crc16_x25(records_of(args)[i + 1].body)
            },
{
    lemma_table_reads_back(args, rest);
    lemma_table_reads_back(args, payloads(args.arguments@, args.arguments@.len() as int));
}

/// Reads the header of the tag at `offset`: its code, its checksum and the
/// length of its body in bytes. `None` if the bytes end before the header
/// does.
pub fn read_next_tag(bytes: &[u8], offset: usize) -> (header: Option<(u32, u16, usize)>)
    ensures
        match header {
            Some((code, crc, size)) => {
                &&& offset + TAG_HEADER_LEN <= bytes@.len()
                &&& code == word_at(bytes@, offset as int)
                &&& crc == half_at(bytes@, offset + 4)
                &&& size == half_at(bytes@, offset + 6) * 4
            },
            None => offset + TAG_HEADER_LEN > bytes@.len(),
        },
{
    let len = bytes.len();
    if len < 8 || offset > len - 8 {
        return None;
    }
    let code = get_u32(bytes, offset);
    let crc = get_u16(bytes, offset + 4);
    let size = get_u16(bytes, offset + 6) as usize * 4;
    Some((code, crc, size))
}

/// Reads the tag at `offset` with its body, whose checksum is not checked
/// here. `None` if the bytes end inside the tag.
pub fn process_tag(bytes: &[u8], offset: usize) -> (tag: Option<TagRecord>)
    ensures
        match tag {
            Some(record) => tag_at(bytes@, offset as int) == Some(record@),
            None => tag_at(bytes@, offset as int).is_none(),
        },
{
    match read_next_tag(bytes, offset) {
        None => None,
        Some((code, crc, size)) => {
            let len = bytes.len();
            if size > len - offset - 8 {
                return None;
            }
            let body = slice_subrange(bytes, offset + 8, offset + 8 + size);
            let mut copy: Vec<u8> = Vec::new();
            put_bytes(&mut copy, body);
            assert(copy@ =~= body@);
            Some(TagRecord { code, crc, body: copy })
        },
    }
}

/// Reads the table that `bytes` starts with: the `XArg` tag first, then
/// each tag in the order in which it was written.
pub fn process_tags(bytes: &[u8]) -> (result: Result<Vec<TagRecord>, TagError>)
    ensures
        match result {
            Ok(records) => parse_table(bytes@) == Ok::<Seq<TagView>, TagError>(views(records@)),
            Err(e) => parse_table(bytes@) == Err::<Seq<TagView>, TagError>(e),
        },
{
    let first = match process_tag(bytes, 0) {
        None => {
            return Err(TagError::Truncated);
        },
        Some(first) => first,
    };
    if first.code != make_xarg() || first.body.len() != XARG_BODY_LEN {
        return Err(TagError::MissingHeader);
    }
    let end: u64 = get_u32(first.body.as_slice(), 0) as u64 * 4;

    let mut records: Vec<TagRecord> = Vec::new();
    let mut offset: usize = 0;
    loop
        invariant
            offset <= bytes@.len(),
            parse_table(bytes@) == prepend(
                views(records@),
                tags_from(bytes@, offset as int, end as int),
            ),
        decreases bytes@.len() - offset,
    {
        let len = bytes.len();
        let tag = match process_tag(bytes, offset) {
            None => {
                return Err(TagError::Truncated);
            },
            Some(tag) => tag,
        };
        if tag.crc != checksum_x25(tag.body.as_slice()) {
            return Err(TagError::BadChecksum);
        }
        let next = offset + 8 + tag.body.len();
        let ghost before = views(records@);
        let ghost view = tag@;
        records.push(tag);
        assert(views(records@) =~= before + seq![view]);
        if next as u64 == end {
            return Ok(records);
        }
        if next as u64 > end {
            return Err(TagError::Overrun);
        }
        proof {
            let rest = tags_from(bytes@, next as int, end as int);
            if let Ok(more) = rest {
                assert(before + (seq![view] + more) =~= (before + seq![view]) + more);
            }
        }
        offset = next;
    }
}

} // verus!
