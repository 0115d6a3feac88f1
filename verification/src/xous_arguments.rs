//! The tag table of a boot image.
//!
//! A boot image starts with a table of tags. Each tag is a four-byte code, a
//! CRC-16/X.25 of its body, the body's size in words and the body. The first
//! tag, `XArg`, gives the length of the whole table and describes main
//! memory. Tags that own a payload learn from `finalize` at which offset of
//! the image the payload will lie; the payloads follow the table in the
//! order of their tags.

use crate::checksum::{checksum_x25, crc16_x25};
use crate::text::{
    code_chars, decimal_text, hex_text, is_ascii_bytes, name_text, push_decimal, push_hex,
    push_name,
};
use crate::words::{le16, le32, lemma_le_len, put_bytes, put_u16, put_u32, word_at};
use vstd::bytes::{
    lemma_auto_spec_u32_to_from_le_bytes, spec_u32_from_le_bytes, u32_from_le_bytes,
};
use vstd::prelude::*;
use vstd::string::*;

verus! {

pub type XousArgumentCode = u32;

pub type XousSize = u32;

/// Bytes that a tag's header takes: code, checksum and size.
pub const TAG_HEADER_LEN: usize = 8;

/// Bytes that the body of the `XArg` tag takes.
pub const XARG_BODY_LEN: usize = 20;

/// Version of the table format, stored in the `XArg` tag.
pub const FORMAT_VERSION: u32 = 1;

/// Largest body, in bytes, whose size in words fits a tag header.
pub const MAX_BODY_LEN: usize = 0x3_fffc;

/// The code that four bytes spell, the first byte least significant.
pub open spec fn fourcc(name: Seq<u8>) -> XousArgumentCode {
    spec_u32_from_le_bytes(name)
}

/// A code is written to the table as the four bytes that spell it.
pub proof fn lemma_fourcc_bytes(name: Seq<u8>)
    requires
        name.len() == 4,
    ensures
        le32(fourcc(name)) == name,
{
    lemma_auto_spec_u32_to_from_le_bytes();
}

/// The code that four characters spell.
pub open spec fn code_of(a: char, b: char, c: char, d: char) -> XousArgumentCode {
    fourcc(seq![a as u8, b as u8, c as u8, d as u8])
}

/// Whether `name` can name a tag or a region: four ASCII characters.
pub open spec fn is_fourcc(name: Seq<char>) -> bool {
    name.len() == 4 && forall|i: int| 0 <= i < 4 ==> '\0' <= #[trigger] name[i] <= '\u{7f}'
}

/// The code of the tag or region named `fcc`, which must be four ASCII
/// characters.
pub fn make_type(fcc: &str) -> (code: XousArgumentCode)
    requires
        is_fourcc(fcc@),
    ensures
        code == code_of(fcc@[0], fcc@[1], fcc@[2], fcc@[3]),
{
    proof {
        assert(fcc.is_ascii());
        is_ascii_spec_bytes(fcc);
        assert(fcc.spec_bytes() =~= seq![
            fcc@[0] as u8,
            fcc@[1] as u8,
            fcc@[2] as u8,
            fcc@[3] as u8,
        ]);
    }
    u32_from_le_bytes(fcc.as_bytes())
}

/// The code of the tag that opens every table.
pub open spec fn xarg_code() -> XousArgumentCode {
    code_of('X', 'A', 'r', 'g')
}

/// The code of the tag that opens every table.
pub fn make_xarg() -> (code: XousArgumentCode)
    ensures
        code == xarg_code(),
{
    proof {
        reveal_strlit("XArg");
    }
    make_type("XArg")
}

/// The header of a tag with this code and body.
pub open spec fn tag_header(code: XousArgumentCode, body: Seq<u8>) -> Seq<u8> {
    le32(code) + le16(crc16_x25(body)) + le16((body.len() / 4) as u16)
}

/// A whole tag: header, then body.
pub open spec fn tag_bytes(code: XousArgumentCode, body: Seq<u8>) -> Seq<u8> {
    tag_header(code, body) + body
}

/// Whether a body can stand in a tag: a whole number of words, few enough
/// for the header's size field.
pub open spec fn body_fits(body: Seq<u8>) -> bool {
    body.len() % 4 == 0 && body.len() <= MAX_BODY_LEN
}

/// One kind of tag.
///
/// `spec_body` is what `serialize` emits now, `spec_body_at(offset)` what it
/// will emit once `finalize(offset)` has run. A tag without a payload has an
/// empty `spec_last_data` and ignores the offset.
pub trait XousArgument: Sized {
    /// The code of the tag.
    spec fn spec_code(&self) -> XousArgumentCode;

    /// The length of the body that the tag declares.
    spec fn spec_length(&self) -> XousSize;

    /// The body as the tag serializes it now.
    spec fn spec_body(&self) -> Seq<u8>;

    /// The body as the tag will serialize it once it has been told that
    /// its payload lies at `offset`.
    spec fn spec_body_at(&self, offset: usize) -> Seq<u8>;

    /// The payload of the tag.
    spec fn spec_last_data(&self) -> Seq<u8>;

    /// What the tag says of itself.
    spec fn spec_text(&self) -> Seq<char>;

    /// The four-byte code of this tag.
    fn code(&self) -> (code: XousArgumentCode)
        ensures
            code == self.spec_code(),
    ;

    /// The name that the code spells.
    fn name(&self) -> (name: String)
        ensures
            name@ == name_text(self.spec_code()),
            is_ascii_bytes(le32(self.spec_code())) ==> name@ == code_chars(self.spec_code()),
    {
        let mut name = String::new();
        push_name(&mut name, self.code());
        name
    }

    /// The length of the body in bytes, as the tag declares it.
    fn length(&self) -> (length: XousSize)
        ensures
            length == self.spec_length(),
    ;

    /// Tells the tag that its payload will lie at `offset` in the image.
    /// Returns the length of that payload.
    fn finalize(&mut self, offset: usize) -> (reserved: usize)
        ensures
            reserved == old(self).spec_last_data().len(),
            final(self).spec_code() == old(self).spec_code(),
            final(self).spec_length() == old(self).spec_length(),
            final(self).spec_last_data() == old(self).spec_last_data(),
            final(self).spec_body() == old(self).spec_body_at(offset),
            forall|at: usize| #[trigger] final(self).spec_body_at(at) == old(self).spec_body_at(at),
    ;

    /// Appends the body to `output` and returns the number of bytes written.
    fn serialize(&self, output: &mut Vec<u8>) -> (written: usize)
        ensures
            final(output)@ == old(output)@ + self.spec_body(),
            written == self.spec_body().len(),
    ;

    /// The payload, which follows the table in the image.
    fn last_data(&self) -> (data: &[u8])
        ensures
            data@ == self.spec_last_data(),
    ;

    /// A description of the tag for people to read, in whole lines.
    fn to_string(&self) -> (text: String)
        ensures
            text@ == self.spec_text(),
    ;
}

/// Why a table could not be written.
#[derive(Debug, PartialEq, Eq, Clone, Copy)]
pub enum WriteError {
    /// The tag at `index` declared `advertised` bytes and wrote `actual`.
    LengthMismatch { index: usize, advertised: XousSize, actual: usize },
    /// The body of the tag at `index` is not a whole number of words, or has
    /// more words than a tag header can count.
    BodySize { index: usize, length: usize },
}

/// Bytes that the first `n` tags of `args` take in the table, headers
/// included, by their declared lengths.
pub open spec fn declared_len<A: XousArgument>(args: Seq<A>, n: int) -> int
    decreases n,
{
    if n <= 0 {
        0
    } else {
        declared_len(args, n - 1) + TAG_HEADER_LEN + args[n - 1].spec_length()
    }
}

/// Bytes that the payloads of the first `n` tags of `args` take.
pub open spec fn payload_len<A: XousArgument>(args: Seq<A>, n: int) -> int
    decreases n,
{
    if n <= 0 {
        0
    } else {
        payload_len(args, n - 1) + args[n - 1].spec_last_data().len()
    }
}

/// The first `n` tags of `args` as they stand in the table.
pub open spec fn tags<A: XousArgument>(args: Seq<A>, n: int) -> Seq<u8>
    decreases n,
{
    if n <= 0 {
        Seq::empty()
    } else {
        tags(args, n - 1) + tag_bytes(args[n - 1].spec_code(), args[n - 1].spec_body())
    }
}

/// The payloads of the first `n` tags of `args`, one after the other.
pub open spec fn payloads<A: XousArgument>(args: Seq<A>, n: int) -> Seq<u8>
    decreases n,
{
    if n <= 0 {
        Seq::empty()
    } else {
        payloads(args, n - 1) + args[n - 1].spec_last_data()
    }
}

/// Whether a tag wrote what it declared, in a size that a header can hold.
pub open spec fn consistent<A: XousArgument>(arg: A) -> bool {
    arg.spec_length() == arg.spec_body().len() && body_fits(arg.spec_body())
}

/// The error that `write` reports for a tag that is not consistent.
pub open spec fn fault<A: XousArgument>(arg: A, index: usize) -> WriteError {
    if arg.spec_length() != arg.spec_body().len() {
        WriteError::LengthMismatch {
            index,
            advertised: arg.spec_length(),
            actual: arg.spec_body().len() as usize,
        }
    } else {
        WriteError::BodySize { index, length: arg.spec_body().len() as usize }
    }
}

/// The descriptions of the first `n` tags of `args`, one after the other.
pub open spec fn texts<A: XousArgument>(args: Seq<A>, n: int) -> Seq<char>
    decreases n,
{
    if n <= 0 {
        Seq::empty()
    } else {
        texts(args, n - 1) + args[n - 1].spec_text()
    }
}

/// The index of the first of the first `n` tags of `args` that is not
/// consistent, or `n` if they all are.
pub open spec fn first_fault<A: XousArgument>(args: Seq<A>, n: int) -> int
    decreases n,
{
    if n <= 0 {
        0
    } else if first_fault(args, n - 1) < n - 1 {
        first_fault(args, n - 1)
    } else if consistent(args[n - 1]) {
        n
    } else {
        n - 1
    }
}

/// The body of the `XArg` tag of a table of `total_length` bytes.
pub open spec fn xarg_body(
    total_length: XousSize,
    ram_start: XousSize,
    ram_length: XousSize,
    ram_name: u32,
) -> Seq<u8> {
    le32(total_length / 4) + le32(FORMAT_VERSION) + le32(ram_start) + le32(ram_length) + le32(
        ram_name,
    )
}

/// Length in bytes of the table of `args`: the `XArg` tag and every tag, by
/// the lengths the tags declare. Payloads do not count.
pub open spec fn table_len<A: XousArgument>(args: Seq<A>) -> int {
    XARG_BODY_LEN + TAG_HEADER_LEN + declared_len(args, args.len() as int)
}

/// The `XArg` tag of the table of `args`.
pub open spec fn xarg_tag<A: XousArgument>(
    ram_start: XousSize,
    ram_length: XousSize,
    ram_name: u32,
    args: Seq<A>,
) -> Seq<u8> {
    tag_bytes(xarg_code(), xarg_body(table_len(args) as u32, ram_start, ram_length, ram_name))
}

/// The table of `args` as the tags now serialize: the `XArg` tag, then each
/// tag in order.
pub open spec fn table_of<A: XousArgument>(
    ram_start: XousSize,
    ram_length: XousSize,
    ram_name: u32,
    args: Seq<A>,
) -> Seq<u8> {
    xarg_tag(ram_start, ram_length, ram_name, args) + tags(args, args.len() as int)
}

/// The declared length of a prefix is at most that of a longer prefix, and
/// one more tag adds its header and its declared length.
pub proof fn lemma_declared_len_monotonic<A: XousArgument>(args: Seq<A>, i: int, j: int)
    requires
        0 <= i <= j,
    ensures
        0 <= declared_len(args, i) <= declared_len(args, j),
    decreases j,
{
    if i < j {
        lemma_declared_len_monotonic(args, i, j - 1);
    } else if 0 < i {
        lemma_declared_len_monotonic(args, i - 1, i - 1);
    }
}

/// The payload length of a prefix is at most that of a longer prefix.
pub proof fn lemma_payload_len_monotonic<A: XousArgument>(args: Seq<A>, i: int, j: int)
    requires
        0 <= i <= j,
    ensures
        0 <= payload_len(args, i) <= payload_len(args, j),
    decreases j,
{
    if i < j {
        lemma_payload_len_monotonic(args, i, j - 1);
    } else if 0 < i {
        lemma_payload_len_monotonic(args, i - 1, i - 1);
    }
}

/// Tables whose tags declare the same lengths are equally long.
pub proof fn lemma_declared_len_same<A: XousArgument>(a: Seq<A>, b: Seq<A>, n: int)
    requires
        0 <= n <= a.len(),
        n <= b.len(),
        forall|i: int| 0 <= i < n ==> (#[trigger] a[i]).spec_length() == b[i].spec_length(),
    ensures
        declared_len(a, n) == declared_len(b, n),
    decreases n,
{
    if 0 < n {
        lemma_declared_len_same(a, b, n - 1);
        assert(a[n - 1].spec_length() == b[n - 1].spec_length());
    }
}

/// Tags with the same payloads take the same space after the table.
pub proof fn lemma_payload_same<A: XousArgument>(a: Seq<A>, b: Seq<A>, n: int)
    requires
        0 <= n <= a.len(),
        n <= b.len(),
        forall|i: int|
            0 <= i < n ==> (#[trigger] a[i]).spec_last_data() == b[i].spec_last_data(),
    ensures
        payload_len(a, n) == payload_len(b, n),
        payloads(a, n) == payloads(b, n),
    decreases n,
{
    if 0 < n {
        lemma_payload_same(a, b, n - 1);
        assert(a[n - 1].spec_last_data() == b[n - 1].spec_last_data());
    }
}

/// Consistent tags take in the table what they declare, a whole number of
/// words.
pub proof fn lemma_tags_len<A: XousArgument>(args: Seq<A>, n: int)
    requires
        0 <= n <= args.len(),
        forall|i: int| 0 <= i < n ==> consistent(#[trigger] args[i]),
    ensures
        tags(args, n).len() == declared_len(args, n),
        declared_len(args, n) % 4 == 0,
    decreases n,
{
    lemma_le_len();
    if 0 < n {
        lemma_tags_len(args, n - 1);
        assert(consistent(args[n - 1]));
    }
}

/// A table of consistent tags is as long as the tags declare, a whole
/// number of words.
pub proof fn lemma_table_of_len<A: XousArgument>(
    ram_start: XousSize,
    ram_length: XousSize,
    ram_name: u32,
    args: Seq<A>,
)
    requires
        forall|i: int| 0 <= i < args.len() ==> consistent(#[trigger] args[i]),
    ensures
        table_of(ram_start, ram_length, ram_name, args).len() == table_len(args),
        table_len(args) % 4 == 0,
{
    lemma_le_len();
    lemma_tags_len(args, args.len() as int);
}

/// Tags that all declare `length` bytes take as much each, with their
/// headers.
pub proof fn lemma_declared_len_uniform<A: XousArgument>(args: Seq<A>, n: int, length: int)
    requires
        0 <= n <= args.len(),
        forall|i: int| 0 <= i < n ==> (#[trigger] args[i]).spec_length() == length,
    ensures
        declared_len(args, n) == n * (TAG_HEADER_LEN + length),
    decreases n,
{
    let each = TAG_HEADER_LEN + length;
    if 0 < n {
        lemma_declared_len_uniform(args, n - 1, length);
        assert(args[n - 1].spec_length() == length);
        assert(n * each == (n - 1) * each + each) by (nonlinear_arith);
    } else {
        assert(n * each == 0) by (nonlinear_arith)
            requires
                n == 0,
        ;
    }
}

/// The tags of two lists, one after the other, take what the tags of each
/// list take.
pub proof fn lemma_declared_len_concat<A: XousArgument>(a: Seq<A>, b: Seq<A>, n: int)
    requires
        0 <= n <= b.len(),
    ensures
        declared_len(a + b, a.len() + n) == declared_len(a, a.len() as int) + declared_len(b, n),
    decreases n,
{
    if 0 < n {
        lemma_declared_len_concat(a, b, n - 1);
        assert((a + b)[a.len() + n - 1] == b[n - 1]);
    } else {
        lemma_declared_len_same(a + b, a, a.len() as int);
    }
}

/// The tags of a prefix are where the table of all tags starts.
pub proof fn lemma_tags_prefix<A: XousArgument>(args: Seq<A>, k: int, n: int)
    requires
        0 <= k <= n,
    ensures
        tags(args, k).len() <= tags(args, n).len(),
        tags(args, n).subrange(0, tags(args, k).len() as int) == tags(args, k),
    decreases n,
{
    if k < n {
        lemma_tags_prefix(args, k, n - 1);
        let shorter = tags(args, n - 1);
        let last = tag_bytes(args[n - 1].spec_code(), args[n - 1].spec_body());
        assert((shorter + last).subrange(0, tags(args, k).len() as int) =~= shorter.subrange(
            0,
            tags(args, k).len() as int,
        ));
    } else {
        assert(tags(args, n).subrange(0, tags(args, n).len() as int) =~= tags(args, n));
    }
}

/// The payloads of a prefix are where the payloads of all tags start.
pub proof fn lemma_payloads_prefix<A: XousArgument>(args: Seq<A>, k: int, n: int)
    requires
        0 <= k <= n,
    ensures
        payloads(args, k).len() == payload_len(args, k),
        payloads(args, k).len() <= payloads(args, n).len(),
        payloads(args, n).subrange(0, payloads(args, k).len() as int) == payloads(args, k),
    decreases n,
{
    lemma_payloads_len(args, k);
    if k < n {
        lemma_payloads_prefix(args, k, n - 1);
        let shorter = payloads(args, n - 1);
        let last = args[n - 1].spec_last_data();
        assert((shorter + last).subrange(0, payloads(args, k).len() as int) =~= shorter.subrange(
            0,
            payloads(args, k).len() as int,
        ));
    } else {
        assert(payloads(args, n).subrange(0, payloads(args, n).len() as int) =~= payloads(
            args,
            n,
        ));
    }
}

/// The payloads of the first `n` tags are as long as `payload_len` says.
pub proof fn lemma_payloads_len<A: XousArgument>(args: Seq<A>, n: int)
    ensures
        payloads(args, n).len() == payload_len(args, n),
    decreases n,
{
    if 0 < n {
        lemma_payloads_len(args, n - 1);
    }
}

/// `first_fault` is the least index of a tag that is not consistent.
pub proof fn lemma_first_fault<A: XousArgument>(args: Seq<A>, n: int)
    requires
        0 <= n <= args.len(),
    ensures
        0 <= first_fault(args, n) <= n,
        forall|i: int| 0 <= i < first_fault(args, n) ==> consistent(#[trigger] args[i]),
        first_fault(args, n) < n ==> !consistent(args[first_fault(args, n)]),
    decreases n,
{
    if 0 < n {
        lemma_first_fault(args, n - 1);
    }
}

/// Where the first fault among all tags lies, seen from a prefix without
/// one: at the next tag if that is not consistent, else further on.
pub proof fn lemma_first_fault_step<A: XousArgument>(args: Seq<A>, i: int, n: int)
    requires
        0 <= i < n <= args.len(),
        first_fault(args, i) == i,
    ensures
        !consistent(args[i]) ==> first_fault(args, n) == i,
        consistent(args[i]) ==> first_fault(args, i + 1) == i + 1,
    decreases n,
{
    if i + 1 < n {
        lemma_first_fault_step(args, i, n - 1);
    }
}

/// Tags with the same codes and bodies make the same table and fail, if
/// they do, at the same place.
pub proof fn lemma_same_tags<A: XousArgument>(a: Seq<A>, b: Seq<A>, n: int)
    requires
        0 <= n <= a.len(),
        n <= b.len(),
        forall|i: int|
            0 <= i < n ==> {
                &&& (#[trigger] a[i]).spec_code() == b[i].spec_code()
                &&& a[i].spec_length() == b[i].spec_length()
                &&& a[i].spec_body() == b[i].spec_body()
            },
    ensures
        tags(a, n) == tags(b, n),
        first_fault(a, n) == first_fault(b, n),
    decreases n,
{
    if 0 < n {
        lemma_same_tags(a, b, n - 1);
        assert(a[n - 1].spec_code() == b[n - 1].spec_code());
    }
}

/// Appends one tag to `output`.
fn write_tag(output: &mut Vec<u8>, code: XousArgumentCode, body: &Vec<u8>)
    requires
        body_fits(body@),
    ensures
        final(output)@ == old(output)@ + tag_bytes(code, body@),
{
    put_u32(output, code);
    put_u16(output, checksum_x25(body.as_slice()));
    put_u16(output, (body.len() / 4) as u16);
    put_bytes(output, body.as_slice());
    assert(output@ =~= old(output)@ + tag_bytes(code, body@));
}

/// The tags of a table and a description of main memory.
pub struct XousArguments<A: XousArgument> {
    pub ram_start: XousSize,
    pub ram_length: XousSize,
    pub ram_name: u32,
    pub arguments: Vec<A>,
}

impl<A: XousArgument> XousArguments<A> {
    /// Length of the table in bytes: the `XArg` tag and every tag added, by
    /// the lengths the tags declare. Payloads do not count.
    pub open spec fn spec_len(&self) -> int {
        table_len(self.arguments@)
    }

    /// Offset in the image at which the payload of tag `i` lies.
    pub open spec fn payload_offset(&self, i: int) -> int {
        self.spec_len() + payload_len(self.arguments@, i)
    }

    /// Length of the image: table and payloads.
    pub open spec fn image_len(&self) -> int {
        self.payload_offset(self.arguments@.len() as int)
    }

    /// The `XArg` tag of this table.
    pub open spec fn xarg_tag(&self) -> Seq<u8> {
        xarg_tag(self.ram_start, self.ram_length, self.ram_name, self.arguments@)
    }

    /// The table as the tags now serialize: the `XArg` tag, then each tag.
    pub open spec fn table(&self) -> Seq<u8> {
        table_of(self.ram_start, self.ram_length, self.ram_name, self.arguments@)
    }

    /// The image: the table, then each tag's payload.
    pub open spec fn image(&self) -> Seq<u8> {
        self.table() + payloads(self.arguments@, self.arguments@.len() as int)
    }

    /// What `write` has appended when it returns: the table up to the first
    /// tag that is not consistent and, if there is none, the payloads.
    pub open spec fn written(&self) -> Seq<u8> {
        let n = self.arguments@.len() as int;
        let k = first_fault(self.arguments@, n);
        if k == n {
            self.image()
        } else {
            self.xarg_tag() + tags(self.arguments@, k)
        }
    }

    /// The first lines of the description of a table: the number of tags
    /// and main memory.
    pub open spec fn spec_heading(&self) -> Seq<char> {
        "Xous Arguments with "@ + decimal_text(self.arguments@.len()) + " parameters\n"@
            + "    Main RAM \""@ + name_text(self.ram_name) + "\" ("@ + hex_text(
            self.ram_name as nat,
            8,
        ) + "): "@ + hex_text(self.ram_start as nat, 8) + " - "@ + hex_text(
            (self.ram_start + self.ram_length) as nat,
            8,
        ) + "\n"@
    }

    /// The description of a table: the heading, then what each tag says of
    /// itself.
    pub open spec fn spec_text(&self) -> Seq<char> {
        self.spec_heading() + texts(self.arguments@, self.arguments@.len() as int)
    }

    /// Whether every tag wrote what it declared.
    pub open spec fn all_consistent(&self) -> bool {
        forall|i: int| 0 <= i < self.arguments@.len() ==> consistent(#[trigger] self.arguments@[i])
    }

    /// Whether `self` is what `finalize` makes of `before`: each tag has kept
    /// its code, declared length and payload, and serializes as `before`
    /// said it would at the offset of its payload.
    pub open spec fn finalized_from(&self, before: &Self) -> bool {
        &&& self.ram_start == before.ram_start
        &&& self.ram_length == before.ram_length
        &&& self.ram_name == before.ram_name
        &&& self.arguments@.len() == before.arguments@.len()
        &&& forall|i: int|
            0 <= i < self.arguments@.len() ==> {
                &&& (#[trigger] self.arguments@[i]).spec_code() == before.arguments@[i].spec_code()
                &&& self.arguments@[i].spec_length() == before.arguments@[i].spec_length()
                &&& self.arguments@[i].spec_last_data() == before.arguments@[i].spec_last_data()
                &&& self.arguments@[i].spec_body() == before.arguments@[i].spec_body_at(
                    before.payload_offset(i) as usize,
                )
                &&& forall|at: usize|
                    #[trigger] self.arguments@[i].spec_body_at(at)
                        == before.arguments@[i].spec_body_at(at)
            }
    }

    /// An empty table for a machine whose main memory is `ram_length` bytes
    /// at `ram_start`, called `ram_name`.
    pub fn new(ram_start: XousSize, ram_length: XousSize, ram_name: u32) -> (args: Self)
        ensures
            args.ram_start == ram_start,
            args.ram_length == ram_length,
            args.ram_name == ram_name,
            args.arguments@ == Seq::<A>::empty(),
            args.spec_len() == XARG_BODY_LEN + TAG_HEADER_LEN,
    {
        XousArguments { ram_start, ram_length, ram_name, arguments: Vec::new() }
    }

    /// Appends a tag: tags are written in the order in which they were added.
    pub fn add(&mut self, arg: A)
        ensures
            final(self).ram_start == old(self).ram_start,
            final(self).ram_length == old(self).ram_length,
            final(self).ram_name == old(self).ram_name,
            final(self).arguments@ == old(self).arguments@.push(arg),
            final(self).spec_len() == old(self).spec_len() + TAG_HEADER_LEN + arg.spec_length(),
    {
        let ghost before = self.arguments@;
        self.arguments.push(arg);
        proof {
            lemma_declared_len_same(before, self.arguments@, before.len() as int);
        }
    }

    /// A description of the table for people to read: a heading with main
    /// memory, then the lines of each tag.
    pub fn to_string(&self) -> (text: String)
        ensures
            text@ == self.spec_text(),
    {
        let mut text = String::new();
        text.append("Xous Arguments with ");
        push_decimal(&mut text, self.arguments.len() as u128);
        text.append(" parameters\n");
        text.append("    Main RAM \"");
        push_name(&mut text, self.ram_name);
        text.append("\" (");
        push_hex(&mut text, self.ram_name as u128, 8);
        text.append("): ");
        push_hex(&mut text, self.ram_start as u128, 8);
        text.append(" - ");
        push_hex(&mut text, self.ram_start as u128 + self.ram_length as u128, 8);
        text.append("\n");
        assert(text@ =~= self.spec_heading());
        let mut i: usize = 0;
        while i < self.arguments.len()
            invariant
                i <= self.arguments@.len(),
                text@ == self.spec_heading() + texts(self.arguments@, i as int),
            decreases self.arguments@.len() - i,
        {
            let line = self.arguments[i].to_string();
            text.append(line.as_str());
            assert(text@ =~= self.spec_heading() + texts(self.arguments@, i as int + 1));
            i += 1;
        }
        text
    }

    /// Whether the table and the image are short enough to be written: the
    /// table for 32 bits, the image for the memory of this machine.
    pub fn fits(&self) -> (fits: bool)
        ensures
            fits == (self.spec_len() <= u32::MAX && self.image_len() <= usize::MAX),
    {
        let count = self.arguments.len();
        let mut table: u32 = 20 + 8;
        let mut image: usize = 0;
        let mut i: usize = 0;
        while i < count
            invariant
                i <= count,
                count == self.arguments@.len(),
                table == XARG_BODY_LEN + TAG_HEADER_LEN + declared_len(self.arguments@, i as int),
                image == payload_len(self.arguments@, i as int),
            decreases count - i,
        {
            proof {
                lemma_declared_len_monotonic(self.arguments@, i + 1, count as int);
                lemma_payload_len_monotonic(self.arguments@, i + 1, count as int);
            }
            let length = self.arguments[i].length();
            let data = self.arguments[i].last_data().len();
            if length > u32::MAX - 8 || table > u32::MAX - 8 - length || data > usize::MAX - image {
                return false;
            }
            table = table + length + 8;
            image = image + data;
            i += 1;
        }
        table as u64 <= usize::MAX as u64 && image <= usize::MAX - table as usize
    }

    /// Bytes that a tag's header takes.
    pub fn header_len(&self) -> (len: usize)
        ensures
            len == TAG_HEADER_LEN,
    {
        TAG_HEADER_LEN
    }

    /// Length of the table in bytes, headers included, payloads excluded.
    pub fn len(&self) -> (total_length: u32)
        requires
            self.spec_len() <= u32::MAX,
        ensures
            total_length == self.spec_len(),
    {
        let mut total_length: u32 = 20 + 8;
        let mut i: usize = 0;
        while i < self.arguments.len()
            invariant
                i <= self.arguments@.len(),
                total_length == XARG_BODY_LEN + TAG_HEADER_LEN + declared_len(
                    self.arguments@,
                    i as int,
                ),
                self.spec_len() <= u32::MAX,
            decreases self.arguments@.len() - i,
        {
            proof {
                lemma_declared_len_monotonic(
                    self.arguments@,
                    i + 1,
                    self.arguments@.len() as int,
                );
            }
            let length = self.arguments[i].length();
            total_length = total_length + length + 8;
            i += 1;
        }
        total_length
    }

    /// Tells each tag, in order, at which offset of the image its payload
    /// will lie: the first right after the table, each next one after the
    /// payload before it.
    pub fn finalize(&mut self)
        requires
            old(self).spec_len() <= u32::MAX,
            old(self).image_len() <= usize::MAX,
        ensures
            final(self).finalized_from(old(self)),
            final(self).spec_len() == old(self).spec_len(),
            final(self).image_len() == old(self).image_len(),
    {
        let mut running_offset: usize = self.len() as usize;
        let ghost before = *self;
        let mut i: usize = 0;
        while i < self.arguments.len()
            invariant
                i <= self.arguments@.len(),
                before == *old(self),
                self.ram_start == before.ram_start,
                self.ram_length == before.ram_length,
                self.ram_name == before.ram_name,
                self.arguments@.len() == before.arguments@.len(),
                before.image_len() <= usize::MAX,
                running_offset == before.payload_offset(i as int),
                forall|j: int|
                    0 <= j < i ==> {
                        &&& (#[trigger] self.arguments@[j]).spec_code()
                            == before.arguments@[j].spec_code()
                        &&& self.arguments@[j].spec_length() == before.arguments@[j].spec_length()
                        &&& self.arguments@[j].spec_last_data()
                            == before.arguments@[j].spec_last_data()
                        &&& self.arguments@[j].spec_body() == before.arguments@[j].spec_body_at(
                            before.payload_offset(j) as usize,
                        )
                        &&& forall|at: usize|
                            #[trigger] self.arguments@[j].spec_body_at(at)
                                == before.arguments@[j].spec_body_at(at)
                    },
                forall|j: int|
                    i <= j < self.arguments@.len() ==> #[trigger] self.arguments@[j]
                        == before.arguments@[j],
            decreases self.arguments@.len() - i,
        {
            proof {
                lemma_payload_len_monotonic(
                    before.arguments@,
                    i + 1,
                    before.arguments@.len() as int,
                );
            }
            let reserved = self.arguments[i].finalize(running_offset);
            running_offset = running_offset + reserved;
            i += 1;
        }
        proof {
            let n = self.arguments@.len() as int;
            lemma_declared_len_same(self.arguments@, before.arguments@, n);
            lemma_payload_same(self.arguments@, before.arguments@, n);
        }
    }

    /// Finalizes the tags and appends the image to `output`: the `XArg`
    /// tag, each tag in order, then each payload in order.
    ///
    /// A tag whose body is not as long as it declared, or cannot stand in a
    /// tag, ends the writing with an error before any byte of that tag is
    /// appended; the tags before it have been appended by then.
    pub fn write(&mut self, output: &mut Vec<u8>) -> (result: Result<(), WriteError>)
        requires
            old(self).spec_len() <= u32::MAX,
            old(self).image_len() <= usize::MAX,
        ensures
            final(self).finalized_from(old(self)),
            final(output)@ == old(output)@ + final(self).written(),
            match result {
                Ok(()) => final(self).all_consistent(),
                Err(e) => {
                    let k = first_fault(
                        final(self).arguments@,
                        final(self).arguments@.len() as int,
                    );
                    &&& 0 <= k < final(self).arguments@.len()
                    &&& e == fault(final(self).arguments@[k], k as usize)
                },
            },
    {
        let total_length = self.len();

        // Let the tags learn where their payloads will lie.
        self.finalize();

        let mut tag_data: Vec<u8> = Vec::new();
        put_u32(&mut tag_data, total_length / 4);
        put_u32(&mut tag_data, FORMAT_VERSION);
        put_u32(&mut tag_data, self.ram_start);
        put_u32(&mut tag_data, self.ram_length);
        put_u32(&mut tag_data, self.ram_name);
        proof {
            lemma_le_len();
            assert(tag_data@ =~= xarg_body(
                total_length,
                self.ram_start,
                self.ram_length,
                self.ram_name,
            ));
        }
        write_tag(output, make_xarg(), &tag_data);

        let count = self.arguments.len();
        let mut i: usize = 0;
        while i < count
            invariant
                i <= count,
                count == self.arguments@.len(),
                self.finalized_from(old(self)),
                first_fault(self.arguments@, i as int) == i,
                output@ == old(output)@ + self.xarg_tag() + tags(self.arguments@, i as int),
            decreases count - i,
        {
            let arg = &self.arguments[i];
            let mut tag_data: Vec<u8> = Vec::new();
            let advertised = arg.length();
            let actual = arg.serialize(&mut tag_data);
            assert(tag_data@ =~= arg.spec_body());
            proof {
                lemma_first_fault(self.arguments@, count as int);
                lemma_first_fault_step(self.arguments@, i as int, count as int);
            }
            let written = tag_data.len();
            if advertised as usize != actual || written != actual {
                return Err(WriteError::LengthMismatch { index: i, advertised, actual: written });
            }
            if written % 4 != 0 || written > MAX_BODY_LEN {
                return Err(WriteError::BodySize { index: i, length: written });
            }
            let code = arg.code();
            write_tag(output, code, &tag_data);
            assert(output@ =~= old(output)@ + self.xarg_tag() + tags(
                self.arguments@,
                i as int + 1,
            ));
            i += 1;
        }

        proof {
            lemma_first_fault(self.arguments@, count as int);
        }
        let mut i: usize = 0;
        while i < count
            invariant
                i <= count,
                count == self.arguments@.len(),
                self.finalized_from(old(self)),
                first_fault(self.arguments@, count as int) == count,
                output@ == old(output)@ + self.table() + payloads(self.arguments@, i as int),
            decreases count - i,
        {
            put_bytes(output, self.arguments[i].last_data());
            assert(output@ =~= old(output)@ + self.table() + payloads(
                self.arguments@,
                i as int + 1,
            ));
            i += 1;
        }
        assert(output@ =~= old(output)@ + self.image());
        Ok(())
    }

    /// A table of consistent tags is as long as `len` says, a whole number
    /// of words, so the length in words that the `XArg` tag gives, times
    /// four, is the offset of the first payload.
    pub proof fn lemma_table_len(&self)
        requires
            self.all_consistent(),
            self.spec_len() <= u32::MAX,
        ensures
            self.table().len() == self.spec_len(),
            self.spec_len() % 4 == 0,
            word_at(self.table(), TAG_HEADER_LEN as int) * 4 == self.payload_offset(0),
            forall|i: int|
                0 <= i < self.arguments@.len() ==> (#[trigger] self.arguments@[i]).spec_body().len()
                    % 4 == 0,
            self.image().len() == self.image_len(),
    {
        lemma_le_len();
        let n = self.arguments@.len() as int;
        lemma_tags_len(self.arguments@, n);
        lemma_payloads_len(self.arguments@, n);
        lemma_auto_spec_u32_to_from_le_bytes();
        assert(self.table().subrange(TAG_HEADER_LEN as int, TAG_HEADER_LEN + 4) =~= le32(
            (self.spec_len() as u32) / 4,
        ));
        assert forall|i: int| 0 <= i < n implies (#[trigger] self.arguments@[i]).spec_body().len()
            % 4 == 0 by {
            assert(consistent(self.arguments@[i]));
        }
    }

    /// In the image of consistent tags each payload lies at the offset that
    /// `finalize` told its tag.
    pub proof fn lemma_payload_placement(&self, i: int)
        requires
            self.all_consistent(),
            0 <= i < self.arguments@.len(),
        ensures
            self.payload_offset(i) + self.arguments@[i].spec_last_data().len()
                <= self.image().len(),
            self.image().subrange(
                self.payload_offset(i),
                self.payload_offset(i) + self.arguments@[i].spec_last_data().len(),
            ) == self.arguments@[i].spec_last_data(),
    {
        let n = self.arguments@.len() as int;
        let all = payloads(self.arguments@, n);
        let data = self.arguments@[i].spec_last_data();
        lemma_le_len();
        lemma_tags_len(self.arguments@, n);
        lemma_payloads_prefix(self.arguments@, i + 1, n);
        lemma_payloads_len(self.arguments@, i);
        let start = payload_len(self.arguments@, i);
        assert(all.subrange(0, start + data.len()) == payloads(self.arguments@, i) + data);
        assert(all.subrange(start, start + data.len()) =~= all.subrange(
            0,
            start + data.len(),
        ).subrange(start, start + data.len()));
        assert((payloads(self.arguments@, i) + data).subrange(start, start + data.len())
            =~= data);
        assert(self.image().subrange(
            self.payload_offset(i),
            self.payload_offset(i) + data.len(),
        ) =~= all.subrange(start, start + data.len()));
    }

    /// A second `finalize` leaves every tag as the first did: what it tells
    /// a tag is what the first told it, so the tag serializes the same
    /// bytes, and code, declared length and payload stay.
    pub proof fn lemma_finalize_twice(before: &Self, once: &Self, twice: &Self)
        requires
            once.finalized_from(before),
            twice.finalized_from(once),
        ensures
            twice.spec_len() == once.spec_len(),
            forall|i: int|
                0 <= i < once.arguments@.len() ==> #[trigger] once.payload_offset(i)
                    == before.payload_offset(i),
            forall|i: int|
                0 <= i < once.arguments@.len() ==> (#[trigger] twice.arguments@[i]).spec_body()
                    == once.arguments@[i].spec_body(),
            twice.written() == once.written(),
    {
        let a = before.arguments@;
        let b = once.arguments@;
        let c = twice.arguments@;
        let n = a.len() as int;
        lemma_declared_len_same(b, a, n);
        lemma_declared_len_same(c, b, n);
        assert forall|i: int| 0 <= i < n implies #[trigger] once.payload_offset(i)
            == before.payload_offset(i) by {
            lemma_payload_same(b, a, i);
        }
        assert forall|i: int| 0 <= i < n implies (#[trigger] c[i]).spec_body()
            == b[i].spec_body() by {
            let at = once.payload_offset(i) as usize;
            assert(once.payload_offset(i) == before.payload_offset(i));
            assert(b[i].spec_code() == a[i].spec_code());
            assert(c[i].spec_body() == b[i].spec_body_at(at));
            assert(b[i].spec_body_at(at) == a[i].spec_body_at(at));
        }
        lemma_payload_same(c, b, n);
        lemma_same_tags(c, b, n);
        lemma_first_fault(c, n);
        lemma_same_tags(c, b, first_fault(c, n));
    }

    /// What `write` appends depends only on what the tags are before it
    /// runs: two runs on the same table append the same bytes.
    pub proof fn lemma_write_deterministic(before: &Self, first: &Self, second: &Self)
        requires
            first.finalized_from(before),
            second.finalized_from(before),
        ensures
            first.spec_len() == second.spec_len(),
            first.written() == second.written(),
    {
        let a = first.arguments@;
        let b = second.arguments@;
        let n = a.len() as int;
        lemma_declared_len_same(a, before.arguments@, n);
        lemma_declared_len_same(b, before.arguments@, n);
        lemma_payload_same(a, before.arguments@, n);
        lemma_payload_same(b, before.arguments@, n);
        lemma_same_tags(a, b, n);
        lemma_first_fault(a, n);
        lemma_first_fault(b, n);
        lemma_same_tags(a, b, first_fault(a, n));
    }
}

} // verus!
