//! Putting a boot image together: the tag table, then the kernel and the
//! programs that it starts.
//!
//! Each program starts at a multiple of four bytes; the zero bytes before
//! it, if any, belong to no program. The tag of a program holds the offset
//! at which the program starts.

use crate::elf::ProgramDescription;
use crate::tags::bflg::Bflg;
use crate::tags::init::Init;
use crate::tags::memory::{lemma_regions_bytes_len, MemoryRegions, REGION_LEN};
use crate::tags::xkrn::XousKernel;
use crate::tags::Tag;
use crate::words::{lemma_le_len, put_bytes, zeros};
use crate::xous_arguments::{
    consistent, fault, first_fault, lemma_declared_len_concat, lemma_declared_len_same,
    lemma_declared_len_uniform, lemma_first_fault, lemma_same_tags, lemma_table_of_len,
    payload_len, payloads, table_len, table_of, WriteError, XousArgument, XousArguments,
    XousSize, MAX_BODY_LEN,
};
use vstd::prelude::*;

verus! {

/// Why an image could not be put together.
#[derive(Debug, PartialEq, Eq, Clone, Copy)]
pub enum ImageError {
    /// There are more memory regions than one tag can hold, or the image
    /// is longer than a 32-bit offset can reach.
    TooLarge,
}

/// Zero bytes that bring a length up to a multiple of four.
pub open spec fn padding(len: int) -> int {
    (4 - len % 4) % 4
}

/// Length of what starts with `start` bytes and goes on with the first `n`
/// of `programs`, each after its padding.
pub open spec fn payload_end(start: int, programs: Seq<Seq<u8>>, n: int) -> int
    decreases n,
{
    if n <= 0 {
        start
    } else {
        payload_start(start, programs, n - 1) + programs[n - 1].len()
    }
}

/// Offset at which program `i` starts, when the programs follow `start`
/// bytes, each after its padding.
pub open spec fn payload_start(start: int, programs: Seq<Seq<u8>>, i: int) -> int
    decreases i,
{
    if i <= 0 {
        start + padding(start)
    } else {
        payload_start(start, programs, i - 1) + programs[i - 1].len() + padding(
            payload_start(start, programs, i - 1) + programs[i - 1].len(),
        )
    }
}

/// `bytes`, then the first `n` of `programs`, each after its padding.
pub open spec fn with_programs(bytes: Seq<u8>, programs: Seq<Seq<u8>>, n: int) -> Seq<u8>
    decreases n,
{
    if n <= 0 {
        bytes
    } else {
        let before = with_programs(bytes, programs, n - 1);
        before + zeros(padding(before.len() as int) as nat) + programs[n - 1]
    }
}

/// The kernel first, then the programs.
pub open spec fn programs_of(kernel: ProgramDescription, programs: Seq<ProgramDescription>) -> Seq<
    Seq<u8>,
> {
    seq![kernel.program@] + programs.map_values(|program: ProgramDescription| program.program@)
}

/// The tag of a kernel that starts at `load_offset`.
pub open spec fn kernel_tag(kernel: ProgramDescription, load_offset: int) -> Tag {
    Tag::XousKernel(
        XousKernel {
            load_offset: load_offset as u32,
            load_size: kernel.program@.len() as u32,
            text_offset: kernel.text_offset,
            data_offset: kernel.data_offset,
            data_size: kernel.data_size,
            entrypoint: kernel.entry_point,
        },
    )
}

/// The tag of a program that starts at `load_offset`.
pub open spec fn init_tag(program: ProgramDescription, load_offset: int) -> Tag {
    Tag::Init(
        Init {
            load_offset: load_offset as u32,
            text_offset: program.text_offset,
            text_size: program.text_size,
            data_offset: program.data_offset,
            data_size: program.data_size,
            bss_size: program.bss_size,
            entrypoint: program.entry_point,
        },
    )
}

/// Length of the table of an image with `regions` memory regions and
/// `programs` programs besides the kernel.
pub open spec fn image_table_len(regions: nat, programs: nat, debug: bool) -> int {
    28 + (if regions > 0 {
        8 + REGION_LEN * regions
    } else {
        0
    }) + 32 + 36 * programs + (if debug {
        12int
    } else {
        0int
    })
}

/// The tags of an image: the memory regions if there are any, the kernel,
/// each program, and the flags if debugging is asked for.
pub open spec fn image_tags(
    regions: MemoryRegions,
    kernel: ProgramDescription,
    programs: Seq<ProgramDescription>,
    debug: bool,
) -> Seq<Tag> {
    let start = image_table_len(regions.regions@.len(), programs.len(), debug);
    let all = programs_of(kernel, programs);
    (if regions.regions@.len() > 0 {
        seq![Tag::MemoryRegions(regions)]
    } else {
        Seq::empty()
    }) + seq![kernel_tag(kernel, payload_start(start, all, 0))] + Seq::new(
        programs.len(),
        |i: int| init_tag(programs[i], payload_start(start, all, i + 1)),
    ) + (if debug {
        seq![Tag::Bflg(Bflg { no_copy: false, absolute: false, debug: true })]
    } else {
        Seq::empty()
    })
}

/// Length of the image.
pub open spec fn image_len(
    regions: MemoryRegions,
    kernel: ProgramDescription,
    programs: Seq<ProgramDescription>,
    debug: bool,
) -> int {
    payload_end(
        image_table_len(regions.regions@.len(), programs.len(), debug),
        programs_of(kernel, programs),
        programs.len() as int + 1,
    )
}

/// Whether an image can be put together: the regions fit one tag and every
/// offset fits 32 bits.
pub open spec fn image_fits(
    regions: MemoryRegions,
    kernel: ProgramDescription,
    programs: Seq<ProgramDescription>,
    debug: bool,
) -> bool {
    &&& regions.regions@.len() * REGION_LEN <= MAX_BODY_LEN
    &&& image_len(regions, kernel, programs, debug) <= u32::MAX
}

/// The image: the table, then the kernel and the programs, each after its
/// padding.
pub open spec fn image_bytes(
    ram_start: XousSize,
    ram_length: XousSize,
    ram_name: u32,
    regions: MemoryRegions,
    kernel: ProgramDescription,
    programs: Seq<ProgramDescription>,
    debug: bool,
) -> Seq<u8> {
    with_programs(
        table_of(ram_start, ram_length, ram_name, image_tags(regions, kernel, programs, debug)),
        programs_of(kernel, programs),
        programs.len() as int + 1,
    )
}

/// Appends zero bytes to `bytes` until its length is a multiple of four.
pub fn pad_to_4_bytes(bytes: &mut Vec<u8>)
    ensures
        final(bytes)@ == old(bytes)@ + zeros(padding(old(bytes)@.len() as int) as nat),
        final(bytes)@.len() % 4 == 0,
{
    let beyond = bytes.len() % 4;
    let missing: usize = if beyond == 0 {
        0
    } else {
        4 - beyond
    };
    let mut added: usize = 0;
    while added < missing
        invariant
            added <= missing,
            bytes@ == old(bytes)@ + zeros(added as nat),
        decreases missing - added,
    {
        bytes.push(0);
        added += 1;
        assert(bytes@ =~= old(bytes)@ + zeros(added as nat));
    }
}

/// A tag without a payload that writes what it declares, wherever the
/// payloads lie.
pub open spec fn plain(tag: Tag) -> bool {
    &&& consistent(tag)
    &&& tag.spec_last_data() == Seq::<u8>::empty()
    &&& forall|offset: usize| #[trigger] tag.spec_body_at(offset) == tag.spec_body()
}

/// Each program starts where the one before it ends, after its padding,
/// and none starts before `start`.
pub proof fn lemma_payload_offsets(start: int, programs: Seq<Seq<u8>>, i: int, j: int)
    requires
        0 <= i <= j,
    ensures
        payload_start(start, programs, i) == payload_end(start, programs, i) + padding(
            payload_end(start, programs, i),
        ),
        payload_start(start, programs, i) % 4 == 0,
        start <= payload_end(start, programs, i) <= payload_end(start, programs, j),
        i < j ==> payload_start(start, programs, i) + programs[i].len() <= payload_end(
            start,
            programs,
            j,
        ),
    decreases j,
{
    if 0 < i {
        lemma_payload_offsets(start, programs, i - 1, i - 1);
    }
    if i < j {
        lemma_payload_offsets(start, programs, i, j - 1);
        lemma_payload_offsets(start, programs, j - 1, j - 1);
    }
}

/// What starts with `bytes` and goes on with programs is as long as
/// `payload_end` says, and starts with `bytes`.
pub proof fn lemma_with_programs_len(bytes: Seq<u8>, programs: Seq<Seq<u8>>, n: int)
    requires
        0 <= n,
    ensures
        with_programs(bytes, programs, n).len() == payload_end(bytes.len() as int, programs, n),
        bytes.len() <= with_programs(bytes, programs, n).len(),
        with_programs(bytes, programs, n).subrange(0, bytes.len() as int) == bytes,
    decreases n,
{
    if 0 < n {
        lemma_with_programs_len(bytes, programs, n - 1);
        lemma_payload_offsets(bytes.len() as int, programs, n - 1, n - 1);
        let before = with_programs(bytes, programs, n - 1);
        assert(with_programs(bytes, programs, n).subrange(0, bytes.len() as int)
            =~= before.subrange(0, bytes.len() as int));
    } else {
        assert(bytes.subrange(0, bytes.len() as int) =~= bytes);
    }
}

/// Every program lies in the image at the offset that `payload_start`
/// gives, which is the offset that its tag holds.
pub proof fn lemma_program_placement(bytes: Seq<u8>, programs: Seq<Seq<u8>>, n: int, i: int)
    requires
        0 <= i < n,
    ensures
        payload_start(bytes.len() as int, programs, i) + programs[i].len() <= with_programs(
            bytes,
            programs,
            n,
        ).len(),
        with_programs(bytes, programs, n).subrange(
            payload_start(bytes.len() as int, programs, i),
            payload_start(bytes.len() as int, programs, i) + programs[i].len(),
        ) == programs[i],
    decreases n,
{
    let start = bytes.len() as int;
    let at = payload_start(start, programs, i);
    let all = with_programs(bytes, programs, n);
    let before = with_programs(bytes, programs, n - 1);
    lemma_with_programs_len(bytes, programs, n);
    lemma_with_programs_len(bytes, programs, n - 1);
    lemma_payload_offsets(start, programs, i, n);
    lemma_payload_offsets(start, programs, n - 1, n - 1);
    if i == n - 1 {
        assert(all.subrange(at, at + programs[i].len()) =~= programs[i]);
    } else {
        lemma_program_placement(bytes, programs, n - 1, i);
        lemma_payload_offsets(start, programs, i, n - 1);
        assert(all.subrange(at, at + programs[i].len()) =~= before.subrange(
            at,
            at + programs[i].len(),
        ));
    }
}

/// The tags of an image are plain, and their table is as long as
/// `image_table_len` says.
pub proof fn lemma_image_tags(
    regions: MemoryRegions,
    kernel: ProgramDescription,
    programs: Seq<ProgramDescription>,
    debug: bool,
)
    requires
        regions.regions@.len() * REGION_LEN <= MAX_BODY_LEN,
    ensures
        forall|i: int|
            0 <= i < image_tags(regions, kernel, programs, debug).len() ==> plain(
                #[trigger] image_tags(regions, kernel, programs, debug)[i],
            ),
        table_len(image_tags(regions, kernel, programs, debug)) == image_table_len(
            regions.regions@.len(),
            programs.len(),
            debug,
        ),
{
    let start = image_table_len(regions.regions@.len(), programs.len(), debug);
    let all = programs_of(kernel, programs);
    let head = if regions.regions@.len() > 0 {
        seq![Tag::MemoryRegions(regions)]
    } else {
        Seq::<Tag>::empty()
    };
    let first = seq![kernel_tag(kernel, payload_start(start, all, 0))];
    let inits = Seq::new(
        programs.len(),
        |i: int| init_tag(programs[i], payload_start(start, all, i + 1)),
    );
    let flags = if debug {
        seq![Tag::Bflg(Bflg { no_copy: false, absolute: false, debug: true })]
    } else {
        Seq::<Tag>::empty()
    };
    let tags = image_tags(regions, kernel, programs, debug);
    assert(tags == head + first + inits + flags);
    lemma_le_len();
    lemma_regions_bytes_len(regions.regions@, regions.regions@.len() as int);
    assert forall|i: int| 0 <= i < tags.len() implies plain(#[trigger] tags[i]) by {
        if i < head.len() {
            assert(tags[i] == head[i]);
        } else if i < head.len() + 1 {
            assert(tags[i] == first[i - head.len()]);
        } else if i < head.len() + 1 + inits.len() {
            assert(tags[i] == inits[i - head.len() - 1]);
        } else {
            assert(tags[i] == flags[i - head.len() - 1 - inits.len()]);
        }
    }
    lemma_declared_len_uniform(head, head.len() as int, REGION_LEN * regions.regions@.len());
    lemma_declared_len_uniform(first, 1, 24);
    lemma_declared_len_uniform(inits, inits.len() as int, 28);
    lemma_declared_len_uniform(flags, flags.len() as int, 4);
    lemma_declared_len_concat(head, first, 1);
    lemma_declared_len_concat(head + first, inits, inits.len() as int);
    lemma_declared_len_concat(head + first + inits, flags, flags.len() as int);
}

/// In an image that fits, the table is as long as `image_table_len` says,
/// the kernel starts right after the table, and the kernel and each
/// program lie at the offset that their tag holds.
pub proof fn lemma_image_programs(
    ram_start: XousSize,
    ram_length: XousSize,
    ram_name: u32,
    regions: MemoryRegions,
    kernel: ProgramDescription,
    programs: Seq<ProgramDescription>,
    debug: bool,
    i: int,
)
    requires
        image_fits(regions, kernel, programs, debug),
        0 <= i <= programs.len(),
    ensures
        ({
            let start = image_table_len(regions.regions@.len(), programs.len(), debug);
            let all = programs_of(kernel, programs);
            let image = image_bytes(
                ram_start,
                ram_length,
                ram_name,
                regions,
                kernel,
                programs,
                debug,
            );
            let at = payload_start(start, all, i);
            &&& table_of(
                ram_start,
                ram_length,
                ram_name,
                image_tags(regions, kernel, programs, debug),
            ).len() == start
            &&& payload_start(start, all, 0) == start
            &&& image.len() == image_len(regions, kernel, programs, debug)
            &&& at + all[i].len() <= image.len() <= u32::MAX
            &&& image.subrange(at, at + all[i].len()) == all[i]
        }),
{
    let tags = image_tags(regions, kernel, programs, debug);
    let table = table_of(ram_start, ram_length, ram_name, tags);
    let all = programs_of(kernel, programs);
    lemma_image_tags(regions, kernel, programs, debug);
    lemma_table_of_len(ram_start, ram_length, ram_name, tags);
    lemma_with_programs_len(table, all, programs.len() as int + 1);
    lemma_program_placement(table, all, programs.len() as int + 1, i);
}

/// Finalizing plain tags changes nothing of what is written: the image is
/// the table of the tags as they were.
proof fn lemma_plain_table(before: XousArguments<Tag>, after: XousArguments<Tag>)
    requires
        after.finalized_from(&before),
        forall|i: int| 0 <= i < before.arguments@.len() ==> plain(#[trigger] before.arguments@[i]),
    ensures
        after.all_consistent(),
        after.written() == before.table(),
{
    let a = after.arguments@;
    let b = before.arguments@;
    let n = a.len() as int;
    assert forall|i: int| 0 <= i < n implies {
        &&& (#[trigger] a[i]).spec_code() == b[i].spec_code()
        &&& a[i].spec_length() == b[i].spec_length()
        &&& a[i].spec_body() == b[i].spec_body()
        &&& a[i].spec_last_data() == Seq::<u8>::empty()
        &&& consistent(a[i])
    } by {
        assert(plain(b[i]));
        assert(b[i].spec_body_at(before.payload_offset(i) as usize) == b[i].spec_body());
    }
    lemma_declared_len_same(a, b, n);
    lemma_same_tags(a, b, n);
    lemma_first_fault(a, n);
    lemma_no_payloads(a, n);
    assert(after.image() =~= after.table());
}

/// Tags without payloads add nothing after the table.
proof fn lemma_no_payloads(args: Seq<Tag>, n: int)
    requires
        0 <= n <= args.len(),
        forall|i: int| 0 <= i < n ==> (#[trigger] args[i]).spec_last_data() == Seq::<u8>::empty(),
    ensures
        payload_len(args, n) == 0,
        payloads(args, n) == Seq::<u8>::empty(),
    decreases n,
{
    if 0 < n {
        lemma_no_payloads(args, n - 1);
        assert(args[n - 1].spec_last_data() == Seq::<u8>::empty());
        assert(payloads(args, n) =~= Seq::<u8>::empty());
    }
}

/// The offset at which a program can start after `end` bytes, and the
/// offset at which it ends, if both fit 32 bits.
fn place_program(end: u64, len: usize) -> (place: Option<(u32, u64)>)
    requires
        end <= u32::MAX,
    ensures
        match place {
            Some((start, next)) => {
                &&& start == end + padding(end as int)
                &&& next == start + len
                &&& next <= u32::MAX
            },
            None => end + padding(end as int) + len > u32::MAX,
        },
{
    let start: u64 = end + (4 - end % 4) % 4;
    if start > u32::MAX as u64 || len as u64 > u32::MAX as u64 - start {
        return None;
    }
    Some((start as u32, start + len as u64))
}

/// The table of a boot image: the memory regions, if there are any, the
/// kernel, each program and, if `debug` is set, the flags. The tag of the
/// kernel and of each program holds the offset at which its bytes start in
/// the image, where `create_image` puts them.
pub fn image_arguments(
    ram_start: XousSize,
    ram_length: XousSize,
    ram_name: u32,
    regions: MemoryRegions,
    kernel: &ProgramDescription,
    programs: &Vec<ProgramDescription>,
    debug: bool,
) -> (result: Result<XousArguments<Tag>, ImageError>)
    ensures
        match result {
            Ok(args) => {
                &&& image_fits(regions, *kernel, programs@, debug)
                &&& args.ram_start == ram_start
                &&& args.ram_length == ram_length
                &&& args.ram_name == ram_name
                &&& args.arguments@ == image_tags(regions, *kernel, programs@, debug)
                &&& args.spec_len() == image_table_len(
                    regions.regions@.len(),
                    programs@.len(),
                    debug,
                )
                &&& forall|i: int|
                    0 <= i < args.arguments@.len() ==> plain(#[trigger] args.arguments@[i])
            },
            Err(e) => !image_fits(regions, *kernel, programs@, debug),
        },
{
    let region_count = regions.len();
    let program_count = programs.len();
    let ghost all = programs_of(*kernel, programs@);
    let ghost start = image_table_len(region_count as nat, program_count as nat, debug);
    proof {
        lemma_payload_offsets(start, all, 0, program_count + 1);
    }
    if region_count > MAX_BODY_LEN / 12 || program_count > 120_000_000 {
        return Err(ImageError::TooLarge);
    }
    let table_len: u64 = 28 + (if region_count > 0 {
        8 + 12 * region_count as u64
    } else {
        0
    }) + 32 + 36 * program_count as u64 + (if debug {
        12
    } else {
        0
    });
    if table_len > u32::MAX as u64 {
        return Err(ImageError::TooLarge);
    }
    let mut args: XousArguments<Tag> = XousArguments::new(ram_start, ram_length, ram_name);
    let ghost head = if region_count > 0 {
        seq![Tag::MemoryRegions(regions)]
    } else {
        Seq::<Tag>::empty()
    };
    proof {
        lemma_le_len();
        lemma_regions_bytes_len(regions.regions@, region_count as int);
    }
    if region_count > 0 {
        args.add(Tag::MemoryRegions(regions));
    }
    assert(args.arguments@ =~= head);

    let (kernel_start, mut offset) = match place_program(table_len, kernel.program.len()) {
        Some(place) => place,
        None => {
            proof {
                lemma_payload_offsets(start, all, 1, program_count + 1);
            }
            return Err(ImageError::TooLarge);
        },
    };
    args.add(
        Tag::XousKernel(
            XousKernel::new(
                kernel_start,
                kernel.program.len() as u32,
                kernel.text_offset,
                kernel.data_offset,
                kernel.data_size,
                kernel.entry_point,
            ),
        ),
    );
    let ghost head = head + seq![kernel_tag(*kernel, payload_start(start, all, 0))];
    assert(args.arguments@ =~= head);

    let mut i: usize = 0;
    while i < program_count
        invariant
            i <= program_count,
            program_count == programs@.len(),
            program_count <= 120_000_000,
            all == programs_of(*kernel, programs@),
            start == image_table_len(regions.regions@.len(), programs@.len(), debug),
            regions.regions@.len() * REGION_LEN <= MAX_BODY_LEN,
            args.ram_start == ram_start,
            args.ram_length == ram_length,
            args.ram_name == ram_name,
            args.arguments@ == head + Seq::new(
                i as nat,
                |j: int| init_tag(programs@[j], payload_start(start, all, j + 1)),
            ),
            args.spec_len() == 28 + (if region_count > 0 {
                8 + REGION_LEN * region_count
            } else {
                0
            }) + 32 + 36 * i,
            offset == payload_end(start, all, i + 1),
            offset <= u32::MAX,
            forall|j: int| 0 <= j < args.arguments@.len() ==> plain(#[trigger] args.arguments@[j]),
        decreases program_count - i,
    {
        let program = &programs[i];
        proof {
            lemma_le_len();
            lemma_payload_offsets(start, all, i + 1, i + 1);
            assert(all[i + 1] == programs@[i as int].program@);
        }
        let (program_start, next) = match place_program(offset, program.program.len()) {
            Some(place) => place,
            None => {
                proof {
                    lemma_payload_offsets(start, all, i + 2, program_count + 1);
                }
                return Err(ImageError::TooLarge);
            },
        };
        args.add(
            Tag::Init(
                Init::new(
                    program_start,
                    program.text_offset,
                    program.text_size,
                    program.data_offset,
                    program.data_size,
                    program.bss_size,
                    program.entry_point,
                ),
            ),
        );
        offset = next;
        i += 1;
        assert(args.arguments@ =~= head + Seq::new(
            i as nat,
            |j: int| init_tag(programs@[j], payload_start(start, all, j + 1)),
        ));
    }
    if debug {
        args.add(Tag::Bflg(Bflg::new().debug()));
    }
    assert(args.arguments@ =~= image_tags(regions, *kernel, programs@, debug));
    Ok(args)
}

/// Writes the image of a table and its programs: what `write` appends for
/// the table, then the bytes of the kernel and of each program, each at a
/// multiple of four bytes. If a tag stops the writing of the table, its
/// error is the result.
pub fn write_image(
    args: &mut XousArguments<Tag>,
    kernel: &ProgramDescription,
    programs: &Vec<ProgramDescription>,
) -> (result: Result<Vec<u8>, WriteError>)
    requires
        old(args).spec_len() <= u32::MAX,
        old(args).image_len() <= usize::MAX,
    ensures
        final(args).finalized_from(old(args)),
        match result {
            Ok(bytes) => {
                &&& final(args).all_consistent()
                &&& bytes@ == with_programs(
                    final(args).image(),
                    programs_of(*kernel, programs@),
                    programs@.len() as int + 1,
                )
            },
            Err(e) => {
                let k = first_fault(final(args).arguments@, final(args).arguments@.len() as int);
                &&& 0 <= k < final(args).arguments@.len()
                &&& e == fault(final(args).arguments@[k], k as usize)
            },
        },
{
    let program_count = programs.len();
    let ghost all = programs_of(*kernel, programs@);
    let mut bytes: Vec<u8> = Vec::new();
    match args.write(&mut bytes) {
        Ok(()) => {},
        Err(e) => {
            return Err(e);
        },
    }
    proof {
        lemma_first_fault(args.arguments@, args.arguments@.len() as int);
        assert(bytes@ =~= args.image());
    }
    pad_to_4_bytes(&mut bytes);
    put_bytes(&mut bytes, kernel.program.as_slice());
    assert(all[0] == kernel.program@);
    assert(with_programs(args.image(), all, 0) == args.image());
    assert(bytes@ =~= with_programs(args.image(), all, 1));
    let mut i: usize = 0;
    while i < program_count
        invariant
            i <= program_count,
            program_count == programs@.len(),
            all == programs_of(*kernel, programs@),
            bytes@ == with_programs(args.image(), all, i + 1),
        decreases program_count - i,
    {
        pad_to_4_bytes(&mut bytes);
        put_bytes(&mut bytes, programs[i].program.as_slice());
        assert(all[i + 1] == programs@[i as int].program@);
        i += 1;
        assert(bytes@ =~= with_programs(args.image(), all, i + 1));
    }
    Ok(bytes)
}

/// Puts a boot image together: the table of `image_arguments`, then the
/// bytes of the kernel and of each program, each at a multiple of four
/// bytes.
pub fn create_image(
    ram_start: XousSize,
    ram_length: XousSize,
    ram_name: u32,
    regions: MemoryRegions,
    kernel: &ProgramDescription,
    programs: &Vec<ProgramDescription>,
    debug: bool,
) -> (result: Result<Vec<u8>, ImageError>)
    ensures
        match result {
            Ok(bytes) => {
                &&& image_fits(regions, *kernel, programs@, debug)
                &&& bytes@ == image_bytes(
                    ram_start,
                    ram_length,
                    ram_name,
                    regions,
                    *kernel,
                    programs@,
                    debug,
                )
            },
            Err(e) => !image_fits(regions, *kernel, programs@, debug),
        },
{
    let mut args = match image_arguments(
        ram_start,
        ram_length,
        ram_name,
        regions,
        kernel,
        programs,
        debug,
    ) {
        Ok(args) => args,
        Err(e) => {
            return Err(e);
        },
    };
    let ghost all = programs_of(*kernel, programs@);
    let ghost before = args;
    proof {
        lemma_no_payloads(args.arguments@, args.arguments@.len() as int);
        lemma_payload_offsets(args.spec_len(), all, 0, programs@.len() as int + 1);
    }
    let written = write_image(&mut args, kernel, programs);
    proof {
        lemma_plain_table(before, args);
        lemma_first_fault(args.arguments@, args.arguments@.len() as int);
    }
    match written {
        Ok(bytes) => Ok(bytes),
        Err(_) => Err(ImageError::TooLarge),
    }
}

} // verus!
