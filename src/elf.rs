//! Parsing and validation of 64-bit little-endian ELF images, and the plan
//! of mappings and copies that loading one takes.
use vstd::prelude::*;
use crate::error::{KernelError, MemoryError};

verus! {

/// Size of the ELF file header.
pub const EHDR_SIZE: usize = 64;

/// Size of one program header entry.
pub const PHDR_SIZE: usize = 56;

/// Program header type of a loadable segment.
pub const PT_LOAD: u32 = 1;

/// Segment flag: executable.
pub const PF_X: u32 = 0x1;

/// Segment flag: writable.
pub const PF_W: u32 = 0x2;

/// The unsigned integer stored little-endian in the two bytes at `off`.
pub open spec fn le_u16(d: Seq<u8>, off: int) -> int {
    d[off] + d[off + 1] * 256
}

/// The unsigned integer stored little-endian in the four bytes at `off`.
pub open spec fn le_u32(d: Seq<u8>, off: int) -> int {
    le_u16(d, off) + le_u16(d, off + 2) * 65536
}

/// The unsigned integer stored little-endian in the eight bytes at `off`.
pub open spec fn le_u64(d: Seq<u8>, off: int) -> int {
    le_u32(d, off) + le_u32(d, off + 4) * 4294967296
}

fn read_u16(data: &[u8], off: usize) -> (r: u16)
    requires
        off + 2 <= data@.len(),
    ensures
        r == le_u16(data@, off as int),
{
    data[off] as u16 + (data[off + 1] as u16) * 256
}

fn read_u32(data: &[u8], off: usize) -> (r: u32)
    requires
        off + 4 <= data@.len(),
    ensures
        r == le_u32(data@, off as int),
{
    let _n = data.len();
    let lo = read_u16(data, off);
    let hi = read_u16(data, off + 2);
    lo as u32 + (hi as u32) * 65536
}

fn read_u64(data: &[u8], off: usize) -> (r: u64)
    requires
        off + 8 <= data@.len(),
    ensures
        r == le_u64(data@, off as int),
{
    let _n = data.len();
    let lo = read_u32(data, off);
    let hi = read_u32(data, off + 4);
    lo as u64 + (hi as u64) * 4294967296
}

/// The fields of the ELF file header.
#[derive(Debug, Clone, Copy, PartialEq, Eq, Structural)]
pub struct Elf64Header {
    pub mag0: u8,
    pub mag1: u8,
    pub mag2: u8,
    pub mag3: u8,
    pub class: u8,
    pub data_encoding: u8,
    pub e_type: u16,
    pub e_machine: u16,
    pub e_version: u32,
    pub e_entry: u64,
    pub e_phoff: u64,
    pub e_shoff: u64,
    pub e_flags: u32,
    pub e_ehsize: u16,
    pub e_phentsize: u16,
    pub e_phnum: u16,
    pub e_shentsize: u16,
    pub e_shnum: u16,
    pub e_shstrndx: u16,
}

/// The header stored at the start of `d`.
pub open spec fn spec_header(d: Seq<u8>) -> Elf64Header {
    Elf64Header {
        mag0: d[0],
        mag1: d[1],
        mag2: d[2],
        mag3: d[3],
        class: d[4],
        data_encoding: d[5],
        e_type: le_u16(d, 16) as u16,
        e_machine: le_u16(d, 18) as u16,
        e_version: le_u32(d, 20) as u32,
        e_entry: le_u64(d, 24) as u64,
        e_phoff: le_u64(d, 32) as u64,
        e_shoff: le_u64(d, 40) as u64,
        e_flags: le_u32(d, 48) as u32,
        e_ehsize: le_u16(d, 52) as u16,
        e_phentsize: le_u16(d, 54) as u16,
        e_phnum: le_u16(d, 56) as u16,
        e_shentsize: le_u16(d, 58) as u16,
        e_shnum: le_u16(d, 60) as u16,
        e_shstrndx: le_u16(d, 62) as u16,
    }
}

/// The magic `0x7F 'E' 'L' 'F'`, the 64-bit class, little-endian data, and
/// program header entries of the expected size.
pub open spec fn header_valid(h: Elf64Header) -> bool {
    &&& h.mag0 == 0x7F && h.mag1 == 0x45 && h.mag2 == 0x4C && h.mag3 == 0x46
    &&& h.class == 2
    &&& h.data_encoding == 1
    &&& h.e_phentsize == PHDR_SIZE
}

/// Reads the file header. Fails with InvalidParam when `data` is shorter
/// than a header.
pub fn parse_header(data: &[u8]) -> (r: Result<Elf64Header, KernelError>)
    ensures
        data@.len() < EHDR_SIZE ==> r == Err::<Elf64Header, KernelError>(KernelError::InvalidParam),
        data@.len() >= EHDR_SIZE ==> r == Ok::<Elf64Header, KernelError>(spec_header(data@)),
{
    if data.len() < EHDR_SIZE {
        return Err(KernelError::InvalidParam);
    }
    Ok(Elf64Header {
        mag0: data[0],
        mag1: data[1],
        mag2: data[2],
        mag3: data[3],
        class: data[4],
        data_encoding: data[5],
        e_type: read_u16(data, 16),
        e_machine: read_u16(data, 18),
        e_version: read_u32(data, 20),
        e_entry: read_u64(data, 24),
        e_phoff: read_u64(data, 32),
        e_shoff: read_u64(data, 40),
        e_flags: read_u32(data, 48),
        e_ehsize: read_u16(data, 52),
        e_phentsize: read_u16(data, 54),
        e_phnum: read_u16(data, 56),
        e_shentsize: read_u16(data, 58),
        e_shnum: read_u16(data, 60),
        e_shstrndx: read_u16(data, 62),
    })
}

/// Accepts exactly the headers of `header_valid`; rejects the others with
/// InvalidParam.
pub fn validate_header(header: &Elf64Header) -> (r: Result<(), KernelError>)
    ensures
        header_valid(*header) ==> r is Ok,
        !header_valid(*header) ==> r == Err::<(), KernelError>(KernelError::InvalidParam),
{
    if header.mag0 != 0x7F || header.mag1 != 0x45 || header.mag2 != 0x4C || header.mag3 != 0x46 {
        return Err(KernelError::InvalidParam);
    }
    if header.class != 2 || header.data_encoding != 1 {
        return Err(KernelError::InvalidParam);
    }
    if header.e_phentsize as usize != PHDR_SIZE {
        return Err(KernelError::InvalidParam);
    }
    Ok(())
}

/// The fields of one program header entry.
#[derive(Debug, Clone, Copy, PartialEq, Eq, Structural)]
pub struct Elf64Phdr {
    pub p_type: u32,
    pub p_flags: u32,
    pub p_offset: u64,
    pub p_vaddr: u64,
    pub p_paddr: u64,
    pub p_filesz: u64,
    pub p_memsz: u64,
    pub p_align: u64,
}

/// The program header entry stored at `off` in `d`.
pub open spec fn spec_phdr(d: Seq<u8>, off: int) -> Elf64Phdr {
    Elf64Phdr {
        p_type: le_u32(d, off) as u32,
        p_flags: le_u32(d, off + 4) as u32,
        p_offset: le_u64(d, off + 8) as u64,
        p_vaddr: le_u64(d, off + 16) as u64,
        p_paddr: le_u64(d, off + 24) as u64,
        p_filesz: le_u64(d, off + 32) as u64,
        p_memsz: le_u64(d, off + 40) as u64,
        p_align: le_u64(d, off + 48) as u64,
    }
}

/// Reads the program header entry at `offset`. Fails with InvalidParam when
/// the entry does not lie wholly inside `data`.
pub fn read_phdr(data: &[u8], offset: usize) -> (r: Result<Elf64Phdr, KernelError>)
    ensures
        offset + PHDR_SIZE > data@.len() ==> r == Err::<Elf64Phdr, KernelError>(KernelError::InvalidParam),
        offset + PHDR_SIZE <= data@.len() ==> r == Ok::<Elf64Phdr, KernelError>(spec_phdr(data@, offset as int)),
{
    if offset > data.len() || data.len() - offset < PHDR_SIZE {
        return Err(KernelError::InvalidParam);
    }
    Ok(Elf64Phdr {
        p_type: read_u32(data, offset),
        p_flags: read_u32(data, offset + 4),
        p_offset: read_u64(data, offset + 8),
        p_vaddr: read_u64(data, offset + 16),
        p_paddr: read_u64(data, offset + 24),
        p_filesz: read_u64(data, offset + 32),
        p_memsz: read_u64(data, offset + 40),
        p_align: read_u64(data, offset + 48),
    })
}

/// Permissions of a mapping that the paging collaborator is asked for.
#[derive(Debug, Clone, Copy, PartialEq, Eq, Structural)]
pub struct MapFlags {
    pub present: bool,
    pub user_accessible: bool,
    pub writable: bool,
    pub no_execute: bool,
}

/// Translation of segment flags: always present and user-accessible;
/// writable only with the write flag; no-execute unless the execute flag.
pub open spec fn spec_map_flags(p_flags: u32) -> MapFlags {
    MapFlags {
        present: true,
        user_accessible: true,
        writable: p_flags & PF_W != 0,
        no_execute: p_flags & PF_X == 0,
    }
}

/// Translates ELF segment flags into mapping permissions.
pub fn map_flags(p_flags: u32) -> (r: MapFlags)
    ensures
        r == spec_map_flags(p_flags),
{
    MapFlags {
        present: true,
        user_accessible: true,
        writable: p_flags & PF_W != 0,
        no_execute: p_flags & PF_X == 0,
    }
}

/// One mapping request: map `memsz` bytes at `vaddr` with `flags`, copy
/// `filesz` bytes from `offset` in the image, and zero the rest.
#[derive(Debug, Clone, Copy, PartialEq, Eq, Structural)]
pub struct SegmentLoad {
    pub vaddr: u64,
    pub offset: u64,
    pub filesz: u64,
    pub memsz: u64,
    pub flags: MapFlags,
}

/// What the program header at `off` contributes: `None` when it is skipped
/// (not LOAD, or empty in memory), else the request or the error.
pub open spec fn spec_segment(d: Seq<u8>, off: int) -> Option<Result<SegmentLoad, KernelError>> {
    if off + PHDR_SIZE > d.len() {
        Some(Err(KernelError::InvalidParam))
    } else {
        let ph = spec_phdr(d, off);
        if ph.p_type != PT_LOAD || ph.p_memsz == 0 {
            None
        } else if ph.p_offset + ph.p_filesz > d.len() {
            Some(Err(KernelError::Memory(MemoryError::InvalidAddress)))
        } else if ph.p_filesz > ph.p_memsz {
            Some(Err(KernelError::InvalidParam))
        } else {
            Some(Ok(SegmentLoad {
                vaddr: ph.p_vaddr,
                offset: ph.p_offset,
                filesz: ph.p_filesz,
                memsz: ph.p_memsz,
                flags: spec_map_flags(ph.p_flags),
            }))
        }
    }
}

/// The requests of the first `n` program headers, or the first error.
pub open spec fn spec_segments_upto(d: Seq<u8>, n: nat) -> Result<Seq<SegmentLoad>, KernelError>
    decreases n,
{
    if n == 0 {
        Ok(Seq::empty())
    } else {
        match spec_segments_upto(d, (n - 1) as nat) {
            Err(e) => Err(e),
            Ok(s) => match spec_segment(d, spec_header(d).e_phoff + (n - 1) * PHDR_SIZE) {
                None => Ok(s),
                Some(Err(e)) => Err(e),
                Some(Ok(g)) => Ok(s.push(g)),
            },
        }
    }
}

/// Once a prefix of the program headers fails, every longer prefix fails
/// with the same error.
proof fn lemma_segments_error_persists(d: Seq<u8>, k: nat, m: nat)
    requires
        k <= m,
        spec_segments_upto(d, k) is Err,
    ensures
        spec_segments_upto(d, m) == spec_segments_upto(d, k),
    decreases m - k,
{
    if k < m {
        lemma_segments_error_persists(d, k, (m - 1) as nat);
    }
}

/// Loading `d`: the entry address and the mapping requests, in program
/// header order, or the error that stops it.
pub open spec fn spec_plan(d: Seq<u8>) -> Result<(u64, Seq<SegmentLoad>), KernelError> {
    if d.len() < EHDR_SIZE || !header_valid(spec_header(d)) {
        Err(KernelError::InvalidParam)
    } else {
        match spec_segments_upto(d, spec_header(d).e_phnum as nat) {
            Err(e) => Err(e),
            Ok(s) => Ok((spec_header(d).e_entry, s)),
        }
    }
}

/// The entry address of an image and the mappings that loading it takes.
pub struct LoadPlan {
    pub entry: u64,
    pub segments: Vec<SegmentLoad>,
}

/// Validates `data` and lists, in program header order, one mapping request
/// per LOAD segment with a non-zero size in memory. Fails with InvalidParam
/// on a short or malformed header or a program header outside the image.
/// For each LOAD segment, the end of its file bytes is checked first: past
/// the image it fails with InvalidAddress; then a segment with more file
/// bytes than memory bytes fails with InvalidParam. Every planned segment
/// fits `fill_segment`.
pub fn plan_load(data: &[u8]) -> (r: Result<LoadPlan, KernelError>)
    ensures
        match r {
            Ok(p) => spec_plan(data@) == Ok::<(u64, Seq<SegmentLoad>), KernelError>((p.entry, p.segments@)),
            Err(e) => spec_plan(data@) == Err::<(u64, Seq<SegmentLoad>), KernelError>(e),
        },
        r matches Ok(p) ==> forall|k: int| 0 <= k < p.segments@.len()
            ==> (#[trigger] p.segments@[k]).filesz <= p.segments@[k].memsz
            && p.segments@[k].offset + p.segments@[k].filesz <= data@.len(),
{
    let header = parse_header(data)?;
    validate_header(&header)?;
    let phoff = header.e_phoff;
    let phnum = header.e_phnum;
    let len = data.len() as u64;
    let mut segments: Vec<SegmentLoad> = Vec::new();
    let mut i: u16 = 0;
    while i < phnum
        invariant
            header == spec_header(data@),
            header_valid(header),
            data@.len() >= EHDR_SIZE,
            phoff == header.e_phoff,
            phnum == header.e_phnum,
            len == data@.len(),
            data@.len() <= usize::MAX,
            i <= phnum,
            spec_segments_upto(data@, i as nat) == Ok::<Seq<SegmentLoad>, KernelError>(segments@),
            forall|k: int| 0 <= k < segments@.len()
                ==> (#[trigger] segments@[k]).filesz <= segments@[k].memsz
                && segments@[k].offset + segments@[k].filesz <= data@.len(),
        decreases phnum - i,
    {
        let ghost off = phoff + i * PHDR_SIZE;
        let ghost next = (i + 1) as nat;
        assert(spec_segments_upto(data@, next) == match spec_segment(data@, off) {
            None => Ok(segments@),
            Some(Err(e)) => Err(e),
            Some(Ok(g)) => Ok::<Seq<SegmentLoad>, KernelError>(segments@.push(g)),
        });
        if phoff > len || (i as u64) * (PHDR_SIZE as u64) + (PHDR_SIZE as u64) > len - phoff {
            proof {
                lemma_segments_error_persists(data@, next, phnum as nat);
            }
            return Err(KernelError::InvalidParam);
        }
        let offset = (phoff + (i as u64) * (PHDR_SIZE as u64)) as usize;
        assert(offset == off);
        let ph = match read_phdr(data, offset) {
            Ok(ph) => ph,
            Err(e) => {
                proof {
                    lemma_segments_error_persists(data@, next, phnum as nat);
                }
                return Err(e);
            },
        };
        if ph.p_type == PT_LOAD && ph.p_memsz != 0 {
            if ph.p_offset > len || ph.p_filesz > len - ph.p_offset {
                proof {
                    lemma_segments_error_persists(data@, next, phnum as nat);
                }
                return Err(KernelError::Memory(MemoryError::InvalidAddress));
            }
            if ph.p_filesz > ph.p_memsz {
                proof {
                    lemma_segments_error_persists(data@, next, phnum as nat);
                }
                return Err(KernelError::InvalidParam);
            }
            segments.push(SegmentLoad {
                vaddr: ph.p_vaddr,
                offset: ph.p_offset,
                filesz: ph.p_filesz,
                memsz: ph.p_memsz,
                flags: map_flags(ph.p_flags),
            });
        }
        i = i + 1;
    }
    Ok(LoadPlan { entry: header.e_entry, segments })
}

/// Size of a page.
pub const PAGE_SIZE: u64 = 4096;

/// Pages of a user stack.
pub const USER_STACK_PAGES: u64 = 8;

/// Top of the user stack, near the end of the user address range.
pub const USER_STACK_TOP: u64 = 0x0000_7FFF_FFF0_0000;

/// Where a loaded image starts: its entry address and its user stack.
#[derive(Debug, Clone, Copy, PartialEq, Eq, Structural)]
pub struct LoadedElf {
    pub entry: u64,
    pub stack_top: u64,
    pub stack_bottom: u64,
}

/// The mapping request for the user stack: `USER_STACK_PAGES` writable,
/// non-executable pages that end at `USER_STACK_TOP`, all zero.
pub fn user_stack_segment() -> (r: SegmentLoad)
    ensures
        r.vaddr == USER_STACK_TOP - USER_STACK_PAGES * PAGE_SIZE,
        r.memsz == USER_STACK_PAGES * PAGE_SIZE,
        r.filesz == 0,
        r.offset == 0,
        r.flags == (MapFlags { present: true, user_accessible: true, writable: true, no_execute: true }),
{
    SegmentLoad {
        vaddr: USER_STACK_TOP - USER_STACK_PAGES * PAGE_SIZE,
        offset: 0,
        filesz: 0,
        memsz: USER_STACK_PAGES * PAGE_SIZE,
        flags: MapFlags { present: true, user_accessible: true, writable: true, no_execute: true },
    }
}

impl LoadPlan {
    /// The start of the loaded image: its entry address, with the user
    /// stack of `user_stack_segment`.
    pub fn loaded(&self) -> (r: LoadedElf)
        ensures
            r.entry == self.entry,
            r.stack_top == USER_STACK_TOP,
            r.stack_bottom == USER_STACK_TOP - USER_STACK_PAGES * PAGE_SIZE,
    {
        LoadedElf {
            entry: self.entry,
            stack_top: USER_STACK_TOP,
            stack_bottom: USER_STACK_TOP - USER_STACK_PAGES * PAGE_SIZE,
        }
    }
}

/// The bytes that a segment's memory holds after loading: its `filesz`
/// bytes of the image followed by `memsz - filesz` zeros (the BSS).
pub open spec fn spec_segment_image(d: Seq<u8>, seg: SegmentLoad) -> Seq<u8> {
    Seq::new(
        seg.memsz as nat,
        |k: int| if k < seg.filesz { d[seg.offset + k] } else { 0u8 },
    )
}

/// Writes into `dst`, the mapped memory of `seg`, the segment's bytes: the
/// first `filesz` from the image, the rest zero.
pub fn fill_segment(data: &[u8], seg: &SegmentLoad, dst: &mut [u8])
    requires
        old(dst)@.len() == seg.memsz,
        seg.filesz <= seg.memsz,
        seg.offset + seg.filesz <= data@.len(),
    ensures
        final(dst)@ == spec_segment_image(data@, *seg),
{
    let n = dst.len();
    let _len = data.len();
    let mut k: usize = 0;
    while k < n
        invariant
            n == dst@.len(),
            n == seg.memsz,
            seg.filesz <= seg.memsz,
            seg.offset + seg.filesz <= data@.len(),
            data@.len() <= usize::MAX,
            k <= n,
            forall|j: int| 0 <= j < k ==> dst@[j] == spec_segment_image(data@, *seg)[j],
        decreases n - k,
    {
        if (k as u64) < seg.filesz {
            dst[k] = data[(seg.offset + k as u64) as usize];
        } else {
            dst[k] = 0;
        }
        k = k + 1;
    }
    assert(dst@ =~= spec_segment_image(data@, *seg));
}

/// An image whose magic is corrupted is rejected with InvalidParam before
/// any mapping request is produced.
pub proof fn lemma_corrupt_magic_rejected(d: Seq<u8>)
    requires
        d.len() >= 4,
        d[0] != 0x7F || d[1] != 0x45 || d[2] != 0x4C || d[3] != 0x46,
    ensures
        spec_plan(d) == Err::<(u64, Seq<SegmentLoad>), KernelError>(KernelError::InvalidParam),
{
}

/// Loading a well-formed image with a single LOAD segment asks for exactly
/// one mapping, at the segment's address and size with its translated
/// permissions, and fills it with the segment's file bytes followed by
/// `memsz - filesz` zeros.
pub proof fn lemma_single_segment_round_trip(d: Seq<u8>)
    requires
        d.len() >= EHDR_SIZE,
        header_valid(spec_header(d)),
        spec_header(d).e_phnum == 1,
        spec_header(d).e_phoff + PHDR_SIZE <= d.len(),
        spec_phdr(d, spec_header(d).e_phoff as int).p_type == PT_LOAD,
        spec_phdr(d, spec_header(d).e_phoff as int).p_memsz != 0,
        spec_phdr(d, spec_header(d).e_phoff as int).p_filesz <= spec_phdr(d, spec_header(d).e_phoff as int).p_memsz,
        spec_phdr(d, spec_header(d).e_phoff as int).p_offset + spec_phdr(d, spec_header(d).e_phoff as int).p_filesz
            <= d.len(),
    ensures
        ({
            let ph = spec_phdr(d, spec_header(d).e_phoff as int);
            let seg = SegmentLoad {
                vaddr: ph.p_vaddr,
                offset: ph.p_offset,
                filesz: ph.p_filesz,
                memsz: ph.p_memsz,
                flags: spec_map_flags(ph.p_flags),
            };
            &&& spec_plan(d) == Ok::<(u64, Seq<SegmentLoad>), KernelError>((spec_header(d).e_entry, seq![seg]))
            &&& spec_segment_image(d, seg) == d.subrange(ph.p_offset as int, ph.p_offset + ph.p_filesz)
                + Seq::new((ph.p_memsz - ph.p_filesz) as nat, |k: int| 0u8)
        }),
{
    let ph = spec_phdr(d, spec_header(d).e_phoff as int);
    let seg = SegmentLoad {
        vaddr: ph.p_vaddr,
        offset: ph.p_offset,
        filesz: ph.p_filesz,
        memsz: ph.p_memsz,
        flags: spec_map_flags(ph.p_flags),
    };
    assert(spec_segments_upto(d, 0) == Ok::<Seq<SegmentLoad>, KernelError>(Seq::empty()));
    assert(Seq::<SegmentLoad>::empty().push(seg) =~= seq![seg]);
    assert(spec_segments_upto(d, 1) == Ok::<Seq<SegmentLoad>, KernelError>(seq![seg]));
    assert(spec_segment_image(d, seg) =~= d.subrange(ph.p_offset as int, ph.p_offset + ph.p_filesz)
        + Seq::new((ph.p_memsz - ph.p_filesz) as nat, |k: int| 0u8));
}

} // verus!
