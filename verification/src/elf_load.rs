//! ELF32 decoding: selects the sections that occupy memory at load time and
//! carry file contents, translates each section's virtual address to the
//! physical load address through the enclosing program header, and assembles
//! the sections into one contiguous byte buffer.
//!
//! Container parsing is the `elf_rs` crate's job, behind a trusted wrapper
//! that hands over a plain-value model of the file; section selection,
//! address translation and assembly are verified here.
use vstd::prelude::*;

use crate::ihex_load::write_at;

verus! {

/// One program header, reduced to what address translation reads: the
/// virtual-to-physical mapping of its memory range, and whether it is of the
/// DYNAMIC or INTERP kind that rules the whole file out.
#[derive(Clone, Copy, Debug, PartialEq, Eq, Structural)]
pub struct ElfSegment {
    pub vaddr: u32,
    pub paddr: u32,
    pub memsz: u32,
    pub is_dynamic: bool,
    pub is_interp: bool,
}

/// One section header with its raw contents: the declared virtual address,
/// whether the section is of the PROGBITS kind, whether its flags include
/// ALLOC, and the section's bytes (empty when the file does not really
/// contain them).
#[derive(Debug)]
pub struct ElfSection {
    pub addr: u32,
    pub progbits: bool,
    pub alloc: bool,
    pub data: Vec<u8>,
}

/// The mathematical shape of a section.
pub struct ElfSectionV {
    pub addr: u32,
    pub progbits: bool,
    pub alloc: bool,
    pub data: Seq<u8>,
}

impl View for ElfSection {
    type V = ElfSectionV;

    open spec fn view(&self) -> ElfSectionV {
        ElfSectionV { addr: self.addr, progbits: self.progbits, alloc: self.alloc, data: self.data@ }
    }
}

/// A parsed ELF32 executable, reduced to the plain values the decoder reads:
/// the three header facts the loader checks, the program headers, and the
/// section headers in file order.
#[derive(Debug)]
pub struct Elf32File {
    pub machine_arm: bool,
    pub abi_systemv: bool,
    pub type_exec: bool,
    pub segments: Vec<ElfSegment>,
    pub sections: Vec<ElfSection>,
}

/// The mathematical shape of a parsed ELF32 file.
pub struct Elf32FileV {
    pub machine_arm: bool,
    pub abi_systemv: bool,
    pub type_exec: bool,
    pub segments: Seq<ElfSegment>,
    pub sections: Seq<ElfSectionV>,
}

impl View for Elf32File {
    type V = Elf32FileV;

    open spec fn view(&self) -> Elf32FileV {
        Elf32FileV {
            machine_arm: self.machine_arm,
            abi_systemv: self.abi_systemv,
            type_exec: self.type_exec,
            segments: self.segments@,
            sections: self.sections@.map_values(|s: ElfSection| s@),
        }
    }
}

/// Bounds that hold of every model the ELF32 container format can produce: a
/// section's contents fit a 32-bit length, and the section count fits the
/// header's 16-bit field.
pub open spec fn elf_wf(e: Elf32FileV) -> bool {
    &&& forall|i: int| 0 <= i < e.sections.len() ==> (#[trigger] e.sections[i].data).len()
        <= 0xFFFFFFFF
    &&& e.sections.len() <= 0xFFFF
}

/// Decoding failure.
#[derive(Debug, PartialEq, Eq, Structural)]
pub enum ElfError {
    /// No section is of the PROGBITS kind with the ALLOC flag: there is
    /// nothing to load and no address range to compute.
    NoLoadableSections,
    /// The sections' highest load end address passes the flash capacity; the
    /// payload is that end address.
    AddressTooHigh(u64),
}

/// Whether a section takes part in the image: PROGBITS contents that occupy
/// memory at load time.
pub open spec fn loadable(s: ElfSectionV) -> bool {
    s.progbits && s.alloc
}

/// Whether a program header's memory range contains the whole of a section.
pub open spec fn seg_contains(seg: ElfSegment, addr: u32, size: nat) -> bool {
    seg.vaddr <= addr && addr + size <= seg.vaddr + seg.memsz
}

/// The first program header whose range contains the section, if any.
pub open spec fn find_segment(segs: Seq<ElfSegment>, addr: u32, size: nat) -> Option<ElfSegment>
    decreases segs.len(),
{
    if segs.len() == 0 {
        None
    } else if seg_contains(segs[0], addr, size) {
        Some(segs[0])
    } else {
        find_segment(segs.drop_first(), addr, size)
    }
}

/// A section's load address: its virtual address translated through the
/// first program header that contains it, or unchanged if none does.
pub open spec fn load_addr(addr: u32, size: nat, segs: Seq<ElfSegment>) -> int {
    match find_segment(segs, addr, size) {
        Some(seg) => addr - seg.vaddr + seg.paddr,
        None => addr as int,
    }
}

/// The load address of a section.
pub open spec fn load_of(s: ElfSectionV, segs: Seq<ElfSegment>) -> int {
    load_addr(s.addr, s.data.len(), segs)
}

/// The least load address over the loadable sections, if any.
pub open spec fn min_load(sections: Seq<ElfSectionV>, segs: Seq<ElfSegment>) -> Option<int>
    decreases sections.len(),
{
    if sections.len() == 0 {
        None
    } else {
        let rest = min_load(sections.drop_last(), segs);
        let s = sections.last();
        if !loadable(s) {
            rest
        } else {
            match rest {
                None => Some(load_of(s, segs)),
                Some(m) => Some(if load_of(s, segs) < m {
                    load_of(s, segs)
                } else {
                    m
                }),
            }
        }
    }
}

/// The greatest load end address over the loadable sections, if any.
pub open spec fn max_end(sections: Seq<ElfSectionV>, segs: Seq<ElfSegment>) -> Option<int>
    decreases sections.len(),
{
    if sections.len() == 0 {
        None
    } else {
        let rest = max_end(sections.drop_last(), segs);
        let s = sections.last();
        if !loadable(s) {
            rest
        } else {
            let e = load_of(s, segs) + s.data.len();
            match rest {
                None => Some(e),
                Some(m) => Some(if e > m {
                    e
                } else {
                    m
                }),
            }
        }
    }
}

/// Total contents length over the loadable sections.
pub open spec fn written_total(sections: Seq<ElfSectionV>) -> nat
    decreases sections.len(),
{
    if sections.len() == 0 {
        0
    } else {
        written_total(sections.drop_last()) + if loadable(sections.last()) {
            sections.last().data.len()
        } else {
            0
        }
    }
}

/// An all-zero buffer of `n` bytes.
pub open spec fn zero_image(n: nat) -> Seq<u8> {
    Seq::new(n, |i: int| 0u8)
}

/// The buffer after every loadable section's bytes are copied in at its load
/// address less `base`, in file order, later sections over earlier ones.
pub open spec fn place_all(
    sections: Seq<ElfSectionV>,
    segs: Seq<ElfSegment>,
    base: int,
    buf: Seq<u8>,
) -> Seq<u8>
    decreases sections.len(),
{
    if sections.len() == 0 {
        buf
    } else {
        let prev = place_all(sections.drop_last(), segs, base, buf);
        let s = sections.last();
        if loadable(s) {
            write_at(prev, load_of(s, segs) - base, s.data)
        } else {
            prev
        }
    }
}

/// What ELF32 decoding returns: the assembled buffer spanning exactly the
/// loadable sections' address range, and their total contents length; or the
/// reason there is no image.
pub open spec fn spec_elf32_to_bytes(e: Elf32FileV, code_size: nat) -> Result<
    (Seq<u8>, nat),
    ElfError,
> {
    match (min_load(e.sections, e.segments), max_end(e.sections, e.segments)) {
        (Some(base), Some(end)) => if end > code_size {
            Err(ElfError::AddressTooHigh(end as u64))
        } else {
            Ok(
                (
                    place_all(e.sections, e.segments, base, zero_image((end - base) as nat)),
                    written_total(e.sections),
                ),
            )
        },
        _ => Err(ElfError::NoLoadableSections),
    }
}

/// Whether the file may be flashed at all: the expected CPU family, the
/// none/SystemV ABI, an executable (not relocatable or shared), and no
/// DYNAMIC or INTERP program header.
pub open spec fn spec_elf32_acceptable(e: Elf32FileV) -> bool {
    &&& e.machine_arm
    &&& e.abi_systemv
    &&& e.type_exec
    &&& forall|i: int|
        0 <= i < e.segments.len() ==> !(#[trigger] e.segments[i]).is_dynamic
            && !e.segments[i].is_interp
}

/// Checks the loader's preconditions on a parsed file.
pub fn elf32_acceptable(elf: &Elf32File) -> (r: bool)
    ensures
        r == spec_elf32_acceptable(elf@),
{
    if !(elf.machine_arm && elf.abi_systemv && elf.type_exec) {
        return false;
    }
    let mut i: usize = 0;
    while i < elf.segments.len()
        invariant
            i <= elf.segments@.len(),
            forall|j: int|
                0 <= j < i ==> !(#[trigger] elf.segments@[j]).is_dynamic
                    && !elf.segments@[j].is_interp,
        decreases elf.segments@.len() - i,
    {
        let seg = elf.segments[i];
        if seg.is_dynamic || seg.is_interp {
            proof {
                assert(elf@.segments[i as int].is_dynamic || elf@.segments[i as int].is_interp);
            }
            return false;
        }
        i = i + 1;
    }
    true
}

/// Translates a section's virtual address and size to its load address:
/// scans the program headers in order for the first whose range contains the
/// whole section.
fn resolve_load_addr(addr: u32, size: u64, segs: &Vec<ElfSegment>) -> (r: u64)
    requires
        size <= 0xFFFFFFFF,
    ensures
        r as int == load_addr(addr, size as nat, segs@),
{
    proof {
        assert(segs@.skip(0) =~= segs@);
    }
    let mut i: usize = 0;
    while i < segs.len()
        invariant
            i <= segs@.len(),
            size <= 0xFFFFFFFF,
            find_segment(segs@.skip(i as int), addr, size as nat) == find_segment(
                segs@,
                addr,
                size as nat,
            ),
        decreases segs@.len() - i,
    {
        proof {
            assert(segs@.skip(i as int)[0] == segs@[i as int]);
            assert(segs@.skip(i as int).drop_first() =~= segs@.skip(i as int + 1));
        }
        let seg = segs[i];
        if (seg.vaddr as u64) <= (addr as u64) && (addr as u64) + size <= (seg.vaddr as u64)
            + (seg.memsz as u64) {
            return (addr as u64) - (seg.vaddr as u64) + (seg.paddr as u64);
        }
        i = i + 1;
    }
    proof {
        assert(segs@.skip(segs@.len() as int) =~= Seq::<ElfSegment>::empty());
    }
    addr as u64
}

/// Every loadable section has a least load address and a greatest end.
proof fn lemma_bounds_exist(sections: Seq<ElfSectionV>, segs: Seq<ElfSegment>, i: int)
    requires
        0 <= i < sections.len(),
        loadable(sections[i]),
    ensures
        min_load(sections, segs) is Some,
        max_end(sections, segs) is Some,
    decreases sections.len(),
{
    if i < sections.len() - 1 {
        assert(sections.drop_last()[i] == sections[i]);
        lemma_bounds_exist(sections.drop_last(), segs, i);
    }
}

/// The least load address and greatest end really bound every loadable
/// section's range.
proof fn lemma_load_bounds(sections: Seq<ElfSectionV>, segs: Seq<ElfSegment>, i: int)
    requires
        0 <= i < sections.len(),
        loadable(sections[i]),
        min_load(sections, segs) is Some,
        max_end(sections, segs) is Some,
    ensures
        min_load(sections, segs).unwrap() <= load_of(sections[i], segs),
        load_of(sections[i], segs) + sections[i].data.len() <= max_end(sections, segs).unwrap(),
    decreases sections.len(),
{
    if i < sections.len() - 1 {
        assert(sections.drop_last()[i] == sections[i]);
        lemma_bounds_exist(sections.drop_last(), segs, i);
        lemma_load_bounds(sections.drop_last(), segs, i);
    }
}

/// A prefix never holds more loadable contents than the whole.
proof fn lemma_written_prefix_le(sections: Seq<ElfSectionV>, i: int)
    requires
        0 <= i <= sections.len(),
    ensures
        written_total(sections.take(i)) <= written_total(sections),
    decreases sections.len() - i,
{
    if i == sections.len() {
        assert(sections.take(i) =~= sections);
    } else {
        assert(sections.take(i + 1).drop_last() =~= sections.take(i));
        lemma_written_prefix_le(sections, i + 1);
    }
}

/// Assembles a parsed ELF32 file into a flat image against a target's flash
/// capacity.
///
/// Collects every PROGBITS section with the ALLOC flag, resolves each one's
/// load address through the program headers, and copies its bytes into a
/// zero-filled buffer spanning exactly the range from the least load address
/// to the greatest load end, which must not pass `code_size`. Fails when no
/// section qualifies.
pub fn elf32_to_bytes(elf: &Elf32File, mcu: &crate::registry::Mcu) -> (r: Result<
    (Vec<u8>, usize),
    ElfError,
>)
    requires
        elf_wf(elf@),
        written_total(elf@.sections) <= usize::MAX,
    ensures
        match r {
            Ok(p) => spec_elf32_to_bytes(elf@, mcu.code_size as nat) == Ok::<_, ElfError>(
                (p.0@, p.1 as nat),
            ),
            Err(e) => spec_elf32_to_bytes(elf@, mcu.code_size as nat) == Err::<
                (Seq<u8>, nat),
                _,
            >(e),
        },
{
    let ghost ev = elf@;
    let code_size = mcu.code_size;
    let n = elf.sections.len();

    // First pass: the least load address and the greatest load end over the
    // loadable sections.
    let mut any = false;
    let mut base: u64 = 0;
    let mut end: u64 = 0;
    proof {
        assert(ev.sections.take(0) =~= Seq::<ElfSectionV>::empty());
    }
    let mut i: usize = 0;
    while i < n
        invariant
            i <= n,
            n == elf.sections@.len(),
            ev == elf@,
            elf_wf(ev),
            any == (min_load(ev.sections.take(i as int), ev.segments) is Some),
            any == (max_end(ev.sections.take(i as int), ev.segments) is Some),
            any ==> base as int == min_load(ev.sections.take(i as int), ev.segments).unwrap(),
            any ==> end as int == max_end(ev.sections.take(i as int), ev.segments).unwrap(),
            base <= 0x2_0000_0000,
            end <= 0x3_0000_0000,
            any ==> base <= end,
        decreases n - i,
    {
        proof {
            assert(ev.sections.take(i as int + 1).drop_last() =~= ev.sections.take(i as int));
            assert(ev.sections.take(i as int + 1).last() == ev.sections[i as int]);
            assert(ev.sections[i as int] == elf.sections@[i as int]@);
        }
        let sec = &elf.sections[i];
        if sec.progbits && sec.alloc {
            let l = resolve_load_addr(sec.addr, sec.data.len() as u64, &elf.segments);
            let e = l + sec.data.len() as u64;
            if !any {
                any = true;
                base = l;
                end = e;
            } else {
                if l < base {
                    base = l;
                }
                if e > end {
                    end = e;
                }
            }
        }
        i = i + 1;
    }
    proof {
        assert(ev.sections.take(n as int) =~= ev.sections);
    }

    if !any {
        return Err(ElfError::NoLoadableSections);
    }
    if end > code_size as u64 {
        return Err(ElfError::AddressTooHigh(end));
    }

    // Second pass: copy each loadable section in at its offset from the
    // base.
    assert(base <= end && end <= code_size as u64);
    let size = (end - base) as usize;
    let mut data: Vec<u8> = vec_filled_zero(size);
    let mut len: usize = 0;
    proof {
        assert(data@ =~= zero_image((end - base) as nat));
        assert(place_all(ev.sections.take(0), ev.segments, base as int, zero_image(
            (end - base) as nat,
        )) == zero_image((end - base) as nat));
    }
    let mut i: usize = 0;
    while i < n
        invariant
            i <= n,
            n == elf.sections@.len(),
            ev == elf@,
            elf_wf(ev),
            written_total(ev.sections) <= usize::MAX,
            min_load(ev.sections, ev.segments) == Some(base as int),
            max_end(ev.sections, ev.segments) == Some(end as int),
            base <= end,
            end <= code_size,
            code_size == mcu.code_size,
            data@.len() == end - base,
            len as nat == written_total(ev.sections.take(i as int)),
            data@ == place_all(ev.sections.take(i as int), ev.segments, base as int, zero_image(
                (end - base) as nat,
            )),
        decreases n - i,
    {
        proof {
            assert(ev.sections.take(i as int + 1).drop_last() =~= ev.sections.take(i as int));
            assert(ev.sections.take(i as int + 1).last() == ev.sections[i as int]);
            assert(ev.sections[i as int] == elf.sections@[i as int]@);
            lemma_written_prefix_le(ev.sections, i as int + 1);
        }
        let sec = &elf.sections[i];
        if sec.progbits && sec.alloc {
            proof {
                lemma_load_bounds(ev.sections, ev.segments, i as int);
            }
            let l = resolve_load_addr(sec.addr, sec.data.len() as u64, &elf.segments);
            let start = (l - base) as usize;
            assert(start + sec.data@.len() <= data@.len());
            let ghost snap = data@;
            let mut k: usize = 0;
            while k < sec.data.len()
                invariant
                    k <= sec.data@.len(),
                    start + sec.data@.len() <= data@.len(),
                    data@.len() <= usize::MAX,
                    data@.len() == snap.len(),
                    data@ =~= write_at(snap, start as int, sec.data@.take(k as int)),
                decreases sec.data@.len() - k,
            {
                assert(start + k < data@.len());
                data.set(start + k, sec.data[k]);
                proof {
                    assert(data@ =~= write_at(snap, start as int, sec.data@.take(k as int + 1)));
                }
                k = k + 1;
            }
            proof {
                assert(sec.data@.take(sec.data@.len() as int) =~= sec.data@);
            }
            len = len + sec.data.len();
        }
        i = i + 1;
    }
    proof {
        assert(ev.sections.take(n as int) =~= ev.sections);
    }
    Ok((data, len))
}

/// Whether the loadable sections' total contents length fits the machine's
/// address space, so that a written-byte count can be kept in a `usize`.
pub fn written_total_fits(elf: &Elf32File) -> (r: bool)
    ensures
        r == (written_total(elf@.sections) <= usize::MAX),
{
    let ghost ev = elf@;
    proof {
        assert(ev.sections.take(0) =~= Seq::<ElfSectionV>::empty());
    }
    let n = elf.sections.len();
    let mut total: usize = 0;
    let mut i: usize = 0;
    while i < n
        invariant
            i <= n,
            n == elf.sections@.len(),
            ev == elf@,
            total as nat == written_total(ev.sections.take(i as int)),
        decreases n - i,
    {
        proof {
            assert(ev.sections.take(i as int + 1).drop_last() =~= ev.sections.take(i as int));
            assert(ev.sections.take(i as int + 1).last() == ev.sections[i as int]);
            assert(ev.sections[i as int] == elf.sections@[i as int]@);
        }
        let sec = &elf.sections[i];
        if sec.progbits && sec.alloc {
            match total.checked_add(sec.data.len()) {
                Some(t) => {
                    total = t;
                },
                None => {
                    proof {
                        lemma_written_prefix_le(ev.sections, i as int + 1);
                    }
                    return false;
                },
            }
        }
        i = i + 1;
    }
    proof {
        assert(ev.sections.take(n as int) =~= ev.sections);
    }
    true
}

/// What the ELF container parser returns for given bytes: the plain-value
/// model of the file, or nothing when the bytes are not a well-formed ELF32
/// container. The parse depends on the bytes alone.
pub uninterp spec fn elf32_of(bytes: Seq<u8>) -> Option<Elf32FileV>;

/// Relies on elf_rs's program-header accessors: the parsed container's
/// program headers as plain values, each field read from its 32-bit header
/// slot; anything but an ELF32 container gives none.
#[verifier::external_body]
fn parse_elf32_segments(bytes: &[u8]) -> Vec<ElfSegment>
{
    match ::elf_rs::Elf::from_bytes(bytes) {
        Ok(::elf_rs::Elf::Elf32(e)) => e.program_header_iter().map(|p| ElfSegment {
            vaddr: p.vaddr() as u32,
            paddr: p.paddr() as u32,
            memsz: p.memsz() as u32,
            is_dynamic: matches!(p.ph_type(), ::elf_rs::ProgramType::DYNAMIC),
            is_interp: matches!(p.ph_type(), ::elf_rs::ProgramType::INTERP),
        }).collect(),
        _ => Vec::new(),
    }
}

/// Relies on elf_rs's section-header accessors: the parsed container's
/// section headers as plain values; a section whose declared contents lie
/// outside the file has no bytes to copy.
#[verifier::external_body]
fn parse_elf32_sections(bytes: &[u8]) -> Vec<ElfSection>
{
    match ::elf_rs::Elf::from_bytes(bytes) {
        Ok(::elf_rs::Elf::Elf32(e)) => e.section_header_iter().map(|s| ElfSection {
            addr: s.addr() as u32,
            progbits: matches!(s.sh_type(), ::elf_rs::SectionType::SHT_PROGBITS),
            alloc: s.flags().contains(::elf_rs::SectionHeaderFlags::SHF_ALLOC),
            data: s.content().unwrap_or(&[]).to_vec(),
        }).collect(),
        _ => Vec::new(),
    }
}

/// Relies on elf_rs's `Elf::from_bytes` and its header accessors: parsing is
/// a function of the bytes alone, and anything but an ELF32 container gives
/// `None`. The model's bounds hold because the format stores section sizes
/// in 32-bit fields and the section count in a 16-bit field.
#[verifier::external_body]
pub fn parse_elf32(bytes: &[u8]) -> (r: Option<Elf32File>)
    ensures
        match r {
            Some(e) => elf32_of(bytes@) == Some(e@) && elf_wf(e@),
            None => elf32_of(bytes@) is None,
        },
{
    let facts = match ::elf_rs::Elf::from_bytes(bytes) {
        Ok(::elf_rs::Elf::Elf32(e)) => {
            let h = ::elf_rs::ElfFile::elf_header(&e);
            (matches!(h.machine(), ::elf_rs::ElfMachine::ARM),
                matches!(h.abi(), ::elf_rs::ElfAbi::SystemV),
                matches!(h.elftype(), ::elf_rs::ElfType::ET_EXEC))
        },
        _ => return None,
    };
    Some(Elf32File { machine_arm: facts.0, abi_systemv: facts.1, type_exec: facts.2,
        segments: parse_elf32_segments(bytes), sections: parse_elf32_sections(bytes) })
}

/// A vector of `n` zero bytes.
fn vec_filled_zero(n: usize) -> (r: Vec<u8>)
    ensures
        r@ == zero_image(n as nat),
{
    let mut v: Vec<u8> = Vec::new();
    let mut i: usize = 0;
    while i < n
        invariant
            i <= n,
            v@ =~= zero_image(i as nat),
        decreases n - i,
    {
        v.push(0);
        proof {
            assert(v@ =~= zero_image(i as nat + 1));
        }
        i = i + 1;
    }
    v
}

} // verus!
