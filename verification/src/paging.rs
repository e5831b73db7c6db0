//! Guest page tables and instruction fetch.
//!
//! The emulator addresses operands the way the instruction does, so the backend
//! repeats the translation the hardware just did. Only four-level long mode is
//! handled, which is the only paging mode an L2 here runs in.
use crate::hugemem::Segment;
use crate::lowmem;
use crate::partition::TdpMemory;
use vstd::prelude::*;

verus! {

/// The longest fetch the emulator is given.
pub const MAX_FETCH: usize = 16;

/// The 64-bit number at a guest physical address, if the memory has it.
pub open spec fn word_at(extents: Seq<Segment>, bytes: Seq<u8>, gpa: int) -> Option<u64> {
    match crate::partition::offset_in(extents, gpa, gpa + 8) {
        Some(offset) => Some(crate::bytes::le64(bytes, offset)),
        None => None,
    }
}

/// How much memory an entry at a level of the page tables covers.
pub open spec fn coverage(level: u8) -> u64 {
    match level {
        0 => 0x1000,
        1 => 0x20_0000,
        2 => 0x4000_0000,
        _ => 0x80_0000_0000,
    }
}

/// Which entry of a table an address uses.
pub open spec fn entry_index(gva: u64, level: u8) -> u64 {
    gva / coverage(level) % 512
}

/// The page or table address in an entry: bits 12 to 51.
pub open spec fn entry_address(entry: u64) -> u64 {
    (entry / 0x1000 % 0x100_0000_0000 * 0x1000) as u64
}

pub open spec fn is_present(entry: u64) -> bool {
    entry % 2 == 1
}

/// Whether an entry above the lowest level maps a large page.
pub open spec fn is_large(entry: u64) -> bool {
    entry / 128 % 2 == 1
}

/// Where the mapping of an entry puts an address.
pub open spec fn mapped(entry: u64, gva: u64, level: u8) -> u64 {
    (entry_address(entry) / coverage(level) * coverage(level) + gva % coverage(level)) as u64
}

/// The translation of an address from a table at a level downwards.
pub open spec fn walk(extents: Seq<Segment>, bytes: Seq<u8>, table: u64, gva: u64, level: u8) -> Option<
    u64,
>
    decreases level,
{
    match word_at(extents, bytes, table + 8 * entry_index(gva, level)) {
        None => None,
        Some(entry) => if !is_present(entry) {
            None
        } else if level == 0 || is_large(entry) {
            Some(mapped(entry, gva, level))
        } else {
            walk(extents, bytes, entry_address(entry), gva, (level - 1) as u8)
        },
    }
}

/// The guest physical address of a linear address. Before paging is enabled
/// they are the same; this is the path an AP's SIPI trampoline uses below
/// 1 MiB.
pub open spec fn translation(
    extents: Seq<Segment>,
    bytes: Seq<u8>,
    cr0: u64,
    cr3: u64,
    gva: u64,
) -> Option<u64> {
    if cr0 / 0x8000_0000 % 2 == 0 {
        Some(gva)
    } else {
        walk(extents, bytes, entry_address(cr3), gva, 3)
    }
}

proof fn lemma_entry_bits(entry: u64, gva: u64)
    by (bit_vector)
    ensures
        entry & 0x000f_ffff_ffff_f000 == entry / 0x1000 % 0x100_0000_0000 * 0x1000,
        entry / 0x1000 % 0x100_0000_0000 * 0x1000 <= 0x000f_ffff_ffff_f000,
        (entry & 1 == 0) == (entry % 2 == 0),
        (entry & 0x80 != 0) == (entry / 128 % 2 == 1),
        (entry & 0x8000_0000 == 0) == (entry / 0x8000_0000 % 2 == 0),
        (gva >> 12) & 511 == gva / 0x1000 % 512,
        (gva >> 21) & 511 == gva / 0x20_0000 % 512,
        (gva >> 30) & 511 == gva / 0x4000_0000 % 512,
        (gva >> 39) & 511 == gva / 0x80_0000_0000 % 512,
        gva / 0x1000 % 512 <= 511,
        gva / 0x20_0000 % 512 <= 511,
        gva / 0x4000_0000 % 512 <= 511,
        gva / 0x80_0000_0000 % 512 <= 511,
{
}

/// The address bits of an entry and the offset bits of an address, joined.
proof fn lemma_joined_address(entry: u64, gva: u64)
    by (bit_vector)
    ensures
        (entry & 0x000f_ffff_ffff_f000) | (gva & 0xfff) == (entry / 0x1000 % 0x100_0000_0000
            * 0x1000) / 0x1000 * 0x1000 + gva % 0x1000,
        (entry & 0x000f_ffff_ffff_f000 & !0x1f_ffffu64) | (gva & 0x1f_ffff) == (entry / 0x1000
            % 0x100_0000_0000 * 0x1000) / 0x20_0000 * 0x20_0000 + gva % 0x20_0000,
        (entry & 0x000f_ffff_ffff_f000 & !0x3fff_ffffu64) | (gva & 0x3fff_ffff) == (entry / 0x1000
            % 0x100_0000_0000 * 0x1000) / 0x4000_0000 * 0x4000_0000 + gva % 0x4000_0000,
        (entry & 0x000f_ffff_ffff_f000 & !0x7f_ffff_ffffu64) | (gva & 0x7f_ffff_ffff) == (entry
            / 0x1000 % 0x100_0000_0000 * 0x1000) / 0x80_0000_0000 * 0x80_0000_0000 + gva
            % 0x80_0000_0000,
{
}

const ADDR_MASK: u64 = 0x000f_ffff_ffff_f000;

const PTE_P: u64 = 1;

const PTE_PS: u64 = 0x80;

/// The number of address bits below a level.
fn level_shift(level: u8) -> (r: u64)
    requires
        level <= 3,
    ensures
        r == 12 + 9 * level,
{
    12 + 9 * level as u64
}

fn index_at(gva: u64, level: u8) -> (r: u64)
    requires
        level <= 3,
    ensures
        r == entry_index(gva, level),
        r <= 511,
{
    proof {
        lemma_entry_bits(0, gva);
    }
    let shift: u64 = level_shift(level);
    (gva >> shift) & 511
}

fn join_address(entry: u64, gva: u64, level: u8) -> (r: u64)
    requires
        level <= 3,
    ensures
        r == mapped(entry, gva, level),
{
    proof {
        lemma_joined_address(entry, gva);
    }
    let size: u64 = match level {
        0 => 0x1000,
        1 => 0x20_0000,
        2 => 0x4000_0000,
        _ => 0x80_0000_0000,
    };
    proof {
        assert(entry & 0x000f_ffff_ffff_f000 & !0xfffu64 == entry & 0x000f_ffff_ffff_f000)
            by (bit_vector);
    }
    (entry & ADDR_MASK & !(size - 1)) | (gva & (size - 1))
}

/// Read a 64-bit number from guest memory.
pub fn read_ram_u64(memory: &TdpMemory<'_>, gpa: u64) -> (r: Option<u64>)
    requires
        memory.wf(),
        gpa + 8 <= u64::MAX,
    ensures
        r == word_at(memory.extents(), memory.bytes(), gpa as int),
{
    match memory.backing_offset(gpa, 8) {
        Some(offset) => Some(crate::bytes::read64(memory.region().as_slice(), offset)),
        None => None,
    }
}

/// Translate a guest virtual address through the guest's own page tables.
pub fn translate(memory: &TdpMemory<'_>, cr0: u64, cr3: u64, gva: u64) -> (r: Option<u64>)
    requires
        memory.wf(),
    ensures
        r == translation(memory.extents(), memory.bytes(), cr0, cr3, gva),
{
    proof {
        lemma_entry_bits(cr0, gva);
        lemma_entry_bits(cr3, gva);
    }
    if cr0 & 0x8000_0000 == 0 {
        return Some(gva);
    }
    let mut table: u64 = cr3 & ADDR_MASK;
    let mut level: u8 = 3;
    loop
        invariant
            memory.wf(),
            level <= 3,
            table <= 0x000f_ffff_ffff_f000,
            cr0 / 0x8000_0000 % 2 != 0,
            translation(memory.extents(), memory.bytes(), cr0, cr3, gva) == walk(
                memory.extents(),
                memory.bytes(),
                table,
                gva,
                level,
            ),
        decreases level,
    {
        let index: u64 = index_at(gva, level);
        let entry: u64 = match read_ram_u64(memory, table + index * 8) {
            Some(entry) => entry,
            None => return None,
        };
        proof {
            lemma_entry_bits(entry, gva);
        }
        if entry & PTE_P == 0 {
            return None;
        }
        if level == 0 || entry & PTE_PS != 0 {
            return Some(join_address(entry, gva, level));
        }
        table = entry & ADDR_MASK;
        level = level - 1;
    }
}

/// One table entry that a translation consulted.
#[derive(Debug, Clone, Copy, PartialEq, Eq, Structural)]
pub struct WalkEntry {
    pub level: u8,
    pub table: u64,
    pub index: u64,
    pub entry: Option<u64>,
}

/// The entries that a translation consults, from a table at a level downwards.
pub open spec fn walk_entries(
    extents: Seq<Segment>,
    bytes: Seq<u8>,
    table: u64,
    gva: u64,
    level: u8,
) -> Seq<WalkEntry>
    decreases level,
{
    let index = entry_index(gva, level);
    let entry = word_at(extents, bytes, table + 8 * index);
    let first = seq![WalkEntry { level, table, index, entry }];
    match entry {
        None => first,
        Some(entry) => if !is_present(entry) || level == 0 || is_large(entry) {
            first
        } else {
            first + walk_entries(extents, bytes, entry_address(entry), gva, (level - 1) as u8)
        },
    }
}

/// Return the entries consulted while translating `gva`.
///
/// This is diagnostic rather than a second translator: a trapped guest page
/// fault otherwise reports only CR3 and the virtual address, which is not
/// enough to distinguish a missing guest mapping from a bad L2 physical-memory
/// publication.
pub fn page_walk(memory: &TdpMemory<'_>, cr3: u64, gva: u64) -> (r: Vec<WalkEntry>)
    requires
        memory.wf(),
    ensures
        r@ == walk_entries(memory.extents(), memory.bytes(), entry_address(cr3), gva, 3),
{
    proof {
        lemma_entry_bits(cr3, gva);
    }
    let mut entries: Vec<WalkEntry> = Vec::new();
    let mut table: u64 = cr3 & ADDR_MASK;
    let mut level: u8 = 3;
    let ghost whole = walk_entries(memory.extents(), memory.bytes(), table, gva, 3);
    assert(entries@ + whole =~= whole);
    loop
        invariant
            memory.wf(),
            level <= 3,
            table <= 0x000f_ffff_ffff_f000,
            entries@ + walk_entries(memory.extents(), memory.bytes(), table, gva, level) == whole,
            whole == walk_entries(memory.extents(), memory.bytes(), entry_address(cr3), gva, 3),
        decreases level,
    {
        let index: u64 = index_at(gva, level);
        let found: Option<u64> = read_ram_u64(memory, table + index * 8);
        let ghost before = entries@;
        entries.push(WalkEntry { level, table, index, entry: found });
        let entry: u64 = match found {
            Some(entry) => entry,
            None => {
                assert(entries@ =~= whole);
                return entries;
            },
        };
        proof {
            lemma_entry_bits(entry, gva);
        }
        if entry & PTE_P == 0 || level == 0 || entry & PTE_PS != 0 {
            assert(entries@ =~= whole);
            return entries;
        }
        table = entry & ADDR_MASK;
        level = level - 1;
        assert(entries@ + walk_entries(memory.extents(), memory.bytes(), table, gva, level)
            =~= whole);
    }
}

/// The walk explains the translation: an address translates exactly when the
/// last entry consulted is there and present, and a walk consults at most one
/// entry for each level.
pub proof fn law_walk_explains_translation(
    extents: Seq<Segment>,
    bytes: Seq<u8>,
    table: u64,
    gva: u64,
    level: u8,
)
    requires
        level <= 3,
    ensures
        ({
            let entries = walk_entries(extents, bytes, table, gva, level);
            &&& 1 <= entries.len() <= level + 1
            &&& walk(extents, bytes, table, gva, level) is Some <==> (entries.last().entry matches Some(
                entry,
            ) && is_present(entry))
        }),
    decreases level,
{
    match word_at(extents, bytes, table + 8 * entry_index(gva, level)) {
        None => {},
        Some(entry) => {
            if is_present(entry) && level > 0 && !is_large(entry) {
                let next = entry_address(entry);
                law_walk_explains_translation(extents, bytes, next, gva, (level - 1) as u8);
                let rest = walk_entries(extents, bytes, next, gva, (level - 1) as u8);
                let first = seq![
                    WalkEntry {
                        level,
                        table,
                        index: entry_index(gva, level),
                        entry: Some(entry),
                    },
                ];
                assert((first + rest).last() == rest.last());
            }
        },
    }
}

/// A translation keeps the offset into the page.
pub proof fn law_translation_keeps_the_page_offset(
    extents: Seq<Segment>,
    bytes: Seq<u8>,
    cr0: u64,
    cr3: u64,
    gva: u64,
)
    ensures
        translation(extents, bytes, cr0, cr3, gva) matches Some(gpa) ==> gpa % 0x1000 == gva
            % 0x1000,
{
    if cr0 / 0x8000_0000 % 2 != 0 {
        lemma_walk_offset(extents, bytes, entry_address(cr3), gva, 3);
    }
}

proof fn lemma_walk_offset(
    extents: Seq<Segment>,
    bytes: Seq<u8>,
    table: u64,
    gva: u64,
    level: u8,
)
    requires
        level <= 3,
    ensures
        walk(extents, bytes, table, gva, level) matches Some(gpa) ==> gpa % 0x1000 == gva % 0x1000,
    decreases level,
{
    match word_at(extents, bytes, table + 8 * entry_index(gva, level)) {
        None => {},
        Some(entry) => {
            if is_present(entry) && level > 0 && !is_large(entry) {
                lemma_walk_offset(extents, bytes, entry_address(entry), gva, (level - 1) as u8);
            } else if is_present(entry) {
                lemma_entry_bits(entry, gva);
                lemma_mapped_offset(entry_address(entry), gva);
            }
        },
    }
}

/// Mappings start at page boundaries.
proof fn lemma_mapped_offset(base: u64, gva: u64)
    by (bit_vector)
    requires
        base <= 0x000f_ffff_ffff_f000,
    ensures
        ((base / 0x1000 * 0x1000 + gva % 0x1000) as u64) % 0x1000 == gva % 0x1000,
        ((base / 0x20_0000 * 0x20_0000 + gva % 0x20_0000) as u64) % 0x1000 == gva % 0x1000,
        ((base / 0x4000_0000 * 0x4000_0000 + gva % 0x4000_0000) as u64) % 0x1000 == gva % 0x1000,
        ((base / 0x80_0000_0000 * 0x80_0000_0000 + gva % 0x80_0000_0000) as u64) % 0x1000 == gva
            % 0x1000,
{
}

/// Where an instruction byte comes from.
#[derive(Debug, Clone, Copy, PartialEq, Eq, Structural)]
pub enum FetchSource {
    /// The guest's RAM, which holds this byte.
    Ram(u8),
    /// Memory below 1 MiB, which the VMM backs, at this address.
    Low(u64),
}

/// Where the instruction byte at a linear address comes from.
pub open spec fn source_at(
    extents: Seq<Segment>,
    bytes: Seq<u8>,
    cr0: u64,
    cr3: u64,
    linear: u64,
) -> Option<FetchSource> {
    match translation(extents, bytes, cr0, cr3, linear) {
        None => None,
        Some(gpa) => match crate::partition::offset_in(extents, gpa as int, gpa + 1) {
            Some(offset) => Some(FetchSource::Ram(bytes[offset])),
            None => if gpa < lowmem::LOW_MEMORY_END {
                Some(FetchSource::Low(gpa))
            } else {
                None
            },
        },
    }
}

/// Where the instruction bytes from number `i` on come from, up to the first
/// that cannot be fetched.
pub open spec fn sources_from(
    extents: Seq<Segment>,
    bytes: Seq<u8>,
    cr0: u64,
    cr3: u64,
    linear: u64,
    i: int,
) -> Seq<FetchSource>
    decreases MAX_FETCH - i,
{
    if i >= MAX_FETCH || linear + i > u64::MAX {
        Seq::empty()
    } else {
        match source_at(extents, bytes, cr0, cr3, (linear + i) as u64) {
            None => Seq::empty(),
            Some(source) => seq![source] + sources_from(
                extents,
                bytes,
                cr0,
                cr3,
                linear,
                i + 1,
            ),
        }
    }
}

fn find_source(memory: &TdpMemory<'_>, cr0: u64, cr3: u64, linear: u64) -> (r: Option<FetchSource>)
    requires
        memory.wf(),
    ensures
        r == source_at(memory.extents(), memory.bytes(), cr0, cr3, linear),
{
    let gpa: u64 = match translate(memory, cr0, cr3, linear) {
        Some(gpa) => gpa,
        None => return None,
    };
    if gpa == u64::MAX {
        proof {
            crate::partition::lemma_find_span(memory.extents(), gpa as int, gpa + 1, 0);
            if let Some(i) = crate::partition::find_span(
                memory.extents(),
                gpa as int,
                gpa + 1,
                0,
            ) {
                assert(memory.extents()[i].wf());
            }
        }
        return None;
    }
    match memory.backing_offset(gpa, 1) {
        Some(offset) => Some(FetchSource::Ram(memory.region().as_slice()[offset])),
        None => {
            if gpa < lowmem::LOW_MEMORY_END {
                Some(FetchSource::Low(gpa))
            } else {
                None
            }
        },
    }
}

/// Whether nothing but the end of the address space ends a fetch.
pub open spec fn runs_off(linear: u64, found: int) -> bool {
    found < MAX_FETCH && linear + found > u64::MAX
}

/// Find out where the bytes of the instruction at a linear address come from, up
/// to the first that cannot be fetched, and whether that is the one behind the
/// last address there is.
///
/// Byte by byte because an instruction may end just before an unmapped page,
/// and faulting on the fetch of a byte the instruction does not need would be a
/// failure of the VMM's own making.
pub fn fetch_sources(memory: &TdpMemory<'_>, cr0: u64, cr3: u64, linear: u64) -> (r: (
    Vec<FetchSource>,
    bool,
))
    requires
        memory.wf(),
    ensures
        r.0@ == sources_from(memory.extents(), memory.bytes(), cr0, cr3, linear, 0),
        r.1 == runs_off(linear, r.0@.len() as int),
{
    let ghost whole = sources_from(memory.extents(), memory.bytes(), cr0, cr3, linear, 0);
    let mut sources: Vec<FetchSource> = Vec::new();
    let mut i: usize = 0;
    assert(sources@ + whole =~= whole);
    while i < MAX_FETCH
        invariant
            i <= MAX_FETCH,
            memory.wf(),
            sources@.len() == i,
            whole == sources_from(memory.extents(), memory.bytes(), cr0, cr3, linear, 0),
            sources@ + sources_from(
                memory.extents(),
                memory.bytes(),
                cr0,
                cr3,
                linear,
                i as int,
            ) == whole,
        decreases MAX_FETCH - i,
    {
        let at: u64 = match linear.checked_add(i as u64) {
            Some(at) => at,
            None => {
                assert(sources@ =~= whole);
                return (sources, true);
            },
        };
        match find_source(memory, cr0, cr3, at) {
            Some(source) => sources.push(source),
            None => {
                assert(sources@ =~= whole);
                return (sources, false);
            },
        }
        i = i + 1;
        assert(sources@ + sources_from(
            memory.extents(),
            memory.bytes(),
            cr0,
            cr3,
            linear,
            i as int,
        ) =~= whole);
    }
    assert(sources@ =~= whole);
    (sources, false)
}

/// The instruction bytes that some sources supply: up to the first byte of low
/// memory that could not be read. `low[k]` is what was read for `sources[k]`.
pub open spec fn assembled(sources: Seq<FetchSource>, low: Seq<Option<u8>>, n: int) -> Seq<u8>
    decreases n,
{
    if n <= 0 {
        Seq::empty()
    } else {
        let before = assembled(sources, low, n - 1);
        if before.len() < n - 1 {
            before
        } else {
            match (sources[n - 1], low[n - 1]) {
                (FetchSource::Ram(byte), _) => before.push(byte),
                (FetchSource::Low(_), Some(byte)) => before.push(byte),
                (FetchSource::Low(_), None) => before,
            }
        }
    }
}

proof fn lemma_assembled_stops(sources: Seq<FetchSource>, low: Seq<Option<u8>>, i: int, n: int)
    requires
        0 <= i < n,
        assembled(sources, low, i + 1).len() == i,
    ensures
        assembled(sources, low, n) == assembled(sources, low, i + 1),
    decreases n,
{
    if n > i + 1 {
        lemma_assembled_stops(sources, low, i, n - 1);
    }
}

/// Put the instruction together.
pub fn assemble(sources: &Vec<FetchSource>, low: &Vec<Option<u8>>) -> (r: Vec<u8>)
    requires
        low@.len() == sources@.len(),
    ensures
        r@ == assembled(sources@, low@, sources@.len() as int),
{
    let mut instruction: Vec<u8> = Vec::new();
    let mut i: usize = 0;
    while i < sources.len()
        invariant
            i <= sources@.len(),
            low@.len() == sources@.len(),
            instruction@.len() == i,
            instruction@ == assembled(sources@, low@, i as int),
        decreases sources@.len() - i,
    {
        match sources[i] {
            FetchSource::Ram(byte) => instruction.push(byte),
            FetchSource::Low(_) => match low[i] {
                Some(byte) => instruction.push(byte),
                None => {
                    proof {
                        lemma_assembled_stops(
                            sources@,
                            low@,
                            i as int,
                            sources@.len() as int,
                        );
                    }
                    return instruction;
                },
            },
        }
        i = i + 1;
    }
    instruction
}

/// Whether the emulator can reach a guest physical address as memory. Low
/// memory counts: it is not the guest's, but the VMM backs it.
pub fn is_gpa_mapped(memory: &TdpMemory<'_>, gpa: u64) -> (r: bool)
    requires
        memory.wf(),
        gpa < u64::MAX,
    ensures
        r == (crate::partition::page_of(memory.extents(), gpa as int) is Some || gpa
            < lowmem::LOW_MEMORY_END),
{
    memory.contains_range(gpa..gpa + 1) || gpa < lowmem::LOW_MEMORY_END
}

/// The page that an entry of a table at a level maps covers 4 KiB, 2 MiB, 1 GiB
/// or 512 GiB.
pub open spec fn page_size(level: u8) -> u64 {
    if level == 0 {
        0x1000
    } else if level == 1 {
        0x20_0000
    } else if level == 2 {
        0x4000_0000
    } else {
        0x80_0000_0000
    }
}

/// What joining an entry's address with an offset leaves of each.
proof fn lemma_joined_parts(entry: u64, gva: u64, base: u64)
    by (bit_vector)
    requires
        base == entry & 0x000f_ffff_ffff_f000,
    ensures
        ((base / 0x1000 * 0x1000 + gva % 0x1000) as u64) / 0x1000 == (entry % 0x10_0000_0000_0000)
            / 0x1000,
        ((base / 0x20_0000 * 0x20_0000 + gva % 0x20_0000) as u64) / 0x20_0000 == (entry
            % 0x10_0000_0000_0000) / 0x20_0000,
        ((base / 0x4000_0000 * 0x4000_0000 + gva % 0x4000_0000) as u64) / 0x4000_0000 == (entry
            % 0x10_0000_0000_0000) / 0x4000_0000,
        ((base / 0x80_0000_0000 * 0x80_0000_0000 + gva % 0x80_0000_0000) as u64) / 0x80_0000_0000
            == (entry % 0x10_0000_0000_0000) / 0x80_0000_0000,
        ((base / 0x1000 * 0x1000 + gva % 0x1000) as u64) % 0x1000 == gva % 0x1000,
        ((base / 0x20_0000 * 0x20_0000 + gva % 0x20_0000) as u64) % 0x20_0000 == gva % 0x20_0000,
        ((base / 0x4000_0000 * 0x4000_0000 + gva % 0x4000_0000) as u64) % 0x4000_0000 == gva
            % 0x4000_0000,
        ((base / 0x80_0000_0000 * 0x80_0000_0000 + gva % 0x80_0000_0000) as u64) % 0x80_0000_0000
            == gva % 0x80_0000_0000,
        base == (entry % 0x10_0000_0000_0000) / 0x1000 * 0x1000,
        base <= 0x000f_ffff_ffff_f000,
{
}

#[verifier::rlimit(40)]
proof fn lemma_mapped_parts(entry: u64, gva: u64, level: u8)
    requires
        level <= 3,
    ensures
        mapped(entry, gva, level) / page_size(level) == (entry % 0x10_0000_0000_0000) / page_size(
            level,
        ),
        mapped(entry, gva, level) % page_size(level) == gva % page_size(level),
        mapped(entry, gva, level) < 0x10_0000_0000_0000,
{
    lemma_entry_bits(entry, gva);
    lemma_joined_parts(entry, gva, entry_address(entry));
    let gpa = mapped(entry, gva, level);
    let low = entry % 0x10_0000_0000_0000;
    if level == 0 {
        assert(gpa / 0x1000 == low / 0x1000);
    } else if level == 1 {
        assert(gpa / 0x20_0000 == low / 0x20_0000);
    } else if level == 2 {
        assert(gpa / 0x4000_0000 == low / 0x4000_0000);
    } else {
        assert(gpa / 0x80_0000_0000 == low / 0x80_0000_0000);
    }
}

#[verifier::rlimit(40)]
proof fn lemma_walk_parts(extents: Seq<Segment>, bytes: Seq<u8>, table: u64, gva: u64, level: u8)
    requires
        level <= 3,
    ensures
        ({
            let last = walk_entries(extents, bytes, table, gva, level).last();
            &&& walk_entries(extents, bytes, table, gva, level).len() > 0
            &&& last.level <= level
            &&& walk(extents, bytes, table, gva, level) matches Some(gpa) ==> {
                let size = page_size(last.level);
                &&& gpa < 0x10_0000_0000_0000
                &&& last.entry matches Some(entry)
                &&& gpa / size == (entry % 0x10_0000_0000_0000) / size
                &&& gpa % size == gva % size
            }
        }),
    decreases level,
{
    match word_at(extents, bytes, table + 8 * entry_index(gva, level)) {
        None => {},
        Some(entry) => {
            if is_present(entry) && level > 0 && !is_large(entry) {
                let next = entry_address(entry);
                lemma_walk_parts(extents, bytes, next, gva, (level - 1) as u8);
                let rest = walk_entries(extents, bytes, next, gva, (level - 1) as u8);
                assert(walk_entries(extents, bytes, table, gva, level).last() == rest.last());
            } else if is_present(entry) {
                lemma_mapped_parts(entry, gva, level);
            }
        },
    }
}

/// With paging on, an address translates to a 52-bit physical address: the page
/// is the one that bits 12 to 51 of the last entry consulted name, and the
/// offset into it is the address's own, for the size of page that was found.
/// With paging off, an address is its own translation.
pub proof fn law_translation_is_the_page_of_the_last_entry(
    extents: Seq<Segment>,
    bytes: Seq<u8>,
    cr0: u64,
    cr3: u64,
    gva: u64,
)
    ensures
        cr0 / 0x8000_0000 % 2 == 0 ==> translation(extents, bytes, cr0, cr3, gva) == Some(gva),
        cr0 / 0x8000_0000 % 2 == 1 ==> (translation(extents, bytes, cr0, cr3, gva) matches Some(gpa)
            ==> {
            let table = (cr3 % 0x10_0000_0000_0000 / 0x1000 * 0x1000) as u64;
            let last = walk_entries(extents, bytes, table, gva, 3).last();
            let size = page_size(last.level);
            &&& gpa < 0x10_0000_0000_0000
            &&& last.entry matches Some(entry)
            &&& gpa / size == (entry % 0x10_0000_0000_0000) / size
            &&& gpa % size == gva % size
        }),
{
    lemma_entry_bits(cr3, gva);
    lemma_joined_parts(cr3, gva, entry_address(cr3));
    assert(entry_address(cr3) == (cr3 % 0x10_0000_0000_0000 / 0x1000 * 0x1000) as u64);
    lemma_walk_parts(extents, bytes, entry_address(cr3), gva, 3);
}

/// Whether two words say the same to a page walk: both are missing, or they
/// agree on the present bit, the large-page bit and the address bits 12 to 51.
pub open spec fn same_mapping(a: Option<u64>, b: Option<u64>) -> bool {
    match (a, b) {
        (Some(a), Some(b)) => {
            &&& a % 2 == b % 2
            &&& a / 0x80 % 2 == b / 0x80 % 2
            &&& a / 0x1000 % 0x100_0000_0000 == b / 0x1000 % 0x100_0000_0000
        },
        (None, None) => true,
        _ => false,
    }
}

#[verifier::rlimit(40)]
proof fn lemma_same_mappings_walk_alike(
    extents1: Seq<Segment>,
    bytes1: Seq<u8>,
    extents2: Seq<Segment>,
    bytes2: Seq<u8>,
    table: u64,
    gva: u64,
    level: u8,
)
    requires
        level <= 3,
        forall|gpa: int|
            same_mapping(
                #[trigger] word_at(extents1, bytes1, gpa),
                word_at(extents2, bytes2, gpa),
            ),
    ensures
        walk(extents1, bytes1, table, gva, level) == walk(extents2, bytes2, table, gva, level),
    decreases level,
{
    let at = table + 8 * entry_index(gva, level);
    let a = word_at(extents1, bytes1, at);
    assert(same_mapping(a, word_at(extents2, bytes2, at)));
    if let Some(entry) = a {
        if is_present(entry) && level > 0 && !is_large(entry) {
            lemma_same_mappings_walk_alike(
                extents1,
                bytes1,
                extents2,
                bytes2,
                entry_address(entry),
                gva,
                (level - 1) as u8,
            );
        }
    }
}

/// Nothing but the present bit, the large-page bit and the address bits of the
/// table entries decides where an address translates to. Page tables that differ
/// only in other bits, such as execute-disable and the other bits from 52 on, or
/// the accessed, dirty, user and writable bits, translate every address alike;
/// and so do values of CR3 that differ only outside bits 12 to 51.
pub proof fn law_other_entry_bits_do_not_translate(
    extents1: Seq<Segment>,
    bytes1: Seq<u8>,
    extents2: Seq<Segment>,
    bytes2: Seq<u8>,
    cr0: u64,
    cr3: u64,
    other_cr3: u64,
    gva: u64,
)
    requires
        forall|gpa: int|
            same_mapping(
                #[trigger] word_at(extents1, bytes1, gpa),
                word_at(extents2, bytes2, gpa),
            ),
        cr3 / 0x1000 % 0x100_0000_0000 == other_cr3 / 0x1000 % 0x100_0000_0000,
    ensures
        translation(extents1, bytes1, cr0, cr3, gva) == translation(
            extents2,
            bytes2,
            cr0,
            other_cr3,
            gva,
        ),
{
    lemma_same_mappings_walk_alike(
        extents1,
        bytes1,
        extents2,
        bytes2,
        entry_address(cr3),
        gva,
        3,
    );
}

/// A walk goes down the tables one level at a time. The first table is the one
/// that CR3 names, and each next one is at the address in the entry before it;
/// the entry consulted is the one that nine bits of the address select, higher
/// bits at higher levels, and it is the word in memory at that place. A walk
/// goes on exactly behind an entry that is present and maps no page itself.
#[verifier::rlimit(40)]
pub proof fn law_walk_goes_down_the_tables(
    extents: Seq<Segment>,
    bytes: Seq<u8>,
    table: u64,
    gva: u64,
    level: u8,
    i: int,
)
    requires
        level <= 3,
        0 <= i < walk_entries(extents, bytes, table, gva, level).len(),
    ensures
        ({
            let entries = walk_entries(extents, bytes, table, gva, level);
            let step = entries[i];
            &&& entries[0].table == table
            &&& step.level == level - i
            &&& step.level == 0 ==> step.index == gva / 0x1000 % 512
            &&& step.level == 1 ==> step.index == gva / 0x20_0000 % 512
            &&& step.level == 2 ==> step.index == gva / 0x4000_0000 % 512
            &&& step.level == 3 ==> step.index == gva / 0x80_0000_0000 % 512
            &&& step.entry == word_at(extents, bytes, step.table + 8 * step.index)
            &&& i + 1 < entries.len() <==> (step.entry matches Some(entry) && entry % 2 == 1
                && step.level > 0 && entry / 0x80 % 2 == 0)
            &&& i + 1 < entries.len() ==> entries[i + 1].table == (step.entry->0)
                % 0x10_0000_0000_0000 / 0x1000 * 0x1000
        }),
    decreases level,
{
    let entries = walk_entries(extents, bytes, table, gva, level);
    match word_at(extents, bytes, table + 8 * entry_index(gva, level)) {
        None => {},
        Some(entry) => {
            lemma_entry_bits(entry, gva);
            lemma_joined_parts(entry, gva, entry_address(entry));
            if is_present(entry) && level > 0 && !is_large(entry) {
                let next = entry_address(entry);
                let rest = walk_entries(extents, bytes, next, gva, (level - 1) as u8);
                law_walk_explains_translation(extents, bytes, next, gva, (level - 1) as u8);
                assert forall|k: int| 0 <= k < rest.len() implies entries[k + 1]
                    == #[trigger] rest[k] by {}
                assert(entries.len() == rest.len() + 1);
                law_walk_goes_down_the_tables(extents, bytes, next, gva, (level - 1) as u8, 0);
                if i > 0 {
                    law_walk_goes_down_the_tables(
                        extents,
                        bytes,
                        next,
                        gva,
                        (level - 1) as u8,
                        i - 1,
                    );
                    assert(entries[i] == rest[i - 1]);
                    if i < rest.len() {
                        assert(entries[i + 1] == rest[i]);
                    }
                } else {
                    assert(entries[1] == rest[0]);
                }
            }
        },
    }
}

/// A word of guest memory is made of the eight bytes at its address, least
/// significant first.
pub proof fn law_words_are_made_of_their_bytes(extents: Seq<Segment>, bytes: Seq<u8>, gpa: int)
    ensures
        word_at(extents, bytes, gpa) matches Some(word) ==> {
            &&& crate::partition::offset_in(extents, gpa, gpa + 8) matches Some(offset)
            &&& word % 0x100 == bytes[offset]
            &&& word / 0x100 % 0x100 == bytes[offset + 1]
            &&& word / 0x1_0000 % 0x100 == bytes[offset + 2]
            &&& word / 0x100_0000 % 0x100 == bytes[offset + 3]
            &&& word / 0x1_0000_0000 % 0x100 == bytes[offset + 4]
            &&& word / 0x100_0000_0000 % 0x100 == bytes[offset + 5]
            &&& word / 0x1_0000_0000_0000 % 0x100 == bytes[offset + 6]
            &&& word / 0x100_0000_0000_0000 == bytes[offset + 7]
        },
        crate::partition::offset_in(extents, gpa, gpa + 8) is Some ==> word_at(extents, bytes, gpa)
            is Some,
{
    if let Some(offset) = crate::partition::offset_in(extents, gpa, gpa + 8) {
        crate::bytes::law_least_significant_byte_comes_first(bytes, offset);
    }
}

proof fn lemma_sources(
    extents: Seq<Segment>,
    bytes: Seq<u8>,
    cr0: u64,
    cr3: u64,
    linear: u64,
    from: int,
    k: int,
)
    requires
        0 <= from <= 16,
    ensures
        ({
            let sources = sources_from(extents, bytes, cr0, cr3, linear, from);
            let count = sources.len();
            &&& from + count <= 16
            &&& 0 <= k < count ==> linear + from + k <= u64::MAX && source_at(
                extents,
                bytes,
                cr0,
                cr3,
                (linear + from + k) as u64,
            ) == Some(sources[k])
            &&& from + count < 16 ==> linear + from + count > u64::MAX || source_at(
                extents,
                bytes,
                cr0,
                cr3,
                (linear + from + count) as u64,
            ) is None
        }),
    decreases 16 - from,
{
    let sources = sources_from(extents, bytes, cr0, cr3, linear, from);
    if from < 16 && linear + from <= u64::MAX {
        if let Some(source) = source_at(extents, bytes, cr0, cr3, (linear + from) as u64) {
            lemma_sources(extents, bytes, cr0, cr3, linear, from + 1, k - 1);
            let rest = sources_from(extents, bytes, cr0, cr3, linear, from + 1);
            assert(sources =~= seq![source] + rest);
        }
    }
}

/// A fetch takes the bytes at sixteen addresses in a row, or up to the first that
/// cannot be had. Each comes from where its own address translates to: from the
/// RAM that lies there, with the byte that it holds, or else from the VMM, if
/// that is below 1 MiB. A byte that cannot be had is one behind the last address
/// there is, or does not translate, or lies in neither.
#[verifier::rlimit(40)]
pub proof fn law_fetch_takes_the_bytes_in_a_row(
    extents: Seq<Segment>,
    bytes: Seq<u8>,
    cr0: u64,
    cr3: u64,
    linear: u64,
    k: int,
)
    ensures
        ({
            let sources = sources_from(extents, bytes, cr0, cr3, linear, 0);
            let count = sources.len();
            let at = (linear + k) as u64;
            let end = (linear + count) as u64;
            &&& count <= 16
            &&& 0 <= k < count ==> {
                &&& linear + k <= u64::MAX
                &&& translation(extents, bytes, cr0, cr3, at) matches Some(gpa)
                &&& match crate::partition::offset_in(extents, gpa as int, gpa + 1) {
                    Some(offset) => sources[k] == FetchSource::Ram(bytes[offset]),
                    None => gpa < 0x10_0000 && sources[k] == FetchSource::Low(gpa),
                }
            }
            &&& count < 16 && linear + count <= u64::MAX ==> (translation(
                extents,
                bytes,
                cr0,
                cr3,
                end,
            ) matches Some(gpa) ==> gpa >= 0x10_0000 && crate::partition::offset_in(
                extents,
                gpa as int,
                gpa + 1,
            ) is None)
            &&& runs_off(linear, count as int) <==> count < 16 && linear + count
                == 0x1_0000_0000_0000_0000
        }),
{
    let count = sources_from(extents, bytes, cr0, cr3, linear, 0).len();
    lemma_sources(extents, bytes, cr0, cr3, linear, 0, k);
    lemma_sources(extents, bytes, cr0, cr3, linear, 0, count - 1);
}

/// The instruction is what the sources supply, byte for byte and in order, and
/// it ends early only at a byte of low memory that could not be read.
pub proof fn law_instruction_is_what_the_sources_supply(
    sources: Seq<FetchSource>,
    low: Seq<Option<u8>>,
    n: int,
    k: int,
)
    requires
        0 <= n <= sources.len(),
        low.len() == sources.len(),
    ensures
        ({
            let instruction = assembled(sources, low, n);
            let count = instruction.len() as int;
            &&& count <= n
            &&& 0 <= k < count ==> match sources[k] {
                FetchSource::Ram(byte) => instruction[k] == byte,
                FetchSource::Low(_) => low[k] == Some(instruction[k]),
            }
            &&& count < n ==> sources[count] is Low && low[count] is None
        }),
    decreases n,
{
    if n > 0 {
        law_instruction_is_what_the_sources_supply(sources, low, n - 1, k);
    }
}

/// An address counts as mapped exactly when the region has it or it is below
/// 1 MiB.
pub proof fn law_mapped_addresses(memory: &TdpMemory<'_>, gpa: u64, mapped: bool)
    requires
        memory.wf(),
        gpa < u64::MAX,
        call_ensures(is_gpa_mapped, (memory, gpa), mapped),
    ensures
        mapped <==> gpa < 0x10_0000 || crate::partition::offset_in(
            memory.extents(),
            gpa as int,
            gpa + 1,
        ) is Some,
{
}

} // verus!
