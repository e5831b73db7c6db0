//! The memory and the slot of a partition.
//!
//! Under TD partitioning the L1 does not get to place guest memory: aliasing
//! publishes the L1's own guest physical address into the L2's Secure EPT, so
//! the guest's memory map is dictated by where the L1's pages happen to be.
use crate::driver::TdMemory;
use crate::driver::TdVmClaim;
use crate::driver::TdcallDevice;
use crate::error::AliasError;
use crate::error::TdpError;
use crate::hugemem::HugeRegion;
use crate::hugemem::Segment;
use crate::lowmem;
use std::ops::Range;
use vstd::prelude::*;

verus! {

/// The L2 slot to use. Slot 0 is the L1 itself, so an L2 starts at 1.
pub const FIRST_L2_SLOT: u8 = 1;

/// The first segment, from number `from` on, that a span lies in.
pub open spec fn find_span(segments: Seq<Segment>, start: int, end: int, from: int) -> Option<int>
    decreases segments.len() - from,
{
    if from < 0 || from >= segments.len() {
        None
    } else if segments[from].gpa <= start && end <= segments[from].end() {
        Some(from)
    } else {
        find_span(segments, start, end, from + 1)
    }
}

/// Where a span of guest physical memory lies in the region, if one segment
/// holds all of it.
pub open spec fn offset_in(segments: Seq<Segment>, start: int, end: int) -> Option<int> {
    match find_span(segments, start, end, 0) {
        Some(i) => Some(crate::hugemem::offset_of(segments, i) + (start - segments[i].gpa)),
        None => None,
    }
}

/// The number of the page that holds an address, if it is the region's.
pub open spec fn page_of(segments: Seq<Segment>, gpa: int) -> Option<int> {
    match offset_in(segments, gpa, gpa + 1) {
        Some(offset) => Some(offset / 0x1000),
        None => None,
    }
}

/// The guest physical address of a page of the region.
pub open spec fn page_gpa(segments: Seq<Segment>, page: int) -> int {
    crate::hugemem::address_at(segments, 0x1000 * page)
}

/// What [`find_span`] finds.
pub proof fn lemma_find_span(segments: Seq<Segment>, start: int, end: int, from: int)
    requires
        0 <= from,
    ensures
        find_span(segments, start, end, from) matches Some(i) ==> {
            &&& from <= i < segments.len()
            &&& segments[i].gpa <= start && end <= segments[i].end()
        },
        find_span(segments, start, end, from) is None ==> forall|i: int|
            from <= i < segments.len() ==> !((#[trigger] segments[i]).gpa <= start && end
                <= segments[i].end()),
    decreases segments.len() - from,
{
    if from < segments.len() && !(segments[from].gpa <= start && end <= segments[from].end()) {
        lemma_find_span(segments, start, end, from + 1);
    }
}

/// In well-formed segments only one holds a byte.
pub proof fn lemma_one_segment_holds(segments: Seq<Segment>, gpa: int, i: int)
    requires
        crate::hugemem::segments_wf(segments),
        0 <= i < segments.len(),
        segments[i].holds(gpa),
    ensures
        find_span(segments, gpa, gpa + 1, 0) == Some(i),
{
    lemma_find_span(segments, gpa, gpa + 1, 0);
    let found = find_span(segments, gpa, gpa + 1, 0);
    assert(found is Some);
    let j = found->0;
    if j < i {
        assert(segments[j].apart(segments[i]));
    } else if i < j {
        assert(segments[i].apart(segments[j]));
    }
}

/// Offsets are whole pages at segment boundaries.
pub proof fn lemma_offset_aligned(segments: Seq<Segment>, i: int)
    requires
        crate::hugemem::segments_wf(segments),
        0 <= i <= segments.len(),
    ensures
        crate::hugemem::offset_of(segments, i) % 0x1000 == 0,
    decreases i,
{
    if i > 0 {
        lemma_offset_aligned(segments, i - 1);
        crate::hugemem::lemma_offset_step(segments, i - 1);
        assert(segments[i - 1].wf());
    } else {
        assert(segments.subrange(0, 0) =~= Seq::<Segment>::empty());
    }
}

/// The page `k` pages into a segment.
pub proof fn lemma_page_in_segment(segments: Seq<Segment>, i: int, k: int)
    requires
        crate::hugemem::segments_wf(segments),
        0 <= i < segments.len(),
        0 <= 0x1000 * k < segments[i].len,
    ensures
        ({
            let page = crate::hugemem::offset_of(segments, i) as int / 0x1000 + k;
            &&& page_gpa(segments, page) == segments[i].gpa + 0x1000 * k
            &&& page_of(segments, segments[i].gpa + 0x1000 * k) == Some(page)
            &&& 0 <= page < crate::hugemem::total(segments) as int / 0x1000
        }),
{
    let base = crate::hugemem::offset_of(segments, i) as int;
    lemma_offset_aligned(segments, i);
    let page = base / 0x1000 + k;
    assert(0x1000 * page == base + 0x1000 * k);
    crate::hugemem::lemma_address_in_segment(segments, i, 0x1000 * page);
    lemma_one_segment_holds(segments, segments[i].gpa + 0x1000 * k, i);
    crate::hugemem::lemma_offsets_grow(segments, i, segments.len() as int);
    assert(segments[i].wf());
}

/// Every address of the region has one place in it, and every place one
/// address: looking an address up inverts [`crate::hugemem::address_at`].
pub proof fn law_offsets_invert_addresses(segments: Seq<Segment>, offset: int)
    requires
        crate::hugemem::segments_wf(segments),
        0 <= offset < crate::hugemem::total(segments),
    ensures
        ({
            let gpa = crate::hugemem::address_at(segments, offset);
            offset_in(segments, gpa, gpa + 1) == Some(offset)
        }),
{
    let i = lemma_segment_of_offset(segments, offset, 0);
    crate::hugemem::lemma_address_in_segment(segments, i, offset);
    let gpa = crate::hugemem::address_at(segments, offset);
    lemma_one_segment_holds(segments, gpa, i);
}

/// Some segment has the byte at an offset.
proof fn lemma_segment_of_offset(segments: Seq<Segment>, offset: int, from: int) -> (i: int)
    requires
        0 <= from < segments.len() || (from == 0 && offset < crate::hugemem::total(segments)),
        crate::hugemem::offset_of(segments, from) <= offset < crate::hugemem::total(segments),
    ensures
        0 <= i < segments.len(),
        crate::hugemem::offset_of(segments, i) <= offset < crate::hugemem::offset_of(segments, i)
            + segments[i].len,
    decreases segments.len() - from,
{
    assert(segments.len() > 0);
    crate::hugemem::lemma_offset_step(segments, from);
    if offset < crate::hugemem::offset_of(segments, from + 1) {
        from
    } else {
        if from + 1 == segments.len() {
            assert(segments.subrange(0, segments.len() as int) =~= segments);
        }
        lemma_segment_of_offset(segments, offset, from + 1)
    }
}

/// The bytes that a looked-up span names are the bytes at its addresses.
pub proof fn law_span_is_contiguous(segments: Seq<Segment>, start: int, end: int, k: int)
    requires
        crate::hugemem::segments_wf(segments),
        offset_in(segments, start, end) is Some,
        0 <= k < end - start,
    ensures
        ({
            let offset = offset_in(segments, start, end)->0;
            &&& 0 <= offset
            &&& offset + (end - start) <= crate::hugemem::total(segments)
            &&& crate::hugemem::address_at(segments, offset + k) == start + k
        }),
{
    lemma_find_span(segments, start, end, 0);
    let i = find_span(segments, start, end, 0)->0;
    let offset = offset_in(segments, start, end)->0;
    crate::hugemem::lemma_address_in_segment(segments, i, offset + k);
    crate::hugemem::lemma_offsets_grow(segments, i, segments.len() as int);
}

/// The pages among the first `n` of a range that still have to be granted.
pub open spec fn to_grant(segments: Seq<Segment>, aliased: Seq<bool>, start: int, n: int) -> Seq<
    u64,
>
    decreases n,
{
    if n <= 0 {
        Seq::empty()
    } else {
        let before = to_grant(segments, aliased, start, n - 1);
        let gpa = start + 0x1000 * (n - 1);
        if aliased[page_of(segments, gpa)->0] {
            before
        } else {
            before.push(gpa as u64)
        }
    }
}

/// The granted pages among the first `n` of the region that lie in a range.
pub open spec fn to_revoke(
    segments: Seq<Segment>,
    aliased: Seq<bool>,
    start: int,
    end: int,
    n: int,
) -> Seq<u64>
    decreases n,
{
    if n <= 0 {
        Seq::empty()
    } else {
        let before = to_revoke(segments, aliased, start, end, n - 1);
        let gpa = page_gpa(segments, n - 1);
        if aliased[n - 1] && start <= gpa < end {
            before.push(gpa as u64)
        } else {
            before
        }
    }
}

/// The record of granted pages after some pages were granted or revoked.
pub open spec fn after_marks(
    segments: Seq<Segment>,
    aliased: Seq<bool>,
    gpas: Seq<u64>,
    value: bool,
) -> Seq<bool>
    decreases gpas.len(),
{
    if gpas.len() == 0 {
        aliased
    } else {
        after_marks(segments, aliased, gpas.drop_last(), value).update(
            page_of(segments, gpas.last() as int)->0,
            value,
        )
    }
}

/// Whether a granted page has a byte in a range.
pub open spec fn aliased_in(segments: Seq<Segment>, aliased: Seq<bool>, start: int, end: int) -> bool {
    start < end && exists|page: int|
        #![trigger aliased[page]]
        0 <= page < aliased.len() && aliased[page] && page_gpa(segments, page) < end && start
            < page_gpa(segments, page) + 0x1000
}

/// The pages of an extent: how many there are before and after it, and the
/// address of each.
proof fn lemma_extent_pages(segments: Seq<Segment>, i: int)
    requires
        crate::hugemem::segments_wf(segments),
        0 <= i < segments.len(),
    ensures
        segments[i].wf(),
        ({
            let first = crate::hugemem::offset_of(segments, i) as int / 0x1000;
            let next = crate::hugemem::offset_of(segments, i + 1) as int / 0x1000;
            &&& next == first + segments[i].len as int / 0x1000
            &&& 0 <= first <= next <= crate::hugemem::total(segments) as int / 0x1000
            &&& forall|page: int|
                first <= page < next ==> #[trigger] page_gpa(segments, page) == segments[i].gpa
                    + 0x1000 * (page - first)
        }),
{
    let first = crate::hugemem::offset_of(segments, i) as int / 0x1000;
    let next = crate::hugemem::offset_of(segments, i + 1) as int / 0x1000;
    lemma_offset_aligned(segments, i);
    lemma_offset_aligned(segments, i + 1);
    crate::hugemem::lemma_offset_step(segments, i);
    crate::hugemem::lemma_offsets_grow(segments, i, segments.len() as int);
    assert(next == first + segments[i].len as int / 0x1000);
    assert forall|page: int| first <= page < next implies #[trigger] page_gpa(segments, page)
        == segments[i].gpa + 0x1000 * (page - first) by {
        lemma_page_in_segment(segments, i, page - first);
    }
}

proof fn lemma_nothing_to_revoke(
    segments: Seq<Segment>,
    aliased: Seq<bool>,
    start: int,
    end: int,
    from: int,
    to: int,
)
    requires
        0 <= from <= to,
        forall|page: int|
            from <= page < to ==> !(start <= #[trigger] page_gpa(segments, page) < end),
    ensures
        to_revoke(segments, aliased, start, end, to) == to_revoke(
            segments,
            aliased,
            start,
            end,
            from,
        ),
    decreases to - from,
{
    if from < to {
        lemma_nothing_to_revoke(segments, aliased, start, end, from, to - 1);
        assert(!(start <= page_gpa(segments, to - 1) < end));
    }
}

/// Guest memory: the region, and which of its pages the L2 can reach.
pub struct TdpMemory<'a> {
    region: HugeRegion<'a>,
    aliased: Vec<bool>,
}

impl<'a> TdpMemory<'a> {
    /// The bytes of the memory.
    pub closed spec fn bytes(&self) -> Seq<u8> {
        self.region.bytes()
    }

    /// The physical extents, in the order of the bytes.
    pub closed spec fn extents(&self) -> Seq<Segment> {
        self.region.extents()
    }

    /// Which pages the L2 can reach.
    pub closed spec fn aliased(&self) -> Seq<bool> {
        self.aliased@
    }

    /// The extents describe the bytes, and every page has its mark.
    pub open spec fn wf(&self) -> bool {
        &&& crate::hugemem::segments_wf(self.extents())
        &&& crate::hugemem::total(self.extents()) == self.bytes().len()
        &&& self.aliased().len() == self.bytes().len() / 0x1000
        &&& self.extents().len() > 0
        &&& self.bytes().len() <= usize::MAX
    }

    /// Memory of which the L2 can reach nothing yet.
    pub fn new(region: HugeRegion<'a>) -> (r: Self)
        requires
            region.wf(),
        ensures
            r.wf(),
            r.bytes() == region.bytes(),
            r.extents() == region.extents(),
            forall|page: int| 0 <= page < r.aliased().len() ==> !#[trigger] r.aliased()[page],
    {
        let pages: usize = region.len() / 4096;
        let aliased: Vec<bool> = vec![false;pages];
        TdpMemory { region, aliased }
    }

    /// The guest physical ranges this memory will appear at, which are not a
    /// choice.
    pub fn gpa_ranges(&self) -> (r: Vec<Range<u64>>)
        requires
            self.wf(),
        ensures
            r@.len() == self.extents().len(),
            forall|i: int|
                0 <= i < r@.len() ==> {
                    &&& (#[trigger] r@[i]).start == self.extents()[i].gpa
                    &&& r@[i].end == self.extents()[i].end()
                },
    {
        let mut ranges: Vec<Range<u64>> = Vec::new();
        let segments: &Vec<Segment> = self.region.segments();
        let mut i: usize = 0;
        while i < segments.len()
            invariant
                i <= segments@.len(),
                segments@ == self.extents(),
                self.wf(),
                ranges@.len() == i,
                forall|k: int|
                    0 <= k < i ==> {
                        &&& (#[trigger] ranges@[k]).start == self.extents()[k].gpa
                        &&& ranges@[k].end == self.extents()[k].end()
                    },
            decreases segments@.len() - i,
        {
            let segment: Segment = segments[i];
            assert(self.extents()[i as int].wf());
            ranges.push(segment.gpa..segment.gpa + segment.len as u64);
            i = i + 1;
        }
        ranges
    }

    pub fn region(&self) -> (r: &HugeRegion<'a>)
        ensures
            r.bytes() == self.bytes(),
            r.extents() == self.extents(),
    {
        &self.region
    }

    /// The memory itself. What is done to its bytes does not change which
    /// pages the L2 can reach.
    pub fn region_mut(&mut self) -> (r: &mut HugeRegion<'a>)
        ensures
            r.bytes() == old(self).bytes(),
            r.extents() == old(self).extents(),
            final(self).bytes() == final(r).bytes(),
            final(self).extents() == final(r).extents(),
            final(self).aliased() == old(self).aliased(),
    {
        &mut self.region
    }

    /// Where a span of `size` bytes lies in the memory.
    fn find(&self, start: u64, size: u64) -> (r: Option<usize>)
        requires
            self.wf(),
        ensures
            r == (if start + size > u64::MAX {
                None
            } else {
                match offset_in(self.extents(), start as int, start + size) {
                    Some(offset) => Some(offset as usize),
                    None => None,
                }
            }),
            r matches Some(offset) ==> {
                &&& offset_in(self.extents(), start as int, start + size) == Some(offset as int)
                &&& offset + size <= self.bytes().len()
            },
    {
        let end: u64 = match start.checked_add(size) {
            Some(end) => end,
            None => return None,
        };
        let segments: &Vec<Segment> = self.region.segments();
        let mut offset: usize = 0;
        let mut i: usize = 0;
        assert(self.extents().subrange(0, 0) =~= Seq::<Segment>::empty());
        while i < segments.len()
            invariant
                i <= segments@.len(),
                segments@ == self.extents(),
                self.wf(),
                end == start + size,
                offset == crate::hugemem::offset_of(self.extents(), i as int),
                find_span(self.extents(), start as int, end as int, 0) == find_span(
                    self.extents(),
                    start as int,
                    end as int,
                    i as int,
                ),
            decreases segments@.len() - i,
        {
            let segment: Segment = segments[i];
            proof {
                assert(self.extents()[i as int].wf());
                crate::hugemem::lemma_offset_step(self.extents(), i as int);
                crate::hugemem::lemma_offsets_grow(
                    self.extents(),
                    i as int,
                    self.extents().len() as int,
                );
            }
            let segment_end: u64 = segment.gpa + segment.len as u64;
            if start >= segment.gpa && end <= segment_end {
                return Some(offset + (start - segment.gpa) as usize);
            }
            offset = offset + segment.len;
            i = i + 1;
        }
        None
    }

    /// The page that holds an address.
    fn page_index(&self, gpa: u64) -> (r: Option<usize>)
        requires
            self.wf(),
            gpa < u64::MAX,
        ensures
            r == (match page_of(self.extents(), gpa as int) {
                Some(page) => Some(page as usize),
                None => None,
            }),
            r matches Some(page) ==> {
                &&& page < self.aliased().len()
                &&& page_of(self.extents(), gpa as int) == Some(page as int)
            },
    {
        match self.find(gpa, 1) {
            Some(offset) => {
                proof {
                    crate::partition::lemma_offset_aligned(
                        self.extents(),
                        self.extents().len() as int,
                    );
                    assert(self.extents().subrange(0, self.extents().len() as int)
                        =~= self.extents());
                }
                Some(offset / 4096)
            },
            None => None,
        }
    }

    /// Where `len` bytes of guest physical memory lie in the region, if one
    /// extent holds all of them.
    pub fn backing_offset(&self, gpa: u64, len: usize) -> (r: Option<usize>)
        requires
            self.wf(),
        ensures
            r == (if gpa + len > u64::MAX {
                None
            } else {
                match offset_in(self.extents(), gpa as int, gpa + len) {
                    Some(offset) => Some(offset as usize),
                    None => None,
                }
            }),
            r matches Some(offset) ==> {
                &&& offset_in(self.extents(), gpa as int, gpa + len) == Some(offset as int)
                &&& offset + len <= self.bytes().len()
            },
    {
        self.find(gpa, len as u64)
    }

    /// Whether one extent holds a whole range.
    pub fn contains_range(&self, range: Range<u64>) -> (r: bool)
        requires
            self.wf(),
        ensures
            r == (range.start <= range.end && offset_in(
                self.extents(),
                range.start as int,
                range.end as int,
            ) is Some),
    {
        if range.end < range.start {
            return false;
        }
        self.find(range.start, range.end - range.start).is_some()
    }

    /// Whether any page in the range has been aliased into the L2.
    pub fn any_aliased(&self, range: Range<u64>) -> (r: bool)
        requires
            self.wf(),
        ensures
            r == aliased_in(
                self.extents(),
                self.aliased(),
                range.start as int,
                range.end as int,
            ),
    {
        let segments: &Vec<Segment> = self.region.segments();
        let mut page_base: usize = 0;
        let mut i: usize = 0;
        assert(self.extents().subrange(0, 0) =~= Seq::<Segment>::empty());
        while i < segments.len()
            invariant
                i <= segments@.len(),
                segments@ == self.extents(),
                self.wf(),
                page_base == crate::hugemem::offset_of(self.extents(), i as int) as int / 0x1000,
                page_base <= self.aliased().len(),
                forall|page: int|
                    0 <= page < page_base ==> !(#[trigger] self.aliased()[page] && range.start
                        < range.end && page_gpa(self.extents(), page) < range.end && range.start
                        < page_gpa(self.extents(), page) + 0x1000),
            decreases segments@.len() - i,
        {
            let segment: Segment = segments[i];
            let ghost next = crate::hugemem::offset_of(self.extents(), i + 1) as int / 0x1000;
            proof {
                assert(self.extents()[i as int].wf());
                lemma_offset_aligned(self.extents(), i as int);
                lemma_offset_aligned(self.extents(), i + 1);
                crate::hugemem::lemma_offset_step(self.extents(), i as int);
                crate::hugemem::lemma_offsets_grow(
                    self.extents(),
                    i as int,
                    self.extents().len() as int,
                );
            }
            assert(next == page_base + segment.len as int / 0x1000);
            assert(next <= self.aliased().len());
            let segment_end: u64 = segment.gpa + segment.len as u64;
            let start: u64 = if range.start > segment.gpa {
                range.start
            } else {
                segment.gpa
            };
            let end: u64 = if range.end < segment_end {
                range.end
            } else {
                segment_end
            };
            assert forall|page: int| page_base <= page < next implies #[trigger] page_gpa(
                self.extents(),
                page,
            ) == segment.gpa + 0x1000 * (page - page_base) by {
                lemma_page_in_segment(self.extents(), i as int, page - page_base);
            }
            if start < end {
                let first: usize = page_base + ((start - segment.gpa) / 4096) as usize;
                let last: usize = page_base + ((end - segment.gpa - 1) / 4096) as usize + 1;
                assert(last <= next);
                let mut page: usize = first;
                while page < last
                    invariant
                        page_base <= first <= page <= last <= next,
                        next <= self.aliased().len(),
                        self.wf(),
                        segment == self.extents()[i as int],
                        first == page_base + (start - segment.gpa) / 4096,
                        last == page_base + (end - segment.gpa - 1) / 4096 + 1,
                        segment.gpa <= start < end <= segment.end(),
                        range.start <= start && end <= range.end,
                        start == range.start || start == segment.gpa,
                        end == range.end || end == segment.end(),
                        forall|p: int|
                            page_base <= p < next ==> #[trigger] page_gpa(self.extents(), p)
                                == segment.gpa + 0x1000 * (p - page_base),
                        forall|p: int| first <= p < page ==> !#[trigger] self.aliased()[p],
                    decreases last - page,
                {
                    if self.aliased[page] {
                        proof {
                            assert(page_gpa(self.extents(), page as int) == segment.gpa + 0x1000 * (
                            page - page_base));
                            assert(self.aliased()[page as int]);
                        }
                        return true;
                    }
                    page = page + 1;
                }
                assert forall|p: int| page_base <= p < next implies !(
                #[trigger] self.aliased()[p] && range.start < range.end && page_gpa(
                    self.extents(),
                    p,
                ) < range.end && range.start < page_gpa(self.extents(), p) + 0x1000) by {
                    assert(page_gpa(self.extents(), p) == segment.gpa + 0x1000 * (p - page_base));
                }
            } else {
                assert forall|p: int| page_base <= p < next implies !(
                #[trigger] self.aliased()[p] && range.start < range.end && page_gpa(
                    self.extents(),
                    p,
                ) < range.end && range.start < page_gpa(self.extents(), p) + 0x1000) by {
                    assert(page_gpa(self.extents(), p) == segment.gpa + 0x1000 * (p - page_base));
                }
            }
            page_base = page_base + segment.len / 4096;
            i = i + 1;
        }
        proof {
            assert(self.extents().subrange(0, self.extents().len() as int) =~= self.extents());
        }
        false
    }

    /// The pages of a range that have to be aliased into the L2, in order,
    /// leaving out those that already are. Each is granted read, write and
    /// execute access and then recorded with [`TdpMemory::granted`].
    #[verifier::rlimit(40)]
    pub fn map(&self, range: Range<u64>) -> (r: Result<Vec<u64>, AliasError>)
        requires
            self.wf(),
        ensures
            r is Ok <==> range.start % 0x1000 == 0 && range.end % 0x1000 == 0 && range.start
                <= range.end && offset_in(
                self.extents(),
                range.start as int,
                range.end as int,
            ) is Some,
            r matches Ok(pages) ==> pages@ == to_grant(
                self.extents(),
                self.aliased(),
                range.start as int,
                (range.end - range.start) / 0x1000,
            ),
            r matches Err(err) ==> err == (if range.start % 0x1000 != 0 || range.end % 0x1000 != 0 {
                AliasError::Unaligned { start: range.start, end: range.end }
            } else {
                AliasError::OutsideExtent { start: range.start, end: range.end }
            }),
    {
        let start: u64 = range.start;
        let end: u64 = range.end;
        if start % 4096 != 0 || end % 4096 != 0 {
            return Err(AliasError::Unaligned { start, end });
        }
        if !self.contains_range(range) {
            return Err(AliasError::OutsideExtent { start, end });
        }
        let ghost segment = find_span(self.extents(), start as int, end as int, 0)->0;
        proof {
            lemma_find_span(self.extents(), start as int, end as int, 0);
            assert(self.extents()[segment].wf());
        }
        let mut pages: Vec<u64> = Vec::new();
        let mut gpa: u64 = start;
        let ghost mut n: int = 0;
        while gpa < end
            invariant
                self.wf(),
                0 <= segment < self.extents().len(),
                self.extents()[segment].gpa <= start <= gpa <= end <= self.extents()[segment].end(),
                0 <= n,
                gpa == start + 0x1000 * n,
                (end - gpa) % 0x1000 == 0,
                pages@ == to_grant(self.extents(), self.aliased(), start as int, n),
            decreases end - gpa,
        {
            proof {
                lemma_one_segment_holds(self.extents(), gpa as int, segment);
                n = n + 1;
            }
            match self.page_index(gpa) {
                Some(index) => {
                    if !self.aliased[index] {
                        pages.push(gpa);
                    }
                },
                None => return Err(AliasError::OutsideExtent { start, end }),
            }
            gpa = gpa + 4096;
        }
        Ok(pages)
    }

    /// The L2 can now reach a page.
    pub fn granted(&mut self, gpa: u64)
        requires
            old(self).wf(),
            page_of(old(self).extents(), gpa as int) is Some,
        ensures
            final(self).wf(),
            final(self).bytes() == old(self).bytes(),
            final(self).extents() == old(self).extents(),
            final(self).aliased() == old(self).aliased().update(
                page_of(old(self).extents(), gpa as int)->0,
                true,
            ),
    {
        self.mark(gpa, true);
    }

    /// The L2 can no longer reach a page.
    pub fn revoked(&mut self, gpa: u64)
        requires
            old(self).wf(),
            page_of(old(self).extents(), gpa as int) is Some,
        ensures
            final(self).wf(),
            final(self).bytes() == old(self).bytes(),
            final(self).extents() == old(self).extents(),
            final(self).aliased() == old(self).aliased().update(
                page_of(old(self).extents(), gpa as int)->0,
                false,
            ),
    {
        self.mark(gpa, false);
    }

    fn mark(&mut self, gpa: u64, value: bool)
        requires
            old(self).wf(),
            page_of(old(self).extents(), gpa as int) is Some,
        ensures
            final(self).wf(),
            final(self).bytes() == old(self).bytes(),
            final(self).extents() == old(self).extents(),
            final(self).aliased() == old(self).aliased().update(
                page_of(old(self).extents(), gpa as int)->0,
                value,
            ),
    {
        proof {
            lemma_find_span(self.extents(), gpa as int, gpa + 1, 0);
            let i = find_span(self.extents(), gpa as int, gpa + 1, 0)->0;
            assert(self.extents()[i].wf());
        }
        if let Some(index) = self.page_index(gpa) {
            self.aliased.set(index, value);
        }
    }

    /// Collect the granted pages of a range that lie in one extent, behind those
    /// of the extents before it.
    #[verifier::rlimit(40)]
    fn unmap_extent(&self, i: usize, page_base: usize, low: u64, high: u64, pages: &mut Vec<u64>)
        requires
            self.wf(),
            i < self.extents().len(),
            low % 0x1000 == 0 && high % 0x1000 == 0,
            page_base == crate::hugemem::offset_of(self.extents(), i as int) as int / 0x1000,
            old(pages)@ == to_revoke(
                self.extents(),
                self.aliased(),
                low as int,
                high as int,
                page_base as int,
            ),
        ensures
            final(pages)@ == to_revoke(
                self.extents(),
                self.aliased(),
                low as int,
                high as int,
                crate::hugemem::offset_of(self.extents(), i + 1) as int / 0x1000,
            ),
    {
        let segment: Segment = self.region.segments()[i];
        let ghost next = crate::hugemem::offset_of(self.extents(), i + 1) as int / 0x1000;
        proof {
            lemma_extent_pages(self.extents(), i as int);
        }
        let segment_end: u64 = segment.gpa + segment.len as u64;
        let start: u64 = if low > segment.gpa {
            low
        } else {
            segment.gpa
        };
        let end: u64 = if high < segment_end {
            high
        } else {
            segment_end
        };
        if start >= end {
            proof {
                lemma_nothing_to_revoke(
                    self.extents(),
                    self.aliased(),
                    low as int,
                    high as int,
                    page_base as int,
                    next,
                );
            }
            return;
        }
        proof {
            lemma_nothing_to_revoke(
                self.extents(),
                self.aliased(),
                low as int,
                high as int,
                page_base as int,
                page_base + (start - segment.gpa) / 0x1000,
            );
        }
        let mut gpa: u64 = start;
        while gpa < end
            invariant
                self.wf(),
                next <= self.aliased().len(),
                next == page_base + segment.len as int / 0x1000,
                segment.len % 0x1000 == 0,
                segment.gpa % 0x1000 == 0,
                segment.gpa <= start <= gpa <= end <= segment.end(),
                low <= start && end <= high,
                start % 0x1000 == 0 && gpa % 0x1000 == 0 && end % 0x1000 == 0,
                segment.end() <= u64::MAX,
                forall|p: int|
                    page_base <= p < next ==> #[trigger] page_gpa(self.extents(), p) == segment.gpa
                        + 0x1000 * (p - page_base),
                pages@ == to_revoke(
                    self.extents(),
                    self.aliased(),
                    low as int,
                    high as int,
                    page_base + (gpa - segment.gpa) / 0x1000,
                ),
            decreases end - gpa,
        {
            let index: usize = page_base + ((gpa - segment.gpa) / 4096) as usize;
            assert(page_gpa(self.extents(), index as int) == gpa);
            if self.aliased[index] {
                pages.push(gpa);
            }
            gpa = gpa + 4096;
            assert(page_base + (gpa - segment.gpa) / 0x1000 == index + 1);
        }
        proof {
            lemma_nothing_to_revoke(
                self.extents(),
                self.aliased(),
                low as int,
                high as int,
                page_base + (end - segment.gpa) / 0x1000,
                next,
            );
        }
    }

    /// The granted pages of a range, which all have to be revoked. Each is
    /// recorded with [`TdpMemory::revoked`] once it is. Pages that were never
    /// granted, and addresses outside the memory, are left out.
    pub fn unmap(&self, range: Range<u64>) -> (r: Result<Vec<u64>, AliasError>)
        requires
            self.wf(),
        ensures
            r is Ok <==> range.start % 0x1000 == 0 && range.end % 0x1000 == 0,
            r matches Ok(pages) ==> pages@ == to_revoke(
                self.extents(),
                self.aliased(),
                range.start as int,
                range.end as int,
                self.aliased().len() as int,
            ),
            r matches Err(err) ==> err == (AliasError::Unaligned {
                start: range.start,
                end: range.end,
            }),
    {
        if range.start % 4096 != 0 || range.end % 4096 != 0 {
            return Err(AliasError::Unaligned { start: range.start, end: range.end });
        }
        let segments: &Vec<Segment> = self.region.segments();
        let mut pages: Vec<u64> = Vec::new();
        let mut page_base: usize = 0;
        let mut i: usize = 0;
        assert(self.extents().subrange(0, 0) =~= Seq::<Segment>::empty());
        while i < segments.len()
            invariant
                i <= segments@.len(),
                segments@ == self.extents(),
                self.wf(),
                range.start % 0x1000 == 0 && range.end % 0x1000 == 0,
                page_base == crate::hugemem::offset_of(self.extents(), i as int) as int / 0x1000,
                pages@ == to_revoke(
                    self.extents(),
                    self.aliased(),
                    range.start as int,
                    range.end as int,
                    page_base as int,
                ),
            decreases segments@.len() - i,
        {
            proof {
                lemma_extent_pages(self.extents(), i as int);
            }
            self.unmap_extent(i, page_base, range.start, range.end, &mut pages);
            page_base = page_base + segments[i].len / 4096;
            i = i + 1;
        }
        assert(self.extents().subrange(0, self.extents().len() as int) =~= self.extents());
        Ok(pages)
    }

    /// Every granted page.
    pub fn unmap_all(&self) -> (r: Vec<u64>)
        requires
            self.wf(),
        ensures
            r@ == to_revoke(
                self.extents(),
                self.aliased(),
                0,
                0x1_0000_0000_0000_0000,
                self.aliased().len() as int,
            ),
    {
        let last_page: u64 = 0xffff_ffff_ffff_f000;
        proof {
            assert forall|page: int| 0 <= page < self.aliased().len() implies 0
                <= #[trigger] page_gpa(self.extents(), page) < last_page by {
                let i = lemma_segment_of_offset(self.extents(), 0x1000 * page, 0);
                assert(self.extents()[i].wf());
                crate::hugemem::lemma_address_in_segment(self.extents(), i, 0x1000 * page);
            }
            lemma_same_range(
                self.extents(),
                self.aliased(),
                last_page as int,
                0x1_0000_0000_0000_0000,
                self.aliased().len() as int,
            );
            assert(self.extents().subrange(0, 0) =~= Seq::<Segment>::empty());
        }
        match self.unmap(0..last_page) {
            Ok(pages) => pages,
            Err(_) => Vec::new(),
        }
    }
}

/// Ranges that hold the same pages have the same ones to revoke.
proof fn lemma_same_range(
    segments: Seq<Segment>,
    aliased: Seq<bool>,
    end1: int,
    end2: int,
    n: int,
)
    requires
        forall|page: int|
            0 <= page < n ==> 0 <= #[trigger] page_gpa(segments, page) < end1 && page_gpa(
                segments,
                page,
            ) < end2,
    ensures
        to_revoke(segments, aliased, 0, end1, n) == to_revoke(segments, aliased, 0, end2, n),
    decreases n,
{
    if n > 0 {
        lemma_same_range(segments, aliased, end1, end2, n - 1);
        assert(0 <= page_gpa(segments, n - 1) < end1);
    }
}

/// Marking pages leaves the other marks alone and sets each of theirs.
proof fn lemma_marks(
    segments: Seq<Segment>,
    aliased: Seq<bool>,
    gpas: Seq<u64>,
    value: bool,
    page: int,
)
    requires
        0 <= page < aliased.len(),
        forall|k: int|
            0 <= k < gpas.len() ==> {
                &&& page_of(segments, #[trigger] gpas[k] as int) is Some
                &&& 0 <= page_of(segments, gpas[k] as int)->0 < aliased.len()
            },
    ensures
        after_marks(segments, aliased, gpas, value).len() == aliased.len(),
        after_marks(segments, aliased, gpas, value)[page] == (if exists|k: int|
            #![trigger gpas[k]]
            0 <= k < gpas.len() && page_of(segments, gpas[k] as int) == Some(page) {
            value
        } else {
            aliased[page]
        }),
    decreases gpas.len(),
{
    if gpas.len() > 0 {
        let rest = gpas.drop_last();
        assert forall|k: int| 0 <= k < rest.len() implies {
            &&& page_of(segments, #[trigger] rest[k] as int) is Some
            &&& 0 <= page_of(segments, rest[k] as int)->0 < aliased.len()
        } by {
            assert(rest[k] == gpas[k]);
        }
        lemma_marks(segments, aliased, rest, value, page);
        let last = gpas[gpas.len() - 1];
        if exists|k: int|
            #![trigger gpas[k]]
            0 <= k < gpas.len() && page_of(segments, gpas[k] as int) == Some(page) {
            let k = choose|k: int|
                #![trigger gpas[k]]
                0 <= k < gpas.len() && page_of(segments, gpas[k] as int) == Some(page);
            if k < gpas.len() - 1 {
                assert(rest[k] == gpas[k]);
            }
        }
        if exists|k: int|
            #![trigger rest[k]]
            0 <= k < rest.len() && page_of(segments, rest[k] as int) == Some(page) {
            let k = choose|k: int|
                #![trigger rest[k]]
                0 <= k < rest.len() && page_of(segments, rest[k] as int) == Some(page);
            assert(rest[k] == gpas[k]);
        }
    }
}

/// What a plan to grant a range names: pages of the range that were not
/// granted, all of them.
pub proof fn law_map_names_what_is_missing(
    segments: Seq<Segment>,
    aliased: Seq<bool>,
    start: int,
    n: int,
    gpa: u64,
)
    requires
        0 <= n,
        0 <= start,
        start + 0x1000 * n <= u64::MAX,
        start % 0x1000 == 0,
    ensures
        to_grant(segments, aliased, start, n).contains(gpa) <==> start <= gpa < start + 0x1000 * n
            && gpa % 0x1000 == 0 && !aliased[page_of(segments, gpa as int)->0],
    decreases n,
{
    if n > 0 {
        law_map_names_what_is_missing(segments, aliased, start, n - 1, gpa);
        let before = to_grant(segments, aliased, start, n - 1);
        let last = (start + 0x1000 * (n - 1)) as u64;
        if !aliased[page_of(segments, last as int)->0] {
            let all = before.push(last);
            if all.contains(gpa) && gpa != last {
                let k = choose|k: int| 0 <= k < all.len() && all[k] == gpa;
                assert(before[k] == gpa);
            }
            if before.contains(gpa) {
                let k = choose|k: int| 0 <= k < before.len() && before[k] == gpa;
                assert(all[k] == gpa);
            }
            assert(all[all.len() - 1] == last);
        }
    }
}

/// What a plan to revoke a range names: granted pages of the range, all of
/// them.
pub proof fn law_unmap_names_what_is_granted(
    segments: Seq<Segment>,
    aliased: Seq<bool>,
    start: int,
    end: int,
    n: int,
    page: int,
)
    requires
        crate::hugemem::segments_wf(segments),
        0 <= page < n <= crate::hugemem::total(segments) as int / 0x1000,
    ensures
        to_revoke(segments, aliased, start, end, n).contains(page_gpa(segments, page) as u64)
            <==> aliased[page] && start <= page_gpa(segments, page) < end,
        page_of(segments, page_gpa(segments, page)) == Some(page),
        0 <= page_gpa(segments, page) <= u64::MAX,
{
    lemma_revoked_members(segments, aliased, start, end, n, page);
    lemma_page_address(segments, page);
}

/// The address of a page is an address, and leads back to the page.
proof fn lemma_page_address(segments: Seq<Segment>, page: int)
    requires
        crate::hugemem::segments_wf(segments),
        0 <= page < crate::hugemem::total(segments) as int / 0x1000,
    ensures
        page_of(segments, page_gpa(segments, page)) == Some(page),
        0 <= page_gpa(segments, page) <= u64::MAX,
        page_gpa(segments, page) % 0x1000 == 0,
{
    assert(segments.subrange(0, 0) =~= Seq::<Segment>::empty());
    let i = lemma_segment_of_offset(segments, 0x1000 * page, 0);
    assert(segments[i].wf());
    lemma_offset_aligned(segments, i);
    crate::hugemem::lemma_address_in_segment(segments, i, 0x1000 * page);
    law_offsets_invert_addresses(segments, 0x1000 * page);
}

proof fn lemma_revoked_members(
    segments: Seq<Segment>,
    aliased: Seq<bool>,
    start: int,
    end: int,
    n: int,
    page: int,
)
    requires
        crate::hugemem::segments_wf(segments),
        0 <= n <= crate::hugemem::total(segments) as int / 0x1000,
        0 <= page < crate::hugemem::total(segments) as int / 0x1000,
    ensures
        to_revoke(segments, aliased, start, end, n).contains(page_gpa(segments, page) as u64)
            <==> page < n && aliased[page] && start <= page_gpa(segments, page) < end,
    decreases n,
{
    if n > 0 {
        lemma_revoked_members(segments, aliased, start, end, n - 1, page);
        lemma_page_address(segments, page);
        lemma_page_address(segments, n - 1);
        let before = to_revoke(segments, aliased, start, end, n - 1);
        let last = page_gpa(segments, n - 1) as u64;
        let gpa = page_gpa(segments, page) as u64;
        let all = before.push(last);
        if all.contains(gpa) && gpa != last {
            let k = choose|k: int| 0 <= k < all.len() && all[k] == gpa;
            assert(before[k] == gpa);
        }
        if before.contains(gpa) {
            let k = choose|k: int| 0 <= k < before.len() && before[k] == gpa;
            assert(all[k] == gpa);
        }
        assert(all[all.len() - 1] == last);
    }
}

/// Each page that a plan to revoke names is one of the region's.
proof fn lemma_revoked_are_pages(
    segments: Seq<Segment>,
    aliased: Seq<bool>,
    start: int,
    end: int,
    n: int,
)
    requires
        crate::hugemem::segments_wf(segments),
        aliased.len() == crate::hugemem::total(segments) as int / 0x1000,
        0 <= n <= aliased.len(),
    ensures
        are_pages(segments, aliased.len() as int, to_revoke(segments, aliased, start, end, n)),
    decreases n,
{
    if n > 0 {
        lemma_revoked_are_pages(segments, aliased, start, end, n - 1);
        lemma_page_address(segments, n - 1);
    }
}

/// Whether some addresses are those of pages of the region.
spec fn are_pages(segments: Seq<Segment>, pages: int, gpas: Seq<u64>) -> bool {
    forall|k: int|
        0 <= k < gpas.len() ==> {
            let page = page_of(segments, #[trigger] gpas[k] as int);
            &&& page is Some
            &&& 0 <= page->0 < pages
            &&& page_gpa(segments, page->0) == gpas[k]
        }
}

/// Marking pages sets the marks of those that are named.
proof fn lemma_marks_of_pages(
    segments: Seq<Segment>,
    aliased: Seq<bool>,
    gpas: Seq<u64>,
    value: bool,
    page: int,
)
    requires
        crate::hugemem::segments_wf(segments),
        aliased.len() == crate::hugemem::total(segments) as int / 0x1000,
        0 <= page < aliased.len(),
        are_pages(segments, aliased.len() as int, gpas),
    ensures
        after_marks(segments, aliased, gpas, value).len() == aliased.len(),
        after_marks(segments, aliased, gpas, value)[page] == (if gpas.contains(
            page_gpa(segments, page) as u64,
        ) {
            value
        } else {
            aliased[page]
        }),
{
    lemma_marks(segments, aliased, gpas, value, page);
    lemma_page_address(segments, page);
    let gpa = page_gpa(segments, page) as u64;
    if gpas.contains(gpa) {
        let k = choose|k: int| 0 <= k < gpas.len() && gpas[k] == gpa;
        assert(page_of(segments, gpas[k] as int) == Some(page));
    }
    if exists|k: int|
        #![trigger gpas[k]]
        0 <= k < gpas.len() && page_of(segments, gpas[k] as int) == Some(page) {
        let k = choose|k: int|
            #![trigger gpas[k]]
            0 <= k < gpas.len() && page_of(segments, gpas[k] as int) == Some(page);
        assert(gpas[k] == gpa);
    }
}

/// A page address in an extent is that of one of the region's pages.
#[verifier::rlimit(40)]
proof fn lemma_page_at(segments: Seq<Segment>, i: int, gpa: int)
    requires
        crate::hugemem::segments_wf(segments),
        0 <= i < segments.len(),
        segments[i].holds(gpa),
        gpa % 0x1000 == 0,
    ensures
        page_of(segments, gpa) is Some,
        0 <= page_of(segments, gpa)->0 < crate::hugemem::total(segments) as int / 0x1000,
        page_gpa(segments, page_of(segments, gpa)->0) == gpa,
{
    assert(segments[i].wf());
    let k = (gpa - segments[i].gpa) / 0x1000;
    assert(gpa == segments[i].gpa + 0x1000 * k);
    lemma_page_in_segment(segments, i, k);
}

/// Each page that a plan to grant names is one of the region's.
#[verifier::rlimit(40)]
proof fn lemma_granted_are_pages(segments: Seq<Segment>, aliased: Seq<bool>, start: int, n: int)
    requires
        crate::hugemem::segments_wf(segments),
        aliased.len() == crate::hugemem::total(segments) as int / 0x1000,
        0 <= start,
        0 <= n,
        start % 0x1000 == 0,
        offset_in(segments, start, start + 0x1000 * n) is Some,
    ensures
        are_pages(segments, aliased.len() as int, to_grant(segments, aliased, start, n)),
{
    let plan = to_grant(segments, aliased, start, n);
    let end = start + 0x1000 * n;
    lemma_find_span(segments, start, end, 0);
    let i = find_span(segments, start, end, 0)->0;
    assert(segments[i].wf());
    assert forall|k: int| 0 <= k < plan.len() implies {
        let page = page_of(segments, #[trigger] plan[k] as int);
        &&& page is Some
        &&& 0 <= page->0 < aliased.len()
        &&& page_gpa(segments, page->0) == plan[k]
    } by {
        let gpa = plan[k];
        assert(plan.contains(gpa));
        assert(start <= gpa < end && gpa % 0x1000 == 0) by {
            law_map_names_what_is_missing(segments, aliased, start, n, gpa);
        }
        lemma_page_at(segments, i, gpa as int);
    }
}

/// Revoking a range is complete and takes nothing else: once every page that
/// [`TdpMemory::unmap`] names has been revoked, the L2 can reach exactly the pages
/// it could reach before that lie outside the range.
pub proof fn law_unmap_revokes_exactly_its_range(
    segments: Seq<Segment>,
    aliased: Seq<bool>,
    start: int,
    end: int,
    page: int,
)
    requires
        crate::hugemem::segments_wf(segments),
        aliased.len() == crate::hugemem::total(segments) as int / 0x1000,
        0 <= page < aliased.len(),
    ensures
        ({
            let plan = to_revoke(segments, aliased, start, end, aliased.len() as int);
            let after = after_marks(segments, aliased, plan, false);
            &&& after.len() == aliased.len()
            &&& after[page] == (aliased[page] && !(start <= page_gpa(segments, page) < end))
        }),
{
    let n = aliased.len() as int;
    lemma_revoked_are_pages(segments, aliased, start, end, n);
    lemma_marks_of_pages(
        segments,
        aliased,
        to_revoke(segments, aliased, start, end, n),
        false,
        page,
    );
    law_unmap_names_what_is_granted(segments, aliased, start, end, n, page);
}

/// Teardown is complete: once every page that [`TdpMemory::unmap_all`] names
/// has been revoked, the L2 can reach no page.
pub proof fn law_unmap_all_leaves_nothing(segments: Seq<Segment>, aliased: Seq<bool>, page: int)
    requires
        crate::hugemem::segments_wf(segments),
        aliased.len() == crate::hugemem::total(segments) as int / 0x1000,
        0 <= page < aliased.len(),
    ensures
        !after_marks(
            segments,
            aliased,
            to_revoke(segments, aliased, 0, 0x1_0000_0000_0000_0000, aliased.len() as int),
            false,
        )[page],
{
    law_unmap_revokes_exactly_its_range(segments, aliased, 0, 0x1_0000_0000_0000_0000, page);
    lemma_page_address(segments, page);
}

/// Granting a range is complete and gives nothing else: once every page that
/// [`TdpMemory::map`] names has been granted, the L2 can reach exactly the pages
/// it could reach before and those of the range.
#[verifier::rlimit(40)]
pub proof fn law_map_grants_exactly_its_range(
    segments: Seq<Segment>,
    aliased: Seq<bool>,
    start: int,
    n: int,
    page: int,
)
    requires
        crate::hugemem::segments_wf(segments),
        aliased.len() == crate::hugemem::total(segments) as int / 0x1000,
        0 <= start,
        0 <= n,
        start % 0x1000 == 0,
        offset_in(segments, start, start + 0x1000 * n) is Some,
        0 <= page < aliased.len(),
    ensures
        ({
            let plan = to_grant(segments, aliased, start, n);
            let after = after_marks(segments, aliased, plan, true);
            &&& after.len() == aliased.len()
            &&& after[page] == (aliased[page] || start <= page_gpa(segments, page) < start + 0x1000
                * n)
        }),
{
    lemma_granted_are_pages(segments, aliased, start, n);
    lemma_find_span(segments, start, start + 0x1000 * n, 0);
    assert(start + 0x1000 * n <= u64::MAX) by {
        assert(segments[find_span(segments, start, start + 0x1000 * n, 0)->0].wf());
    }
    lemma_marks_of_pages(segments, aliased, to_grant(segments, aliased, start, n), true, page);
    lemma_page_address(segments, page);
    law_map_names_what_is_missing(
        segments,
        aliased,
        start,
        n,
        page_gpa(segments, page) as u64,
    );
}

/// Revoking undoes granting: a range of which the L2 could reach no page, granted
/// and then revoked, leaves the record of granted pages as it was.
#[verifier::rlimit(40)]
pub proof fn law_unmap_undoes_map(segments: Seq<Segment>, aliased: Seq<bool>, start: int, n: int)
    requires
        crate::hugemem::segments_wf(segments),
        aliased.len() == crate::hugemem::total(segments) as int / 0x1000,
        0 <= start,
        0 <= n,
        start % 0x1000 == 0,
        offset_in(segments, start, start + 0x1000 * n) is Some,
        !aliased_in(segments, aliased, start, start + 0x1000 * n),
    ensures
        ({
            let granted = after_marks(segments, aliased, to_grant(segments, aliased, start, n), true);
            let plan = to_revoke(
                segments,
                granted,
                start,
                start + 0x1000 * n,
                granted.len() as int,
            );
            after_marks(segments, granted, plan, false) == aliased
        }),
{
    let end = start + 0x1000 * n;
    let granted = after_marks(segments, aliased, to_grant(segments, aliased, start, n), true);
    if aliased.len() == 0 {
        lemma_find_span(segments, start, end, 0);
        let i = find_span(segments, start, end, 0)->0;
        crate::hugemem::lemma_offsets_grow(segments, i, segments.len() as int);
        lemma_offset_aligned(segments, segments.len() as int);
        assert(segments.subrange(0, segments.len() as int) =~= segments);
        assert(n == 0);
        assert(to_grant(segments, aliased, start, n) =~= Seq::<u64>::empty());
    } else {
        law_map_grants_exactly_its_range(segments, aliased, start, n, 0);
        law_unmap_revokes_exactly_its_range(segments, granted, start, end, 0);
    }
    let plan = to_revoke(segments, granted, start, end, granted.len() as int);
    let after = after_marks(segments, granted, plan, false);
    assert forall|page: int| 0 <= page < aliased.len() implies after[page] == aliased[page] by {
        law_map_grants_exactly_its_range(segments, aliased, start, n, page);
        law_unmap_revokes_exactly_its_range(segments, granted, start, end, page);
    }
    assert(after =~= aliased);
}

/// Granting a range twice issues no call the second time: once the pages that
/// [`TdpMemory::map`] names have been granted, it names none.
pub proof fn law_map_is_idempotent(segments: Seq<Segment>, aliased: Seq<bool>, start: int, n: int)
    requires
        crate::hugemem::segments_wf(segments),
        aliased.len() == crate::hugemem::total(segments) as int / 0x1000,
        0 <= start,
        0 <= n,
        start % 0x1000 == 0,
        offset_in(segments, start, start + 0x1000 * n) is Some,
    ensures
        to_grant(
            segments,
            after_marks(segments, aliased, to_grant(segments, aliased, start, n), true),
            start,
            n,
        ) == Seq::<u64>::empty(),
{
    let after = after_marks(segments, aliased, to_grant(segments, aliased, start, n), true);
    let again = to_grant(segments, after, start, n);
    if again.len() > 0 {
        let gpa = again[0];
        let page = page_of(segments, gpa as int)->0;
        lemma_find_span(segments, start, start + 0x1000 * n, 0);
        let i = find_span(segments, start, start + 0x1000 * n, 0)->0;
        assert(segments[i].wf());
        law_map_names_what_is_missing(segments, after, start, n, gpa);
        assert(again.contains(gpa));
        lemma_page_at(segments, i, gpa as int);
        law_map_grants_exactly_its_range(segments, aliased, start, n, page);
    }
    assert(again =~= Seq::<u64>::empty());
}

/// What mapping a range calls for.
#[derive(Debug)]
pub enum MapRange {
    /// The range is below 1 MiB. The boot-reserved part of it is published
    /// just before the first entry, after the loader has populated it.
    Deferred,
    /// These pages have to be granted.
    Grant(Vec<u64>),
}

impl<'a> TdpMemory<'a> {
    /// Map `size` bytes at `addr`.
    ///
    /// This does not place anything. A guest's physical address is the L1's, so
    /// a mapping is an assertion that the pages already live at this address,
    /// followed by aliasing them into the L2. Anything else is rejected,
    /// because a silently misplaced range would surface as the guest reading
    /// someone else's memory.
    pub fn map_range(&self, size: usize, addr: u64) -> (r: Result<MapRange, AliasError>)
        requires
            self.wf(),
            addr + size <= u64::MAX,
        ensures
            r is Ok && r->Ok_0 is Deferred <==> addr + size <= lowmem::LOW_MEMORY_END,
            addr + size > lowmem::LOW_MEMORY_END ==> {
                let inside = offset_in(self.extents(), addr as int, addr + size) is Some;
                let aligned = addr % 0x1000 == 0 && (addr + size) % 0x1000 == 0;
                &&& r is Ok <==> inside && aligned
                &&& r matches Ok(MapRange::Grant(pages)) ==> pages@ == to_grant(
                    self.extents(),
                    self.aliased(),
                    addr as int,
                    size as int / 0x1000,
                )
                &&& r matches Err(err) ==> err == (if inside {
                    AliasError::Unaligned { start: addr, end: (addr + size) as u64 }
                } else {
                    AliasError::OutsideExtent { start: addr, end: (addr + size) as u64 }
                })
            },
    {
        let end: u64 = addr + size as u64;
        if end <= lowmem::LOW_MEMORY_END {
            return Ok(MapRange::Deferred);
        }
        if !self.contains_range(addr..end) {
            return Err(AliasError::OutsideExtent { start: addr, end });
        }
        match self.map(addr..end) {
            Ok(pages) => Ok(MapRange::Grant(pages)),
            Err(err) => Err(err),
        }
    }

    /// Unmap `size` bytes at `addr`: the pages that have to be revoked.
    ///
    /// The VMM clears the whole address space before it maps anything, and most
    /// of that space is not this L2's memory, so a range without a granted page
    /// needs nothing, whatever its ends.
    pub fn unmap_range(&self, addr: u64, size: u64) -> (r: Result<Vec<u64>, AliasError>)
        requires
            self.wf(),
        ensures
            ({
                let end = addr + size;
                let any = aliased_in(self.extents(), self.aliased(), addr as int, end);
                let aligned = addr % 0x1000 == 0 && end % 0x1000 == 0;
                &&& r is Ok <==> end <= u64::MAX && (any ==> aligned)
                &&& r matches Ok(pages) ==> pages@ == (if any {
                    to_revoke(
                        self.extents(),
                        self.aliased(),
                        addr as int,
                        end,
                        self.aliased().len() as int,
                    )
                } else {
                    Seq::<u64>::empty()
                })
                &&& r matches Err(err) ==> err == (if end > u64::MAX {
                    AliasError::RangeOverflow { start: addr, size }
                } else {
                    AliasError::Unaligned { start: addr, end: end as u64 }
                })
            }),
    {
        let end: u64 = match addr.checked_add(size) {
            Some(end) => end,
            None => return Err(AliasError::RangeOverflow { start: addr, size }),
        };
        if !self.any_aliased(addr..end) {
            return Ok(Vec::new());
        }
        self.unmap(addr..end)
    }

    /// Refuse a layout that does not match where the memory actually is.
    ///
    /// Below 1 MiB is the hole the guest cannot own and the VMM fills in by
    /// emulation; it is deliberately not this partition's memory.
    pub fn check_layout(&self, ram: &Vec<Range<u64>>) -> (r: Result<(), TdpError>)
        requires
            self.wf(),
        ensures
            r is Ok <==> forall|i: int|
                0 <= i < ram@.len() ==> fits_layout(self.extents(), #[trigger] ram@[i]),
            r matches Err(err) ==> exists|i: int|
                #![trigger ram@[i]]
                {
                    &&& 0 <= i < ram@.len()
                    &&& !fits_layout(self.extents(), ram@[i])
                    &&& forall|j: int| 0 <= j < i ==> fits_layout(self.extents(), #[trigger] ram@[j])
                    &&& err matches TdpError::MemoryLayout { requested, available }
                    &&& requested.start == ram@[i].start && requested.end == ram@[i].end
                    &&& available@.len() == self.extents().len()
                    &&& forall|k: int|
                        0 <= k < available@.len() ==> {
                            &&& (#[trigger] available@[k]).start == self.extents()[k].gpa
                            &&& available@[k].end == self.extents()[k].end()
                        }
                },
    {
        let mut i: usize = 0;
        while i < ram.len()
            invariant
                i <= ram@.len(),
                self.wf(),
                forall|j: int| 0 <= j < i ==> fits_layout(self.extents(), #[trigger] ram@[j]),
            decreases ram@.len() - i,
        {
            let start: u64 = ram[i].start;
            let end: u64 = ram[i].end;
            if end > lowmem::LOW_MEMORY_END && !self.within_extent(start, end) {
                let available: Vec<Range<u64>> = self.gpa_ranges();
                assert(!fits_layout(self.extents(), ram@[i as int]));
                return Err(TdpError::MemoryLayout { requested: start..end, available });
            }
            i = i + 1;
        }
        Ok(())
    }

    /// Whether one extent has both ends of a range.
    fn within_extent(&self, start: u64, end: u64) -> (r: bool)
        requires
            self.wf(),
        ensures
            r == (offset_in(self.extents(), start as int, end as int) is Some),
    {
        let segments: &Vec<Segment> = self.region.segments();
        let mut i: usize = 0;
        while i < segments.len()
            invariant
                i <= segments@.len(),
                segments@ == self.extents(),
                self.wf(),
                find_span(self.extents(), start as int, end as int, 0) == find_span(
                    self.extents(),
                    start as int,
                    end as int,
                    i as int,
                ),
            decreases segments@.len() - i,
        {
            let segment: Segment = segments[i];
            assert(self.extents()[i as int].wf());
            if start >= segment.gpa && end <= segment.gpa + segment.len as u64 {
                return true;
            }
            i = i + 1;
        }
        false
    }
}

/// Whether a RAM range of a layout is one this memory can be: below 1 MiB, or
/// inside one extent.
pub open spec fn fits_layout(segments: Seq<Segment>, ram: Range<u64>) -> bool {
    ram.end <= lowmem::LOW_MEMORY_END || offset_in(segments, ram.start as int, ram.end as int)
        is Some
}

/// What preparing low memory still needs.
#[derive(Debug, Clone, Copy, PartialEq, Eq, Structural)]
pub enum LowStep {
    /// Every page is published.
    Ready,
    /// Copy the loader's image in, and then publish the first page.
    CopyAndGrant { gpa: u64 },
    /// Publish this page.
    Grant { gpa: u64 },
}

/// Executable conventional memory reserved from the L1 at boot.
///
/// Unlike the main region this has a fixed GPA: Linux's AP reset trampoline has
/// to execute below 1 MiB. The loader's initial contents are copied in once and
/// every page is published before any VP can enter.
pub struct TdpLowMemory<'a> {
    memory: TdMemory<'a>,
    published_pages: usize,
}

impl<'a> TdpLowMemory<'a> {
    /// The bytes of the window.
    pub closed spec fn bytes(&self) -> Seq<u8> {
        self.memory.bytes()
    }

    /// How many pages, from the first on, the L2 can reach.
    pub closed spec fn published(&self) -> nat {
        self.published_pages as nat
    }

    /// Where the window lies.
    pub closed spec fn base(&self) -> u64 {
        self.memory.base()
    }

    /// The window is where the guest needs it, and no more pages are published
    /// than there are.
    pub open spec fn wf(&self) -> bool {
        &&& self.base() == lowmem::LOW_MEMORY_BASE
        &&& self.published() <= lowmem::LOW_MEMORY_PAGES
    }

    /// Take the range the driver reserved, if it is the one the guest needs.
    pub fn new(memory: TdMemory<'a>) -> (r: Result<Self, TdpError>)
        ensures
            r is Ok <==> memory.base() == lowmem::LOW_MEMORY_BASE && memory.bytes().len()
                == lowmem::LOW_MEMORY_SIZE,
            r matches Ok(low) ==> {
                &&& low.wf()
                &&& low.published() == 0
                &&& low.bytes() == memory.bytes()
            },
            r matches Err(err) ==> {
                &&& err matches TdpError::LowMemory { gpa, len }
                &&& gpa == memory.base()
                &&& len == memory.bytes().len()
            },
    {
        if memory.gpa() == lowmem::LOW_MEMORY_BASE && memory.len() == lowmem::LOW_MEMORY_SIZE {
            Ok(TdpLowMemory { memory, published_pages: 0 })
        } else {
            Err(TdpError::LowMemory { gpa: memory.gpa(), len: memory.len() })
        }
    }

    /// The next step of publishing the window.
    pub fn prepare(&self) -> (r: LowStep)
        requires
            self.wf(),
        ensures
            r == (if self.published() == lowmem::LOW_MEMORY_PAGES {
                LowStep::Ready
            } else if self.published() == 0 {
                LowStep::CopyAndGrant { gpa: lowmem::LOW_MEMORY_BASE }
            } else {
                LowStep::Grant {
                    gpa: (lowmem::LOW_MEMORY_BASE + 0x1000 * self.published()) as u64,
                }
            }),
    {
        if self.published_pages == lowmem::LOW_MEMORY_PAGES {
            return LowStep::Ready;
        }
        if self.published_pages == 0 {
            return LowStep::CopyAndGrant { gpa: lowmem::LOW_MEMORY_BASE };
        }
        LowStep::Grant { gpa: lowmem::LOW_MEMORY_BASE + self.published_pages as u64 * 4096 }
    }

    /// Where the loader's image goes.
    pub fn image(&mut self) -> (r: &mut [u8])
        ensures
            r@ == old(self).bytes(),
            final(self).bytes() == final(r)@,
            final(self).published() == old(self).published(),
            final(self).base() == old(self).base(),
    {
        self.memory.as_mut_slice()
    }

    /// The page that [`TdpLowMemory::prepare`] named was published.
    pub fn granted(&mut self)
        requires
            old(self).wf(),
            old(self).published() < lowmem::LOW_MEMORY_PAGES,
        ensures
            final(self).wf(),
            final(self).published() == old(self).published() + 1,
            final(self).bytes() == old(self).bytes(),
    {
        self.published_pages = self.published_pages + 1;
    }

    /// The next page to revoke, the last one published.
    pub fn unmap_all(&self) -> (r: Option<u64>)
        requires
            self.wf(),
        ensures
            r == (if self.published() == 0 {
                None::<u64>
            } else {
                Some((lowmem::LOW_MEMORY_BASE + 0x1000 * (self.published() - 1)) as u64)
            }),
    {
        if self.published_pages == 0 {
            return None;
        }
        let page: usize = self.published_pages - 1;
        Some(lowmem::LOW_MEMORY_BASE + page as u64 * 4096)
    }

    /// The page that [`TdpLowMemory::unmap_all`] named was revoked.
    pub fn revoked(&mut self)
        requires
            old(self).wf(),
            old(self).published() > 0,
        ensures
            final(self).wf(),
            final(self).published() == old(self).published() - 1,
            final(self).bytes() == old(self).bytes(),
    {
        self.published_pages = self.published_pages - 1;
    }
}

/// Every page that is published lies in the boot-reserved window, and the page
/// that would be revoked next is the one that was published last.
pub proof fn law_low_pages_stay_in_the_window(published: int)
    requires
        0 <= published < lowmem::LOW_MEMORY_PAGES,
    ensures
        ({
            let granted = lowmem::LOW_MEMORY_BASE + 0x1000 * published;
            &&& lowmem::LOW_MEMORY_BASE <= granted
            &&& granted + 0x1000 <= lowmem::LOW_MEMORY_RESERVED_END
            &&& lowmem::LOW_MEMORY_BASE + 0x1000 * ((published + 1) - 1) == granted
        }),
        lowmem::LOW_MEMORY_BASE + lowmem::LOW_MEMORY_SIZE == lowmem::LOW_MEMORY_RESERVED_END,
        lowmem::LOW_MEMORY_PAGES * 0x1000 == lowmem::LOW_MEMORY_SIZE,
{
}

/// What a request to reserve guest memory calls for.
#[derive(Debug, Clone, Copy, PartialEq, Eq, Structural)]
pub enum Reservation {
    /// The memory that is already reserved serves.
    Reuse,
    /// Nothing is reserved yet.
    Allocate,
}

/// Decide on a request to reserve `size` bytes, given what is reserved.
///
/// The reservation comes before the VM and is process-wide: the guest's
/// physical addresses are the pages' own, so the memory layout is built from
/// where it landed.
pub fn reserve_guest_memory(reserved: Option<usize>, size: usize) -> (r: Result<
    Reservation,
    TdpError,
>)
    ensures
        match reserved {
            None => r == Ok::<Reservation, TdpError>(Reservation::Allocate),
            Some(len) => if len == size {
                r == Ok::<Reservation, TdpError>(Reservation::Reuse)
            } else {
                r == Err::<Reservation, TdpError>(TdpError::ReservedSize { reserved: len, size })
            },
        },
{
    match reserved {
        None => Ok(Reservation::Allocate),
        Some(len) => {
            if len != size {
                return Err(TdpError::ReservedSize { reserved: len, size });
            }
            Ok(Reservation::Reuse)
        },
    }
}

/// The backend itself: the device, and the memory a partition will be built
/// around.
///
/// The memory is assigned before the partition exists because its guest
/// physical address decides the memory layout, not the other way round.
pub struct Tdp<M> {
    device: TdcallDevice,
    memory: Option<M>,
    l2_slots: u64,
}

impl<M> Tdp<M> {
    /// How many L2 VMs the TD was created with.
    pub closed spec fn slots(&self) -> u64 {
        self.l2_slots
    }

    /// The memory that was assigned.
    pub closed spec fn assigned(&self) -> Option<M> {
        self.memory
    }

    /// The device the backend uses.
    pub closed spec fn used_device(&self) -> TdcallDevice {
        self.device
    }

    /// The backend on a device, given how many L2 slots the TD has, and the
    /// claim on the slot it will use. Zero slots mean that the TD is not an L1
    /// VMM.
    pub fn from_device(device: TdcallDevice, l2_slots: u64) -> (r: Result<
        (Self, TdVmClaim),
        TdpError,
    >)
        ensures
            r is Ok <==> l2_slots != 0,
            r matches Ok((tdp, claim)) ==> {
                &&& tdp.slots() == l2_slots
                &&& tdp.assigned() is None
                &&& tdp.used_device() == device
                &&& claim.vm_id == FIRST_L2_SLOT
                &&& claim.reserved == 0
            },
            r matches Err(err) ==> err is NotAnL1Vmm,
    {
        if l2_slots == 0 {
            return Err(TdpError::NotAnL1Vmm);
        }
        let claim: TdVmClaim = device.claim_vm(FIRST_L2_SLOT);
        Ok((Tdp { device, memory: None, l2_slots }, claim))
    }

    pub fn l2_slots(&self) -> (r: u64)
        ensures
            r == self.slots(),
    {
        self.l2_slots
    }

    pub fn device(&self) -> (r: &TdcallDevice)
        ensures
            *r == self.used_device(),
    {
        &self.device
    }

    /// Assign the memory a partition will use.
    pub fn set_memory(&mut self, memory: M)
        ensures
            final(self).assigned() == Some(memory),
            final(self).slots() == old(self).slots(),
            final(self).used_device() == old(self).used_device(),
    {
        self.memory = Some(memory);
    }

    /// Take the memory a partition is built around: the assigned one, or else
    /// the one that was reserved process-wide.
    pub fn take_memory(&mut self, reserved: Option<M>) -> (r: Result<M, TdpError>)
        ensures
            final(self).assigned() is None,
            final(self).slots() == old(self).slots(),
            final(self).used_device() == old(self).used_device(),
            match (old(self).assigned(), reserved) {
                (Some(memory), _) => r == Ok::<M, TdpError>(memory),
                (None, Some(memory)) => r == Ok::<M, TdpError>(memory),
                (None, None) => r matches Err(TdpError::Unsupported(what)) && what@
                    == "a partition without reserved memory"@,
            },
    {
        match self.memory.take() {
            Some(memory) => Ok(memory),
            None => match reserved {
                Some(memory) => Ok(memory),
                None => Err(TdpError::Unsupported("a partition without reserved memory")),
            },
        }
    }
}

/// A span of addresses is in the region exactly when one segment has all of it,
/// and it then lies as far behind the start of the segment's bytes as its address
/// behind the segment's.
pub proof fn law_spans_lie_in_one_segment(segments: Seq<Segment>, start: int, end: int, i: int)
    requires
        crate::hugemem::segments_wf(segments),
        start < end,
        0 <= i < segments.len(),
    ensures
        segments[i].gpa <= start && end <= segments[i].gpa + segments[i].len ==> offset_in(
            segments,
            start,
            end,
        ) == Some(crate::hugemem::offset_of(segments, i) + (start - segments[i].gpa)),
        offset_in(segments, start, end) is Some ==> exists|j: int|
            0 <= j < segments.len() && (#[trigger] segments[j]).gpa <= start && end
                <= segments[j].gpa + segments[j].len,
{
    lemma_find_span(segments, start, end, 0);
    if segments[i].gpa <= start && end <= segments[i].end() {
        let j = find_span(segments, start, end, 0)->0;
        if j < i {
            assert(segments[j].apart(segments[i]));
        } else if i < j {
            assert(segments[i].apart(segments[j]));
        }
    }
}

/// The bytes of a page lie one behind the other.
proof fn lemma_page_bytes(segments: Seq<Segment>, page: int, d: int)
    requires
        crate::hugemem::segments_wf(segments),
        0 <= page,
        0 <= d < 0x1000,
        0x1000 * page < crate::hugemem::total(segments),
    ensures
        0x1000 * page + d < crate::hugemem::total(segments),
        crate::hugemem::address_at(segments, 0x1000 * page + d) == page_gpa(segments, page) + d,
        page_of(segments, page_gpa(segments, page) + d) == Some(page),
{
    let offset = 0x1000 * page;
    let i = lemma_segment_of_offset(segments, offset, 0);
    lemma_offset_aligned(segments, i);
    assert(segments[i].wf());
    let base = crate::hugemem::offset_of(segments, i) as int;
    assert(offset + d < base + segments[i].len) by {
        assert((base + segments[i].len) % 0x1000 == 0);
    }
    crate::hugemem::lemma_offsets_grow(segments, i, segments.len() as int);
    crate::hugemem::lemma_address_in_segment(segments, i, offset);
    crate::hugemem::lemma_address_in_segment(segments, i, offset + d);
    law_offsets_invert_addresses(segments, offset + d);
}

/// Memory in a range is granted exactly when some address of the range belongs to
/// a page that is.
pub proof fn law_granted_memory_is_found(
    segments: Seq<Segment>,
    aliased: Seq<bool>,
    start: int,
    end: int,
    gpa: int,
)
    requires
        crate::hugemem::segments_wf(segments),
        aliased.len() == crate::hugemem::total(segments) as int / 0x1000,
    ensures
        start <= gpa < end && page_of(segments, gpa) is Some && aliased[page_of(segments, gpa)->0]
            ==> aliased_in(segments, aliased, start, end),
        aliased_in(segments, aliased, start, end) ==> exists|at: int|
            start <= at < end && (#[trigger] page_of(segments, at) matches Some(page)
                && aliased[page]),
{
    if start <= gpa < end && page_of(segments, gpa) is Some && aliased[page_of(segments, gpa)->0] {
        let page = page_of(segments, gpa)->0;
        let offset = offset_in(segments, gpa, gpa + 1)->0;
        law_span_is_contiguous(segments, gpa, gpa + 1, 0);
        let d = offset % 0x1000;
        assert(offset == 0x1000 * page + d);
        lemma_page_bytes(segments, page, d);
        assert(page < aliased.len()) by {
            lemma_total_is_pages(segments);
        }
        assert(aliased[page]);
    }
    if aliased_in(segments, aliased, start, end) {
        let page = choose|page: int|
            #![trigger aliased[page]]
            0 <= page < aliased.len() && aliased[page] && page_gpa(segments, page) < end && start
                < page_gpa(segments, page) + 0x1000;
        let first = page_gpa(segments, page);
        let at = if first < start {
            start
        } else {
            first
        };
        lemma_page_bytes(segments, page, at - first);
        assert(page_of(segments, at) == Some(page));
    }
}

/// A region is whole pages.
proof fn lemma_total_is_pages(segments: Seq<Segment>)
    requires
        crate::hugemem::segments_wf(segments),
    ensures
        crate::hugemem::total(segments) as int % 0x1000 == 0,
{
    lemma_offset_aligned(segments, segments.len() as int);
    assert(segments.subrange(0, segments.len() as int) =~= segments);
}

/// A RAM range fits exactly when it ends below 1 MiB or one segment has all of
/// it.
pub proof fn law_layouts_fit_where_the_memory_is(segments: Seq<Segment>, ram: Range<u64>, i: int)
    requires
        0 <= i < segments.len(),
    ensures
        ram.end <= 0x10_0000 ==> fits_layout(segments, ram),
        segments[i].gpa <= ram.start && ram.end <= segments[i].gpa + segments[i].len ==> fits_layout(
            segments,
            ram,
        ),
        fits_layout(segments, ram) && ram.end > 0x10_0000 ==> exists|j: int|
            0 <= j < segments.len() && (#[trigger] segments[j]).gpa <= ram.start && ram.end
                <= segments[j].gpa + segments[j].len,
{
    lemma_find_span(segments, ram.start as int, ram.end as int, 0);
}

/// The low window is the 128 KiB that end at 640 KiB, the emulated legacy memory
/// ends at 1 MiB, and an L2 uses the first slot behind the L1's own.
pub proof fn law_low_memory_is_where_the_guest_needs_it()
    ensures
        lowmem::LOW_MEMORY_BASE == 512 * 1024,
        lowmem::LOW_MEMORY_RESERVED_END == 640 * 1024,
        lowmem::LOW_MEMORY_SIZE == 128 * 1024,
        lowmem::LOW_MEMORY_PAGES == 32,
        lowmem::LOW_MEMORY_END == 1024 * 1024,
        FIRST_L2_SLOT == 1,
{
}

/// The pages of the low window are published one after the other from its start,
/// and the one that was published last is the first to be revoked: granting the
/// page that preparing names makes it the one that unmapping names, and there is
/// nothing to unmap before the first and nothing to prepare behind the last. The
/// loader's image is copied in before the first page is published and never
/// again.
pub proof fn law_low_pages_are_revoked_in_reverse<'a>(
    low: &mut TdpLowMemory<'a>,
    before: &TdpLowMemory<'a>,
    after: &TdpLowMemory<'a>,
    step: LowStep,
    first: Option<u64>,
    last: Option<u64>,
)
    requires
        old(low).wf(),
        old(low).published() < 32,
        before.published() == old(low).published() && before.wf(),
        call_ensures(TdpLowMemory::<'a>::prepare, (before,), step),
        call_ensures(TdpLowMemory::<'a>::unmap_all, (before,), first),
        call_ensures(TdpLowMemory::<'a>::granted, (low,), ()),
        after.published() == final(low).published() && after.wf(),
        call_ensures(TdpLowMemory::<'a>::unmap_all, (after,), last),
    ensures
        last is Some,
        step == (if old(low).published() == 0 {
            LowStep::CopyAndGrant { gpa: last->0 }
        } else {
            LowStep::Grant { gpa: last->0 }
        }),
        last == Some((0x8_0000 + 0x1000 * old(low).published()) as u64),
        first is None <==> old(low).published() == 0,
        first matches Some(gpa) ==> gpa + 0x1000 == last->0,
        final(low).bytes() == old(low).bytes(),
{
}

/// A reservation is used again exactly for its own size, refused for any other,
/// and made where there is none.
pub proof fn law_one_reservation_of_one_size(
    reserved: Option<usize>,
    size: usize,
    result: Result<Reservation, TdpError>,
)
    requires
        call_ensures(reserve_guest_memory, (reserved, size), result),
    ensures
        reserved is None ==> result == Ok::<Reservation, TdpError>(Reservation::Allocate),
        reserved == Some(size) ==> result == Ok::<Reservation, TdpError>(Reservation::Reuse),
        reserved is Some && reserved != Some(size) ==> (result matches Err(
            TdpError::ReservedSize { reserved: r, size: s },
        ) && Some(r) == reserved && s == size),
{
}

/// Mapping a range below 1 MiB waits, mapping one that is not whole pages inside
/// one extent is refused with the range, and mapping any other names the pages to
/// grant.
pub proof fn law_mapped_ranges<'a>(
    memory: &TdpMemory<'a>,
    size: usize,
    addr: u64,
    mapped: Result<MapRange, AliasError>,
)
    requires
        memory.wf(),
        addr + size <= u64::MAX,
        call_ensures(TdpMemory::<'a>::map_range, (memory, size, addr), mapped),
    ensures
        ({
            let end = addr + size;
            let inside = offset_in(memory.extents(), addr as int, end) is Some;
            let whole = addr % 0x1000 == 0 && size % 0x1000 == 0;
            &&& mapped is Ok && mapped->Ok_0 is Deferred <==> end <= 0x10_0000
            &&& mapped is Ok && mapped->Ok_0 is Grant <==> end > 0x10_0000 && inside && whole
            &&& end > 0x10_0000 && !inside ==> mapped == Err::<MapRange, AliasError>(
                AliasError::OutsideExtent { start: addr, end: end as u64 },
            )
            &&& end > 0x10_0000 && inside && !whole ==> mapped == Err::<MapRange, AliasError>(
                AliasError::Unaligned { start: addr, end: end as u64 },
            )
            &&& mapped matches Ok(MapRange::Grant(pages)) ==> pages@ == to_grant(
                memory.extents(),
                memory.aliased(),
                addr as int,
                size as int / 0x1000,
            )
        }),
{
}

/// Unmapping a range without granted memory needs nothing, whatever its ends, as
/// long as it ends inside the address space; a range with granted memory has to
/// be whole pages, and then all its granted pages are named.
pub proof fn law_unmapped_ranges<'a>(
    memory: &TdpMemory<'a>,
    addr: u64,
    size: u64,
    unmapped: Result<Vec<u64>, AliasError>,
)
    requires
        memory.wf(),
        call_ensures(TdpMemory::<'a>::unmap_range, (memory, addr, size), unmapped),
    ensures
        ({
            let end = addr + size;
            let any = aliased_in(memory.extents(), memory.aliased(), addr as int, end);
            let whole = addr % 0x1000 == 0 && size % 0x1000 == 0;
            &&& end >= 0x1_0000_0000_0000_0000 ==> unmapped == Err::<Vec<u64>, AliasError>(
                AliasError::RangeOverflow { start: addr, size },
            )
            &&& end < 0x1_0000_0000_0000_0000 ==> {
                &&& !any ==> (unmapped matches Ok(pages) && pages@.len() == 0)
                &&& any && !whole ==> unmapped == Err::<Vec<u64>, AliasError>(
                    AliasError::Unaligned { start: addr, end: end as u64 },
                )
                &&& any && whole ==> (unmapped matches Ok(pages) && pages@ == to_revoke(
                    memory.extents(),
                    memory.aliased(),
                    addr as int,
                    end,
                    memory.aliased().len() as int,
                ))
            }
        }),
{
}

/// The low window is taken only where and as large as the guest needs it, with
/// nothing published; anything else is refused with what it is.
pub proof fn law_low_window_is_taken_as_it_is<'a>(
    memory: TdMemory<'a>,
    taken: Result<TdpLowMemory<'a>, TdpError>,
)
    requires
        call_ensures(TdpLowMemory::<'a>::new, (memory,), taken),
    ensures
        taken is Ok <==> memory.base() == 0x8_0000 && memory.bytes().len() == 0x2_0000,
        taken matches Ok(low) ==> low.wf() && low.published() == 0 && low.bytes() == memory.bytes(),
        taken matches Err(err) ==> (err matches TdpError::LowMemory { gpa, len } && gpa
            == memory.base() && len == memory.bytes().len()),
{
}

/// A backend exists exactly inside a TD with L2 slots, claims slot 1, and has no
/// memory until it is assigned. The memory that was assigned is what a partition
/// gets, once, before any that was reserved.
pub proof fn law_assigned_memory_comes_first<M>(
    tdp: &mut Tdp<M>,
    emptied: &mut Tdp<M>,
    memory: M,
    reserved: Option<M>,
    taken: Result<M, TdpError>,
    device: TdcallDevice,
    l2_slots: u64,
    made: Result<(Tdp<M>, TdVmClaim), TdpError>,
)
    requires
        call_ensures(Tdp::<M>::set_memory, (tdp, memory), ()),
        old(emptied).assigned() == final(tdp).assigned(),
        call_ensures(Tdp::<M>::take_memory, (emptied, reserved), taken),
        call_ensures(Tdp::<M>::from_device, (device, l2_slots), made),
    ensures
        taken == Ok::<M, TdpError>(memory),
        final(emptied).assigned() is None,
        made is Ok <==> l2_slots != 0,
        made matches Ok((backend, claim)) ==> {
            &&& backend.slots() == l2_slots
            &&& backend.assigned() is None
            &&& backend.used_device() == device
            &&& claim.vm_id == 1 && claim.reserved == 0
        },
        made matches Err(err) ==> err is NotAnL1Vmm,
{
}

/// Granting and revoking a page changes what the L2 can reach of that page and of
/// no other, and leaves the memory itself alone.
pub proof fn law_marks_are_of_one_page<'a>(
    granted: &mut TdpMemory<'a>,
    revoked: &mut TdpMemory<'a>,
    gpa: u64,
    page: int,
)
    requires
        old(granted).wf(),
        old(revoked).wf(),
        page_of(old(granted).extents(), gpa as int) is Some,
        page_of(old(revoked).extents(), gpa as int) is Some,
        call_ensures(TdpMemory::<'a>::granted, (granted, gpa), ()),
        call_ensures(TdpMemory::<'a>::revoked, (revoked, gpa), ()),
        0 <= page < old(granted).aliased().len(),
        0 <= page < old(revoked).aliased().len(),
    ensures
        page_of(old(granted).extents(), gpa as int) == Some(page) ==> final(granted).aliased()[page],
        page_of(old(granted).extents(), gpa as int) != Some(page) ==> final(granted).aliased()[page]
            == old(granted).aliased()[page],
        page_of(old(revoked).extents(), gpa as int) == Some(page) ==> !final(revoked).aliased()[page],
        page_of(old(revoked).extents(), gpa as int) != Some(page) ==> final(revoked).aliased()[page]
            == old(revoked).aliased()[page],
        final(granted).bytes() == old(granted).bytes(),
        final(granted).extents() == old(granted).extents(),
        final(revoked).bytes() == old(revoked).bytes(),
        final(revoked).extents() == old(revoked).extents(),
{
    lemma_page_in_region(old(granted).extents(), gpa as int);
    lemma_page_in_region(old(revoked).extents(), gpa as int);
}

/// The page of an address is one of the region's.
proof fn lemma_page_in_region(segments: Seq<Segment>, gpa: int)
    requires
        crate::hugemem::segments_wf(segments),
        page_of(segments, gpa) is Some,
    ensures
        0 <= page_of(segments, gpa)->0 < crate::hugemem::total(segments) as int / 0x1000,
{
    law_span_is_contiguous(segments, gpa, gpa + 1, 0);
    lemma_total_is_pages(segments);
}

} // verus!
