//! Large guest memory for an L2.
//!
//! TD partitioning aliases the L1's GPA directly into the L2, so the guest sees
//! its RAM wherever the L1's pages happen to be. Memory comes from the L1's
//! hugetlb pools; the driver pins every page and reports its GPA.
use crate::driver::TdRegisterMemory;
use crate::driver::TdcallDevice;
use crate::error::MemoryError;
use crate::error::WriteError;
use vstd::prelude::*;

verus! {

pub const HUGE_1G: usize = 0x4000_0000;

pub const HUGE_2M: usize = 0x20_0000;

pub const PAGE: usize = 0x1000;

/// How many RAM extents an L2 may have. The x86 zero-page e820 table has 128
/// entries; more extents would silently hide memory from Linux.
pub const MAX_EXTENTS: usize = 96;

/// How often the hugepages are put in order before giving up.
pub const MAX_ORDER_ATTEMPTS: u32 = 3;

/// A physically contiguous piece of a region.
#[derive(Debug, Clone, Copy, PartialEq, Eq, Structural)]
pub struct Segment {
    pub gpa: u64,
    pub len: usize,
}

impl Segment {
    /// The address behind the last byte.
    pub open spec fn end(self) -> int {
        self.gpa + self.len
    }

    /// Whole pages at addresses that exist.
    pub open spec fn wf(self) -> bool {
        &&& self.gpa % 0x1000 == 0
        &&& self.len % 0x1000 == 0
        &&& self.gpa + self.len <= u64::MAX
    }

    /// Whether the two have no byte in common.
    pub open spec fn apart(self, other: Segment) -> bool {
        self.end() <= other.gpa || other.end() <= self.gpa
    }

    /// Whether an address lies in the segment.
    pub open spec fn holds(self, gpa: int) -> bool {
        self.gpa <= gpa < self.end()
    }
}

/// How many bytes some segments hold together.
pub open spec fn total(segments: Seq<Segment>) -> nat
    decreases segments.len(),
{
    if segments.len() == 0 {
        0
    } else {
        total(segments.drop_last()) + segments.last().len as nat
    }
}

/// Where a segment starts in the region.
pub open spec fn offset_of(segments: Seq<Segment>, i: int) -> nat {
    total(segments.subrange(0, i))
}

/// Whether each segment is whole pages and no two overlap.
pub open spec fn segments_wf(segments: Seq<Segment>) -> bool {
    &&& forall|i: int| 0 <= i < segments.len() ==> (#[trigger] segments[i]).wf()
    &&& forall|i: int, j: int|
        0 <= i < j < segments.len() ==> (#[trigger] segments[i]).apart(#[trigger] segments[j])
}

/// The guest physical address of a byte of the region.
pub open spec fn address_at(segments: Seq<Segment>, offset: int) -> int
    decreases segments.len(),
{
    if segments.len() == 0 {
        0
    } else if offset < total(segments.drop_last()) {
        address_at(segments.drop_last(), offset)
    } else {
        segments.last().gpa + (offset - total(segments.drop_last()))
    }
}

/// One more segment starts where the ones before it end.
pub proof fn lemma_offset_step(segments: Seq<Segment>, i: int)
    requires
        0 <= i < segments.len(),
    ensures
        offset_of(segments, i + 1) == offset_of(segments, i) + segments[i].len,
        offset_of(segments, 0) == 0,
        offset_of(segments, segments.len() as int) == total(segments),
{
    assert(segments.subrange(0, i + 1).drop_last() =~= segments.subrange(0, i));
    assert(segments.subrange(0, segments.len() as int) =~= segments);
}

/// Segments lie one behind the other in the region.
pub proof fn lemma_offsets_grow(segments: Seq<Segment>, i: int, j: int)
    requires
        0 <= i < j <= segments.len(),
    ensures
        offset_of(segments, i) + segments[i].len <= offset_of(segments, j),
        offset_of(segments, j) <= total(segments),
    decreases segments.len() - i, j - i,
{
    lemma_offset_step(segments, i);
    if i + 1 < j {
        lemma_offsets_grow(segments, i + 1, j);
    } else if j < segments.len() {
        lemma_offsets_grow(segments, j, segments.len() as int);
    } else {
        assert(segments.subrange(0, segments.len() as int) =~= segments);
    }
}

/// The address of a byte, by the segment it is in.
pub proof fn lemma_address_in_segment(segments: Seq<Segment>, i: int, offset: int)
    requires
        0 <= i < segments.len(),
        offset_of(segments, i) <= offset < offset_of(segments, i) + segments[i].len,
    ensures
        address_at(segments, offset) == segments[i].gpa + (offset - offset_of(segments, i)),
    decreases segments.len(),
{
    let rest = segments.drop_last();
    if i == segments.len() - 1 {
        assert(segments.subrange(0, i) =~= rest);
    } else {
        lemma_offsets_grow(segments, i, segments.len() - 1);
        assert(segments.subrange(0, segments.len() - 1) =~= rest);
        assert(rest.subrange(0, i) =~= segments.subrange(0, i));
        lemma_address_in_segment(rest, i, offset);
    }
}

/// How many pages of each size back a region.
#[derive(Debug, Clone, Copy, PartialEq, Eq, Structural)]
pub struct AllocationPlan {
    pub huge_1g: usize,
    pub huge_2m: usize,
    pub base: usize,
}

/// Where a part of a region's backing comes from.
#[derive(Debug, Clone, Copy, PartialEq, Eq, Structural)]
pub enum Tier {
    Huge1G,
    Huge2M,
    Base,
}

/// A part of a region that one tier backs.
#[derive(Debug, Clone, Copy, PartialEq, Eq, Structural)]
pub struct Piece {
    pub tier: Tier,
    pub offset: usize,
    pub len: usize,
}

impl AllocationPlan {
    /// How many bytes the pages hold together.
    pub open spec fn size(self) -> int {
        self.huge_1g * HUGE_1G + self.huge_2m * HUGE_2M + self.base * PAGE
    }

    /// Where the pages of a tier lie in the region: the tiers follow one another,
    /// largest pages first.
    pub open spec fn span_of(self, tier: Tier) -> Piece {
        match tier {
            Tier::Huge1G => Piece { tier, offset: 0, len: (self.huge_1g * HUGE_1G) as usize },
            Tier::Huge2M => Piece {
                tier,
                offset: (self.huge_1g * HUGE_1G) as usize,
                len: (self.huge_2m * HUGE_2M) as usize,
            },
            Tier::Base => Piece {
                tier,
                offset: (self.huge_1g * HUGE_1G + self.huge_2m * HUGE_2M) as usize,
                len: (self.base * PAGE) as usize,
            },
        }
    }

    /// The whole of a tier as one piece, if it has any pages.
    pub open spec fn whole(self, tier: Tier) -> Seq<Piece> {
        if self.span_of(tier).len > 0 {
            seq![self.span_of(tier)]
        } else {
            Seq::empty()
        }
    }

    /// The first `n` pages of 2 MiB.
    pub open spec fn middle(self, n: nat) -> Seq<Piece> {
        Seq::new(
            n,
            |i: int| Piece {
                tier: Tier::Huge2M,
                offset: (self.huge_1g * HUGE_1G + i * HUGE_2M) as usize,
                len: HUGE_2M,
            },
        )
    }

    /// The pieces whose addresses are known one by one: the 1 GiB pages, which
    /// are contiguous, each 2 MiB page, and the base pages, which the driver
    /// allocated together.
    pub open spec fn placed(self) -> Seq<Piece> {
        self.whole(Tier::Huge1G) + self.middle(self.huge_2m as nat) + self.whole(Tier::Base)
    }

    /// Where the pages of a tier lie in the region.
    pub fn span(&self, tier: Tier) -> (r: Piece)
        requires
            self.size() <= usize::MAX,
        ensures
            r == self.span_of(tier),
    {
        let body: usize = self.huge_1g * HUGE_1G;
        let middle: usize = self.huge_2m * HUGE_2M;
        match tier {
            Tier::Huge1G => Piece { tier, offset: 0, len: body },
            Tier::Huge2M => Piece { tier, offset: body, len: middle },
            Tier::Base => Piece { tier, offset: body + middle, len: self.base * PAGE },
        }
    }

    /// The pieces whose addresses are known one by one, in the order they lie in
    /// the region.
    pub fn pieces(&self) -> (r: Vec<Piece>)
        requires
            self.size() <= usize::MAX,
        ensures
            r@ == self.placed(),
    {
        let mut pieces: Vec<Piece> = Vec::new();
        let body: Piece = self.span(Tier::Huge1G);
        if body.len > 0 {
            pieces.push(body);
        }
        assert(pieces@ =~= self.whole(Tier::Huge1G) + self.middle(0));
        let mut i: usize = 0;
        while i < self.huge_2m
            invariant
                i <= self.huge_2m,
                self.size() <= usize::MAX,
                body == self.span_of(Tier::Huge1G),
                pieces@ == self.whole(Tier::Huge1G) + self.middle(i as nat),
            decreases self.huge_2m - i,
        {
            pieces.push(Piece { tier: Tier::Huge2M, offset: body.len + i * HUGE_2M, len: HUGE_2M });
            i = i + 1;
            assert(pieces@ =~= self.whole(Tier::Huge1G) + self.middle(i as nat));
        }
        let tail: Piece = self.span(Tier::Base);
        if tail.len > 0 {
            pieces.push(tail);
        }
        assert(pieces@ =~= self.placed());
        pieces
    }
}

/// The pieces of a plan tile its region: they start at its beginning, each starts
/// where the one before it ends, none is empty, and the last ends at the region's
/// end. Each lies in the span of its tier.
pub proof fn law_pieces_tile_the_region(plan: AllocationPlan, i: int)
    requires
        plan.size() <= usize::MAX,
        0 <= i < plan.placed().len(),
    ensures
        plan.placed()[0].offset == 0,
        plan.placed()[i].len > 0,
        i + 1 < plan.placed().len() ==> plan.placed()[i].offset + plan.placed()[i].len
            == plan.placed()[i + 1].offset,
        plan.placed().last().offset + plan.placed().last().len == plan.size(),
        ({
            let piece = plan.placed()[i];
            let span = plan.span_of(piece.tier);
            span.offset <= piece.offset && piece.offset + piece.len <= span.offset + span.len
        }),
{
}

/// A plan has pieces exactly when it has pages.
pub proof fn law_no_pieces_without_pages(plan: AllocationPlan)
    requires
        plan.size() <= usize::MAX,
    ensures
        plan.placed().len() == 0 <==> plan.size() == 0,
{
}

/// How to back a region of `size` bytes: 1 GiB pages for the main body, 2 MiB
/// pages for the remainder, and base pages only for a final remainder smaller
/// than 2 MiB.
pub fn plan_allocation(size: usize) -> (r: Result<AllocationPlan, MemoryError>)
    ensures
        r is Ok <==> size % PAGE == 0,
        r matches Ok(plan) ==> {
            &&& plan.size() == size
            &&& plan.huge_2m < 512
            &&& plan.base < 512
        },
        r matches Err(err) ==> err == (MemoryError::NotPageAligned { size }),
{
    if size % PAGE != 0 {
        return Err(MemoryError::NotPageAligned { size });
    }
    let body: usize = size / HUGE_1G;
    let middle: usize = size % HUGE_1G / HUGE_2M;
    let tail: usize = size % HUGE_2M / PAGE;
    Ok(AllocationPlan { huge_1g: body, huge_2m: middle, base: tail })
}

/// What the GPAs of the hugepages of a file call for.
#[derive(Debug)]
pub enum OrderStep {
    /// File offsets are in GPA order.
    Ordered,
    /// Give the hugepages back to the pool in this order, populate the file
    /// again and ask once more.
    Reorder(Vec<usize>),
    /// The pool is not physically contiguous.
    NotContiguous,
    /// The hugepages would not come out in order.
    OutOfAttempts,
}

/// Whether the pages are neighbours in some order: all different, and all on a
/// 1 GiB grid that has as many places as there are pages.
pub open spec fn contiguous(gpas: Seq<u64>) -> bool {
    &&& forall|i: int, j: int| 0 <= i < j < gpas.len() ==> gpas[i] != gpas[j]
    &&& exists|base: u64| on_grid(gpas, base)
}

/// Whether every page is one of the `gpas.len()` pages from `base` on.
pub open spec fn on_grid(gpas: Seq<u64>, base: u64) -> bool {
    forall|i: int|
        0 <= i < gpas.len() ==> {
            let distance = (#[trigger] gpas[i]) - base;
            &&& 0 <= distance < gpas.len() * HUGE_1G
            &&& distance % (HUGE_1G as int) == 0
        }
}

/// Whether file offsets are in GPA order.
pub open spec fn in_order(gpas: Seq<u64>) -> bool {
    forall|i: int, j: int| 0 <= i < j < gpas.len() ==> gpas[i] < gpas[j]
}

/// How many places are taken.
spec fn taken(slots: Seq<Option<usize>>) -> nat
    decreases slots.len(),
{
    if slots.len() == 0 {
        0
    } else {
        taken(slots.drop_last()) + (if slots.last() is Some {
            1nat
        } else {
            0nat
        })
    }
}

proof fn lemma_taken_bound(slots: Seq<Option<usize>>)
    ensures
        taken(slots) <= slots.len(),
        taken(slots) == slots.len() ==> forall|k: int|
            0 <= k < slots.len() ==> #[trigger] slots[k] is Some,
    decreases slots.len(),
{
    if slots.len() > 0 {
        lemma_taken_bound(slots.drop_last());
        assert forall|k: int|
            taken(slots) == slots.len() && 0 <= k < slots.len() implies #[trigger] slots[k] is Some by {
            if k < slots.len() - 1 {
                assert(slots.drop_last()[k] == slots[k]);
            }
        }
    }
}

proof fn lemma_take_slot(slots: Seq<Option<usize>>, k: int, i: usize)
    requires
        0 <= k < slots.len(),
        slots[k] is None,
    ensures
        taken(slots.update(k, Some(i))) == taken(slots) + 1,
    decreases slots.len(),
{
    let after = slots.update(k, Some(i));
    if k == slots.len() - 1 {
        assert(after.drop_last() =~= slots.drop_last());
    } else {
        assert(after.drop_last() =~= slots.drop_last().update(k, Some(i)));
        lemma_take_slot(slots.drop_last(), k, i);
    }
}

proof fn lemma_none_taken(slots: Seq<Option<usize>>)
    requires
        forall|k: int| 0 <= k < slots.len() ==> #[trigger] slots[k] is None,
    ensures
        taken(slots) == 0,
    decreases slots.len(),
{
    if slots.len() > 0 {
        lemma_none_taken(slots.drop_last());
    }
}

/// If the pages are contiguous, so are their distances from the lowest one.
proof fn lemma_grid_from_lowest(gpas: Seq<u64>, low: int)
    requires
        contiguous(gpas),
        0 <= low < gpas.len(),
        forall|i: int| 0 <= i < gpas.len() ==> gpas[low] <= gpas[i],
    ensures
        on_grid(gpas, gpas[low]),
{
    let base = choose|base: u64| on_grid(gpas, base);
    assert(gpas[low] - base >= 0);
    assert forall|i: int| 0 <= i < gpas.len() implies {
        let distance = (#[trigger] gpas[i]) - gpas[low];
        &&& 0 <= distance < gpas.len() * HUGE_1G
        &&& distance % (HUGE_1G as int) == 0
    } by {
        let a = gpas[i] - base;
        let b = gpas[low] - base;
        assert(a % 0x4000_0000 == 0 && b % 0x4000_0000 == 0);
        assert((a - b) % 0x4000_0000 == 0);
    }
}

fn lowest(gpas: &Vec<u64>) -> (r: usize)
    requires
        gpas@.len() > 0,
    ensures
        r < gpas@.len(),
        forall|i: int| 0 <= i < gpas@.len() ==> gpas@[r as int] <= gpas@[i],
{
    let mut low: usize = 0;
    let mut i: usize = 1;
    while i < gpas.len()
        invariant
            low < gpas@.len(),
            1 <= i <= gpas@.len(),
            forall|k: int| 0 <= k < i ==> gpas@[low as int] <= gpas@[k],
        decreases gpas@.len() - i,
    {
        if gpas[i] < gpas[low] {
            low = i;
        }
        i = i + 1;
    }
    low
}

/// Where each page of a contiguous set belongs, or `None` when the set is not
/// contiguous.
fn places(gpas: &Vec<u64>) -> (r: Option<Vec<usize>>)
    requires
        gpas@.len() > 0,
    ensures
        r is Some <==> contiguous(gpas@),
        r matches Some(order) ==> {
            &&& order@.len() == gpas@.len()
            &&& forall|k: int| 0 <= k < order@.len() ==> #[trigger] order@[k] < gpas@.len()
            &&& forall|k: int, l: int|
                0 <= k < l < order@.len() ==> gpas@[#[trigger] order@[k] as int]
                    < gpas@[#[trigger] order@[l] as int]
        },
{
    let n: usize = gpas.len();
    let low: usize = lowest(gpas);
    let base: u64 = gpas[low];
    let mut slots: Vec<Option<usize>> = Vec::new();
    let mut k: usize = 0;
    while k < n
        invariant
            k <= n,
            slots@.len() == k,
            forall|j: int| 0 <= j < k ==> #[trigger] slots@[j] is None,
        decreases n - k,
    {
        slots.push(None);
        k = k + 1;
    }
    proof {
        lemma_none_taken(slots@);
        if contiguous(gpas@) {
            lemma_grid_from_lowest(gpas@, low as int);
        }
    }
    let mut i: usize = 0;
    while i < n
        invariant
            i <= n,
            n == gpas@.len(),
            slots@.len() == n,
            low < n,
            base == gpas@[low as int],
            forall|j: int| 0 <= j < n ==> base <= gpas@[j],
            contiguous(gpas@) ==> on_grid(gpas@, base),
            taken(slots@) == i,
            forall|j: int|
                0 <= j < n ==> ((#[trigger] slots@[j]) matches Some(p) ==> p < i && gpas@[p as int]
                    == base + j * HUGE_1G),
            forall|p: int|
                0 <= p < i ==> {
                    let distance = (#[trigger] gpas@[p]) - base;
                    &&& 0 <= distance < n * HUGE_1G
                    &&& distance % (HUGE_1G as int) == 0
                    &&& slots@[distance / (HUGE_1G as int)] == Some(p as usize)
                },
        decreases n - i,
    {
        let distance: u64 = gpas[i] - base;
        if distance % (HUGE_1G as u64) != 0 {
            return None;
        }
        let place: u64 = distance / (HUGE_1G as u64);
        if place >= n as u64 {
            return None;
        }
        let slot: usize = place as usize;
        assert(distance == place * HUGE_1G);
        match slots[slot] {
            Some(p) => {
                assert(gpas@[p as int] == gpas@[i as int]);
                return None;
            },
            None => {},
        }
        proof {
            lemma_take_slot(slots@, slot as int, i);
        }
        slots.set(slot, Some(i));
        i = i + 1;
    }
    proof {
        lemma_taken_bound(slots@);
        assert forall|a: int, b: int| 0 <= a < b < n implies gpas@[a] != gpas@[b] by {
            if gpas@[a] == gpas@[b] {
                let place = (gpas@[a] - base) / (HUGE_1G as int);
                assert(slots@[place] == Some(a as usize));
                assert(slots@[place] == Some(b as usize));
            }
        }
        assert(on_grid(gpas@, base));
    }
    let mut order: Vec<usize> = Vec::new();
    let mut j: usize = 0;
    while j < n
        invariant
            j <= n,
            n == slots@.len(),
            n == gpas@.len(),
            order@.len() == j,
            forall|l: int| 0 <= l < n ==> #[trigger] slots@[l] is Some,
            forall|l: int|
                0 <= l < n ==> ((#[trigger] slots@[l]) matches Some(p) ==> p < n && gpas@[p as int]
                    == base + l * HUGE_1G),
            forall|l: int| 0 <= l < j ==> Some(#[trigger] order@[l]) == slots@[l],
        decreases n - j,
    {
        assert(slots@[j as int] is Some);
        match slots[j] {
            Some(p) => order.push(p),
            None => {},
        }
        j = j + 1;
    }
    proof {
        assert forall|l: int| 0 <= l < n implies #[trigger] order@[l] < n && gpas@[order@[l] as int]
            == base + l * HUGE_1G by {
            assert(slots@[l] == Some(order@[l]));
        }
    }
    Some(order)
}

/// Decide on the GPAs that the driver reported for the hugepages of a file, in
/// file order.
///
/// Hugetlbfs assigns reserved hugepages in free-list order, not GPA order.
/// Punching them back out in descending order makes the pool hand them out in
/// ascending order the next time.
pub fn order_hugepages(gpas: &Vec<u64>, attempt: u32) -> (r: OrderStep)
    ensures
        r is NotContiguous <==> !contiguous(gpas@) && gpas@.len() > 0,
        r is Ordered <==> (gpas@.len() == 0 || contiguous(gpas@)) && in_order(gpas@),
        r is OutOfAttempts <==> contiguous(gpas@) && !in_order(gpas@) && attempt
            >= MAX_ORDER_ATTEMPTS,
        r matches OrderStep::Reorder(order) ==> {
            &&& contiguous(gpas@) && !in_order(gpas@)
            &&& attempt < MAX_ORDER_ATTEMPTS
            &&& order@.len() == gpas@.len()
            &&& forall|k: int| 0 <= k < order@.len() ==> #[trigger] order@[k] < gpas@.len()
            &&& forall|k: int, l: int|
                0 <= k < l < order@.len() ==> gpas@[#[trigger] order@[k] as int]
                    > gpas@[#[trigger] order@[l] as int]
        },
{
    if gpas.len() == 0 {
        return OrderStep::Ordered;
    }
    let ascending: Vec<usize> = match places(gpas) {
        None => return OrderStep::NotContiguous,
        Some(ascending) => ascending,
    };
    let n: usize = gpas.len();
    let mut ordered: bool = true;
    let mut i: usize = 1;
    while i < n
        invariant
            1 <= i <= n,
            n == gpas@.len(),
            ordered <==> forall|k: int, l: int| 0 <= k < l < i ==> gpas@[k] < gpas@[l],
        decreases n - i,
    {
        if gpas[i - 1] >= gpas[i] {
            ordered = false;
        }
        i = i + 1;
    }
    if ordered {
        return OrderStep::Ordered;
    }
    if attempt >= MAX_ORDER_ATTEMPTS {
        return OrderStep::OutOfAttempts;
    }
    let mut order: Vec<usize> = Vec::new();
    let mut k: usize = 0;
    while k < n
        invariant
            k <= n,
            n == ascending@.len(),
            order@.len() == k,
            forall|l: int| 0 <= l < k ==> #[trigger] order@[l] == ascending@[n - 1 - l],
        decreases n - k,
    {
        order.push(ascending[n - 1 - k]);
        k = k + 1;
    }
    OrderStep::Reorder(order)
}

/// The extents that some pieces form: a piece that continues the one before it
/// belongs to the same extent.
pub open spec fn extents_of(pieces: Seq<Segment>) -> Seq<Segment>
    decreases pieces.len(),
{
    if pieces.len() == 0 {
        Seq::empty()
    } else {
        let before = extents_of(pieces.drop_last());
        let piece = pieces.last();
        if before.len() > 0 && before.last().end() == piece.gpa {
            before.drop_last().push(
                Segment { gpa: before.last().gpa, len: (before.last().len + piece.len) as usize },
            )
        } else {
            before.push(piece)
        }
    }
}

proof fn lemma_total_push(segments: Seq<Segment>, segment: Segment)
    ensures
        total(segments.push(segment)) == total(segments) + segment.len,
{
    assert(segments.push(segment).drop_last() =~= segments);
}

proof fn lemma_total_prefix(pieces: Seq<Segment>, i: int)
    requires
        0 <= i <= pieces.len(),
    ensures
        total(pieces.subrange(0, i)) <= total(pieces),
    decreases pieces.len() - i,
{
    if i < pieces.len() {
        lemma_offsets_grow(pieces, i, pieces.len() as int);
    } else {
        assert(pieces.subrange(0, i) =~= pieces);
    }
}

/// Joining pieces into extents moves no byte: the extents hold as much as the
/// pieces, and each byte keeps its address.
pub proof fn law_extents_keep_every_address(pieces: Seq<Segment>, offset: int)
    requires
        total(pieces) <= usize::MAX,
    ensures
        total(extents_of(pieces)) == total(pieces),
        extents_of(pieces).len() <= pieces.len(),
        0 <= offset < total(pieces) ==> address_at(extents_of(pieces), offset) == address_at(
            pieces,
            offset,
        ),
    decreases pieces.len(),
{
    if pieces.len() > 0 {
        let rest = pieces.drop_last();
        let before = extents_of(rest);
        let piece = pieces.last();
        law_extents_keep_every_address(rest, offset);
        if before.len() > 0 && before.last().end() == piece.gpa {
            let joined = Segment {
                gpa: before.last().gpa,
                len: (before.last().len + piece.len) as usize,
            };
            assert(total(before) == total(before.drop_last()) + before.last().len);
            lemma_total_push(before.drop_last(), joined);
            let after = before.drop_last().push(joined);
            assert(extents_of(pieces) == after);
            assert(after.drop_last() =~= before.drop_last());
        } else {
            lemma_total_push(before, piece);
            assert(before.push(piece).drop_last() =~= before);
        }
    }
}

/// Two extents in a row never continue each other.
pub proof fn law_extents_are_maximal(pieces: Seq<Segment>, i: int)
    requires
        total(pieces) <= usize::MAX,
        0 <= i && i + 1 < extents_of(pieces).len(),
    ensures
        extents_of(pieces)[i].end() != extents_of(pieces)[i + 1].gpa,
    decreases pieces.len(),
{
    let rest = pieces.drop_last();
    let before = extents_of(rest);
    if i + 1 < before.len() {
        law_extents_are_maximal(rest, i);
    }
    law_extents_keep_every_address(rest, 0);
    if before.len() > 0 {
        assert(total(before) == total(before.drop_last()) + before.last().len);
    }
}

/// Join the pieces that the driver reported, in file order, into the extents
/// that the guest is told of.
pub fn join_extents(pieces: &Vec<Segment>) -> (r: Result<Vec<Segment>, MemoryError>)
    requires
        total(pieces@) <= usize::MAX,
        forall|i: int| 0 <= i < pieces@.len() ==> (#[trigger] pieces@[i]).end() <= u64::MAX,
    ensures
        r is Ok <==> extents_of(pieces@).len() <= MAX_EXTENTS,
        r matches Ok(extents) ==> extents@ == extents_of(pieces@),
        r matches Err(err) ==> err == (MemoryError::TooManyExtents {
            extents: extents_of(pieces@).len() as usize,
        }),
{
    let mut extents: Vec<Segment> = Vec::new();
    let mut i: usize = 0;
    assert(pieces@.subrange(0, 0) =~= Seq::<Segment>::empty());
    while i < pieces.len()
        invariant
            i <= pieces@.len(),
            total(pieces@) <= usize::MAX,
            forall|k: int| 0 <= k < pieces@.len() ==> (#[trigger] pieces@[k]).end() <= u64::MAX,
            extents@ == extents_of(pieces@.subrange(0, i as int)),
            extents@.len() > 0 ==> extents@.last().end() <= u64::MAX,
        decreases pieces@.len() - i,
    {
        let piece: Segment = pieces[i];
        proof {
            let now = pieces@.subrange(0, i + 1);
            assert(now.drop_last() =~= pieces@.subrange(0, i as int));
            lemma_total_prefix(pieces@, i + 1);
            lemma_total_prefix(pieces@, i as int);
            law_extents_keep_every_address(pieces@.subrange(0, i as int), 0);
            if extents@.len() > 0 {
                assert(total(extents@) == total(extents@.drop_last()) + extents@.last().len);
            }
        }
        let count: usize = extents.len();
        if count > 0 && extents[count - 1].gpa + extents[count - 1].len as u64 == piece.gpa {
            let last: Segment = extents[count - 1];
            let joined: Segment = Segment { gpa: last.gpa, len: last.len + piece.len };
            let ghost before = extents@;
            extents.set(count - 1, joined);
            assert(extents@ =~= before.drop_last().push(joined));
        } else {
            extents.push(piece);
        }
        i = i + 1;
    }
    assert(pieces@.subrange(0, pieces@.len() as int) =~= pieces@);
    if extents.len() > MAX_EXTENTS {
        return Err(MemoryError::TooManyExtents { extents: extents.len() });
    }
    Ok(extents)
}

/// Mapped memory that has been cleared and may be registered.
pub struct ClearedMemory<'a> {
    data: &'a mut [u8],
}

impl<'a> ClearedMemory<'a> {
    /// The bytes of the mapping.
    pub closed spec fn bytes(&self) -> Seq<u8> {
        self.data@
    }

    /// Clear a complete mapping.
    ///
    /// A TD Partitioning VM slot can be reused after either an orderly shutdown
    /// or a killed VMM. Do not depend on hugetlbfs allocation policy to sanitize
    /// pages returned by the previous L2: clear the complete region before the
    /// driver can publish any alias to it.
    pub fn clear(data: &'a mut [u8]) -> (r: Self)
        ensures
            r.bytes().len() == old(data)@.len(),
            forall|k: int| 0 <= k < r.bytes().len() ==> r.bytes()[k] == 0,
    {
        let size: usize = data.len();
        let mut i: usize = 0;
        while i < size
            invariant
                i <= size,
                data@.len() == size,
                forall|k: int| 0 <= k < i ==> data@[k] == 0,
            decreases size - i,
        {
            data[i] = 0;
            i = i + 1;
        }
        ClearedMemory { data }
    }

    /// The request that registers a piece of the mapping, which lies at
    /// `address` in this process. The reply is the piece's authoritative GPA.
    pub fn register(&self, device: &TdcallDevice, address: usize, offset: usize, len: usize) -> (r:
        TdRegisterMemory)
        requires
            offset + len <= self.bytes().len(),
            address + self.bytes().len() <= usize::MAX,
        ensures
            r == (TdRegisterMemory {
                address: (address + offset) as u64,
                size: len as u64,
                flags: 0,
                gpa: 0,
            }),
    {
        device.register_memory(address + offset, len)
    }

    /// The mapping, once it is registered.
    pub fn into_data(self) -> (r: &'a mut [u8])
        ensures
            r@ == self.bytes(),
    {
        self.data
    }
}

/// Whether the segments are whole pages that do not overlap.
pub fn check_segments(segments: &Vec<Segment>) -> (r: bool)
    ensures
        r == segments_wf(segments@),
{
    let mut i: usize = 0;
    while i < segments.len()
        invariant
            i <= segments@.len(),
            forall|k: int| 0 <= k < i ==> (#[trigger] segments@[k]).wf(),
            forall|k: int, l: int|
                0 <= k < l < i ==> (#[trigger] segments@[k]).apart(#[trigger] segments@[l]),
        decreases segments@.len() - i,
    {
        let segment: Segment = segments[i];
        if segment.gpa % (PAGE as u64) != 0 || segment.len % PAGE != 0 {
            assert(!segments@[i as int].wf());
            return false;
        }
        let end: u64 = match segment.gpa.checked_add(segment.len as u64) {
            Some(end) => end,
            None => {
                assert(!segments@[i as int].wf());
                return false;
            },
        };
        let mut j: usize = 0;
        while j < i
            invariant
                j <= i,
                i < segments@.len(),
                segment == segments@[i as int],
                end == segment.end(),
                forall|k: int| 0 <= k < i ==> (#[trigger] segments@[k]).wf(),
                forall|k: int| 0 <= k < j ==> (#[trigger] segments@[k]).apart(segment),
            decreases i - j,
        {
            let other: Segment = segments[j];
            assert(segments@[j as int].wf());
            if other.gpa + other.len as u64 > segment.gpa && end > other.gpa {
                assert(!segments@[j as int].apart(segments@[i as int]));
                return false;
            }
            j = j + 1;
        }
        i = i + 1;
    }
    true
}

/// How many bytes the segments hold together, if that is a number of bytes a
/// process can address.
pub fn total_len(segments: &Vec<Segment>) -> (r: Option<usize>)
    ensures
        r == (if total(segments@) <= usize::MAX {
            Some(total(segments@) as usize)
        } else {
            None
        }),
{
    let mut sum: usize = 0;
    let mut i: usize = 0;
    assert(segments@.subrange(0, 0) =~= Seq::<Segment>::empty());
    while i < segments.len()
        invariant
            i <= segments@.len(),
            sum == offset_of(segments@, i as int),
        decreases segments@.len() - i,
    {
        proof {
            lemma_offset_step(segments@, i as int);
            lemma_total_prefix(segments@, i + 1);
        }
        sum = match sum.checked_add(segments[i].len) {
            Some(sum) => sum,
            None => return None,
        };
        i = i + 1;
    }
    assert(segments@.subrange(0, segments@.len() as int) =~= segments@);
    Some(sum)
}

/// A driver-validated region: its mapped bytes, and where the pieces of it lie
/// in guest physical memory.
pub struct HugeRegion<'a> {
    data: &'a mut [u8],
    segments: Vec<Segment>,
}

impl<'a> HugeRegion<'a> {
    /// The bytes of the region.
    pub closed spec fn bytes(&self) -> Seq<u8> {
        self.data@
    }

    /// The physical extents, in the order of the bytes.
    pub closed spec fn extents(&self) -> Seq<Segment> {
        self.segments@
    }

    /// The extents are whole pages, do not overlap, and account for every
    /// byte.
    pub open spec fn wf(&self) -> bool {
        &&& segments_wf(self.extents())
        &&& total(self.extents()) == self.bytes().len()
        &&& self.extents().len() > 0
        &&& self.bytes().len() <= usize::MAX
    }

    /// The region that a mapping and the extents reported for it make up;
    /// `None` when the extents do not describe the mapping.
    pub fn new(data: &'a mut [u8], segments: Vec<Segment>) -> (r: Option<Self>)
        ensures
            r is Some <==> segments_wf(segments@) && segments@.len() > 0 && total(segments@) == old(
                data,
            )@.len(),
            r matches Some(region) ==> {
                &&& region.wf()
                &&& region.bytes() == old(data)@
                &&& region.extents() == segments@
            },
    {
        let size: usize = data.len();
        if segments.len() == 0 || !check_segments(&segments) {
            return None;
        }
        match total_len(&segments) {
            Some(len) => {
                if len != size {
                    return None;
                }
            },
            None => return None,
        }
        Some(HugeRegion { data, segments })
    }

    /// Guest physical address of the first byte.
    pub fn gpa(&self) -> (r: u64)
        requires
            self.wf(),
        ensures
            r == self.extents()[0].gpa,
    {
        self.segments[0].gpa
    }

    /// The physical extents, in the order of the bytes.
    pub fn segments(&self) -> (r: &Vec<Segment>)
        ensures
            r@ == self.extents(),
    {
        &self.segments
    }

    pub fn len(&self) -> (r: usize)
        ensures
            r == self.bytes().len(),
    {
        self.data.len()
    }

    pub fn as_slice(&self) -> (r: &[u8])
        ensures
            r@ == self.bytes(),
    {
        &*self.data
    }

    pub fn as_mut_slice(&mut self) -> (r: &mut [u8])
        ensures
            r@ == old(self).bytes(),
            final(self).bytes() == final(r)@,
            final(self).extents() == old(self).extents(),
    {
        &mut *self.data
    }

    /// Write at an offset from the start of the region.
    pub fn write_at(&mut self, offset: usize, data: &[u8]) -> (r: Result<(), WriteError>)
        ensures
            final(self).extents() == old(self).extents(),
            r == (if offset + data@.len() > usize::MAX {
                Err(WriteError::OffsetOverflow)
            } else if offset + data@.len() > old(self).bytes().len() {
                Err(
                    WriteError::ExceedsRegion {
                        length: data.len(),
                        offset,
                        region: old(self).bytes().len() as usize,
                    },
                )
            } else {
                Ok(())
            }),
            final(self).bytes() == (if r is Ok {
                crate::bytes::overwrite(old(self).bytes(), offset as int, data@)
            } else {
                old(self).bytes()
            }),
    {
        let length: usize = data.len();
        let end: usize = match offset.checked_add(length) {
            Some(end) => end,
            None => return Err(WriteError::OffsetOverflow),
        };
        let region: usize = self.data.len();
        if end > region {
            return Err(WriteError::ExceedsRegion { length, offset, region });
        }
        crate::bytes::copy_into(&mut *self.data, offset, data);
        Ok(())
    }
}

/// The page sizes are the architecture's, and a plan holds as many bytes as its
/// pages do.
pub proof fn law_pages_have_architectural_sizes(plan: AllocationPlan)
    ensures
        PAGE == 4096,
        HUGE_2M == 512 * PAGE,
        HUGE_1G == 512 * HUGE_2M,
        plan.size() == plan.huge_1g * 0x4000_0000 + plan.huge_2m * 0x20_0000 + plan.base * 0x1000,
        MAX_EXTENTS == 96,
        MAX_ORDER_ATTEMPTS == 3,
{
}

/// The pages of each tier make up its span, and the spans follow one another
/// from the start of the region to its end, largest pages first.
pub proof fn law_spans_follow_one_another(plan: AllocationPlan)
    requires
        plan.size() <= usize::MAX,
    ensures
        ({
            let body = plan.span_of(Tier::Huge1G);
            let middle = plan.span_of(Tier::Huge2M);
            let tail = plan.span_of(Tier::Base);
            &&& body.offset == 0 && body.len == plan.huge_1g * 0x4000_0000
            &&& middle.offset == body.offset + body.len && middle.len == plan.huge_2m * 0x20_0000
            &&& tail.offset == middle.offset + middle.len && tail.len == plan.base * 0x1000
            &&& tail.offset + tail.len == plan.size()
            &&& body.tier == Tier::Huge1G && middle.tier == Tier::Huge2M && tail.tier == Tier::Base
        }),
{
}

/// The bytes of segments in a row add up, and the address of a byte is counted
/// from the start of the segment it lies in: the bytes of the first segment come
/// first, from its address on.
pub proof fn law_segments_in_a_row(segments: Seq<Segment>, segment: Segment, offset: int)
    requires
        0 <= offset < total(segments) + segment.len,
    ensures
        total(Seq::<Segment>::empty()) == 0,
        total(segments.push(segment)) == total(segments) + segment.len,
        address_at(segments.push(segment), offset) == (if offset < total(segments) {
            address_at(segments, offset)
        } else {
            segment.gpa + (offset - total(segments))
        }),
{
    assert(segments.push(segment).drop_last() =~= segments);
}

/// A write into the region either stands there whole, with every other byte as it
/// was, or changes nothing; it is refused exactly when it does not end inside the
/// region. A registration names the piece by its address in this process.
pub proof fn law_region_writes_and_registrations<'a>(
    region: &mut HugeRegion<'a>,
    offset: usize,
    data: &[u8],
    written: Result<(), WriteError>,
    k: int,
    cleared: &ClearedMemory<'a>,
    device: &TdcallDevice,
    address: usize,
    len: usize,
    registered: TdRegisterMemory,
)
    requires
        call_ensures(HugeRegion::<'a>::write_at, (region, offset, data), written),
        0 <= k < old(region).bytes().len() <= usize::MAX,
        offset + len <= cleared.bytes().len(),
        address + cleared.bytes().len() <= usize::MAX,
        call_ensures(
            ClearedMemory::<'a>::register,
            (cleared, device, address, offset, len),
            registered,
        ),
    ensures
        written is Ok <==> offset + data@.len() <= old(region).bytes().len(),
        final(region).bytes().len() == old(region).bytes().len(),
        final(region).extents() == old(region).extents(),
        final(region).bytes()[k] == (if written is Ok && offset <= k < offset + data@.len() {
            data@[k - offset]
        } else {
            old(region).bytes()[k]
        }),
        registered.address == address + offset && registered.size == len,
        registered.flags == 0 && registered.gpa == 0,
{
}

} // verus!
