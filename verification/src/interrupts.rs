//! Interrupts raised by devices, waiting for the run loop to deliver them.
//!
//! The IOAPIC signals from any thread and delivery needs the L2's VMCS, so
//! requests queue here and the run loop drains them before its next entry.
use vstd::prelude::*;

verus! {

/// How many lines the IOAPIC has.
pub const IRQ_LINES: usize = 24;

/// A message-signalled interrupt.
#[derive(Debug, Clone, Copy, PartialEq, Eq, Structural)]
pub struct MsiRequest {
    pub address: u64,
    pub data: u32,
}

/// What is known of one processor.
#[derive(Debug, Clone, Copy, PartialEq, Eq, Structural)]
pub struct VpWake {
    /// Something waits to be delivered.
    pub pending: bool,
    /// The processor is inside an entry right now. A kick is only worth
    /// sending then: outside the entry the processor is about to drain the
    /// queue anyway, and a kick per device interrupt starves the entry into
    /// never running at all.
    pub in_entry: bool,
    /// This entry has already been kicked. One kick is enough, since the
    /// processor drains every queued vector before it enters again, and sending
    /// more is actively harmful: under a storm each ends the entry a little
    /// sooner, until the guest executes nothing per entry.
    pub kicked: bool,
}

/// What waking a processor calls for.
#[derive(Debug, Clone, Copy, PartialEq, Eq, Structural)]
pub enum Kick {
    /// The processor is between entries, or was kicked out of this one
    /// already.
    NotNeeded,
    /// Force the entry to return.
    Send,
}

impl VpWake {
    /// A processor that nothing waits for.
    pub open spec fn idle() -> VpWake {
        VpWake { pending: false, in_entry: false, kicked: false }
    }

    /// The processor once something waits for it.
    pub open spec fn woken(self) -> VpWake {
        VpWake { pending: true, kicked: self.in_entry || self.kicked, ..self }
    }

    /// Whether waking the processor needs a kick.
    pub open spec fn needs_kick(self) -> bool {
        self.in_entry && !self.kicked
    }
}

/// The interrupt routes, the queued vectors and the state of each processor.
pub struct PendingInterrupts {
    routes: [Option<MsiRequest>; 24],
    vectors: Vec<(u32, u8)>,
    vp_wakes: Vec<VpWake>,
}

/// The vectors queued for a processor, oldest first.
pub open spec fn queued_for(vectors: Seq<(u32, u8)>, vp_index: u32) -> Seq<u8>
    decreases vectors.len(),
{
    if vectors.len() == 0 {
        Seq::empty()
    } else {
        let before = queued_for(vectors.drop_last(), vp_index);
        if vectors.last().0 == vp_index {
            before.push(vectors.last().1)
        } else {
            before
        }
    }
}

/// What is queued for the other processors, in order.
pub open spec fn queued_for_others(vectors: Seq<(u32, u8)>, vp_index: u32) -> Seq<(u32, u8)>
    decreases vectors.len(),
{
    if vectors.len() == 0 {
        Seq::empty()
    } else {
        let before = queued_for_others(vectors.drop_last(), vp_index);
        if vectors.last().0 == vp_index {
            before
        } else {
            before.push(vectors.last())
        }
    }
}

/// The processors after the first `n` targets were woken.
pub open spec fn woken_targets(wakes: Seq<VpWake>, targets: Seq<u32>, n: int) -> Seq<VpWake>
    decreases n,
{
    if n <= 0 {
        wakes
    } else {
        let before = woken_targets(wakes, targets, n - 1);
        before.update(targets[n - 1] as int, before[targets[n - 1] as int].woken())
    }
}

/// The processors to kick, in order, when the first `n` targets are woken.
pub open spec fn kicked_targets(wakes: Seq<VpWake>, targets: Seq<u32>, n: int) -> Seq<u32>
    decreases n,
{
    if n <= 0 {
        Seq::empty()
    } else {
        let before = kicked_targets(wakes, targets, n - 1);
        if woken_targets(wakes, targets, n - 1)[targets[n - 1] as int].needs_kick() {
            before.push(targets[n - 1])
        } else {
            before
        }
    }
}

/// A vector queued for each of the first `n` targets.
pub open spec fn queued_targets(targets: Seq<u32>, vector: u8, n: int) -> Seq<(u32, u8)> {
    Seq::new(n as nat, |i: int| (targets[i], vector))
}

impl PendingInterrupts {
    /// Where each line is routed.
    pub closed spec fn routes(&self) -> Seq<Option<MsiRequest>> {
        self.routes@
    }

    /// Targeted vectors, oldest first.
    pub closed spec fn vectors(&self) -> Seq<(u32, u8)> {
        self.vectors@
    }

    /// The processors.
    pub closed spec fn wakes(&self) -> Seq<VpWake> {
        self.vp_wakes@
    }

    /// No line is routed, nothing is queued, and no processor is in an entry.
    pub fn new(vp_count: u32) -> (r: Self)
        ensures
            r.routes() == Seq::new(24, |i: int| None::<MsiRequest>),
            r.vectors() == Seq::<(u32, u8)>::empty(),
            r.wakes() == Seq::new(vp_count as nat, |i: int| VpWake::idle()),
    {
        let routes: [Option<MsiRequest>; 24] = [None;24];
        let mut vp_wakes: Vec<VpWake> = Vec::new();
        let mut i: u32 = 0;
        while i < vp_count
            invariant
                i <= vp_count,
                vp_wakes@.len() == i,
                forall|k: int| 0 <= k < i ==> #[trigger] vp_wakes@[k] == VpWake::idle(),
            decreases vp_count - i,
        {
            vp_wakes.push(VpWake { pending: false, in_entry: false, kicked: false });
            i = i + 1;
        }
        let r: PendingInterrupts = PendingInterrupts { routes, vectors: Vec::new(), vp_wakes };
        assert(r.routes() =~= Seq::new(24, |i: int| None::<MsiRequest>));
        assert(r.wakes() =~= Seq::new(vp_count as nat, |i: int| VpWake::idle()));
        r
    }

    /// Wake a processor for APIC work such as INIT, SIPI, or an IPI.
    ///
    /// Without a kick, an entry that put the guest to sleep stays asleep until
    /// the host happens to interrupt it for its own reasons, which on an idle
    /// host is never.
    pub fn wake_vp(&mut self, vp_index: u32) -> (r: Kick)
        requires
            vp_index < old(self).wakes().len(),
        ensures
            final(self).wakes() == old(self).wakes().update(
                vp_index as int,
                old(self).wakes()[vp_index as int].woken(),
            ),
            final(self).vectors() == old(self).vectors(),
            final(self).routes() == old(self).routes(),
            r == (if old(self).wakes()[vp_index as int].needs_kick() {
                Kick::Send
            } else {
                Kick::NotNeeded
            }),
    {
        let index: usize = vp_index as usize;
        let mut wake: VpWake = self.vp_wakes[index];
        wake.pending = true;
        let kick: Kick = if wake.in_entry && !wake.kicked {
            Kick::Send
        } else {
            Kick::NotNeeded
        };
        if wake.in_entry {
            wake.kicked = true;
        }
        self.vp_wakes.set(index, wake);
        kick
    }

    /// Whether nothing waits to be delivered.
    pub fn is_empty(&self, vp_index: u32) -> (r: bool)
        requires
            vp_index < self.wakes().len(),
        ensures
            r == !self.wakes()[vp_index as int].pending,
    {
        !self.vp_wakes[vp_index as usize].pending
    }

    /// Take the vectors raised since the last call.
    pub fn drain(&mut self, vp_index: u32) -> (r: Vec<u8>)
        requires
            vp_index < old(self).wakes().len(),
        ensures
            r@ == queued_for(old(self).vectors(), vp_index),
            final(self).vectors() == queued_for_others(old(self).vectors(), vp_index),
            final(self).wakes() == old(self).wakes().update(
                vp_index as int,
                VpWake { pending: false, ..old(self).wakes()[vp_index as int] },
            ),
            final(self).routes() == old(self).routes(),
    {
        let index: usize = vp_index as usize;
        let mut wake: VpWake = self.vp_wakes[index];
        wake.pending = false;
        self.vp_wakes.set(index, wake);
        let mut mine: Vec<u8> = Vec::new();
        let mut rest: Vec<(u32, u8)> = Vec::new();
        let mut i: usize = 0;
        assert(self.vectors@.subrange(0, 0) =~= Seq::<(u32, u8)>::empty());
        while i < self.vectors.len()
            invariant
                i <= self.vectors@.len(),
                mine@ == queued_for(self.vectors@.subrange(0, i as int), vp_index),
                rest@ == queued_for_others(self.vectors@.subrange(0, i as int), vp_index),
            decreases self.vectors@.len() - i,
        {
            let entry: (u32, u8) = self.vectors[i];
            assert(self.vectors@.subrange(0, i + 1).drop_last() =~= self.vectors@.subrange(
                0,
                i as int,
            ));
            if entry.0 == vp_index {
                mine.push(entry.1);
            } else {
                rest.push(entry);
            }
            i = i + 1;
        }
        assert(self.vectors@.subrange(0, self.vectors@.len() as int) =~= self.vectors@);
        self.vectors = rest;
        mine
    }

    /// An interrupt was raised and the APICs say which processors it targets:
    /// queue its vector for each, wake them, and name the ones to kick.
    pub fn request(&mut self, vector: u8, targets: &Vec<u32>) -> (r: Vec<u32>)
        requires
            forall|i: int|
                0 <= i < targets@.len() ==> (#[trigger] targets@[i]) < old(self).wakes().len(),
        ensures
            final(self).vectors() == old(self).vectors() + queued_targets(
                targets@,
                vector,
                targets@.len() as int,
            ),
            final(self).wakes() == woken_targets(
                old(self).wakes(),
                targets@,
                targets@.len() as int,
            ),
            final(self).routes() == old(self).routes(),
            r@ == kicked_targets(old(self).wakes(), targets@, targets@.len() as int),
    {
        let ghost wakes = self.wakes();
        let ghost vectors = self.vectors();
        let ghost routes = self.routes();
        let mut kicks: Vec<u32> = Vec::new();
        let mut i: usize = 0;
        assert(vectors + queued_targets(targets@, vector, 0) =~= vectors);
        while i < targets.len()
            invariant
                i <= targets@.len(),
                wakes == old(self).wakes(),
                vectors == old(self).vectors(),
                routes == old(self).routes(),
                forall|k: int| 0 <= k < targets@.len() ==> (#[trigger] targets@[k]) < wakes.len(),
                self.vectors() == vectors + queued_targets(targets@, vector, i as int),
                self.wakes() == woken_targets(wakes, targets@, i as int),
                self.wakes().len() == wakes.len(),
                self.routes() == routes,
                kicks@ == kicked_targets(wakes, targets@, i as int),
            decreases targets@.len() - i,
        {
            let target: u32 = targets[i];
            self.vectors.push((target, vector));
            assert(self.vectors() =~= vectors + queued_targets(targets@, vector, i + 1));
            match self.wake_vp(target) {
                Kick::Send => kicks.push(target),
                Kick::NotNeeded => {},
            }
            i = i + 1;
        }
        kicks
    }

    /// Interrupt a running entry so the VP can be stopped or inspected.
    ///
    /// Unlike the device-interrupt path this is not optional, and not counted
    /// as this entry's kick: a halted L2 can otherwise remain inside its entry
    /// forever, preventing both shutdown and the revocation of aliases.
    pub fn request_yield(&self, vp_index: u32) -> (r: Kick)
        requires
            vp_index < self.wakes().len(),
        ensures
            r == (if self.wakes()[vp_index as int].in_entry {
                Kick::Send
            } else {
                Kick::NotNeeded
            }),
    {
        if self.vp_wakes[vp_index as usize].in_entry {
            Kick::Send
        } else {
            Kick::NotNeeded
        }
    }

    /// Mark the start of an entry, so that an interrupt raised during it kicks
    /// the processor out rather than being slept through.
    ///
    /// Deliberately does not refuse the entry when vectors are already pending.
    /// They were drained and published before this, and entering is what
    /// delivers them; refusing instead livelocks the moment interrupts arrive
    /// faster than one loop takes.
    pub fn entry_begin(&mut self, vp_index: u32)
        requires
            vp_index < old(self).wakes().len(),
        ensures
            final(self).wakes() == old(self).wakes().update(
                vp_index as int,
                VpWake { in_entry: true, kicked: false, ..old(self).wakes()[vp_index as int] },
            ),
            final(self).vectors() == old(self).vectors(),
            final(self).routes() == old(self).routes(),
    {
        let index: usize = vp_index as usize;
        let mut wake: VpWake = self.vp_wakes[index];
        wake.kicked = false;
        wake.in_entry = true;
        self.vp_wakes.set(index, wake);
    }

    /// Mark the end of an entry.
    pub fn entry_end(&mut self, vp_index: u32)
        requires
            vp_index < old(self).wakes().len(),
        ensures
            final(self).wakes() == old(self).wakes().update(
                vp_index as int,
                VpWake { in_entry: false, ..old(self).wakes()[vp_index as int] },
            ),
            final(self).vectors() == old(self).vectors(),
            final(self).routes() == old(self).routes(),
    {
        let index: usize = vp_index as usize;
        let mut wake: VpWake = self.vp_wakes[index];
        wake.in_entry = false;
        self.vp_wakes.set(index, wake);
    }

    /// The guest routed an interrupt line, or unrouted it. A line the IOAPIC
    /// does not have is ignored.
    pub fn set_irq_route(&mut self, irq: u8, request: Option<MsiRequest>)
        ensures
            final(self).routes() == (if irq < IRQ_LINES {
                old(self).routes().update(irq as int, request)
            } else {
                old(self).routes()
            }),
            final(self).vectors() == old(self).vectors(),
            final(self).wakes() == old(self).wakes(),
    {
        if (irq as usize) < IRQ_LINES {
            self.routes[irq as usize] = request;
            assert(self.routes() =~= old(self).routes().update(irq as int, request));
        }
    }

    /// A device asserted its line: the request to raise, if the guest has
    /// programmed the line. That it has not is the guest's business, not an
    /// error.
    pub fn assert_irq(&self, irq: u8) -> (r: Option<MsiRequest>)
        ensures
            r == (if irq < IRQ_LINES {
                self.routes()[irq as int]
            } else {
                None
            }),
    {
        if (irq as usize) < IRQ_LINES {
            self.routes[irq as usize]
        } else {
            None
        }
    }
}

/// Waking targets keeps the processors' number.
proof fn lemma_woken_len(wakes: Seq<VpWake>, targets: Seq<u32>, n: int)
    requires
        n <= targets.len(),
        forall|k: int| 0 <= k < targets.len() ==> (#[trigger] targets[k]) < wakes.len(),
    ensures
        woken_targets(wakes, targets, n).len() == wakes.len(),
    decreases n,
{
    if n > 0 {
        lemma_woken_len(wakes, targets, n - 1);
    }
}

/// Once a processor in an entry has been woken it is not kicked again, however
/// often it is woken, until it enters anew; and a processor outside an entry is
/// never kicked.
pub proof fn law_one_kick_per_entry(wake: VpWake)
    ensures
        !wake.woken().needs_kick(),
        !wake.in_entry ==> !wake.needs_kick(),
        wake.woken().pending,
        (VpWake { in_entry: true, kicked: false, ..wake }).needs_kick(),
{
}

/// However many vectors are raised at once, no processor is kicked twice.
pub proof fn law_request_kicks_each_target_once(
    wakes: Seq<VpWake>,
    targets: Seq<u32>,
    n: int,
    i: int,
    j: int,
)
    requires
        0 <= n <= targets.len(),
        forall|k: int| 0 <= k < targets.len() ==> (#[trigger] targets[k]) < wakes.len(),
        0 <= i < j < kicked_targets(wakes, targets, n).len(),
    ensures
        kicked_targets(wakes, targets, n)[i] != kicked_targets(wakes, targets, n)[j],
    decreases n,
{
    let before = kicked_targets(wakes, targets, n - 1);
    lemma_kicked_need_none(wakes, targets, n - 1);
    if j < before.len() {
        law_request_kicks_each_target_once(wakes, targets, n - 1, i, j);
    } else {
        assert(before[i] == kicked_targets(wakes, targets, n)[i]);
    }
}

/// A processor that was kicked needs no other kick.
proof fn lemma_kicked_need_none(wakes: Seq<VpWake>, targets: Seq<u32>, n: int)
    requires
        0 <= n <= targets.len(),
        forall|k: int| 0 <= k < targets.len() ==> (#[trigger] targets[k]) < wakes.len(),
    ensures
        forall|k: int|
            0 <= k < kicked_targets(wakes, targets, n).len() ==> {
                let target = #[trigger] kicked_targets(wakes, targets, n)[k];
                &&& target < wakes.len()
                &&& !woken_targets(wakes, targets, n)[target as int].needs_kick()
            },
    decreases n,
{
    if n > 0 {
        lemma_kicked_need_none(wakes, targets, n - 1);
        lemma_woken_len(wakes, targets, n - 1);
        let kicked = kicked_targets(wakes, targets, n);
        assert forall|k: int| 0 <= k < kicked.len() implies {
            let target = #[trigger] kicked[k];
            &&& target < wakes.len()
            &&& !woken_targets(wakes, targets, n)[target as int].needs_kick()
        } by {
            if k < kicked_targets(wakes, targets, n - 1).len() {
                assert(kicked[k] == kicked_targets(wakes, targets, n - 1)[k]);
            }
        }
    }
}

/// No vector is lost or duplicated by a drain: what a processor does not take
/// stays queued for the processor it was meant for, in order.
pub proof fn law_drain_takes_only_its_own(vectors: Seq<(u32, u8)>, vp_index: u32, other: u32)
    ensures
        queued_for(queued_for_others(vectors, vp_index), other) == (if other == vp_index {
            Seq::<u8>::empty()
        } else {
            queued_for(vectors, other)
        }),
        queued_for_others(vectors, vp_index).len() + queued_for(vectors, vp_index).len()
            == vectors.len(),
    decreases vectors.len(),
{
    if vectors.len() > 0 {
        law_drain_takes_only_its_own(vectors.drop_last(), vp_index, other);
        let before = queued_for_others(vectors.drop_last(), vp_index);
        assert(before.push(vectors.last()).drop_last() =~= before);
    }
}

/// What is queued for a processor is what was queued for it, in that order: a
/// vector queued last comes out last for its own processor, and is nothing to the
/// others; and what stays behind when a processor takes its own is everything
/// else, in order.
pub proof fn law_vectors_stay_in_order(
    vectors: Seq<(u32, u8)>,
    target: u32,
    vector: u8,
    vp_index: u32,
)
    ensures
        queued_for(Seq::empty(), vp_index) == Seq::<u8>::empty(),
        queued_for(vectors.push((target, vector)), vp_index) == (if target == vp_index {
            queued_for(vectors, vp_index).push(vector)
        } else {
            queued_for(vectors, vp_index)
        }),
        queued_for_others(Seq::empty(), vp_index) == Seq::<(u32, u8)>::empty(),
        queued_for_others(vectors.push((target, vector)), vp_index) == (if target == vp_index {
            queued_for_others(vectors, vp_index)
        } else {
            queued_for_others(vectors, vp_index).push((target, vector))
        }),
{
    assert(vectors.push((target, vector)).drop_last() =~= vectors);
}

/// A request reaches each of its targets and no other processor: behind what was
/// queued for a processor before, its vector is queued once for each time the
/// processor is named.
pub proof fn law_requests_reach_their_targets(
    vectors: Seq<(u32, u8)>,
    targets: Seq<u32>,
    vector: u8,
    n: int,
    vp_index: u32,
    k: int,
)
    requires
        0 <= n <= targets.len(),
    ensures
        ({
            let before = queued_for(vectors, vp_index);
            let after = queued_for(vectors + queued_targets(targets, vector, n), vp_index);
            &&& after.len() >= before.len()
            &&& 0 <= k < before.len() ==> after[k] == before[k]
            &&& before.len() <= k < after.len() ==> after[k] == vector
            &&& after.len() > before.len() <==> targets.subrange(0, n).contains(vp_index)
            &&& (forall|i: int, j: int| 0 <= i < j < targets.len() ==> targets[i] != targets[j])
                ==> after.len() <= before.len() + 1
        }),
    decreases n,
{
    let all = vectors + queued_targets(targets, vector, n);
    if n == 0 {
        assert(all =~= vectors);
    } else {
        law_requests_reach_their_targets(vectors, targets, vector, n - 1, vp_index, k);
        let rest = vectors + queued_targets(targets, vector, n - 1);
        let target = targets[n - 1];
        assert(all =~= rest.push((target, vector)));
        law_vectors_stay_in_order(rest, target, vector, vp_index);
        let named = targets.subrange(0, n);
        let fewer = targets.subrange(0, n - 1);
        if fewer.contains(vp_index) {
            let i = choose|i: int| 0 <= i < fewer.len() && fewer[i] == vp_index;
            assert(named[i] == vp_index);
            assert(targets[i] == vp_index);
        }
        if named.contains(vp_index) {
            let i = choose|i: int| 0 <= i < named.len() && named[i] == vp_index;
            if i < n - 1 {
                assert(fewer[i] == vp_index);
            }
        }
        if target == vp_index {
            assert(named[n - 1] == vp_index);
        }
    }
}

/// Waking a processor makes it pending, counts as this entry's kick if it is in
/// one, and changes nothing else; a processor is kicked only out of an entry that
/// it was not kicked out of already.
pub proof fn law_waking(wake: VpWake)
    ensures
        wake.woken().pending,
        wake.woken().in_entry == wake.in_entry,
        wake.woken().kicked <==> wake.kicked || wake.in_entry,
        wake.needs_kick() <==> wake.in_entry && !wake.kicked,
        !VpWake::idle().pending && !VpWake::idle().in_entry && !VpWake::idle().kicked,
{
}

/// A request wakes each of its targets, leaves every other processor as it is,
/// and kicks exactly those targets that are in an entry which nobody has kicked
/// yet.
pub proof fn law_requests_wake_and_kick_their_targets(
    wakes: Seq<VpWake>,
    targets: Seq<u32>,
    n: int,
    vp_index: u32,
)
    requires
        0 <= n <= targets.len(),
        vp_index < wakes.len(),
        forall|k: int| 0 <= k < targets.len() ==> (#[trigger] targets[k]) < wakes.len(),
    ensures
        ({
            let after = woken_targets(wakes, targets, n)[vp_index as int];
            let named = targets.subrange(0, n).contains(vp_index);
            let before = wakes[vp_index as int];
            &&& after == (if named {
                before.woken()
            } else {
                before
            })
            &&& kicked_targets(wakes, targets, n).contains(vp_index) <==> named && before.in_entry
                && !before.kicked
        }),
    decreases n,
{
    if n > 0 {
        law_requests_wake_and_kick_their_targets(wakes, targets, n - 1, vp_index);
        lemma_woken_len(wakes, targets, n - 1);
        let target = targets[n - 1];
        let named = targets.subrange(0, n);
        let fewer = targets.subrange(0, n - 1);
        if fewer.contains(vp_index) {
            let i = choose|i: int| 0 <= i < fewer.len() && fewer[i] == vp_index;
            assert(named[i] == vp_index);
        }
        if named.contains(vp_index) {
            let i = choose|i: int| 0 <= i < named.len() && named[i] == vp_index;
            if i < n - 1 {
                assert(fewer[i] == vp_index);
            }
        }
        if target == vp_index {
            assert(named[n - 1] == vp_index);
        }
        let before = kicked_targets(wakes, targets, n - 1);
        let after = kicked_targets(wakes, targets, n);
        if before.contains(vp_index) {
            let i = choose|i: int| 0 <= i < before.len() && before[i] == vp_index;
            assert(after[i] == vp_index);
        }
        if after.contains(vp_index) {
            let i = choose|i: int| 0 <= i < after.len() && after[i] == vp_index;
            if i < before.len() {
                assert(before[i] == vp_index);
            }
        }
        if after.len() > before.len() {
            assert(after[before.len() as int] == target);
        }
    } else {
        assert(targets.subrange(0, 0) =~= Seq::<u32>::empty());
    }
}

/// A line raises what it was last routed to, and nothing before it is routed or
/// after it is unrouted; the other lines keep their routes, and a line that the
/// IOAPIC does not have never raises anything.
pub proof fn law_lines_raise_what_they_are_routed_to(
    pending: &mut PendingInterrupts,
    after: &PendingInterrupts,
    irq: u8,
    request: Option<MsiRequest>,
    other: u8,
    raised: Option<MsiRequest>,
)
    requires
        old(pending).routes().len() == 24,
        call_ensures(PendingInterrupts::set_irq_route, (pending, irq, request), ()),
        after.routes() == final(pending).routes(),
        call_ensures(PendingInterrupts::assert_irq, (after, other), raised),
    ensures
        other >= 24 ==> raised is None,
        other < 24 && other == irq ==> raised == request,
        other < 24 && other != irq ==> raised == old(pending).routes()[other as int],
        final(pending).vectors() == old(pending).vectors(),
        final(pending).wakes() == old(pending).wakes(),
{
}

/// A processor that has drained its vectors has nothing waiting, and the others
/// still have what they had.
pub proof fn law_drained_processors_have_nothing_waiting(
    pending: &mut PendingInterrupts,
    after: &PendingInterrupts,
    vp_index: u32,
    drained: Vec<u8>,
    other: u32,
    empty: bool,
)
    requires
        vp_index < old(pending).wakes().len(),
        other < old(pending).wakes().len(),
        call_ensures(PendingInterrupts::drain, (pending, vp_index), drained),
        after.wakes() == final(pending).wakes(),
        call_ensures(PendingInterrupts::is_empty, (after, other), empty),
    ensures
        drained@ == queued_for(old(pending).vectors(), vp_index),
        other == vp_index ==> empty,
        other != vp_index ==> empty == !old(pending).wakes()[other as int].pending,
        queued_for(final(pending).vectors(), other) == (if other == vp_index {
            Seq::<u8>::empty()
        } else {
            queued_for(old(pending).vectors(), other)
        }),
        final(pending).wakes()[vp_index as int].in_entry == old(
            pending,
        ).wakes()[vp_index as int].in_entry,
        final(pending).wakes()[vp_index as int].kicked == old(
            pending,
        ).wakes()[vp_index as int].kicked,
        final(pending).routes() == old(pending).routes(),
{
    law_drain_takes_only_its_own(old(pending).vectors(), vp_index, other);
}

/// A yield kicks a processor exactly while it is in an entry, whether or not it
/// was kicked already: between the beginning and the end of an entry, and not
/// outside. A new entry can be kicked again.
pub proof fn law_yields_kick_running_processors(
    begun: &mut PendingInterrupts,
    ended: &mut PendingInterrupts,
    inside: &PendingInterrupts,
    outside: &PendingInterrupts,
    any: &PendingInterrupts,
    vp_index: u32,
    running: Kick,
    stopped: Kick,
    asked: Kick,
)
    requires
        vp_index < old(begun).wakes().len(),
        vp_index < old(ended).wakes().len(),
        call_ensures(PendingInterrupts::entry_begin, (begun, vp_index), ()),
        call_ensures(PendingInterrupts::entry_end, (ended, vp_index), ()),
        inside.wakes() == final(begun).wakes(),
        outside.wakes() == final(ended).wakes(),
        call_ensures(PendingInterrupts::request_yield, (inside, vp_index), running),
        call_ensures(PendingInterrupts::request_yield, (outside, vp_index), stopped),
        vp_index < any.wakes().len(),
        call_ensures(PendingInterrupts::request_yield, (any, vp_index), asked),
    ensures
        asked is Send <==> any.wakes()[vp_index as int].in_entry,
        running == Kick::Send,
        stopped == Kick::NotNeeded,
        final(begun).wakes()[vp_index as int].needs_kick(),
        final(begun).wakes()[vp_index as int].pending == old(
            begun,
        ).wakes()[vp_index as int].pending,
        final(ended).wakes()[vp_index as int].pending == old(
            ended,
        ).wakes()[vp_index as int].pending,
        final(begun).vectors() == old(begun).vectors(),
        final(ended).vectors() == old(ended).vectors(),
{
}

/// In the beginning no line is routed, nothing is queued for anyone, and every
/// processor is idle.
pub proof fn law_nothing_is_pending_in_the_beginning(
    vp_count: u32,
    fresh: PendingInterrupts,
    vp_index: u32,
    irq: u8,
)
    requires
        call_ensures(PendingInterrupts::new, (vp_count,), fresh),
        vp_index < vp_count,
        irq < 24,
    ensures
        fresh.wakes().len() == vp_count,
        fresh.routes().len() == 24,
        fresh.routes()[irq as int] is None,
        queued_for(fresh.vectors(), vp_index).len() == 0,
        !fresh.wakes()[vp_index as int].pending && !fresh.wakes()[vp_index as int].in_entry
            && !fresh.wakes()[vp_index as int].kicked,
{
}

} // verus!
