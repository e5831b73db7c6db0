//! The local APIC timer.
//!
//! The guest programs it by writing the virtual-APIC page, and reads the
//! current count back from that page without exiting, so the VMM has to keep
//! the count moving itself and deliver the interrupt when it reaches zero.
use vstd::prelude::*;

verus! {

/// A point on the machine's monotonic clock.
#[verifier::external_type_specification]
#[verifier::external_body]
pub struct ExInstant(std::time::Instant);

/// The current time, from `std::time::Instant::now`. It is the machine's, so
/// nothing is claimed of it.
#[verifier::external_body]
fn now() -> (r: std::time::Instant) {
    std::time::Instant::now()
}

/// How many nanoseconds ago `started` was, from `std::time::Instant::elapsed`,
/// with the span it returns converted by `as_nanos`. The result depends on when
/// it is asked, so only its range is claimed: a span of time holds at most
/// 2^64 - 1 whole seconds and a fraction below one second.
#[verifier::external_body]
fn nanos_since(started: std::time::Instant) -> (r: u128)
    ensures
        r <= 0xffff_ffff_ffff_ffff * 1_000_000_000 + 999_999_999,
{
    started.elapsed().as_nanos()
}

/// Whether `at` is a time that the clock gave when it was read.
pub closed spec fn clock_read(at: std::time::Instant) -> bool {
    call_ensures(now, (), at)
}

/// Whether `nanos` is a span that the clock measured since `started`. Measuring
/// again may give another.
pub closed spec fn span_measured(started: std::time::Instant, nanos: u128) -> bool {
    call_ensures(nanos_since, (started,), nanos)
}

/// Offsets of the timer's registers in the APIC page: the local vector table
/// entry, the initial count and the divide configuration.
pub const LVT_TIMER: usize = 0x320;

pub const TMICT: usize = 0x380;

pub const TDCR: usize = 0x3e0;

/// The local vector table bit that masks the timer.
pub const MASKED: u32 = 0x1_0000;

/// The local vector table bit that makes the timer periodic.
pub const PERIODIC: u32 = 0x2_0000;

/// The timer counts at the bus clock divided by the divide configuration. The
/// rate does not matter to a guest that calibrates against another clock, but
/// it has to be consistent with itself.
pub const APIC_TIMER_HZ: u128 = 1_000_000_000;

/// The local APIC timer.
pub struct ApicTimer {
    armed: Option<std::time::Instant>,
    initial_count: u32,
    divide: u32,
    periodic: bool,
    vector: u8,
}

/// What the timer holds.
pub struct TimerState {
    /// When the running count was started.
    pub armed: Option<std::time::Instant>,
    pub initial_count: u32,
    /// The divisor of the bus clock; zero until it is configured, and then the
    /// clock is not divided.
    pub divide: u32,
    pub periodic: bool,
    pub vector: u8,
}

/// The number that the divide configuration encodes: a three-bit field with a
/// gap at bit 2.
pub open spec fn divide_index(value: u32) -> u32 {
    (value % 4 + 4 * (value / 8 % 2)) as u32
}

/// The divisor of a divide configuration: 2, 4, 8 and so on up to 128, and
/// then 1.
pub open spec fn divisor(value: u32) -> u32 {
    match divide_index(value) {
        0 => 2,
        1 => 4,
        2 => 8,
        3 => 16,
        4 => 32,
        5 => 64,
        6 => 128,
        _ => 1,
    }
}

/// Whether a local vector table entry is masked.
pub open spec fn is_masked(lvt: u32) -> bool {
    lvt / 0x1_0000 % 2 == 1
}

/// Whether a local vector table entry makes the timer periodic.
pub open spec fn is_periodic(lvt: u32) -> bool {
    lvt / 0x2_0000 % 2 == 1
}

/// The timer after the guest wrote one of its registers at time `at`. Only an
/// initial count starts the timer anew, and only a zero count or a masked entry
/// stops it: every other write leaves a running count running.
pub open spec fn after_write(
    timer: TimerState,
    offset: usize,
    value: u32,
    at: std::time::Instant,
) -> TimerState {
    if offset == TDCR {
        TimerState { divide: divisor(value), ..timer }
    } else if offset == LVT_TIMER {
        TimerState {
            vector: (value % 0x100) as u8,
            periodic: is_periodic(value),
            armed: if is_masked(value) {
                None
            } else {
                timer.armed
            },
            ..timer
        }
    } else if offset == TMICT {
        TimerState {
            initial_count: value,
            armed: if value != 0 {
                Some(at)
            } else {
                None
            },
            ..timer
        }
    } else {
        timer
    }
}

/// How far the counter has moved after some nanoseconds.
pub open spec fn ticks(timer: TimerState, nanos: int) -> int {
    nanos / (if timer.divide == 0 {
        1
    } else {
        timer.divide as int
    })
}

/// Whether the timer has run out after `elapsed` ticks.
pub open spec fn expired(timer: TimerState, elapsed: int) -> bool {
    timer.armed is Some && elapsed >= timer.initial_count
}

/// The count that the guest reads after `elapsed` ticks.
pub open spec fn current_count(timer: TimerState, elapsed: int) -> int {
    if timer.armed is Some && elapsed < timer.initial_count {
        timer.initial_count - elapsed
    } else {
        0
    }
}

/// The vector that an expiry delivers, given the local vector table as it
/// stands: none while the entry is masked or names a reserved vector.
pub open spec fn delivered(lvt: u32) -> Option<u8> {
    if is_masked(lvt) || lvt % 0x100 < 0x10 {
        None
    } else {
        Some((lvt % 0x100) as u8)
    }
}

/// What a tick reports after `elapsed` ticks: the current count, and the vector
/// to deliver if the timer has run out.
pub open spec fn tick_report(timer: TimerState, elapsed: int, lvt: u32) -> (u32, Option<u8>) {
    (
        current_count(timer, elapsed) as u32,
        if expired(timer, elapsed) {
            delivered(lvt)
        } else {
            None
        },
    )
}

/// The timer after a tick at time `at`, `elapsed` ticks after it was armed. A
/// timer that still runs stays as it is; one that has run out stops, or starts
/// anew if it is periodic.
pub open spec fn after_tick(timer: TimerState, elapsed: int, at: std::time::Instant) -> TimerState {
    if !expired(timer, elapsed) {
        timer
    } else {
        TimerState {
            armed: if timer.periodic {
                Some(at)
            } else {
                None
            },
            ..timer
        }
    }
}

proof fn lemma_register_bits(value: u32)
    by (bit_vector)
    ensures
        ((value & 0xb) & 3) | (((value & 0xb) & 8) >> 1) == value % 4 + 4 * (value / 8 % 2),
        (value & 0x1_0000 != 0) == (value / 0x1_0000 % 2 == 1),
        (value & 0x2_0000 != 0) == (value / 0x2_0000 % 2 == 1),
        value as u8 == value % 0x100,
        1u32 << 1 == 2u32,
        1u32 << 2 == 4u32,
        1u32 << 3 == 8u32,
        1u32 << 4 == 16u32,
        1u32 << 5 == 32u32,
        1u32 << 6 == 64u32,
        1u32 << 7 == 128u32,
{
}

impl Default for ApicTimer {
    fn default() -> (r: Self)
        ensures
            r.state() == (TimerState {
                armed: None,
                initial_count: 0,
                divide: 0,
                periodic: false,
                vector: 0,
            }),
    {
        ApicTimer { armed: None, initial_count: 0, divide: 0, periodic: false, vector: 0 }
    }
}

impl ApicTimer {
    /// What the timer holds.
    pub closed spec fn state(self) -> TimerState {
        TimerState {
            armed: self.armed,
            initial_count: self.initial_count,
            divide: self.divide,
            periodic: self.periodic,
            vector: self.vector,
        }
    }

    /// The guest wrote one of the timer's registers; `value` is what it wrote.
    /// When that was is the clock's to say, and only an initial count needs it.
    pub fn on_write(&mut self, offset: usize, value: u32)
        ensures
            exists|at: std::time::Instant|
                clock_read(at) && final(self).state() == #[trigger] after_write(
                    old(self).state(),
                    offset,
                    value,
                    at,
                ),
    {
        let at: std::time::Instant = now();
        self.on_write_at(offset, value, at);
        assert(self.state() == after_write(old(self).state(), offset, value, at));
    }

    /// The guest wrote one of the timer's registers at time `at`; `value` is
    /// what it wrote.
    pub fn on_write_at(&mut self, offset: usize, value: u32, at: std::time::Instant)
        ensures
            final(self).state() == after_write(old(self).state(), offset, value, at),
    {
        proof {
            lemma_register_bits(value);
        }
        if offset == TDCR {
            let raw: u32 = value & 0xb;
            let index: u32 = (raw & 0x3) | ((raw & 0x8) >> 1);
            self.divide = if index == 7 {
                1
            } else {
                1u32 << (index + 1)
            };
        } else if offset == LVT_TIMER {
            self.vector = value as u8;
            self.periodic = value & PERIODIC != 0;
            if value & MASKED != 0 {
                self.armed = None;
            }
        } else if offset == TMICT {
            self.initial_count = value;
            self.armed = if value != 0 {
                Some(at)
            } else {
                None
            };
        }
    }

    pub fn is_armed(&self) -> (r: bool)
        ensures
            r == (self.state().armed is Some),
    {
        self.armed.is_some()
    }

    /// How far the counter moves in a number of nanoseconds.
    pub fn ticks_in(&self, nanos: u128) -> (r: u128)
        requires
            nanos <= 0xffff_ffff_ffff_ffff * 1_000_000_000 + 999_999_999,
        ensures
            r == ticks(self.state(), nanos as int),
    {
        let divide: u128 = if self.divide == 0 {
            1
        } else {
            self.divide as u128
        };
        nanos * APIC_TIMER_HZ / 1_000_000_000 / divide
    }

    /// How far the counter has moved since it started.
    pub fn ticks_since(&self, started: std::time::Instant) -> (r: u128)
        ensures
            exists|nanos: u128|
                #[trigger] span_measured(started, nanos) && r == ticks(self.state(), nanos as int),
    {
        let nanos: u128 = nanos_since(started);
        assert(span_measured(started, nanos));
        self.ticks_in(nanos)
    }

    /// Refresh the current count the guest will read, and report an expiry,
    /// given the time and how far the counter has moved.
    ///
    /// The vector comes from the local vector table as it stands now, not from
    /// what was recorded when the count was set: a guest arms the count before
    /// it has finished describing where the interrupt should go.
    pub fn tick_at(&mut self, elapsed: u128, lvt: u32, at: std::time::Instant) -> (r: (
        u32,
        Option<u8>,
    ))
        ensures
            r == tick_report(old(self).state(), elapsed as int, lvt),
            final(self).state() == after_tick(old(self).state(), elapsed as int, at),
    {
        proof {
            lemma_register_bits(lvt);
        }
        if self.armed.is_none() {
            return (0, None);
        }
        let initial: u128 = self.initial_count as u128;
        if elapsed < initial {
            return ((initial - elapsed) as u32, None);
        }
        self.armed = if self.periodic {
            Some(at)
        } else {
            None
        };
        let vector: u8 = lvt as u8;
        if lvt & MASKED != 0 || vector < 0x10 {
            return (0, None);
        }
        (0, Some(vector))
    }

    /// Refresh the current count the guest will read, and report an expiry. How
    /// much time has passed since the timer was armed is the clock's to say.
    pub fn tick(&mut self, lvt: u32) -> (r: (u32, Option<u8>))
        ensures
            old(self).state().armed matches Some(started) ==> exists|
                nanos: u128,
                at: std::time::Instant,
            |
                {
                    let elapsed = ticks(old(self).state(), nanos as int);
                    &&& #[trigger] span_measured(started, nanos)
                    &&& #[trigger] clock_read(at)
                    &&& r == tick_report(old(self).state(), elapsed, lvt)
                    &&& final(self).state() == after_tick(old(self).state(), elapsed, at)
                },
            old(self).state().armed is None ==> r == (0u32, None::<u8>) && final(self).state()
                == old(self).state(),
    {
        let elapsed: u128 = match self.armed {
            Some(started) => self.ticks_since(started),
            None => return (0, None),
        };
        let at: std::time::Instant = now();
        assert(clock_read(at));
        self.tick_at(elapsed, lvt, at)
    }
}

/// The count never rises while the timer runs, it starts at the initial count
/// and stands at zero once the timer has run out.
pub proof fn law_count_falls_to_zero(timer: TimerState, earlier: int, later: int)
    requires
        timer.armed is Some,
        0 <= earlier <= later,
    ensures
        current_count(timer, 0) == timer.initial_count,
        current_count(timer, later) <= current_count(timer, earlier) <= timer.initial_count,
        expired(timer, later) <==> current_count(timer, later) == 0,
        expired(timer, earlier) ==> expired(timer, later),
{
}

/// A timer that is not armed never expires, and a masked or reserved vector is
/// never delivered.
pub proof fn law_no_unwanted_interrupt(timer: TimerState, elapsed: int, lvt: u32)
    ensures
        timer.armed is None ==> !expired(timer, elapsed),
        delivered(lvt) matches Some(vector) ==> vector >= 0x10 && !is_masked(lvt),
{
}

/// Arming the timer takes a count that is not zero; masking it or writing a
/// zero count disarms it.
pub proof fn law_arming(timer: TimerState, value: u32, at: std::time::Instant)
    ensures
        after_write(timer, TMICT, value, at).armed == (if value != 0 {
            Some(at)
        } else {
            None
        }),
        is_masked(value) ==> after_write(timer, LVT_TIMER, value, at).armed is None,
        after_write(timer, LVT_TIMER, value, at).armed is Some ==> timer.armed is Some,
{
}

/// A running count keeps its start: a write that is neither an initial count nor
/// a masked vector entry, and a tick before the count has run out, leave the
/// timer armed since when it was. So a timer that is polled still runs out.
pub proof fn law_running_count_keeps_its_start(
    timer: TimerState,
    offset: usize,
    value: u32,
    elapsed: int,
    at: std::time::Instant,
)
    ensures
        offset != TMICT && !(offset == LVT_TIMER && is_masked(value)) ==> after_write(
            timer,
            offset,
            value,
            at,
        ).armed == timer.armed,
        offset != TMICT ==> after_write(timer, offset, value, at).initial_count
            == timer.initial_count,
        elapsed < timer.initial_count ==> after_tick(timer, elapsed, at) == timer,
        timer.armed is None ==> after_tick(timer, elapsed, at) == timer,
{
}

proof fn lemma_divide_bits(value: u32)
    by (bit_vector)
    ensures
        value & 0xb == value % 4 + 8 * (value / 8 % 2),
{
}

/// The divide configuration counts in powers of two: its bits 0, 1 and 3 name
/// 2, 4, 8, 16, 32, 64, 128 and 1, in this order, and no other bit matters.
pub proof fn law_divide_configuration_counts_in_powers_of_two(value: u32)
    ensures
        value & 0xb == 0x0 ==> divisor(value) == 2,
        value & 0xb == 0x1 ==> divisor(value) == 4,
        value & 0xb == 0x2 ==> divisor(value) == 8,
        value & 0xb == 0x3 ==> divisor(value) == 16,
        value & 0xb == 0x8 ==> divisor(value) == 32,
        value & 0xb == 0x9 ==> divisor(value) == 64,
        value & 0xb == 0xa ==> divisor(value) == 128,
        value & 0xb == 0xb ==> divisor(value) == 1,
        value & 0xb < 4 || 8 <= value & 0xb < 12,
{
    lemma_divide_bits(value);
}

/// The timer counts one tick for as many nanoseconds as the divisor says, whole
/// ticks only; until a divisor is configured, one for each.
pub proof fn law_ticks_take_as_long_as_the_divisor_says(timer: TimerState, nanos: int)
    requires
        0 <= nanos,
    ensures
        timer.divide == 0 ==> ticks(timer, nanos) == nanos,
        timer.divide != 0 ==> timer.divide * ticks(timer, nanos) <= nanos < timer.divide * (ticks(
            timer,
            nanos,
        ) + 1),
{
    if timer.divide != 0 {
        let divide = timer.divide as int;
        vstd::arithmetic::div_mod::lemma_fundamental_div_mod(nanos, divide);
        vstd::arithmetic::div_mod::lemma_mod_bound(nanos, divide);
        assert(divide * (nanos / divide + 1) == divide * (nanos / divide) + divide)
            by (nonlinear_arith);
    }
}

/// The guest programs the timer through three registers, and each of them sets
/// what it is there for and nothing else: the local vector table entry at 0x320
/// the vector and whether the timer is periodic, the initial count at 0x380 the
/// count and when it started, and the divide configuration at 0x3e0 the divisor.
/// Every other register is none of the timer's.
pub proof fn law_each_register_sets_its_own_part(
    timer: TimerState,
    offset: usize,
    value: u32,
    at: std::time::Instant,
)
    ensures
        ({
            let after = after_write(timer, offset, value, at);
            &&& offset == 0x320 ==> {
                &&& after.vector == value % 0x100
                &&& after.periodic == (value / 0x2_0000 % 2 == 1)
                &&& after.armed == (if value / 0x1_0000 % 2 == 1 {
                    None
                } else {
                    timer.armed
                })
            }
            &&& offset == 0x380 ==> {
                &&& after.initial_count == value
                &&& after.armed == (if value == 0 {
                    None
                } else {
                    Some(at)
                })
            }
            &&& offset == 0x3e0 ==> after.divide == divisor(value)
            &&& offset != 0x320 ==> after.vector == timer.vector && after.periodic == timer.periodic
            &&& offset != 0x380 ==> after.initial_count == timer.initial_count
            &&& offset != 0x3e0 ==> after.divide == timer.divide
            &&& offset != 0x320 && offset != 0x380 ==> after.armed == timer.armed
        }),
{
}

/// A tick accounts for all the time that has passed. Before the count has run
/// out, what is left of it and what has elapsed make up the initial count, and
/// nothing is delivered. From then on the count is zero, the vector that the
/// local vector table names is delivered unless it is masked or below 16, and
/// the timer starts anew if it is periodic and stops if it is not; only that
/// changes.
pub proof fn law_tick_accounts_for_the_time(
    timer: TimerState,
    elapsed: int,
    lvt: u32,
    at: std::time::Instant,
)
    requires
        timer.armed is Some,
        0 <= elapsed,
    ensures
        ({
            let (count, vector) = tick_report(timer, elapsed, lvt);
            let after = after_tick(timer, elapsed, at);
            &&& elapsed < timer.initial_count ==> count + elapsed == timer.initial_count && vector
                is None && after == timer
            &&& elapsed >= timer.initial_count ==> {
                &&& count == 0
                &&& vector is Some <==> lvt / 0x1_0000 % 2 == 0 && lvt % 0x100 >= 16
                &&& vector matches Some(vector) ==> vector == lvt % 0x100
                &&& after.armed == (if timer.periodic {
                    Some(at)
                } else {
                    None
                })
                &&& after == (TimerState { armed: after.armed, ..timer })
            }
        }),
{
}

} // verus!
