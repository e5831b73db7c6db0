use std::time::Instant;
use virt_tdp::timer::ApicTimer;
use virt_tdp::timer::LVT_TIMER;
use virt_tdp::timer::TDCR;
use virt_tdp::timer::TMICT;

#[test]
fn a_count_arms_the_timer() {
    let mut timer = ApicTimer::default();
    assert!(!timer.is_armed());
    timer.on_write(TMICT, 100);
    assert!(timer.is_armed());
    timer.on_write(TMICT, 0);
    assert!(!timer.is_armed());
}

#[test]
fn masking_disarms_the_timer() {
    let mut timer = ApicTimer::default();
    timer.on_write(TMICT, 100);
    timer.on_write(LVT_TIMER, 0x30);
    assert!(timer.is_armed());
    timer.on_write(LVT_TIMER, 0x1_0030);
    assert!(!timer.is_armed());
    timer.on_write(0x330, 1);
    assert!(!timer.is_armed());
}

#[test]
fn the_divisor_has_a_gap_in_its_encoding() {
    let mut timer = ApicTimer::default();
    assert_eq!(timer.ticks_in(1280), 1280);
    for (value, ticks) in
        [(0, 640), (1, 320), (2, 160), (3, 80), (8, 40), (9, 20), (10, 10), (11, 1280)]
    {
        timer.on_write(TDCR, value);
        assert_eq!(timer.ticks_in(1280), ticks);
        timer.on_write(TDCR, value | 4);
        assert_eq!(timer.ticks_in(1280), ticks);
    }
}

#[test]
fn the_count_falls_and_the_timer_fires_once() {
    let mut timer = ApicTimer::default();
    assert_eq!(timer.tick_at(1000, 0x31, Instant::now()), (0, None));
    timer.on_write(TMICT, 100);
    assert_eq!(timer.tick_at(0, 0x31, Instant::now()), (100, None));
    assert_eq!(timer.tick_at(99, 0x31, Instant::now()), (1, None));
    assert_eq!(timer.tick_at(100, 0x31, Instant::now()), (0, Some(0x31)));
    assert!(!timer.is_armed());
    assert_eq!(timer.tick_at(200, 0x31, Instant::now()), (0, None));
}

#[test]
fn a_periodic_timer_stays_armed() {
    let mut timer = ApicTimer::default();
    timer.on_write(LVT_TIMER, 0x2_0031);
    timer.on_write(TMICT, 100);
    assert_eq!(timer.tick_at(150, 0x2_0031, Instant::now()), (0, Some(0x31)));
    assert!(timer.is_armed());
}

#[test]
fn masked_and_reserved_vectors_do_not_fire() {
    let mut timer = ApicTimer::default();
    timer.on_write(TMICT, 1);
    assert_eq!(timer.tick_at(1, 0x1_0031, Instant::now()), (0, None));
    timer.on_write(TMICT, 1);
    assert_eq!(timer.tick_at(1, 0x0f, Instant::now()), (0, None));
    timer.on_write(TMICT, 1);
    assert_eq!(timer.tick_at(1, 0x10, Instant::now()), (0, Some(0x10)));
}

#[test]
fn the_timer_follows_the_clock() {
    let mut timer = ApicTimer::default();
    timer.on_write(TMICT, 1);
    let started = Instant::now();
    while started.elapsed().as_nanos() < 1_000_000 {}
    assert!(timer.ticks_since(started) >= 1_000_000);
    assert_eq!(timer.tick(0x40), (0, Some(0x40)));
    timer.on_write(TMICT, u32::MAX);
    let (count, fired) = timer.tick(0x40);
    assert!(count > 0 && fired.is_none());
}

#[test]
fn a_polled_timer_still_runs_out() {
    let mut timer = ApicTimer::default();
    timer.on_write(LVT_TIMER, 0x31);
    timer.on_write(TMICT, 2_000_000);
    let started = Instant::now();
    let mut last = 2_000_000;
    let mut fired = None;
    while fired.is_none() {
        assert!(started.elapsed().as_secs() < 10);
        let (count, vector) = timer.tick(0x31);
        assert!(count <= last);
        last = count;
        fired = vector;
    }
    assert_eq!(fired, Some(0x31));
    assert!(!timer.is_armed());
}

#[test]
fn other_writes_do_not_restart_a_running_timer() {
    let mut timer = ApicTimer::default();
    timer.on_write(TDCR, 0xb);
    timer.on_write(TMICT, 2_000_000);
    let started = Instant::now();
    while timer.is_armed() {
        assert!(started.elapsed().as_secs() < 10);
        timer.on_write(TDCR, 0xb);
        timer.on_write(LVT_TIMER, 0x31);
        timer.on_write(0x330, 7);
        timer.tick(0x31);
    }
}

#[test]
fn a_count_runs_from_when_it_was_written() {
    let mut timer = ApicTimer::default();
    let written = Instant::now();
    while written.elapsed().as_nanos() < 1_000_000 {}
    timer.on_write_at(TMICT, 1_000_000, written);
    assert_eq!(timer.tick(0x31), (0, Some(0x31)));
}
