use gish::debounce::{Debouncer, Decision, QUIET_WINDOW_MS};

fn expect_emit(d: Decision) -> u64 {
    match d {
        Decision::Emit { emit_at } => emit_at,
        Decision::Absorb => panic!("expected an emission, event was absorbed"),
    }
}

fn expect_absorb(d: Decision) {
    match d {
        Decision::Emit { .. } => panic!("expected absorption, got an emission"),
        Decision::Absorb => {}
    }
}

#[test]
fn burst_within_window_emits_once() {
    // A burst of rapid events, all within one quiet window of each other,
    // produces exactly one coalesced signal, one full window after the first.
    let mut d = Debouncer::new(1000);
    let first = expect_emit(d.observe(0));
    assert_eq!(first, 1000);
    expect_absorb(d.observe(100));
    expect_absorb(d.observe(500));
    expect_absorb(d.observe(999));
}

#[test]
fn boundary_event_exactly_one_window_later_is_absorbed() {
    // The quiet-window comparison is strict: an event exactly one window
    // after the last accepted one is still absorbed.
    let mut d = Debouncer::new(1000);
    expect_emit(d.observe(500));
    expect_absorb(d.observe(1500));
    // One past the window is accepted again.
    let at = expect_emit(d.observe(1501));
    assert_eq!(at, 2501);
}

#[test]
fn separated_events_emit_twice() {
    // Two events more than one window apart produce two signals, each no
    // earlier than one window after its trigger.
    let mut d = Debouncer::new(1000);
    let a = expect_emit(d.observe(0));
    let b = expect_emit(d.observe(1500));
    assert_eq!(a, 1000);
    assert_eq!(b, 2500);
    assert!(a >= 0 + 1000);
    assert!(b >= 1500 + 1000);
}

#[test]
fn first_event_on_fresh_engine_is_always_accepted() {
    let mut d = Debouncer::new(QUIET_WINDOW_MS);
    let at = expect_emit(d.observe(7));
    assert_eq!(at, 7 + QUIET_WINDOW_MS);
}

#[test]
fn remaining_wait_is_the_unexpired_part_of_the_window() {
    assert_eq!(gish::debounce::remaining_wait(1000, 400), 600);
    assert_eq!(gish::debounce::remaining_wait(1000, 1000), 0);
    assert_eq!(gish::debounce::remaining_wait(1000, 2500), 0);
}

#[test]
fn sustained_activity_still_emits_at_most_one_per_window() {
    // Fixed-window policy: during sustained activity the wait is never
    // restarted, so signals keep coming, spaced by more than one window.
    let mut d = Debouncer::new(1000);
    let mut emissions = Vec::new();
    let mut t = 0;
    while t <= 10_000 {
        if let Decision::Emit { emit_at } = d.observe(t) {
            emissions.push(emit_at);
        }
        t += 250;
    }
    assert!(emissions.len() >= 2);
    for pair in emissions.windows(2) {
        assert!(pair[1] - pair[0] > 1000);
    }
}
