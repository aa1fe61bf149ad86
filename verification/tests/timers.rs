use dungeon_core::timers::{OnceTimer, RepeatTimer};

#[test]
fn a_fresh_cooldown_starts_gated() {
    let mut t = OnceTimer::new(3000);
    assert!(!t.finished());
    t.tick(2999);
    assert!(!t.finished());
    t.tick(1);
    assert!(t.finished());
}

#[test]
fn reset_cooldown_needs_its_whole_duration() {
    let mut t = OnceTimer::new(3000);
    t.tick(3000);
    assert!(t.finished());
    t.reset();
    assert!(!t.finished());
    t.tick(1000);
    assert!(!t.finished());
    t.tick(1999);
    assert!(!t.finished());
    t.tick(1);
    assert!(t.finished());
}

#[test]
fn cooldown_elapsed_caps_at_duration() {
    let mut t = OnceTimer::new(3000);
    t.tick(1_000_000);
    assert!(t.finished());
    assert_eq!(t.elapsed_ms, 3000);
}

#[test]
fn repeating_timer_fires_once_per_interval() {
    let mut t = RepeatTimer::new(1500);
    assert!(!t.tick(1000));
    assert!(t.tick(500));
    assert_eq!(t.elapsed_ms, 0);
    assert!(!t.tick(1499));
    assert!(t.tick(1));
}

#[test]
fn repeating_timer_carries_the_remainder() {
    let mut t = RepeatTimer::new(1500);
    assert!(t.tick(1700));
    assert_eq!(t.elapsed_ms, 200);
    assert!(!t.tick(1299));
    assert!(t.tick(1));
}

#[test]
fn repeating_timer_three_firings_in_four_and_a_half_seconds() {
    // 4.5 simulated seconds in 500 ms steps with a 1.5 s interval:
    // exactly 3 firings, not one per step.
    let mut t = RepeatTimer::new(1500);
    let mut fired: u32 = 0;
    for _ in 0..9 {
        if t.tick(500) {
            fired += 1;
        }
    }
    assert_eq!(fired, 3);
}
