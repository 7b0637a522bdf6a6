use linux_disk_space_manager::monitor::{Observation, ThresholdState};

fn poll(s: &mut ThresholdState, above: bool, window: i32) -> Observation {
    s.observe(above, window)
}

#[test]
fn fresh_state_is_idle() {
    let s = ThresholdState::default();
    assert_eq!(s.active_cycles(), 0);
    assert!(!s.triggered());
}

#[test]
fn fires_once_after_health_window() {
    let mut s = ThresholdState::new();
    let mut fired = 0;
    for cycle in 1..=50 {
        let o = poll(&mut s, true, 10);
        assert_eq!(o.first_cycle, cycle == 1);
        if o.fire {
            fired += 1;
            assert_eq!(cycle, 10);
        }
        assert!(!o.reset && !o.recovered);
    }
    assert_eq!(fired, 1);
    assert_eq!(s.active_cycles(), 50);
    assert!(s.triggered());
}

#[test]
fn short_breach_never_fires() {
    let mut s = ThresholdState::new();
    for _ in 0..4 {
        assert!(!poll(&mut s, true, 5).fire);
    }
    let o = poll(&mut s, false, 5);
    assert!(o.reset);
    assert!(!o.recovered);
    assert_eq!(s.active_cycles(), 0);
    for _ in 0..4 {
        assert!(!poll(&mut s, true, 5).fire);
    }
}

#[test]
fn recovery_rearms_the_commands() {
    let mut s = ThresholdState::new();
    for _ in 0..3 {
        poll(&mut s, true, 3);
    }
    assert!(s.triggered());
    let o = poll(&mut s, false, 3);
    assert!(o.reset && o.recovered);
    assert!(!s.triggered());
    let fires: usize = (0..3).filter(|_| poll(&mut s, true, 3).fire).count();
    assert_eq!(fires, 1);
}

#[test]
fn below_on_idle_state_resets_nothing() {
    let mut s = ThresholdState::new();
    let o = poll(&mut s, false, 5);
    assert_eq!(
        o,
        Observation { first_cycle: false, fire: false, remind: false, reset: false, recovered: false }
    );
}

#[test]
fn reminders_every_ten_windows() {
    let mut s = ThresholdState::new();
    let mut reminders = Vec::new();
    for cycle in 1..=130 {
        if poll(&mut s, true, 3).remind {
            reminders.push(cycle);
        }
    }
    assert_eq!(reminders, vec![30, 60, 90, 120]);
}

#[test]
fn reminders_at_least_twenty_cycles_apart() {
    let mut s = ThresholdState::new();
    let mut reminders = Vec::new();
    for cycle in 1..=45 {
        if poll(&mut s, true, 1).remind {
            reminders.push(cycle);
        }
    }
    assert_eq!(reminders, vec![20, 40]);
}

#[test]
fn window_of_one_fires_on_first_cycle() {
    let mut s = ThresholdState::new();
    let o = poll(&mut s, true, 1);
    assert!(o.first_cycle && o.fire);
}

#[test]
fn thresholds_are_independent() {
    // Two levels of one filesystem: usage at 88% with thresholds 70 and 90.
    let mut low = ThresholdState::new();
    let mut high = ThresholdState::new();
    for _ in 0..5 {
        poll(&mut low, 88 >= 70, 2);
        poll(&mut high, 88 >= 90, 2);
    }
    assert!(low.triggered());
    assert!(!high.triggered());
    assert_eq!(high.active_cycles(), 0);
}
