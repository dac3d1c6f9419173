use wave_sim::control::{Controls, Signal, TickPlan};

#[test]
fn speed_signals() {
    let mut c = Controls::new(100);
    c.increase_speed();
    assert_eq!(c.steps_per_tick, 200);
    let mut c = Controls::new(1);
    c.decrease_speed();
    assert_eq!(c.steps_per_tick, 0);
    c.decrease_speed();
    assert_eq!(c.steps_per_tick, 0);
    c.increase_speed();
    assert_eq!(c.steps_per_tick, 1);
}

#[test]
fn decrease_takes_half() {
    let mut c = Controls::new(100);
    c.decrease_speed();
    assert_eq!(c.steps_per_tick, 50);
    let mut c = Controls::new(7);
    c.decrease_speed();
    assert_eq!(c.steps_per_tick, 4);
    let mut c = Controls::new(3);
    c.decrease_speed();
    assert_eq!(c.steps_per_tick, 2);
}

#[test]
fn increase_saturates() {
    let mut c = Controls::new(usize::MAX - 1);
    c.increase_speed();
    assert_eq!(c.steps_per_tick, usize::MAX);
}

#[test]
fn tick_runs_before_signals() {
    let mut c = Controls::new(100);
    let plan = c.tick(&vec![Signal::IncreaseSpeed, Signal::TogglePause]);
    assert_eq!(plan, TickPlan { steps: 100, reset: false });
    assert_eq!(c, Controls { steps_per_tick: 200, paused: true });
    let plan = c.tick(&vec![]);
    assert_eq!(plan, TickPlan { steps: 0, reset: false });
    let plan = c.tick(&vec![Signal::TogglePause, Signal::Reset]);
    assert_eq!(plan, TickPlan { steps: 0, reset: true });
    assert!(!c.paused);
    assert_eq!(c.steps_this_tick(), 200);
}

#[test]
fn apply_reports_reset_only() {
    let mut c = Controls::new(5);
    assert!(c.apply(Signal::Reset));
    assert_eq!(c, Controls::new(5));
    assert!(!c.apply(Signal::DecreaseSpeed));
    assert_eq!(c.steps_per_tick, 3);
}
