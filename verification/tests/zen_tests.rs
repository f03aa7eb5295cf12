use eq::zen::{Pomodoro, ZenState};

#[test]
fn pomodoro_counts_down_in_seconds() {
    let p = Pomodoro::new(25, 100);
    assert_eq!(p.duration_secs, 1500);
    assert!(!p.is_break);
    assert_eq!(p.elapsed_secs(100), 0);
    assert_eq!(p.elapsed_secs(160), 60);
    assert_eq!(p.remaining_secs(160), 1440);
    assert!(!p.is_complete(160));
    assert!(p.is_complete(1600));
    assert_eq!(p.remaining_secs(1600), 0);
}

#[test]
fn pomodoro_ignores_clock_readings_before_its_start() {
    let p = Pomodoro::new(25, 100);
    assert_eq!(p.elapsed_secs(50), 0);
    assert_eq!(p.remaining_secs(50), 1500);
}

#[test]
fn remaining_time_formats_as_minutes_and_seconds() {
    let p = Pomodoro::new(25, 0);
    assert_eq!(p.format_remaining(0), "25:00");
    assert_eq!(p.format_remaining(60), "24:00");
    assert_eq!(p.format_remaining(1495), "00:05");
    assert_eq!(p.format_remaining(9999), "00:00");
    let long = Pomodoro::new(120, 0);
    assert_eq!(long.format_remaining(0), "120:00");
}

#[test]
fn zen_state_switches_to_the_break_message_when_done() {
    let mut z = ZenState::new(25, 0);
    assert_eq!(z.message, "Focus on what matters");
    assert_eq!(z.tick, 0);
    z.update(10);
    assert_eq!(z.tick, 1);
    assert_eq!(z.message, "Focus on what matters");
    z.update(1500);
    assert_eq!(z.tick, 2);
    assert_eq!(z.message, "Time for a break! \u{1f375}");
}
