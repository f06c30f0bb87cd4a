use autoclick_rs::combo::{ComboAction, ComboRun};
use autoclick_rs::worker::{LoopReport, WorkerLoop};

/// Drives a combo of `mods` and `regs` (plain labels), failing the steps
/// whose position (0-based) is in `fail_at`. Returns the steps taken and
/// the result.
fn drive(mods: &[u8], regs: &[u8], fail_at: &[usize]) -> (Vec<String>, Result<(), String>) {
    drive_with(true, mods, regs, fail_at)
}

fn drive_with(release_all: bool, mods: &[u8], regs: &[u8], fail_at: &[usize]) -> (Vec<String>, Result<(), String>) {
    let mut run = ComboRun::with_policy(mods.to_vec(), regs.to_vec(), release_all);
    let mut steps: Vec<String> = Vec::new();
    loop {
        let step = steps.len();
        let outcome = if fail_at.contains(&step) { Err(format!("fail{}", step)) } else { Ok(()) };
        match run.action() {
            ComboAction::Down(k) => steps.push(format!("down{}", k)),
            ComboAction::Tap(k) => steps.push(format!("tap{}", k)),
            ComboAction::Up(k) => steps.push(format!("up{}", k)),
            ComboAction::Finish(r) => {
                assert!(run.is_finished());
                return (steps, r);
            }
        }
        assert!(!run.is_finished());
        run.record(outcome);
        assert!(steps.len() < 100, "a combo always finishes");
    }
}

#[test]
fn combo_holds_modifiers_around_taps() {
    let (steps, r) = drive(&[1, 2], &[7, 8], &[]);
    assert_eq!(steps, vec!["down1", "down2", "tap7", "tap8", "up2", "up1"]);
    assert_eq!(r, Ok(()));
}

#[test]
fn combo_without_modifiers_just_taps() {
    let (steps, r) = drive(&[], &[5], &[]);
    assert_eq!(steps, vec!["tap5"]);
    assert_eq!(r, Ok(()));
}

#[test]
fn combo_of_modifiers_only() {
    let (steps, r) = drive(&[3], &[], &[]);
    assert_eq!(steps, vec!["down3", "up3"]);
    assert_eq!(r, Ok(()));
}

#[test]
fn empty_combo_finishes_at_once() {
    let (steps, r) = drive(&[], &[], &[]);
    assert!(steps.is_empty());
    assert_eq!(r, Ok(()));
}

#[test]
fn failed_press_releases_the_held_modifiers_in_reverse() {
    let (steps, r) = drive(&[1, 2, 3], &[7], &[2]);
    assert_eq!(steps, vec!["down1", "down2", "down3", "up2", "up1"]);
    assert_eq!(r, Err("fail2".to_string()));
}

#[test]
fn failed_first_press_releases_nothing() {
    let (steps, r) = drive(&[1, 2], &[7], &[0]);
    assert_eq!(steps, vec!["down1"]);
    assert_eq!(r, Err("fail0".to_string()));
}

#[test]
fn failed_tap_releases_every_modifier_and_keeps_the_first_error() {
    // The release failures during the clean-up are ignored.
    let (steps, r) = drive(&[1, 2], &[7, 8], &[3, 4]);
    assert_eq!(steps, vec!["down1", "down2", "tap7", "tap8", "up2", "up1"]);
    assert_eq!(r, Err("fail3".to_string()));
}

#[test]
fn failed_release_still_releases_the_rest() {
    let (steps, r) = drive(&[1, 2, 3], &[7], &[4, 5]);
    assert_eq!(steps, vec!["down1", "down2", "down3", "tap7", "up3", "up2", "up1"]);
    assert_eq!(r, Err("fail4".to_string()));
}

#[test]
fn failed_last_release_reports_its_error() {
    let (steps, r) = drive(&[1, 2], &[7], &[4]);
    assert_eq!(steps, vec!["down1", "down2", "tap7", "up2", "up1"]);
    assert_eq!(r, Err("fail4".to_string()));
}

#[test]
fn recording_after_the_end_changes_nothing() {
    let mut run: ComboRun<u8> = ComboRun::new(vec![], vec![1]);
    run.record(Ok(()));
    assert!(run.is_finished());
    run.record(Err("late".to_string()));
    assert!(matches!(run.action(), ComboAction::Finish(Ok(()))));
}

#[test]
fn worker_ticks_after_first_and_every_tenth_combo() {
    let mut w = WorkerLoop::new(None);
    let mut ticks: Vec<u64> = Vec::new();
    for _ in 0..25 {
        assert!(w.keep_going(false, 0));
        match w.combo_done(Ok(())) {
            LoopReport::Tick(n) => ticks.push(n),
            LoopReport::Quiet => {}
            LoopReport::Failed(_) => panic!("no failure"),
        }
    }
    assert_eq!(ticks, vec![1, 10, 20]);
    assert_eq!(w.sent(), 25);
    assert!(!w.over());
}

#[test]
fn worker_stops_when_told() {
    let mut w = WorkerLoop::new(None);
    assert!(w.keep_going(false, 5));
    assert_eq!(w.combo_done(Ok(())), LoopReport::Tick(1));
    assert!(!w.keep_going(true, 6));
    assert!(w.over());
    assert_eq!(w.sent(), 1);
}

#[test]
fn worker_stops_when_duration_is_over() {
    let mut w = WorkerLoop::new(Some(1_000));
    assert!(w.keep_going(false, 999));
    assert_eq!(w.combo_done(Ok(())), LoopReport::Tick(1));
    assert!(!w.keep_going(false, 1_000));
    assert!(w.over());
}

#[test]
fn worker_failure_ends_the_loop() {
    let mut w = WorkerLoop::new(None);
    assert!(w.keep_going(false, 0));
    assert_eq!(w.combo_done(Ok(())), LoopReport::Tick(1));
    assert!(w.keep_going(false, 0));
    assert_eq!(w.combo_done(Err("boom".to_string())), LoopReport::Failed("boom".to_string()));
    assert!(w.over());
    assert_eq!(w.sent(), 1);
}

#[test]
fn stopping_policy_ends_at_a_failed_release() {
    let (steps, r) = drive_with(false, &[1, 2, 3], &[7], &[4]);
    assert_eq!(steps, vec!["down1", "down2", "down3", "tap7", "up3"]);
    assert_eq!(r, Err("fail4".to_string()));
    // A failed tap still releases everything held.
    let (steps, r) = drive_with(false, &[1, 2], &[7], &[2]);
    assert_eq!(steps, vec!["down1", "down2", "tap7", "up2", "up1"]);
    assert_eq!(r, Err("fail2".to_string()));
}

#[test]
fn the_first_error_is_reported() {
    let (_, r) = drive(&[1], &[7, 8], &[1, 2, 3]);
    assert_eq!(r, Err("fail1".to_string()));
}
