use panel_bringup::bringup::{bring_up_trace, script_step, Action, BringUp, Level, Outcome, Phase};

fn all_done(n: usize) -> Vec<Outcome> {
    vec![Outcome::Done; n]
}

#[test]
fn successful_bring_up_issues_the_full_program() {
    let trace = bring_up_trace(&all_done(15));
    let expected = vec![
        Action::SetReset(Level::High),
        Action::DelayMs(10),
        Action::OpenBus,
        Action::SetReset(Level::Low),
        Action::DelayMs(10),
        Action::SetReset(Level::High),
        Action::DelayMs(120),
        Action::InitController,
        Action::DelayMs(100),
        Action::SetBacklight(Level::High),
        Action::DelayMs(100),
        Action::Clear(0x0000),
        Action::DrawText,
        Action::DelayMs(1000),
        Action::DelayMs(1000),
    ];
    assert_eq!(trace, expected);
}

#[test]
fn reset_pulse_order_and_minimum_delays() {
    let trace = bring_up_trace(&all_done(13));
    let resets: Vec<(usize, Action)> = trace
        .iter()
        .enumerate()
        .filter(|(_, a)| matches!(a, Action::SetReset(_)))
        .map(|(i, a)| (i, *a))
        .collect();
    assert_eq!(
        resets,
        vec![
            (0, Action::SetReset(Level::High)),
            (3, Action::SetReset(Level::Low)),
            (5, Action::SetReset(Level::High)),
        ]
    );
    assert!(matches!(trace[1], Action::DelayMs(d) if d >= 10));
    assert!(matches!(trace[4], Action::DelayMs(d) if d >= 10));
    assert!(matches!(trace[6], Action::DelayMs(d) if d >= 120));
}

#[test]
fn backlight_only_after_successful_init() {
    let trace = bring_up_trace(&all_done(13));
    let init = trace.iter().position(|a| *a == Action::InitController).unwrap();
    let light = trace
        .iter()
        .position(|a| *a == Action::SetBacklight(Level::High))
        .unwrap();
    assert!(init < light);
    assert!(matches!(trace[light - 1], Action::DelayMs(d) if d >= 100));
    assert!(matches!(trace[light + 1], Action::DelayMs(d) if d >= 100));
}

#[test]
fn init_failure_faults_and_sends_no_pixels() {
    let mut outcomes = all_done(16);
    outcomes[7] = Outcome::Failed;
    let trace = bring_up_trace(&outcomes);
    assert_eq!(trace[7], Action::InitController);
    for a in &trace[8..] {
        assert_eq!(*a, Action::Halt);
    }
    assert!(!trace.iter().any(|a| *a == Action::SetBacklight(Level::High)));
    assert!(!trace.iter().any(|a| matches!(a, Action::Clear(_) | Action::DrawText)));
}

#[test]
fn bus_failure_faults_before_reset_pulse() {
    let mut outcomes = all_done(8);
    outcomes[2] = Outcome::Failed;
    let trace = bring_up_trace(&outcomes);
    assert_eq!(trace[2], Action::OpenBus);
    assert_eq!(&trace[3..], &[Action::Halt; 5]);
}

#[test]
fn state_machine_reaches_faulted_phase() {
    let mut s = BringUp::new();
    assert_eq!(s.phase(), Phase::Unpowered);
    for _ in 0..7 {
        s.advance(Outcome::Done);
    }
    assert_eq!(s.phase(), Phase::Configuring);
    assert_eq!(s.next_action(), Action::InitController);
    s.advance(Outcome::Failed);
    assert_eq!(s.phase(), Phase::Faulted);
    assert_eq!(s.next_action(), Action::Halt);
    s.advance(Outcome::Done);
    assert_eq!(s.phase(), Phase::Faulted);
    assert_eq!(s.next_action(), Action::Halt);
}

#[test]
fn phases_in_order() {
    let mut s = BringUp::new();
    let mut phases = vec![s.phase()];
    for _ in 0..12 {
        s.advance(Outcome::Done);
        phases.push(s.phase());
    }
    assert_eq!(phases[0], Phase::Unpowered);
    assert_eq!(phases[1], Phase::ResetAsserted);
    assert_eq!(phases[6], Phase::ResetReleased);
    assert_eq!(phases[7], Phase::Configuring);
    assert_eq!(phases[8], Phase::BacklightPending);
    assert_eq!(phases[10], Phase::Ready);
    assert_eq!(phases[12], Phase::Ready);
}

#[test]
fn failure_report_on_a_delay_is_ignored() {
    let mut outcomes = all_done(13);
    outcomes[1] = Outcome::Failed;
    assert_eq!(bring_up_trace(&outcomes), bring_up_trace(&all_done(13)));
}

#[test]
fn bring_up_twice_gives_identical_sequences() {
    let mut outcomes = all_done(14);
    outcomes[11] = Outcome::Failed;
    let first = bring_up_trace(&outcomes);
    let second = bring_up_trace(&outcomes);
    assert_eq!(first, second);
    let ok_first = bring_up_trace(&all_done(14));
    let ok_second = bring_up_trace(&all_done(14));
    assert_eq!(ok_first, ok_second);
    assert_eq!(first[..11], ok_first[..11]);
}

#[test]
fn idle_step_repeats() {
    assert_eq!(script_step(13), Action::DelayMs(1000));
    assert_eq!(script_step(500), Action::DelayMs(1000));
    assert_eq!(script_step(11), Action::Clear(0));
}
