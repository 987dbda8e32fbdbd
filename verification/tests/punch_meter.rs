use board_logic::punch::{PunchAction, PunchState, START_THRESHOLD_MILLI_G, WINDOW_MICROS};

#[test]
fn quiet_samples_stay_idle() {
    let state = PunchState::new();
    assert!(!state.is_measuring());
    let (state, action) = state.step(START_THRESHOLD_MILLI_G, true);
    assert_eq!(state, PunchState::Idle);
    assert_eq!(action, PunchAction::Nothing);
    let (state, action) = state.step(-2000, false);
    assert_eq!(state, PunchState::Idle);
    assert_eq!(action, PunchAction::Nothing);
}

#[test]
fn punch_reports_largest_sample() {
    let state = PunchState::new();
    let (state, action) = state.step(501, true);
    assert_eq!(action, PunchAction::StartWindow);
    assert_eq!(state, PunchState::Measuring { peak: 501 });
    assert!(state.is_measuring());
    let (state, action) = state.step(3200, false);
    assert_eq!(action, PunchAction::Nothing);
    let (state, action) = state.step(1200, false);
    assert_eq!(action, PunchAction::Nothing);
    assert_eq!(state, PunchState::Measuring { peak: 3200 });
    let (state, action) = state.step(9000, true);
    assert_eq!(action, PunchAction::ReportPeak(3200));
    assert_eq!(state, PunchState::Idle);
}

#[test]
fn window_constants() {
    assert_eq!(START_THRESHOLD_MILLI_G, 500);
    assert_eq!(WINDOW_MICROS, 1_000_000);
}
