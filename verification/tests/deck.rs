use polyphonic::deck::{SlideController, SlideState};

#[test]
fn the_deck_opens_on_the_first_of_its_slides() {
    let c = SlideController::default();
    assert_eq!(c.current_index, 0);
    assert_eq!(c.total_slides, 2);
    assert_eq!(SlideState::from_index(0), SlideState::Intro);
    assert_eq!(SlideState::from_index(1), SlideState::MutexBottleneck);
    assert_eq!(SlideState::from_index(9), SlideState::Intro);
}

#[test]
fn navigation_moves_one_slide_at_a_time_and_stops_at_either_end() {
    let mut c = SlideController::default();
    assert!(!c.navigate(false, true));
    assert_eq!(c.current_index, 0);
    assert!(c.navigate(true, false));
    assert_eq!(c.current_index, 1);
    assert!(!c.navigate(true, false));
    assert_eq!(c.current_index, 1);
    // Both pressed in one frame: forward is refused at the end, backward still applies.
    assert!(c.navigate(true, true));
    assert_eq!(c.current_index, 0);
    // From the start both succeed and cancel out, which still counts as a change.
    assert!(c.navigate(true, true));
    assert_eq!(c.current_index, 0);
    assert_eq!(SlideState::from_index(c.current_index), SlideState::Intro);
}
