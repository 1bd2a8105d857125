use buffer_panel::pane::{Layout, PaneMode, PaneState};

fn pane(min_height: usize, chrome_offset: usize, row_height: usize) -> PaneState {
    PaneState { min_height, chrome_offset, row_height, manually_resized: false }
}

fn layout(pane_height: usize, row_count: usize, first_row_height: Option<usize>) -> Layout {
    Layout { pane_height, row_count, first_row_height }
}

#[test]
fn pane_grows_once_rows_need_more_than_the_minimum() {
    let mut state = pane(50, 10, 20);
    assert_eq!(state.required_height(1), 30);
    assert_eq!(state.resize(&layout(50, 0, None), 0, 1), Some(50));
    assert_eq!(state.required_height(4), 90);
    assert_eq!(state.resize(&layout(50, 1, Some(20)), 1, 4), Some(90));
    assert_eq!(state.mode(), PaneMode::Auto);
}

#[test]
fn target_is_required_height_or_minimum() {
    let state = pane(50, 10, 20);
    assert_eq!(state.target_height(0), 50);
    assert_eq!(state.target_height(2), 50);
    assert_eq!(state.target_height(3), 70);
    assert_eq!(state.required_height(0), 10);
    assert_eq!(state.required_height(3), 70);
    assert_eq!(pane(0, 0, 0).target_height(100), 0);
    assert_eq!(state.update_pane_position(3), Some(70));
}

#[test]
fn heights_beyond_the_machine_word_are_still_exact() {
    let state = pane(1, usize::MAX, usize::MAX);
    let max = usize::MAX as u128;
    assert_eq!(state.required_height(usize::MAX), max * max + max);
    assert_eq!(state.target_height(usize::MAX), max * max + max);
}

#[test]
fn new_pane_starts_in_auto_without_row_height() {
    let state = PaneState::new(120, 7);
    assert_eq!(state, pane(120, 7, 0));
    assert_eq!(state.mode(), PaneMode::Auto);
    assert_eq!(PaneState::init_pane_state(120, 300, 280), pane(120, 20, 0));
    assert_eq!(PaneState::init_pane_state(0, 5, 5), pane(0, 0, 0));
}

#[test]
fn row_height_is_measured_once() {
    let mut state = pane(50, 10, 0);
    state.update_pane_was_dragged(&layout(50, 1, None), 1);
    assert_eq!(state.row_height, 0);
    state.update_pane_was_dragged(&layout(50, 1, Some(20)), 1);
    assert_eq!(state.row_height, 20);
    state.update_pane_was_dragged(&layout(50, 1, Some(33)), 1);
    assert_eq!(state.row_height, 20);
    assert!(!state.manually_resized);
}

#[test]
fn sizer_does_not_take_its_own_write_for_a_drag() {
    let mut state = pane(50, 10, 0);
    // rows were rendered before any could be measured: the pane was set for
    // a row height of zero
    assert_eq!(state.update_pane_position(5), Some(50));
    // the first measurement comes with the next event
    assert_eq!(state.resize(&layout(50, 5, Some(20)), 5, 6), Some(130));
    assert_eq!(state.mode(), PaneMode::Auto);
    assert_eq!(state.resize(&layout(130, 6, Some(20)), 6, 5), Some(110));
    assert_eq!(state.mode(), PaneMode::Auto);
}

#[test]
fn any_other_height_is_a_drag() {
    let mut taller = pane(50, 10, 20);
    assert_eq!(taller.resize(&layout(91, 4, Some(20)), 4, 5), None);
    assert_eq!(taller.mode(), PaneMode::Manual);
    let mut shorter = pane(50, 10, 20);
    assert_eq!(shorter.resize(&layout(89, 4, Some(20)), 4, 5), None);
    assert!(shorter.manually_resized);
    let mut below_minimum = pane(50, 10, 20);
    assert_eq!(below_minimum.resize(&layout(40, 1, Some(20)), 1, 2), None);
    assert!(below_minimum.manually_resized);
    let mut above_minimum = pane(50, 10, 20);
    assert_eq!(above_minimum.resize(&layout(60, 1, Some(20)), 1, 2), None);
    assert!(above_minimum.manually_resized);
}

#[test]
fn manual_is_final() {
    let mut state = pane(50, 10, 0);
    assert_eq!(state.resize(&layout(77, 0, None), 0, 1), None);
    let latched = state;
    assert_eq!(latched, PaneState { min_height: 50, chrome_offset: 10, row_height: 0, manually_resized: true });
    let layouts = [
        layout(50, 1, Some(20)),
        layout(0, 0, None),
        layout(77, 3, Some(5)),
        layout(usize::MAX, usize::MAX, Some(usize::MAX)),
    ];
    for (prev, new) in [(0usize, 1usize), (1, 0), (4, 5), (5, 500), (usize::MAX, 0)] {
        for observed in layouts.iter() {
            assert_eq!(state.resize(observed, prev, new), None);
            assert_eq!(state, latched);
            assert_eq!(state.update_pane_position(new), None);
        }
    }
    assert_eq!(state.mode(), PaneMode::Manual);
}

#[test]
fn row_height_is_taken_on_the_step_that_finds_a_drag() {
    let mut state = pane(50, 10, 0);
    state.update_pane_was_dragged(&layout(80, 1, Some(60)), 1);
    assert_eq!(
        state,
        PaneState { min_height: 50, chrome_offset: 10, row_height: 60, manually_resized: true }
    );
    let mut stepped = pane(50, 10, 0);
    assert_eq!(stepped.resize(&layout(80, 1, Some(60)), 1, 2), None);
    assert_eq!(
        stepped,
        PaneState { min_height: 50, chrome_offset: 10, row_height: 60, manually_resized: true }
    );
}

#[test]
fn drag_is_judged_by_the_row_height_as_it_was() {
    // the pane was set to 50 while no row could be measured; with the
    // height measured now, one row would need 70
    let mut state = pane(50, 10, 0);
    state.update_pane_was_dragged(&layout(50, 1, Some(60)), 1);
    assert_eq!(state, pane(50, 10, 60));
}

#[test]
fn row_height_is_taken_in_manual_too_when_the_pane_is_only_looked_at() {
    let mut state = PaneState { min_height: 50, chrome_offset: 10, row_height: 0, manually_resized: true };
    state.update_pane_was_dragged(&layout(50, 0, None), 0);
    assert_eq!(state.row_height, 0);
    state.update_pane_was_dragged(&layout(50, 1, Some(20)), 1);
    assert_eq!(
        state,
        PaneState { min_height: 50, chrome_offset: 10, row_height: 20, manually_resized: true }
    );
    state.update_pane_was_dragged(&layout(123, 2, Some(33)), 2);
    assert_eq!(
        state,
        PaneState { min_height: 50, chrome_offset: 10, row_height: 20, manually_resized: true }
    );
    assert_eq!(state.update_pane_position(7), None);
}
