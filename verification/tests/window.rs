use rgping::ui::UiState;

fn ring_of(state: &UiState) -> Vec<Option<u64>> {
    let mut out = Vec::new();
    let mut i = 0;
    while let Some(v) = state.get(i) {
        out.push(v);
        i += 1;
    }
    out
}

fn filled(values: &[Option<u64>], history: usize) -> UiState {
    let mut state = UiState::new(history);
    for v in values {
        state.push(*v, history);
    }
    state
}

#[test]
fn new_window_is_empty() {
    let state = UiState::new(8);
    assert_eq!(state.len(), 0);
    assert_eq!(state.total(), 0);
    assert_eq!(state.lost(), 0);
    assert_eq!(state.last(), None);
    assert_eq!(state.get(0), None);
}

#[test]
fn counters_follow_every_push() {
    let values = [Some(1_000), None, Some(2_500), None, None, Some(0), Some(7)];
    let mut state = UiState::new(3);
    for (n, v) in values.iter().enumerate() {
        state.push(*v, 3);
        assert_eq!(state.total(), n as u64 + 1);
        assert!(state.lost() <= state.total());
        assert_eq!(state.last(), *v);
    }
    assert_eq!(state.total(), 7);
    assert_eq!(state.lost(), 3);
}

#[test]
fn counters_outlive_eviction() {
    let state = filled(&[None, None, Some(5), Some(6)], 2);
    assert_eq!(ring_of(&state), vec![Some(5), Some(6)]);
    assert_eq!(state.total(), 4);
    assert_eq!(state.lost(), 2);
}

#[test]
fn ring_grows_up_to_capacity() {
    let mut state = UiState::new(3);
    state.push(Some(1), 3);
    assert_eq!(ring_of(&state), vec![Some(1)]);
    state.push(None, 3);
    assert_eq!(ring_of(&state), vec![Some(1), None]);
    state.push(Some(3), 3);
    assert_eq!(ring_of(&state), vec![Some(1), None, Some(3)]);
    assert_eq!(state.len(), 3);
}

#[test]
fn full_ring_gives_up_its_oldest() {
    let mut state = filled(&[Some(1), Some(2), Some(3)], 3);
    state.push(Some(4), 3);
    assert_eq!(ring_of(&state), vec![Some(2), Some(3), Some(4)]);
    state.push(None, 3);
    assert_eq!(ring_of(&state), vec![Some(3), Some(4), None]);
    assert_eq!(state.len(), 3);
}

#[test]
fn ring_holds_latest_after_long_run() {
    for capacity in 1..6usize {
        let values: Vec<Option<u64>> =
            (0..20u64).map(|i| if i % 4 == 1 { None } else { Some(i * 100) }).collect();
        let mut state = UiState::new(capacity);
        for (n, v) in values.iter().enumerate() {
            state.push(*v, capacity);
            assert!(state.len() <= capacity);
            if n + 1 > capacity {
                assert_eq!(state.len(), capacity);
                assert_eq!(ring_of(&state), values[n + 1 - capacity..=n].to_vec());
            }
        }
    }
}

#[test]
fn feeding_back_the_latest_reproduces_the_ring() {
    let values: Vec<Option<u64>> = vec![Some(9), None, Some(8), Some(7), None, Some(6), Some(5)];
    let capacity = 4;
    let long = filled(&values, capacity);
    let short = filled(&values[values.len() - capacity..], capacity);
    assert_eq!(ring_of(&long), ring_of(&short));
    assert_eq!(ring_of(&long), vec![Some(7), None, Some(6), Some(5)]);
}

#[test]
fn capacity_of_one_keeps_only_the_last() {
    let state = filled(&[Some(1), None, Some(3)], 1);
    assert_eq!(ring_of(&state), vec![Some(3)]);
}

#[test]
fn mean_of_losses_alone_is_undefined() {
    assert_eq!(UiState::new(4).avg(), None);
    assert_eq!(filled(&[None, None, None], 4).avg(), None);
}

#[test]
fn mean_skips_losses() {
    let state = filled(&[Some(10_000), None, Some(30_000)], 8);
    assert_eq!(state.avg(), Some(20_000));
}

#[test]
fn mean_is_windowed() {
    let state = filled(&[Some(1_000_000), Some(10_000), Some(20_000)], 2);
    assert_eq!(state.avg(), Some(15_000));
}

#[test]
fn mean_rounds_down_to_a_microsecond() {
    let state = filled(&[Some(1), Some(2)], 8);
    assert_eq!(state.avg(), Some(1));
    let state = filled(&[Some(0), Some(0), Some(2)], 8);
    assert_eq!(state.avg(), Some(0));
}

#[test]
fn mean_of_a_zero_round_trip_is_zero_not_undefined() {
    let state = filled(&[Some(0)], 8);
    assert_eq!(state.avg(), Some(0));
}

#[test]
fn mean_of_huge_values_does_not_overflow() {
    let state = filled(&[Some(u64::MAX), Some(u64::MAX), Some(u64::MAX - 2)], 8);
    assert_eq!(state.avg(), Some(u64::MAX - 1));
}

#[test]
fn loss_is_zero_before_the_first_probe() {
    assert_eq!(UiState::new(4).loss_pct(), 0);
}

#[test]
fn loss_of_one_in_four() {
    let state = filled(&[Some(1_000), None, Some(1_000), Some(1_000)], 8);
    assert_eq!(state.loss_pct(), 25_000);
}

#[test]
fn loss_counts_the_whole_run() {
    let state = filled(&[None, Some(1), Some(1)], 1);
    assert_eq!(state.loss_pct(), 33_333);
}

#[test]
fn loss_of_everything_is_a_hundred_percent() {
    let state = filled(&[None, None, None, None, None], 2);
    assert_eq!(state.loss_pct(), 100_000);
}

#[test]
fn axis_floor_for_empty_and_all_lost() {
    assert_eq!(UiState::new(4).y_max(), 12);
    assert_eq!(filled(&[None, None], 4).y_max(), 12);
}

#[test]
fn axis_floor_holds_under_ten_milliseconds() {
    assert_eq!(filled(&[Some(3_000), Some(9_999)], 4).y_max(), 12);
    assert_eq!(filled(&[Some(10_000)], 4).y_max(), 12);
}

#[test]
fn axis_has_a_fifth_of_headroom() {
    assert_eq!(filled(&[Some(20_000), Some(50_000), None], 4).y_max(), 60);
}

#[test]
fn axis_rounds_up() {
    assert_eq!(filled(&[Some(50_001)], 4).y_max(), 61);
    assert_eq!(filled(&[Some(10_001)], 4).y_max(), 13);
    assert_eq!(filled(&[Some(12_345)], 4).y_max(), 15);
}

#[test]
fn axis_follows_the_window_not_the_run() {
    assert_eq!(filled(&[Some(500_000), Some(20_000)], 1).y_max(), 24);
}

#[test]
fn axis_of_the_largest_value_does_not_overflow() {
    assert_eq!(filled(&[Some(u64::MAX)], 1).y_max(), 22_136_092_888_451_462);
}

#[test]
fn points_leave_a_gap_at_a_loss() {
    let state = filled(&[Some(5_000), None, Some(7_000), None], 8);
    assert_eq!(state.points(), vec![(0, 5_000), (2, 7_000)]);
}

#[test]
fn points_are_placed_by_position_in_the_window() {
    let state = filled(&[Some(1), Some(2), None, Some(4)], 3);
    assert_eq!(state.points(), vec![(0, 2), (2, 4)]);
}

#[test]
fn points_of_losses_alone_are_none() {
    assert_eq!(filled(&[None, None], 4).points(), Vec::<(usize, u64)>::new());
    assert_eq!(UiState::new(4).points(), Vec::<(usize, u64)>::new());
}

#[test]
fn get_past_the_end_is_none() {
    let state = filled(&[Some(1), None], 4);
    assert_eq!(state.get(0), Some(Some(1)));
    assert_eq!(state.get(1), Some(None));
    assert_eq!(state.get(2), None);
}
