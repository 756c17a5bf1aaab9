use pomorks::todo::{State, ONE_MINUTE};

#[test]
fn next_goes_round_the_cycle_in_eight_steps() {
    let expected = [
        State::BREAK(1),
        State::WORK(2),
        State::BREAK(2),
        State::WORK(3),
        State::BREAK(3),
        State::WORK(4),
        State::LUNCH(4),
        State::WORK(1),
    ];
    let mut state = State::WORK(1);
    for want in expected {
        state = State::get_next_state(&state);
        assert_eq!(state, want);
    }
    assert_eq!(state, State::WORK(1));
}

#[test]
fn six_steps_from_the_first_work_period() {
    let mut state = State::WORK(1);
    for _ in 0..6 {
        state = State::get_next_state(&state);
    }
    assert_eq!(state, State::WORK(4));
}

#[test]
fn prev_goes_round_the_cycle_backwards() {
    let expected = [
        State::LUNCH(4),
        State::WORK(4),
        State::BREAK(3),
        State::WORK(3),
        State::BREAK(2),
        State::WORK(2),
        State::BREAK(1),
        State::WORK(1),
    ];
    let mut state = State::WORK(1);
    for want in expected {
        state = State::get_prev_state(&state);
        assert_eq!(state, want);
    }
}

#[test]
fn next_and_prev_undo_each_other_on_the_cycle() {
    let cycle = [
        State::WORK(1),
        State::BREAK(1),
        State::WORK(2),
        State::BREAK(2),
        State::WORK(3),
        State::BREAK(3),
        State::WORK(4),
        State::LUNCH(4),
    ];
    for state in cycle {
        assert_eq!(State::get_prev_state(&State::get_next_state(&state)), state);
        assert_eq!(State::get_next_state(&State::get_prev_state(&state)), state);
    }
}

#[test]
fn next_and_prev_off_the_cycle() {
    assert_eq!(State::get_next_state(&State::LUNCH(7)), State::WORK(1));
    assert_eq!(State::get_prev_state(&State::LUNCH(7)), State::WORK(4));
    assert_eq!(State::get_next_state(&State::WORK(5)), State::BREAK(5));
    assert_eq!(State::get_next_state(&State::BREAK(4)), State::WORK(5));
    assert_eq!(State::get_prev_state(&State::BREAK(4)), State::WORK(4));
    assert_eq!(State::get_prev_state(&State::WORK(9)), State::BREAK(8));
    assert_eq!(State::get_next_state(&State::WORK(0)), State::BREAK(0));
}

#[test]
fn state_names() {
    assert_eq!(State::get_state_name(&State::WORK(2)), "WORK_2");
    assert_eq!(State::get_state_name(&State::WORK(0)), "WORK_0");
    assert_eq!(State::get_state_name(&State::WORK(10)), "WORK_10");
    assert_eq!(State::get_state_name(&State::WORK(4096)), "WORK_4096");
    assert_eq!(State::get_state_name(&State::BREAK(2)), "BREAK");
    assert_eq!(State::get_state_name(&State::LUNCH(4)), "LUNCH");
}

#[test]
fn limit_times() {
    assert_eq!(ONE_MINUTE, 60);
    assert_eq!(State::get_limit_time(&State::WORK(1)), 1500);
    assert_eq!(State::get_limit_time(&State::BREAK(1)), 300);
    assert_eq!(State::get_limit_time(&State::LUNCH(4)), 1800);
    assert_eq!(State::get_limit_time(&State::WORK(3)), 25 * ONE_MINUTE);
}

#[test]
fn limit_times_follow_the_unit_of_session_time() {
    assert_eq!(State::get_limit_time_in(&State::WORK(1), 1), Some(25));
    assert_eq!(State::get_limit_time_in(&State::BREAK(1), 1), Some(5));
    assert_eq!(State::get_limit_time_in(&State::LUNCH(4), 1), Some(30));
    assert_eq!(State::get_limit_time_in(&State::WORK(3), 60), Some(1500));
    assert_eq!(State::get_limit_time_in(&State::BREAK(3), 0), Some(0));
    assert_eq!(State::get_limit_time_in(&State::WORK(1), usize::MAX / 25), Some(usize::MAX / 25 * 25));
    assert_eq!(State::get_limit_time_in(&State::WORK(1), usize::MAX / 25 + 1), None);
    assert_eq!(State::get_limit_time_in(&State::LUNCH(4), usize::MAX), None);
}
