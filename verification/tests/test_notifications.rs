use pomorks::notifications::{get_notification_text, NOTIFICATION_TITLE};
use pomorks::todo::State;

#[test]
fn the_notification_names_the_phase() {
    assert_eq!(NOTIFICATION_TITLE, "Pomodoro-rs");
    assert_eq!(get_notification_text(&State::WORK(3)), "WORK_3 is finish.");
    assert_eq!(get_notification_text(&State::BREAK(3)), "BREAK is finish.");
    assert_eq!(get_notification_text(&State::LUNCH(4)), "LUNCH is finish.");
}
