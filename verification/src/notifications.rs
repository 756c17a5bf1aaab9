//! What the notification at the end of a timer says.

use crate::todo::{State, StateView};
use vstd::prelude::*;
use vstd::string::StringExecFns;

verus! {

/// The heading of the notification.
pub const NOTIFICATION_TITLE: &'static str = "Pomodoro-rs";

/// The sentence of the notification at the end of a phase: the name of
/// the phase, and that it is finished.
pub open spec fn notification_text(state: StateView) -> Seq<char> {
    state.name() + " is finish."@
}

/// The sentence of the notification at the end of a timer in `state`.
pub fn get_notification_text(state: &State) -> (text: String)
    ensures
        text@ == notification_text(state@),
{
    let mut text = State::get_state_name(state);
    text.append(" is finish.");
    text
}

} // verus!
