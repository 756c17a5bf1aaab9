//! Commands, events and the rules of the loop that feeds on them.

use crate::app::{current_timestamp, App, AppView};
use crate::todo::{
    is_generated_id, is_item_text, parsed_item, State, StateView, TodoError, TodoItem, TodoItemView,
};
use vstd::prelude::*;

verus! {

/// A command that the dispatcher hands to the driver of the session. The
/// flag of the first four says whether the session is to go on to the next
/// phase once the command is carried out.
#[derive(Debug)]
pub enum UpdateInfo {
    /// A work unit of the task is done.
    CountIncrement(TodoItem, bool),
    /// The task is to be registered.
    AddNewTodo(TodoItem, bool),
    /// The task is to change between finished and unfinished.
    ChangeFinishStatus(TodoItem, bool),
    /// The finished tasks are to be moved to the archive.
    ArchiveFinishedTodo(bool),
    /// A timer was started at this second, for the task with this id (empty
    /// for none), in this phase.
    StartTodo(i64, String, State),
    /// The session is to go back to the phase before.
    MovePrevState(),
    /// The session is to go on to the next phase.
    MoveNextState(),
}

/// The mathematical value of a command.
pub enum UpdateInfoView {
    CountIncrement(TodoItemView, bool),
    AddNewTodo(TodoItemView, bool),
    ChangeFinishStatus(TodoItemView, bool),
    ArchiveFinishedTodo(bool),
    StartTodo(int, Seq<char>, StateView),
    MovePrevState,
    MoveNextState,
}

impl View for UpdateInfo {
    type V = UpdateInfoView;

    open spec fn view(&self) -> UpdateInfoView {
        match *self {
            UpdateInfo::CountIncrement(todo, go_on) => UpdateInfoView::CountIncrement(todo@, go_on),
            UpdateInfo::AddNewTodo(todo, go_on) => UpdateInfoView::AddNewTodo(todo@, go_on),
            UpdateInfo::ChangeFinishStatus(todo, go_on) => UpdateInfoView::ChangeFinishStatus(
                todo@,
                go_on,
            ),
            UpdateInfo::ArchiveFinishedTodo(go_on) => UpdateInfoView::ArchiveFinishedTodo(go_on),
            UpdateInfo::StartTodo(start, id, state) => UpdateInfoView::StartTodo(
                start as int,
                id@,
                state@,
            ),
            UpdateInfo::MovePrevState() => UpdateInfoView::MovePrevState,
            UpdateInfo::MoveNextState() => UpdateInfoView::MoveNextState,
        }
    }
}

/// The value of a command that may be there.
pub open spec fn info_view(info: Option<UpdateInfo>) -> Option<UpdateInfoView> {
    match info {
        Some(info) => Some(info@),
        None => None,
    }
}

impl UpdateInfoView {
    /// Whether the session goes on to the next phase when the command is
    /// carried out: as its flag says, always for `MoveNextState`, never for
    /// `StartTodo` and `MovePrevState`.
    pub open spec fn goes_to_next_state(self) -> bool {
        match self {
            UpdateInfoView::CountIncrement(_, go_on) => go_on,
            UpdateInfoView::AddNewTodo(_, go_on) => go_on,
            UpdateInfoView::ChangeFinishStatus(_, go_on) => go_on,
            UpdateInfoView::ArchiveFinishedTodo(go_on) => go_on,
            UpdateInfoView::MoveNextState => true,
            UpdateInfoView::StartTodo(_, _, _) => false,
            UpdateInfoView::MovePrevState => false,
        }
    }

    /// Whether the command ends the running timer, so that its start is to
    /// be forgotten: a finished work unit and both changes of phase do.
    pub open spec fn ends_timer(self) -> bool {
        match self {
            UpdateInfoView::CountIncrement(_, _) => true,
            UpdateInfoView::MoveNextState => true,
            UpdateInfoView::MovePrevState => true,
            UpdateInfoView::StartTodo(_, _, _) => false,
            UpdateInfoView::AddNewTodo(_, _) => false,
            UpdateInfoView::ChangeFinishStatus(_, _) => false,
            UpdateInfoView::ArchiveFinishedTodo(_) => false,
        }
    }
}

impl UpdateInfo {
    /// Whether the session goes on to the next phase when `info` is
    /// carried out.
    pub fn should_go_next_state(info: &Self) -> (go_on: bool)
        ensures
            go_on == info@.goes_to_next_state(),
    {
        match info {
            Self::CountIncrement(_, go_on) => *go_on,
            Self::AddNewTodo(_, go_on) => *go_on,
            Self::ChangeFinishStatus(_, go_on) => *go_on,
            Self::ArchiveFinishedTodo(go_on) => *go_on,
            Self::MoveNextState() => true,
            Self::StartTodo(_, _, _) => false,
            Self::MovePrevState() => false,
        }
    }

    /// Whether `info` ends the running timer.
    pub fn should_delete_time_stamp_of_task_start(info: &Self) -> (ends: bool)
        ensures
            ends == info@.ends_timer(),
    {
        match info {
            Self::CountIncrement(_, _) => true,
            Self::MoveNextState() => true,
            Self::MovePrevState() => true,
            Self::StartTodo(_, _, _) => false,
            Self::AddNewTodo(_, _) => false,
            Self::ChangeFinishStatus(_, _) => false,
            Self::ArchiveFinishedTodo(_) => false,
        }
    }
}

/// The keys that the dispatcher tells apart.
#[derive(Clone, Copy, Debug, PartialEq, Eq, Structural)]
pub enum KeyCode {
    Char(char),
    Left,
    Up,
    Right,
    Down,
    Enter,
    Delete,
    Backspace,
    Tab,
    Esc,
    /// Any other key.
    Other,
}

/// A key press: the key, and whether it came without Shift, Control or Alt.
#[derive(Clone, Copy, Debug, PartialEq, Eq, Structural)]
pub struct KeyEvent {
    pub code: KeyCode,
    pub plain: bool,
}

/// What the loop is fed: a key press, or the tick of the clock.
#[derive(Clone, Copy, Debug, PartialEq, Eq, Structural)]
pub enum Event {
    Input(KeyEvent),
    Tick,
}

/// What the loop does after an event.
#[derive(Debug)]
pub enum Step {
    /// It waits for the next event.
    Continue,
    /// It ends and hands this command to the driver.
    Emit(UpdateInfo),
    /// It ends without a command: the user is leaving.
    Leave,
    /// It ends with this error for the driver to show.
    Fail(TodoError),
}

/// The mathematical value of a step.
pub enum StepView {
    Continue,
    Emit(UpdateInfoView),
    Leave,
    Fail(TodoError),
}

impl View for Step {
    type V = StepView;

    open spec fn view(&self) -> StepView {
        match *self {
            Step::Continue => StepView::Continue,
            Step::Emit(info) => StepView::Emit(info@),
            Step::Leave => StepView::Leave,
            Step::Fail(e) => StepView::Fail(e),
        }
    }
}

/// A plain press of the given key.
pub open spec fn plain_key(code: KeyCode) -> Event {
    Event::Input(KeyEvent { code, plain: true })
}

/// Whether `event` hands in the text of a new task: Enter while one is
/// typed.
pub open spec fn hands_in_text(app: AppView, event: Event) -> bool {
    app.show_add_todo && event == plain_key(KeyCode::Enter)
}

/// Whether `event` is the user leaving: Escape in the list of tasks.
pub open spec fn leaves(app: AppView, event: Event) -> bool {
    !app.show_add_todo && event == plain_key(KeyCode::Esc)
}

/// The screen after `event` at second `now`, and the command that the
/// event gives rise to, for every event but the two that `hands_in_text`
/// and `leaves` tell of. A key pressed together with Shift, Control or Alt
/// does nothing, nor do the left and right arrows and the keys that the
/// dispatcher does not know.
pub open spec fn dispatch(app: AppView, event: Event, now: int) -> (AppView, Option<UpdateInfoView>)
    recommends
        !hands_in_text(app, event),
        !leaves(app, event),
{
    match event {
        Event::Tick => app.on_tick(now),
        Event::Input(key) => if !key.plain {
            (app, None)
        } else {
            match key.code {
                KeyCode::Char(c) => app.on_key(c, now),
                KeyCode::Up => (app.on_up(), None),
                KeyCode::Down => (app.on_down(), None),
                KeyCode::Enter => (app.on_enter_in_list(), None),
                KeyCode::Delete => (app.on_delete(), None),
                KeyCode::Backspace => (app.on_delete(), None),
                KeyCode::Tab => (app.on_change_tab(), None),
                KeyCode::Esc => (app.without_new_todo(), None),
                KeyCode::Left => (app, None),
                KeyCode::Right => (app, None),
                KeyCode::Other => (app, None),
            }
        },
    }
}

/// What the loop does once an event has left the screen as `app` and
/// given rise to `emitted`: a command ends the loop and goes to the
/// driver; without one the loop ends if the user asked to quit, and goes
/// on otherwise.
pub open spec fn settle(app: AppView, emitted: Option<UpdateInfoView>) -> StepView {
    match emitted {
        Some(info) => StepView::Emit(info),
        None => if app.should_quit {
            StepView::Leave
        } else {
            StepView::Continue
        },
    }
}

/// Whether the screen `after` and the step `step` are what `event` at
/// second `now` leads to from the screen `before`. Enter on the text of a
/// new task leads to the command that registers the task it describes,
/// under a newly generated id, or to the error that refuses the text;
/// Escape in the list of tasks ends the loop; every other event is
/// dispatched and settled.
pub open spec fn event_leads_to(
    before: AppView,
    event: Event,
    now: int,
    after: AppView,
    step: StepView,
) -> bool {
    if hands_in_text(before, event) {
        after == before.without_new_todo() && match step {
            StepView::Emit(UpdateInfoView::AddNewTodo(todo, go_on)) => !go_on && is_generated_id(
                todo.id,
            ) && parsed_item(todo.id, before.new_todo_string) == Some(todo),
            StepView::Fail(e) => e == TodoError::ParseError && !is_item_text(
                before.new_todo_string,
            ),
            _ => false,
        }
    } else if leaves(before, event) {
        after == before && step == StepView::Leave
    } else {
        after == dispatch(before, event, now).0 && step == settle(
            dispatch(before, event, now).0,
            dispatch(before, event, now).1,
        )
    }
}

/// Lets `app` take `event` at second `now` and says what the loop does
/// next.
pub fn handle_event_at<'a>(app: &mut App<'a>, event: &Event, now: i64) -> (step: Step)
    ensures
        event_leads_to(old(app)@, *event, now as int, final(app)@, step@),
{
    let emitted: Option<UpdateInfo> = match event {
        Event::Input(key) => {
            if !key.plain {
                None
            } else {
                match key.code {
                    KeyCode::Char(c) => match app.on_key_at(c, now) {
                        Ok(info) => info,
                        Err(e) => {
                            return Step::Fail(e);
                        },
                    },
                    KeyCode::Left => {
                        app.on_left();
                        None
                    },
                    KeyCode::Up => {
                        app.on_up();
                        None
                    },
                    KeyCode::Right => {
                        app.on_right();
                        None
                    },
                    KeyCode::Down => {
                        app.on_down();
                        None
                    },
                    KeyCode::Enter => match app.on_enter() {
                        Ok(info) => info,
                        Err(e) => {
                            return Step::Fail(e);
                        },
                    },
                    KeyCode::Delete => {
                        app.on_delete();
                        None
                    },
                    KeyCode::Backspace => {
                        app.on_delete();
                        None
                    },
                    KeyCode::Tab => {
                        app.on_change_tab();
                        None
                    },
                    KeyCode::Esc => {
                        if app.show_add_todo {
                            app.on_cancel();
                            None
                        } else {
                            return Step::Leave;
                        }
                    },
                    KeyCode::Other => None,
                }
            }
        },
        Event::Tick => app.on_tick_at(now),
    };
    match emitted {
        Some(info) => Step::Emit(info),
        None => if app.should_quit {
            Step::Leave
        } else {
            Step::Continue
        },
    }
}

/// Lets `app` take `event` now and says what the loop does next: what
/// `handle_event_at` does for the second that the clock shows.
pub fn handle_event<'a>(app: &mut App<'a>, event: &Event) -> (step: Step)
    ensures
        exists|now: int|
            i64::MIN <= now <= i64::MAX && #[trigger] event_leads_to(
                old(app)@,
                *event,
                now,
                final(app)@,
                step@,
            ),
{
    let now = current_timestamp();
    let step = handle_event_at(app, event, now);
    proof {
        let ghost at = now as int;
        assert(i64::MIN <= at <= i64::MAX);
    }
    step
}

/// Whether the user is to be told that a timer has run its time: when it
/// was a tick of the clock that gave rise to a command.
pub open spec fn notifies(event: Event, step: StepView) -> bool {
    event == Event::Tick && step is Emit
}

/// Whether the user is to be told, after `event` led to `step`, that a
/// timer has run its time.
pub fn should_notify(event: &Event, step: &Step) -> (notify: bool)
    ensures
        notify == notifies(*event, step@),
{
    match (event, step) {
        (Event::Tick, Step::Emit(_)) => true,
        _ => false,
    }
}

/// The user is told of the end of a timer exactly when a tick finds the
/// timer expired, whatever else is on the screen.
pub proof fn lemma_notified_at_expiry(before: AppView, now: int, after: AppView, step: StepView)
    requires
        event_leads_to(before, Event::Tick, now, after, step),
    ensures
        notifies(Event::Tick, step) <==> before.expired(now),
        notifies(Event::Tick, step) ==> step == StepView::Emit(before.expiry_command())
            && !after.timer_running(),
{
}

/// A key that is not dispatched leaves the screen as it is and lets the
/// loop go on, unless the user had asked to quit.
pub proof fn lemma_unknown_key_is_ignored(app: AppView, now: int)
    ensures
        dispatch(app, plain_key(KeyCode::Other), now) == (app, None::<UpdateInfoView>),
        dispatch(app, plain_key(KeyCode::Left), now) == (app, None::<UpdateInfoView>),
        dispatch(app, plain_key(KeyCode::Right), now) == (app, None::<UpdateInfoView>),
        forall|code: KeyCode|
            dispatch(app, Event::Input(KeyEvent { code, plain: false }), now) == (
                app,
                None::<UpdateInfoView>,
            ),
{
}

/// The usual interval between two ticks, in milliseconds.
pub const DEFAULT_TICK_RATE: u64 = 1000;

/// The clock of the event source: it tells how long to wait for a key
/// press before the next tick is due. Times are milliseconds on a clock
/// that does not run backwards.
#[derive(Clone, Copy, Debug, PartialEq, Eq, Structural)]
pub struct TickClock {
    pub tick_rate: u64,
    pub last_tick: u64,
}

impl TickClock {
    /// Milliseconds since the last tick; none if `now` lies before it.
    pub open spec fn elapsed(self, now: u64) -> nat {
        if now >= self.last_tick {
            (now - self.last_tick) as nat
        } else {
            0
        }
    }

    /// Whether a tick is due at `now`: a whole interval has passed.
    pub open spec fn due(self, now: u64) -> bool {
        self.elapsed(now) >= self.tick_rate
    }

    /// How long to wait for a key press at `now`: what is left of the
    /// interval, nothing once it is over.
    pub open spec fn wait(self, now: u64) -> nat {
        if self.due(now) {
            0
        } else {
            (self.tick_rate - self.elapsed(now)) as nat
        }
    }

    /// A clock with the given interval whose last tick was at `now`.
    pub fn new(tick_rate: u64, now: u64) -> (clock: Self)
        ensures
            clock == (TickClock { tick_rate, last_tick: now }),
    {
        TickClock { tick_rate, last_tick: now }
    }

    /// How long to wait for a key press at `now`.
    pub fn poll_timeout(&self, now: u64) -> (wait: u64)
        ensures
            wait == self.wait(now),
    {
        let elapsed = if now >= self.last_tick {
            now - self.last_tick
        } else {
            0
        };
        if elapsed >= self.tick_rate {
            0
        } else {
            self.tick_rate - elapsed
        }
    }

    /// Whether a tick is to be delivered at `now`. If so, the interval
    /// starts again at `now`; if not, the clock stays as it is, whatever
    /// key presses were delivered meanwhile.
    pub fn take_tick(&mut self, now: u64) -> (due: bool)
        ensures
            due == old(self).due(now),
            due ==> *final(self) == (TickClock { last_tick: now, ..*old(self) }),
            !due ==> *final(self) == *old(self),
    {
        let elapsed = if now >= self.last_tick {
            now - self.last_tick
        } else {
            0
        };
        if elapsed >= self.tick_rate {
            self.last_tick = now;
            true
        } else {
            false
        }
    }

    /// When the wait that the clock asked for is over, and no matter how
    /// many key presses came meanwhile, a tick is due.
    pub proof fn lemma_tick_after_wait(self, now: u64, later: u64)
        requires
            now >= self.last_tick,
            later >= now + self.wait(now),
        ensures
            self.due(later),
    {
    }

    /// Right after a tick the clock asks to wait for the whole interval.
    pub proof fn lemma_wait_after_tick(self, now: u64)
        requires
            self.due(now),
        ensures
            (TickClock { last_tick: now, ..self }).wait(now) == self.tick_rate,
            self.tick_rate > 0 ==> !(TickClock { last_tick: now, ..self }).due(now),
    {
    }
}

} // verus!
