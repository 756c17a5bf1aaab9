//! The dispatcher: what the screen holds between two events, and what each
//! key press and each tick of the clock does to it.

use crate::data_manage::{log_views, TaskLogJson, TaskLogView};
use crate::stateful_list::{cursor_after_next, cursor_after_previous, StatefulList};
use crate::text::{push_signed_decimal, signed_decimal};
use crate::todo::{
    distinct_ids, is_generated_id, is_item_text, item_views, parsed_item, registry_of, State,
    StateView, TodoError, TodoItem, TodoItemView, TodoList, ONE_MINUTE,
};
use crate::tui::{info_view, UpdateInfo, UpdateInfoView};
use vstd::prelude::*;

verus! {

/// The pages of the screen.
#[derive(Clone, Copy, Debug, PartialEq, Eq, Structural)]
pub enum Tab {
    Main,
    Statistics,
}

impl Tab {
    /// The page after this one; there are two, so each follows the other.
    pub open spec fn spec_next_tab(self) -> Tab {
        match self {
            Tab::Main => Tab::Statistics,
            Tab::Statistics => Tab::Main,
        }
    }

    /// The page after this one.
    pub fn get_next_tab(&self) -> (next: Self)
        ensures
            next == self.spec_next_tab(),
    {
        match self {
            Tab::Main => Tab::Statistics,
            Tab::Statistics => Tab::Main,
        }
    }
}

/// What the screen holds between two events.
pub struct App<'a> {
    pub title: &'a str,
    pub should_quit: bool,
    /// Whether the user is typing a new task.
    pub show_add_todo: bool,
    pub show_chart: bool,
    /// The second at which the running timer started; `None` while no
    /// timer runs.
    pub start_time: Option<i64>,
    /// Seconds that a timer runs.
    pub limit_time: usize,
    pub state: &'a State,
    pub enhanced_graphics: bool,
    pub todos: StatefulList<TodoItem>,
    /// The task that the timer runs for.
    pub todo_focus: Option<TodoItem>,
    /// What the user has typed of a new task.
    pub new_todo_string: String,
    pub status: String,
    pub todays_executed_count: i64,
    pub selected_tab: Tab,
    pub task_log: &'a Vec<TaskLogJson>,
}

/// The mathematical value of the screen's contents.
pub struct AppView {
    pub title: Seq<char>,
    pub should_quit: bool,
    pub show_add_todo: bool,
    pub show_chart: bool,
    pub start_time: Option<int>,
    pub limit_time: nat,
    pub state: StateView,
    pub enhanced_graphics: bool,
    pub todos: Seq<TodoItemView>,
    pub cursor: Option<nat>,
    pub todo_focus: Option<TodoItemView>,
    pub new_todo_string: Seq<char>,
    pub status: Seq<char>,
    pub todays_executed_count: int,
    pub selected_tab: Tab,
    pub task_log: Seq<TaskLogView>,
}

impl<'a> View for App<'a> {
    type V = AppView;

    open spec fn view(&self) -> AppView {
        AppView {
            title: self.title@,
            should_quit: self.should_quit,
            show_add_todo: self.show_add_todo,
            show_chart: self.show_chart,
            start_time: match self.start_time {
                Some(start) => Some(start as int),
                None => None,
            },
            limit_time: self.limit_time as nat,
            state: self.state@,
            enhanced_graphics: self.enhanced_graphics,
            todos: item_views(self.todos.spec_items()),
            cursor: self.todos.spec_selected(),
            todo_focus: match self.todo_focus {
                Some(todo) => Some(todo@),
                None => None,
            },
            new_todo_string: self.new_todo_string@,
            status: self.status@,
            todays_executed_count: self.todays_executed_count as int,
            selected_tab: self.selected_tab,
            task_log: log_views(self.task_log@),
        }
    }
}

impl AppView {
    /// Whether a timer is running.
    pub open spec fn timer_running(self) -> bool {
        self.start_time.is_some()
    }

    /// Seconds that the running timer has run at `now`.
    pub open spec fn elapsed(self, now: int) -> int
        recommends
            self.timer_running(),
    {
        now - self.start_time.unwrap()
    }

    /// Seconds that the running timer still has to run at `now`; negative
    /// once it is over.
    pub open spec fn remaining(self, now: int) -> int
        recommends
            self.timer_running(),
    {
        self.limit_time - self.elapsed(now)
    }

    /// Whether the timer has run its time at `now`. No timer, no expiry.
    pub open spec fn expired(self, now: int) -> bool {
        self.timer_running() && self.elapsed(now) >= self.limit_time
    }

    /// The command that the end of the timer gives rise to: the work unit
    /// counts for the task in focus if the phase is a work phase and a
    /// task is in focus; otherwise the session just goes on.
    pub open spec fn expiry_command(self) -> UpdateInfoView {
        match self.todo_focus {
            Some(todo) => if self.state is Work {
                UpdateInfoView::CountIncrement(todo, true)
            } else {
                UpdateInfoView::MoveNextState
            },
            None => UpdateInfoView::MoveNextState,
        }
    }

    /// The screen after a tick at `now`, and the command that the tick
    /// gives rise to. A tick on an expired timer stops it.
    pub open spec fn on_tick(self, now: int) -> (AppView, Option<UpdateInfoView>) {
        if self.expired(now) {
            (AppView { start_time: None, ..self }, Some(self.expiry_command()))
        } else {
            (self, None)
        }
    }

    /// The task under the cursor.
    pub open spec fn selected_todo(self) -> Option<TodoItemView> {
        match self.cursor {
            Some(at) => if at < self.todos.len() {
                Some(self.todos[at as int])
            } else {
                None
            },
            None => None,
        }
    }

    /// The id that a timer started now runs for: that of the task in
    /// focus, the empty text if none is.
    pub open spec fn focus_id(self) -> Seq<char> {
        match self.todo_focus {
            Some(todo) => todo.id,
            None => Seq::empty(),
        }
    }

    /// The screen with the cursor one task further down.
    pub open spec fn on_down(self) -> AppView {
        AppView { cursor: cursor_after_next(self.cursor, self.todos.len()), ..self }
    }

    /// The screen with the cursor one task further up.
    pub open spec fn on_up(self) -> AppView {
        AppView { cursor: cursor_after_previous(self.cursor, self.todos.len()), ..self }
    }

    /// The screen after Delete or Backspace: while a new task is typed, the
    /// last character typed is taken back.
    pub open spec fn on_delete(self) -> AppView {
        if self.show_add_todo && self.new_todo_string.len() > 0 {
            AppView { new_todo_string: self.new_todo_string.drop_last(), ..self }
        } else {
            self
        }
    }

    /// The screen on the other page.
    pub open spec fn on_change_tab(self) -> AppView {
        AppView { selected_tab: self.selected_tab.spec_next_tab(), ..self }
    }

    /// The command of the key that moves the session on, given only while
    /// no timer runs.
    pub open spec fn on_next_state(self) -> Option<UpdateInfoView> {
        if self.timer_running() {
            None
        } else {
            Some(UpdateInfoView::MoveNextState)
        }
    }

    /// The command of the key that moves the session back, given only
    /// while no timer runs.
    pub open spec fn on_prev_state(self) -> Option<UpdateInfoView> {
        if self.timer_running() {
            None
        } else {
            Some(UpdateInfoView::MovePrevState)
        }
    }

    /// The command of the key that marks the task under the cursor as
    /// finished or unfinished.
    pub open spec fn on_change_finish_flag(self) -> Option<UpdateInfoView> {
        match self.selected_todo() {
            Some(todo) => Some(UpdateInfoView::ChangeFinishStatus(todo, false)),
            None => None,
        }
    }

    /// The screen after the key `c` at second `now`, and the command that
    /// the key gives rise to. While a new task is typed every character
    /// goes to the text. Otherwise `b` archives, `a` starts typing a task,
    /// `e` quits, `t` shows or hides the chart, `j` and `k` move the
    /// cursor, `l` and `h` move the session on and back, `f` marks a task,
    /// and the space bar starts the timer unless one is running.
    pub open spec fn on_key(self, c: char, now: int) -> (AppView, Option<UpdateInfoView>) {
        if self.show_add_todo {
            (AppView { new_todo_string: self.new_todo_string.push(c), ..self }, None)
        } else if c == 'b' {
            (self, Some(UpdateInfoView::ArchiveFinishedTodo(false)))
        } else if c == 'a' {
            (AppView { show_add_todo: true, ..self }, None)
        } else if c == 'e' {
            (AppView { should_quit: true, ..self }, None)
        } else if c == 't' {
            (AppView { show_chart: !self.show_chart, ..self }, None)
        } else if c == 'j' {
            (self.on_down(), None)
        } else if c == 'k' {
            (self.on_up(), None)
        } else if c == 'l' {
            (self, self.on_next_state())
        } else if c == 'h' {
            (self, self.on_prev_state())
        } else if c == 'f' {
            (self, self.on_change_finish_flag())
        } else if c == ' ' && !self.timer_running() {
            (
                AppView { start_time: Some(now), ..self },
                Some(UpdateInfoView::StartTodo(now, self.focus_id(), self.state)),
            )
        } else {
            (self, None)
        }
    }

    /// The screen after Enter in the list of tasks: the task under the
    /// cursor, if there is one, is the task in focus.
    pub open spec fn on_enter_in_list(self) -> AppView {
        AppView { todo_focus: self.selected_todo(), ..self }
    }

    /// The screen after the text of a new task was handed in or given up:
    /// the list of tasks shows again and the text is gone.
    pub open spec fn without_new_todo(self) -> AppView {
        AppView { show_add_todo: false, new_todo_string: Seq::empty(), ..self }
    }

    /// A timer fires once: after the tick that found it expired, no tick
    /// gives a command until a timer is started again.
    pub proof fn lemma_expiry_fires_once(self, now: int, later: int)
        requires
            self.on_tick(now).1.is_some(),
        ensures
            self.on_tick(now).0.on_tick(later).1.is_none(),
            !self.on_tick(now).0.timer_running(),
    {
    }

    /// A tick gives a command exactly when a timer runs and the time since
    /// its start has reached the limit; a tick before that changes nothing.
    pub proof fn lemma_tick_at_limit(self, now: int)
        ensures
            self.on_tick(now).1.is_some() <==> self.start_time.is_some() && now
                >= self.start_time.unwrap() + self.limit_time,
            self.on_tick(now).1.is_none() ==> self.on_tick(now).0 == self,
    {
    }

    /// A timer that the space bar starts at second `start` runs for the
    /// time of the phase: a tick before `start + limit_time` gives no
    /// command and leaves the timer running; the first tick at or after it
    /// gives one and stops the timer.
    pub proof fn lemma_started_timer_runs_its_time(self, start: int, now: int)
        requires
            !self.timer_running(),
            !self.show_add_todo,
        ensures
            self.on_key(' ', start).0.start_time == Some(start),
            self.on_key(' ', start).1 == Some(
                UpdateInfoView::StartTodo(start, self.focus_id(), self.state),
            ),
            now < start + self.limit_time ==> self.on_key(' ', start).0.on_tick(now) == (
                self.on_key(' ', start).0,
                None::<UpdateInfoView>,
            ),
            now >= start + self.limit_time ==> self.on_key(' ', start).0.on_tick(now).1 == Some(
                self.expiry_command(),
            ) && !self.on_key(' ', start).0.on_tick(now).0.timer_running(),
    {
    }

    /// While a timer runs, the keys that move the session on or back and
    /// the space bar give no command and leave the timer alone.
    pub proof fn lemma_running_timer_holds(self, c: char, now: int)
        requires
            self.timer_running(),
            !self.show_add_todo,
            c == 'l' || c == 'h' || c == ' ',
        ensures
            self.on_key(c, now) == (self, None::<UpdateInfoView>),
    {
    }
}

/// Reads the clock with `chrono::Local::now().timestamp()`: the seconds
/// since the start of 1970, UTC, at the moment of the call. Nothing is
/// claimed of the number.
#[verifier::external_body]
pub(crate) fn current_timestamp() -> i64 {
    chrono::Local::now().timestamp()
}

/// The whole minutes in `seconds`, rounded towards zero.
pub open spec fn whole_minutes(seconds: int) -> int {
    if seconds >= 0 {
        seconds / (ONE_MINUTE as int)
    } else {
        -((-seconds) / (ONE_MINUTE as int))
    }
}

/// The seconds of `seconds` beyond its whole minutes; they have the sign of
/// `seconds`.
pub open spec fn odd_seconds(seconds: int) -> int {
    seconds - whole_minutes(seconds) * ONE_MINUTE
}

/// `n` written in at least two places: a number of one digit gets a zero
/// in front.
pub open spec fn two_digits(n: int) -> Seq<char> {
    if 0 <= n < 10 {
        seq!['0'] + signed_decimal(n)
    } else {
        signed_decimal(n)
    }
}

/// The face of the clock when `remaining` seconds are left: the minutes, a
/// colon, and the seconds in two digits. Once the time is over, both parts
/// count on below zero.
pub open spec fn clock_face(remaining: int) -> Seq<char> {
    signed_decimal(whole_minutes(remaining)) + seq![':'] + two_digits(odd_seconds(remaining))
}

/// The face of the clock when `remaining` seconds are left.
pub fn timer_text(remaining: i128) -> (text: String)
    ensures
        text@ == clock_face(remaining as int),
{
    let size: u128 = if remaining >= 0 {
        remaining as u128
    } else {
        (-(remaining + 1)) as u128 + 1
    };
    let minute: u128 = ONE_MINUTE as u128;
    let minutes_size: u128 = size / minute;
    let seconds_size: u128 = size % minute;
    let minutes: i128 = if remaining >= 0 {
        minutes_size as i128
    } else {
        -(minutes_size as i128)
    };
    let seconds: i128 = if remaining >= 0 {
        seconds_size as i128
    } else {
        -(seconds_size as i128)
    };
    proof {
        assert(size == minutes_size * minute + seconds_size) by (nonlinear_arith)
            requires
                minute > 0,
                minutes_size == size / minute,
                seconds_size == size % minute,
        ;
        assert(minutes == whole_minutes(remaining as int));
        assert(seconds == odd_seconds(remaining as int));
    }
    let mut text = String::new();
    push_signed_decimal(&mut text, minutes);
    text.push(':');
    if 0 <= seconds && seconds < 10 {
        text.push('0');
    }
    push_signed_decimal(&mut text, seconds);
    proof {
        assert(text@ =~= clock_face(remaining as int));
    }
    text
}

impl<'a> App<'a> {
    /// The screen at the start of a session: the tasks of `todo_list` with
    /// the cursor off, no text typed, the timer of `start_time` running
    /// if there is one, and the task with the id `id` in focus if it is
    /// registered.
    pub fn new(
        title: &'a str,
        enhanced_graphics: bool,
        todo_list: &TodoList,
        state: &'a State,
        status: String,
        id: &Option<String>,
        start_time: &Option<i64>,
        todays_executed_count: i64,
        task_log: &'a Vec<TaskLogJson>,
    ) -> (app: App<'a>)
        ensures
            app@.title == title@,
            !app@.should_quit,
            !app@.show_add_todo,
            !app@.show_chart,
            app@.start_time == match *start_time {
                Some(start) => Some(start as int),
                None => None,
            },
            app@.limit_time == state@.limit_minutes() * ONE_MINUTE,
            app@.state == state@,
            app@.enhanced_graphics == enhanced_graphics,
            distinct_ids(app@.todos),
            registry_of(app@.todos) == todo_list@,
            app@.cursor.is_none(),
            app@.todo_focus == match *id {
                Some(id) => if todo_list@.contains_key(id@) {
                    Some(todo_list@[id@])
                } else {
                    None
                },
                None => None,
            },
            app@.new_todo_string == Seq::<char>::empty(),
            app@.status == status@,
            app@.todays_executed_count == todays_executed_count,
            app@.selected_tab == Tab::Main,
            app@.task_log == log_views(task_log@),
    {
        let todos = todo_list.get_vec_of_todo();
        let todo_focus = match id {
            Some(id) => find_by_id(&todos, id),
            None => None,
        };
        proof {
            let listed = item_views(todos@);
            crate::todo::lemma_registry_of(listed);
            if id is Some {
                let wanted = id->0@;
                if todo_focus is Some {
                    let found = todo_focus->0@;
                    let i = choose|i: int|
                        0 <= i < todos.len() && (#[trigger] todos[i])@ == found && found.id
                            == wanted;
                    assert(listed[i] == found);
                    assert(registry_of(listed)[listed[i].id] == listed[i]);
                } else {
                    if todo_list@.contains_key(wanted) {
                        let k = choose|k: int| 0 <= k < listed.len() && listed[k].id == wanted;
                        assert(todos[k].id@ == wanted);
                    }
                }
            }
        }
        App {
            title,
            should_quit: false,
            show_add_todo: false,
            show_chart: false,
            start_time: *start_time,
            limit_time: State::get_limit_time(state),
            state,
            enhanced_graphics,
            todos: StatefulList::with_items(todos),
            todo_focus,
            new_todo_string: String::new(),
            status,
            todays_executed_count,
            selected_tab: Tab::Main,
            task_log,
        }
    }

    /// Whether a timer is running.
    pub fn timer_running(&self) -> (running: bool)
        ensures
            running == self@.timer_running(),
    {
        self.start_time.is_some()
    }

    /// Seconds that the running timer has run at `now`, if one runs.
    pub fn elapsed_at(&self, now: i64) -> (elapsed: Option<i128>)
        ensures
            match elapsed {
                Some(seconds) => self@.timer_running() && seconds == self@.elapsed(now as int),
                None => !self@.timer_running(),
            },
    {
        match self.start_time {
            Some(start) => Some(now as i128 - start as i128),
            None => None,
        }
    }

    /// Seconds that the running timer still has to run at `now`, if one
    /// runs; the whole time of the phase otherwise.
    pub fn remaining_at(&self, now: i64) -> (remaining: i128)
        ensures
            remaining == if self@.timer_running() {
                self@.remaining(now as int)
            } else {
                self@.limit_time as int
            },
    {
        match self.start_time {
            Some(start) => self.limit_time as i128 - (now as i128 - start as i128),
            None => self.limit_time as i128,
        }
    }

    /// What the clock shows at `now`: the time that the running timer
    /// still has, or the whole time of the phase while none runs.
    pub fn timer_text_at(&self, now: i64) -> (text: String)
        ensures
            text@ == clock_face(
                if self@.timer_running() {
                    self@.remaining(now as int)
                } else {
                    self@.limit_time as int
                },
            ),
    {
        timer_text(self.remaining_at(now))
    }

    /// Whether `todo` is the task in focus: the task whose id the task in
    /// focus has.
    pub fn is_in_focus(&self, todo: &TodoItem) -> (in_focus: bool)
        ensures
            in_focus == (self@.todo_focus matches Some(focus) && focus.id == todo@.id),
    {
        match &self.todo_focus {
            Some(focus) => todo.id == focus.id,
            None => false,
        }
    }

    /// Moves the cursor one task up.
    pub fn on_up(&mut self)
        ensures
            final(self)@ == old(self)@.on_up(),
    {
        self.todos.previous();
    }

    /// Moves the cursor one task down.
    pub fn on_down(&mut self)
        ensures
            final(self)@ == old(self)@.on_down(),
    {
        self.todos.next();
    }

    /// The right arrow does nothing.
    pub fn on_right(&mut self)
        ensures
            final(self)@ == old(self)@,
    {
    }

    /// The left arrow does nothing.
    pub fn on_left(&mut self)
        ensures
            final(self)@ == old(self)@,
    {
    }

    /// Enter. While a new task is typed, the text is handed in: it is read
    /// as `title tag project estimate`, and a task with a new id is to be
    /// registered, or the text is refused; either way the text is gone and
    /// the list shows again. In the list, the task under the cursor
    /// becomes the task in focus.
    pub fn on_enter(&mut self) -> (res: Result<Option<UpdateInfo>, TodoError>)
        ensures
            old(self)@.show_add_todo ==> final(self)@ == old(self)@.without_new_todo() && match res {
                Ok(Some(UpdateInfo::AddNewTodo(todo, go_on))) => !go_on && is_generated_id(todo.id@)
                    && parsed_item(todo.id@, old(self)@.new_todo_string) == Some(todo@),
                Ok(_) => false,
                Err(e) => e == TodoError::ParseError && !is_item_text(old(self)@.new_todo_string),
            },
            !old(self)@.show_add_todo ==> final(self)@ == old(self)@.on_enter_in_list()
                && res matches Ok(None),
    {
        if self.show_add_todo {
            self.show_add_todo = false;
            let mut text = String::new();
            std::mem::swap(&mut self.new_todo_string, &mut text);
            match TodoItem::from_str(text.as_str()) {
                Ok(todo) => Ok(Some(UpdateInfo::AddNewTodo(todo, false))),
                Err(e) => Err(e),
            }
        } else {
            self.todo_focus = match self.todos.selected_item() {
                Some(todo) => Some(todo.clone()),
                None => None,
            };
            Ok(None)
        }
    }

    /// Escape while a new task is typed: the text is given up and the list
    /// shows again.
    pub fn on_cancel(&mut self)
        ensures
            final(self)@ == old(self)@.without_new_todo(),
    {
        self.show_add_todo = false;
        self.new_todo_string = String::new();
    }

    /// Delete or Backspace.
    pub fn on_delete(&mut self)
        ensures
            final(self)@ == old(self)@.on_delete(),
    {
        if self.show_add_todo {
            let _ = self.new_todo_string.pop();
        }
    }

    /// Turns to the other page.
    pub fn on_change_tab(&mut self)
        ensures
            final(self)@ == old(self)@.on_change_tab(),
    {
        self.selected_tab = Tab::get_next_tab(&self.selected_tab);
    }

    /// The key that moves the session on.
    pub fn on_next_state(&mut self) -> (res: Result<Option<UpdateInfo>, TodoError>)
        ensures
            final(self)@ == old(self)@,
            res matches Ok(info) && info_view(info) == old(self)@.on_next_state(),
    {
        if self.start_time.is_none() {
            Ok(Some(UpdateInfo::MoveNextState()))
        } else {
            Ok(None)
        }
    }

    /// The key that moves the session back.
    pub fn on_prev_state(&mut self) -> (res: Result<Option<UpdateInfo>, TodoError>)
        ensures
            final(self)@ == old(self)@,
            res matches Ok(info) && info_view(info) == old(self)@.on_prev_state(),
    {
        if self.start_time.is_none() {
            Ok(Some(UpdateInfo::MovePrevState()))
        } else {
            Ok(None)
        }
    }

    /// The key that marks the task under the cursor as finished or
    /// unfinished.
    pub fn on_change_finish_flag(&mut self) -> (res: Result<Option<UpdateInfo>, TodoError>)
        ensures
            final(self)@ == old(self)@,
            res matches Ok(info) && info_view(info) == old(self)@.on_change_finish_flag(),
    {
        match self.todos.selected_item() {
            Some(todo) => Ok(Some(UpdateInfo::ChangeFinishStatus(todo.clone(), false))),
            None => Ok(None),
        }
    }

    /// The key `c`, pressed at second `now`.
    pub fn on_key_at(&mut self, c: char, now: i64) -> (res: Result<Option<UpdateInfo>, TodoError>)
        ensures
            res matches Ok(info) && (final(self)@, info_view(info)) == old(self)@.on_key(
                c,
                now as int,
            ),
    {
        if self.show_add_todo {
            self.new_todo_string.push(c);
        } else {
            match c {
                'b' => {
                    return Ok(Some(UpdateInfo::ArchiveFinishedTodo(false)));
                },
                'a' => {
                    self.show_add_todo = true;
                },
                'e' => {
                    self.should_quit = true;
                },
                't' => {
                    self.show_chart = !self.show_chart;
                },
                'j' => {
                    self.on_down();
                },
                'k' => {
                    self.on_up();
                },
                'l' => {
                    return self.on_next_state();
                },
                'h' => {
                    return self.on_prev_state();
                },
                'f' => {
                    return self.on_change_finish_flag();
                },
                ' ' => {
                    if self.start_time.is_none() {
                        self.start_time = Some(now);
                        let id = match &self.todo_focus {
                            Some(focus) => focus.id.clone(),
                            None => String::new(),
                        };
                        return Ok(Some(UpdateInfo::StartTodo(now, id, *self.state)));
                    }
                },
                _ => {},
            }
        }
        Ok(None)
    }

    /// The key `c`, pressed now. The second argument, the place of the
    /// cursor on the screen, plays no part. What happens is what
    /// `on_key_at` does for the second that the clock shows.
    pub fn on_key(&mut self, c: char, _cursor: (u16, u16)) -> (res: Result<
        Option<UpdateInfo>,
        TodoError,
    >)
        ensures
            res matches Ok(info) && exists|now: int|
                i64::MIN <= now <= i64::MAX && (final(self)@, info_view(info))
                    == #[trigger] old(self)@.on_key(c, now),
    {
        let now = current_timestamp();
        let res = self.on_key_at(c, now);
        proof {
            let ghost at = now as int;
            assert(i64::MIN <= at <= i64::MAX);
        }
        res
    }

    /// A tick of the clock at second `now`: if the timer has run its time
    /// it stops, and the command that follows from its end is handed out.
    pub fn on_tick_at(&mut self, now: i64) -> (info: Option<UpdateInfo>)
        ensures
            (final(self)@, info_view(info)) == old(self)@.on_tick(now as int),
    {
        if let Some(start) = self.start_time {
            if now as i128 - start as i128 >= self.limit_time as i128 {
                self.start_time = None;
                return match &self.todo_focus {
                    Some(todo) => {
                        if let State::WORK(_) = self.state {
                            Some(UpdateInfo::CountIncrement(todo.clone(), true))
                        } else {
                            Some(UpdateInfo::MoveNextState())
                        }
                    },
                    None => Some(UpdateInfo::MoveNextState()),
                };
            }
        }
        None
    }

    /// A tick of the clock now. What happens is what `on_tick_at` does for
    /// the second that the clock shows: without a running timer nothing; a
    /// command only together with the end of the timer.
    pub fn on_tick(&mut self) -> (info: Option<UpdateInfo>)
        ensures
            exists|now: int|
                i64::MIN <= now <= i64::MAX && (final(self)@, info_view(info))
                    == #[trigger] old(self)@.on_tick(now),
    {
        let now = current_timestamp();
        let info = self.on_tick_at(now);
        proof {
            let ghost at = now as int;
            assert(i64::MIN <= at <= i64::MAX);
        }
        info
    }
}

/// A copy of the task with the given id among `todos`, the first if there
/// are several.
fn find_by_id(todos: &Vec<TodoItem>, id: &String) -> (found: Option<TodoItem>)
    ensures
        match found {
            Some(todo) => exists|i: int|
                0 <= i < todos.len() && (#[trigger] todos[i])@ == todo@ && todo.id@ == id@,
            None => forall|i: int| 0 <= i < todos.len() ==> (#[trigger] todos[i]).id@ != id@,
        },
{
    let mut i: usize = 0;
    while i < todos.len()
        invariant
            i <= todos.len(),
            forall|k: int| 0 <= k < i ==> (#[trigger] todos[k]).id@ != id@,
        decreases todos.len() - i,
    {
        if todos[i].id == *id {
            return Some(todos[i].clone());
        }
        i += 1;
    }
    None
}

} // verus!
