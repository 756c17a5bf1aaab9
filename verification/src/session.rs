//! The session that the driver owns: the registry, the phase of the cycle,
//! the message for the user and the record of the running timer, and what
//! each command of the dispatcher does to them.

use crate::app::AppView;
use crate::data_manage::{TaskDealing, TaskDealingView};
use crate::todo::{
    distinct_ids, finished_part, item_views, registry_of, unfinished_part, State, StateView,
    TodoError, TodoItem, TodoItemView, TodoList,
};
use crate::tui::{UpdateInfo, UpdateInfoView};
use vstd::prelude::*;

verus! {

/// What the driver has to ask of the store after a command.
#[derive(Debug)]
pub enum Effect {
    /// Nothing.
    Nothing,
    /// A finished work unit of the task with this id is to be logged, and
    /// the count of today's work units to be read again.
    LogWorkUnit(String),
    /// These tasks are to be added to the archive.
    Archive(Vec<TodoItem>),
    /// The timer that started at this second, for the task with this id,
    /// in this phase, is to be stored as the running one.
    SaveDealing(String, i64, State),
}

/// The mathematical value of a session.
pub struct SessionView {
    pub todo_list: Map<Seq<char>, TodoItemView>,
    pub state: StateView,
    pub status: Seq<char>,
    pub task_dealing: TaskDealingView,
    pub todays_executed_count: int,
}

impl SessionView {
    /// The phase after a command that may move the session on.
    pub open spec fn state_after(self, go_on: bool) -> StateView {
        if go_on {
            self.state.next()
        } else {
            self.state
        }
    }

    /// The record of the timer once the timer has ended: its start is
    /// forgotten.
    pub open spec fn dealing_ended(self) -> TaskDealingView {
        TaskDealingView { date: None, ..self.task_dealing }
    }

    /// The session after the command `info` was carried out.
    ///
    /// A finished work unit raises the count of its task and ends the
    /// timer. A new task is registered, unless its id is taken: then the
    /// session only tells the user so. A change of the finish mark stores
    /// the task with the mark turned. Archiving leaves the unfinished tasks.
    /// A started timer is recorded, with its phase as the session's phase.
    /// A move to the next or the previous phase ends the timer. The first
    /// four move the session on as well if their flag says so.
    pub open spec fn apply(self, info: UpdateInfoView) -> SessionView {
        match info {
            UpdateInfoView::CountIncrement(todo, go_on) => SessionView {
                todo_list: self.todo_list.insert(
                    todo.id,
                    TodoItemView { executed_count: todo.executed_count + 1, ..todo },
                ),
                state: self.state_after(go_on),
                task_dealing: self.dealing_ended(),
                ..self
            },
            UpdateInfoView::AddNewTodo(todo, go_on) => if self.todo_list.contains_key(todo.id) {
                SessionView { status: TodoError::DuplicateId.message_text(), ..self }
            } else {
                SessionView {
                    todo_list: self.todo_list.insert(todo.id, todo),
                    state: self.state_after(go_on),
                    ..self
                }
            },
            UpdateInfoView::ChangeFinishStatus(todo, go_on) => SessionView {
                todo_list: self.todo_list.insert(
                    todo.id,
                    TodoItemView { finished: !todo.finished, ..todo },
                ),
                state: self.state_after(go_on),
                ..self
            },
            UpdateInfoView::ArchiveFinishedTodo(go_on) => SessionView {
                todo_list: unfinished_part(self.todo_list),
                state: self.state_after(go_on),
                ..self
            },
            UpdateInfoView::StartTodo(start, id, state) => SessionView {
                state,
                task_dealing: TaskDealingView {
                    id: Some(id),
                    date: Some(start),
                    state: Some(state),
                },
                ..self
            },
            UpdateInfoView::MoveNextState => SessionView {
                state: self.state.next(),
                task_dealing: self.dealing_ended(),
                ..self
            },
            UpdateInfoView::MovePrevState => SessionView {
                state: self.state.prev(),
                task_dealing: self.dealing_ended(),
                ..self
            },
        }
    }

    /// Whether `effect` is what the driver has to ask of the store after
    /// the command `info`: a log entry for a finished work unit, the
    /// finished tasks of the registry for the archive, the record of a
    /// started timer, and nothing otherwise.
    pub open spec fn asks_for(self, info: UpdateInfoView, effect: Effect) -> bool {
        match info {
            UpdateInfoView::CountIncrement(todo, _) => effect matches Effect::LogWorkUnit(id)
                && id@ == todo.id,
            UpdateInfoView::ArchiveFinishedTodo(_) => effect matches Effect::Archive(finished)
                && distinct_ids(item_views(finished@)) && registry_of(item_views(finished@))
                == finished_part(self.todo_list),
            UpdateInfoView::StartTodo(start, id, state) => effect matches Effect::SaveDealing(
                for_id,
                at,
                in_state,
            ) && for_id@ == id && at == start && in_state@ == state,
            _ => effect is Nothing,
        }
    }

    /// Whether the command can be carried out within the limits of the
    /// machine on a session whose phase is one of the cycle: a work count
    /// must leave room for one more, and the phase of a started timer must
    /// be one of the cycle.
    pub open spec fn admits(self, info: UpdateInfoView) -> bool {
        match info {
            UpdateInfoView::CountIncrement(todo, _) => todo.executed_count < usize::MAX,
            UpdateInfoView::StartTodo(_, _, state) => state.in_cycle(),
            _ => true,
        }
    }

    /// Carrying out a command leaves the session in a phase of the cycle if
    /// it was in one.
    pub proof fn lemma_apply_keeps_cycle(self, info: UpdateInfoView)
        requires
            self.state.in_cycle(),
            self.admits(info),
        ensures
            self.apply(info).state.in_cycle(),
    {
        self.state.lemma_cycle_closed();
    }

    /// After a finished work unit the task is registered with the work
    /// count that the command carried raised by one, and no timer runs.
    pub proof fn lemma_count_increment_counts(self, todo: TodoItemView, go_on: bool)
        ensures
            self.apply(UpdateInfoView::CountIncrement(todo, go_on)).todo_list[todo.id].executed_count
                == todo.executed_count + 1,
            self.apply(UpdateInfoView::CountIncrement(todo, go_on)).todo_list.contains_key(
                todo.id,
            ),
            self.apply(UpdateInfoView::CountIncrement(todo, go_on)).task_dealing.date.is_none(),
    {
    }

    /// A command forgets the start of the timer exactly when it ends the
    /// timer; a started timer is recorded; any other command leaves the
    /// record alone.
    pub proof fn lemma_timer_record(self, info: UpdateInfoView)
        ensures
            info.ends_timer() ==> self.apply(info).task_dealing == self.dealing_ended(),
            !info.ends_timer() && !(info is StartTodo) ==> self.apply(info).task_dealing
                == self.task_dealing,
            info matches UpdateInfoView::StartTodo(start, _, _) ==> self.apply(
                info,
            ).task_dealing.date == Some(start),
    {
    }

    /// A command moves the session on to the next phase exactly when
    /// `goes_to_next_state` says so, unless it is the registration of a task
    /// whose id is taken, which changes nothing but the message.
    pub proof fn lemma_moves_on(self, info: UpdateInfoView)
        requires
            !(info matches UpdateInfoView::AddNewTodo(todo, _) && self.todo_list.contains_key(
                todo.id,
            )),
        ensures
            info.goes_to_next_state() ==> self.apply(info).state == self.state.next(),
            !info.goes_to_next_state() && !(info is StartTodo) && !(info is MovePrevState)
                ==> self.apply(info).state == self.state,
    {
    }
}

/// A work unit from the clock to the registry. When a tick finds the timer
/// of a work phase expired while a task is in focus, it stops the timer and
/// hands out a command; carried out on a session in that phase, the command
/// leaves the task registered with one work unit more, the session in the
/// next phase, and no start of a timer recorded.
pub proof fn lemma_expired_work_timer_counts(
    app: AppView,
    session: SessionView,
    todo: TodoItemView,
    now: int,
)
    requires
        app.state is Work,
        app.state == session.state,
        app.todo_focus == Some(todo),
        app.expired(now),
    ensures
        !app.on_tick(now).0.timer_running(),
        app.on_tick(now).1 == Some(UpdateInfoView::CountIncrement(todo, true)),
        session.apply(app.on_tick(now).1.unwrap()).todo_list.contains_key(todo.id),
        session.apply(app.on_tick(now).1.unwrap()).todo_list[todo.id] == (TodoItemView {
            executed_count: todo.executed_count + 1,
            ..todo
        }),
        session.apply(app.on_tick(now).1.unwrap()).state == session.state.next(),
        session.apply(app.on_tick(now).1.unwrap()).task_dealing.date.is_none(),
{
}

/// A timer that ends in a break or at lunch, or with no task in focus, only
/// moves the session on: the registry stays as it is.
pub proof fn lemma_expired_timer_moves_on(app: AppView, session: SessionView, now: int)
    requires
        !(app.state is Work) || app.todo_focus.is_none(),
        app.state == session.state,
        app.expired(now),
    ensures
        app.on_tick(now).1 == Some(UpdateInfoView::MoveNextState),
        session.apply(app.on_tick(now).1.unwrap()).todo_list == session.todo_list,
        session.apply(app.on_tick(now).1.unwrap()).state == session.state.next(),
        session.apply(app.on_tick(now).1.unwrap()).task_dealing.date.is_none(),
{
}

/// The session that the driver owns. Its phase is always one of the cycle.
pub struct Session {
    todo_list: TodoList,
    state: State,
    status: String,
    task_dealing: TaskDealing,
    todays_executed_count: i64,
}

impl View for Session {
    type V = SessionView;

    closed spec fn view(&self) -> SessionView {
        SessionView {
            todo_list: self.todo_list@,
            state: self.state@,
            status: self.status@,
            task_dealing: self.task_dealing@,
            todays_executed_count: self.todays_executed_count as int,
        }
    }
}

/// Whether `state` is one of the eight phases of the cycle.
pub fn in_cycle(state: &State) -> (inside: bool)
    ensures
        inside == state@.in_cycle(),
{
    match state {
        State::WORK(n) => 1 <= *n && *n <= 4,
        State::BREAK(n) => 1 <= *n && *n <= 3,
        State::LUNCH(n) => *n == 4,
    }
}

/// The phase that a session starts in when `stored` is the phase of the
/// timer that was last recorded: that phase if it is one of the cycle, the
/// first work period otherwise.
pub open spec fn starting_state(stored: Option<StateView>) -> StateView {
    match stored {
        Some(state) => if state.in_cycle() {
            state
        } else {
            StateView::Work(1)
        },
        None => StateView::Work(1),
    }
}

impl Session {
    #[verifier::type_invariant]
    spec fn phase_in_cycle(&self) -> bool {
        self.state@.in_cycle()
    }

    /// The session at the start of the program, from what the store held:
    /// the registry, empty if there was none; the record of the timer that
    /// was running; and the count of today's work units. The message is
    /// empty.
    pub fn new(
        todo_list: Option<TodoList>,
        task_dealing: TaskDealing,
        todays_executed_count: i64,
    ) -> (session: Self)
        ensures
            session@ == (SessionView {
                todo_list: match todo_list {
                    Some(list) => list@,
                    None => Map::empty(),
                },
                state: starting_state(task_dealing@.state),
                status: Seq::empty(),
                task_dealing: task_dealing@,
                todays_executed_count: todays_executed_count as int,
            }),
            session@.state.in_cycle(),
    {
        let todo_list = match todo_list {
            Some(list) => list,
            None => TodoList::new(),
        };
        let state = match &task_dealing.state {
            Some(stored) => if in_cycle(stored) {
                *stored
            } else {
                State::WORK(1)
            },
            None => State::WORK(1),
        };
        Session { todo_list, state, status: String::new(), task_dealing, todays_executed_count }
    }

    /// The registry.
    pub fn todo_list(&self) -> (list: &TodoList)
        ensures
            list@ == self@.todo_list,
    {
        &self.todo_list
    }

    /// The phase of the cycle, always one of its eight.
    pub fn state(&self) -> (state: &State)
        ensures
            state@ == self@.state,
            state@.in_cycle(),
    {
        proof {
            use_type_invariant(self);
        }
        &self.state
    }

    /// The message for the user.
    pub fn status(&self) -> (status: &String)
        ensures
            status@ == self@.status,
    {
        &self.status
    }

    /// The record of the running timer.
    pub fn task_dealing(&self) -> (dealing: &TaskDealing)
        ensures
            dealing@ == self@.task_dealing,
    {
        &self.task_dealing
    }

    /// The count of today's work units.
    pub fn todays_executed_count(&self) -> (count: i64)
        ensures
            count == self@.todays_executed_count,
    {
        self.todays_executed_count
    }

    /// Takes the count of today's work units as the store gave it.
    pub fn set_todays_executed_count(&mut self, count: i64)
        ensures
            final(self)@ == (SessionView { todays_executed_count: count as int, ..old(self)@ }),
    {
        proof {
            use_type_invariant(&*self);
        }
        self.todays_executed_count = count;
    }

    /// Takes the sentence of `error` as the message for the user.
    pub fn report(&mut self, error: TodoError)
        ensures
            final(self)@ == (SessionView { status: error.message_text(), ..old(self)@ }),
    {
        proof {
            use_type_invariant(&*self);
        }
        self.status = error.message();
    }

    /// Takes `message` as the message for the user.
    pub fn set_status(&mut self, message: String)
        ensures
            final(self)@ == (SessionView { status: message@, ..old(self)@ }),
    {
        proof {
            use_type_invariant(&*self);
        }
        self.status = message;
    }

    /// Whether `info` can be carried out within the limits of the machine.
    pub fn admits(&self, info: &UpdateInfo) -> (admitted: bool)
        ensures
            admitted == self@.admits(info@),
    {
        match info {
            UpdateInfo::CountIncrement(todo, _) => todo.executed_count < usize::MAX,
            UpdateInfo::StartTodo(_, _, state) => in_cycle(state),
            _ => true,
        }
    }

    /// Carries out the command `info`: hands back the session as it is
    /// afterwards, and what is to be asked of the store.
    pub fn apply(self, info: UpdateInfo) -> (next: (Session, Effect))
        requires
            self@.admits(info@),
        ensures
            next.0@ == self@.apply(info@),
            self@.asks_for(info@, next.1),
    {
        proof {
            use_type_invariant(&self);
            self@.state.lemma_cycle_closed();
        }
        let Session { todo_list, state, status, task_dealing, todays_executed_count } = self;
        let mut todo_list = todo_list;
        let mut state = state;
        let mut status = status;
        let mut task_dealing = task_dealing;
        let effect = match info {
            UpdateInfo::CountIncrement(todo, go_on) => {
                let id = todo.id.clone();
                let counted = TodoItem { executed_count: todo.executed_count + 1, ..todo };
                let _ = todo_list.insert_todo(counted);
                if go_on {
                    state = State::get_next_state(&state);
                }
                task_dealing.date = None;
                Effect::LogWorkUnit(id)
            },
            UpdateInfo::AddNewTodo(todo, go_on) => {
                match todo_list.add_todo(todo) {
                    Ok(()) => {
                        if go_on {
                            state = State::get_next_state(&state);
                        }
                    },
                    Err(e) => {
                        status = e.message();
                    },
                }
                Effect::Nothing
            },
            UpdateInfo::ChangeFinishStatus(todo, go_on) => {
                let marked = TodoItem { finished: !todo.finished, ..todo };
                let _ = todo_list.insert_todo(marked);
                if go_on {
                    state = State::get_next_state(&state);
                }
                Effect::Nothing
            },
            UpdateInfo::MoveNextState() => {
                state = State::get_next_state(&state);
                task_dealing.date = None;
                Effect::Nothing
            },
            UpdateInfo::MovePrevState() => {
                state = State::get_prev_state(&state);
                task_dealing.date = None;
                Effect::Nothing
            },
            UpdateInfo::ArchiveFinishedTodo(go_on) => {
                let finished = todo_list.drain_finished_todo();
                if go_on {
                    state = State::get_next_state(&state);
                }
                Effect::Archive(finished)
            },
            UpdateInfo::StartTodo(start, id, started_in) => {
                task_dealing.id = Some(id.clone());
                task_dealing.date = Some(start);
                task_dealing.state = Some(started_in);
                state = started_in;
                Effect::SaveDealing(id, start, started_in)
            },
        };
        (Session { todo_list, state, status, task_dealing, todays_executed_count }, effect)
    }

    /// Ends the session: hands out the registry, which is to be stored, and
    /// says whether the record of the timer is to be deleted from the
    /// store. It is, unless a timer is still running: that one stays
    /// recorded, to be taken up again at the next start.
    pub fn close(self) -> (end: (bool, TodoList))
        ensures
            end.0 == self@.task_dealing.date.is_none(),
            end.1@ == self@.todo_list,
    {
        (self.task_dealing.date.is_none(), self.todo_list)
    }
}

} // verus!
