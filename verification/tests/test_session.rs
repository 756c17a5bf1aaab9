use pomorks::app::App;
use pomorks::data_manage::{TaskDealing, TaskLogJson};
use pomorks::session::{in_cycle, Effect, Session};
use pomorks::todo::{State, TodoError, TodoItem, TodoList};
use pomorks::tui::{handle_event_at, Event, KeyCode, KeyEvent, Step, UpdateInfo};

fn item(id: &str, estimate: usize, executed: usize, finished: bool) -> TodoItem {
    let mut todo = TodoItem::new(
        id.to_string(),
        format!("title-{}", id),
        "tag".to_string(),
        "project".to_string(),
        estimate,
        executed,
        String::new(),
    );
    todo.finished = finished;
    todo
}

fn registry(items: Vec<TodoItem>) -> TodoList {
    let mut list = TodoList::new();
    for todo in items {
        list.add_todo(todo).unwrap();
    }
    list
}

fn dealing(id: Option<&str>, date: Option<i64>, state: Option<State>) -> TaskDealing {
    TaskDealing { id: id.map(|s| s.to_string()), date, state }
}

fn find(session: &Session, id: &str) -> Option<TodoItem> {
    session.todo_list().get_vec_of_todo().into_iter().find(|t| t.id == id)
}

fn ids(session: &Session) -> Vec<String> {
    let mut ids: Vec<String> =
        session.todo_list().get_vec_of_todo().into_iter().map(|t| t.id).collect();
    ids.sort();
    ids
}

#[test]
fn the_phases_of_the_cycle() {
    for n in 1..=4 {
        assert!(in_cycle(&State::WORK(n)));
    }
    for n in 1..=3 {
        assert!(in_cycle(&State::BREAK(n)));
    }
    assert!(in_cycle(&State::LUNCH(4)));
    for state in [
        State::WORK(0),
        State::WORK(5),
        State::BREAK(0),
        State::BREAK(4),
        State::LUNCH(0),
        State::LUNCH(3),
        State::LUNCH(5),
        State::WORK(usize::MAX),
    ] {
        assert!(!in_cycle(&state));
    }
}

#[test]
fn a_session_starts_from_what_was_stored() {
    let session = Session::new(None, TaskDealing::empty(), 0);
    assert_eq!(session.todo_list().get_vec_of_todo().len(), 0);
    assert_eq!(*session.state(), State::WORK(1));
    assert_eq!(session.status(), "");
    assert_eq!(session.todays_executed_count(), 0);
    assert!(session.task_dealing().id.is_none());

    let session = Session::new(
        Some(registry(vec![item("a", 1, 0, false)])),
        dealing(Some("a"), Some(99), Some(State::BREAK(2))),
        5,
    );
    assert_eq!(ids(&session), vec!["a"]);
    assert_eq!(*session.state(), State::BREAK(2));
    assert_eq!(session.todays_executed_count(), 5);
    assert_eq!(session.task_dealing().id.as_deref(), Some("a"));
    assert_eq!(session.task_dealing().date, Some(99));
    assert_eq!(session.task_dealing().state, Some(State::BREAK(2)));
}

#[test]
fn a_stored_phase_outside_the_cycle_is_not_resumed() {
    for stored in [State::WORK(0), State::WORK(9), State::BREAK(4), State::LUNCH(1)] {
        let session = Session::new(None, dealing(None, None, Some(stored)), 0);
        assert_eq!(*session.state(), State::WORK(1));
        assert_eq!(session.task_dealing().state, Some(stored));
    }
}

#[test]
fn the_message_and_the_count_are_set() {
    let mut session = Session::new(None, TaskDealing::empty(), 0);
    session.set_status("saved".to_string());
    assert_eq!(session.status(), "saved");
    session.report(TodoError::NotFound);
    assert_eq!(session.status(), "selected todo is not exist.");
    session.report(TodoError::ParseError);
    assert_eq!(session.status(), "Todo String Parse Error.");
    session.report(TodoError::DuplicateId);
    assert_eq!(session.status(), "id is duplicated.");
    session.set_todays_executed_count(8);
    assert_eq!(session.todays_executed_count(), 8);
    assert_eq!(*session.state(), State::WORK(1));
}

#[test]
fn a_finished_work_unit_counts() {
    let session = Session::new(
        Some(registry(vec![item("a", 2, 0, false), item("b", 1, 1, false)])),
        dealing(Some("a"), Some(1000), Some(State::WORK(1))),
        0,
    );
    let info = UpdateInfo::CountIncrement(item("a", 2, 0, false), true);
    assert!(session.admits(&info));
    let (session, effect) = session.apply(info);
    match effect {
        Effect::LogWorkUnit(id) => assert_eq!(id, "a"),
        other => panic!("unexpected {:?}", other),
    }
    assert_eq!(find(&session, "a").unwrap().executed_count, 1);
    assert_eq!(find(&session, "b").unwrap().executed_count, 1);
    assert_eq!(*session.state(), State::BREAK(1));
    assert_eq!(session.task_dealing().date, None);
    assert_eq!(session.task_dealing().id.as_deref(), Some("a"));

    let (session, _) = session.apply(UpdateInfo::CountIncrement(item("b", 1, 1, false), false));
    assert_eq!(find(&session, "b").unwrap().executed_count, 2);
    assert_eq!(*session.state(), State::BREAK(1));
}

#[test]
fn a_full_count_is_not_admitted() {
    let session = Session::new(None, TaskDealing::empty(), 0);
    assert!(!session.admits(&UpdateInfo::CountIncrement(item("a", 1, usize::MAX, false), true)));
    assert!(session.admits(&UpdateInfo::CountIncrement(item("a", 1, usize::MAX - 1, false), true)));
    assert!(!session.admits(&UpdateInfo::StartTodo(0, String::new(), State::WORK(0))));
    assert!(!session.admits(&UpdateInfo::StartTodo(0, String::new(), State::LUNCH(1))));
    assert!(session.admits(&UpdateInfo::StartTodo(0, String::new(), State::LUNCH(4))));
    assert!(session.admits(&UpdateInfo::AddNewTodo(item("a", 1, usize::MAX, false), true)));
    assert!(session.admits(&UpdateInfo::ChangeFinishStatus(item("a", 1, 0, false), true)));
    assert!(session.admits(&UpdateInfo::ArchiveFinishedTodo(true)));
    assert!(session.admits(&UpdateInfo::MoveNextState()));
    assert!(session.admits(&UpdateInfo::MovePrevState()));
}

#[test]
fn a_new_task_is_registered() {
    let session = Session::new(None, dealing(None, Some(7), None), 0);
    let (session, effect) = session.apply(UpdateInfo::AddNewTodo(item("a", 2, 0, false), false));
    assert!(matches!(effect, Effect::Nothing));
    assert_eq!(ids(&session), vec!["a"]);
    assert_eq!(*session.state(), State::WORK(1));
    assert_eq!(session.status(), "");
    assert_eq!(session.task_dealing().date, Some(7));
    let (session, _) = session.apply(UpdateInfo::AddNewTodo(item("b", 2, 0, false), true));
    assert_eq!(ids(&session), vec!["a", "b"]);
    assert_eq!(*session.state(), State::BREAK(1));
}

#[test]
fn a_task_whose_id_is_taken_is_not_registered() {
    let session = Session::new(Some(registry(vec![item("a", 2, 1, false)])), TaskDealing::empty(), 0);
    let (session, effect) = session.apply(UpdateInfo::AddNewTodo(item("a", 9, 0, true), true));
    assert!(matches!(effect, Effect::Nothing));
    assert_eq!(session.status(), "id is duplicated.");
    assert_eq!(*session.state(), State::WORK(1));
    let kept = find(&session, "a").unwrap();
    assert_eq!(kept.estimate_count, 2);
    assert_eq!(kept.executed_count, 1);
    assert!(!kept.finished);
}

#[test]
fn the_finish_mark_is_turned() {
    let session = Session::new(Some(registry(vec![item("a", 2, 1, false)])), TaskDealing::empty(), 0);
    let (session, effect) = session.apply(UpdateInfo::ChangeFinishStatus(item("a", 2, 1, false), false));
    assert!(matches!(effect, Effect::Nothing));
    assert!(find(&session, "a").unwrap().finished);
    assert_eq!(*session.state(), State::WORK(1));
    let (session, _) = session.apply(UpdateInfo::ChangeFinishStatus(item("a", 2, 1, true), true));
    assert!(!find(&session, "a").unwrap().finished);
    assert_eq!(*session.state(), State::BREAK(1));
}

#[test]
fn the_finished_tasks_go_to_the_archive() {
    let session = Session::new(
        Some(registry(vec![
            item("a", 1, 1, true),
            item("b", 1, 0, false),
            item("c", 3, 3, true),
            item("d", 2, 0, false),
        ])),
        TaskDealing::empty(),
        0,
    );
    let (session, effect) = session.apply(UpdateInfo::ArchiveFinishedTodo(false));
    match effect {
        Effect::Archive(finished) => {
            let mut archived: Vec<String> = finished.into_iter().map(|t| t.id).collect();
            archived.sort();
            assert_eq!(archived, vec!["a", "c"]);
        }
        other => panic!("unexpected {:?}", other),
    }
    assert_eq!(ids(&session), vec!["b", "d"]);
    assert_eq!(*session.state(), State::WORK(1));
    let (session, effect) = session.apply(UpdateInfo::ArchiveFinishedTodo(true));
    match effect {
        Effect::Archive(finished) => assert!(finished.is_empty()),
        other => panic!("unexpected {:?}", other),
    }
    assert_eq!(ids(&session), vec!["b", "d"]);
    assert_eq!(*session.state(), State::BREAK(1));
}

#[test]
fn a_started_timer_is_recorded() {
    let session = Session::new(None, TaskDealing::empty(), 0);
    let (session, effect) = session.apply(UpdateInfo::StartTodo(1234, "a".to_string(), State::WORK(3)));
    match effect {
        Effect::SaveDealing(id, at, state) => {
            assert_eq!(id, "a");
            assert_eq!(at, 1234);
            assert_eq!(state, State::WORK(3));
        }
        other => panic!("unexpected {:?}", other),
    }
    assert_eq!(*session.state(), State::WORK(3));
    assert_eq!(session.task_dealing().id.as_deref(), Some("a"));
    assert_eq!(session.task_dealing().date, Some(1234));
    assert_eq!(session.task_dealing().state, Some(State::WORK(3)));
}

#[test]
fn the_session_moves_on_and_back() {
    let session = Session::new(None, dealing(Some("a"), Some(5), Some(State::WORK(4))), 0);
    let (session, effect) = session.apply(UpdateInfo::MoveNextState());
    assert!(matches!(effect, Effect::Nothing));
    assert_eq!(*session.state(), State::LUNCH(4));
    assert_eq!(session.task_dealing().date, None);
    let (session, _) = session.apply(UpdateInfo::MoveNextState());
    assert_eq!(*session.state(), State::WORK(1));
    let (session, effect) = session.apply(UpdateInfo::MovePrevState());
    assert!(matches!(effect, Effect::Nothing));
    assert_eq!(*session.state(), State::LUNCH(4));
    let (session, _) = session.apply(UpdateInfo::MovePrevState());
    assert_eq!(*session.state(), State::WORK(4));
    let (session, _) = session.apply(UpdateInfo::MovePrevState());
    assert_eq!(*session.state(), State::BREAK(3));
}

#[test]
fn eight_moves_close_the_cycle() {
    let mut session = Session::new(None, TaskDealing::empty(), 0);
    let mut seen = vec![];
    for _ in 0..8 {
        seen.push(*session.state());
        session = session.apply(UpdateInfo::MoveNextState()).0;
    }
    assert_eq!(
        seen,
        vec![
            State::WORK(1),
            State::BREAK(1),
            State::WORK(2),
            State::BREAK(2),
            State::WORK(3),
            State::BREAK(3),
            State::WORK(4),
            State::LUNCH(4),
        ]
    );
    assert_eq!(*session.state(), State::WORK(1));
}

#[test]
fn the_end_of_a_session() {
    let session = Session::new(
        Some(registry(vec![item("a", 1, 0, false)])),
        dealing(Some("a"), Some(5), Some(State::WORK(1))),
        0,
    );
    let (forget, list) = session.close();
    assert!(!forget);
    assert_eq!(list.get_vec_of_todo().len(), 1);
    let session = Session::new(None, dealing(Some("a"), None, Some(State::WORK(1))), 0);
    let (forget, list) = session.close();
    assert!(forget);
    assert_eq!(list.get_vec_of_todo().len(), 0);
}

#[test]
fn a_work_unit_from_the_keyboard_to_the_registry() {
    let mut session = Session::new(None, TaskDealing::empty(), 0);
    let log: Vec<TaskLogJson> = vec![];
    let key = |code| Event::Input(KeyEvent { code, plain: true });
    let t0: i64 = 1_656_400_000;

    // The task is typed and registered.
    let state = *session.state();
    let mut app = App::new("Pomodoro", true, session.todo_list(), &state, String::new(), &None, &None, 0, &log);
    assert!(matches!(handle_event_at(&mut app, &key(KeyCode::Char('a')), t0 - 9), Step::Continue));
    for c in "A tag project 2".chars() {
        assert!(matches!(handle_event_at(&mut app, &key(KeyCode::Char(c)), t0 - 8), Step::Continue));
    }
    let info = match handle_event_at(&mut app, &key(KeyCode::Enter), t0 - 7) {
        Step::Emit(info) => info,
        other => panic!("unexpected {:?}", other),
    };
    assert!(session.admits(&info));
    session = session.apply(info).0;
    let registered = session.todo_list().get_vec_of_todo();
    assert_eq!(registered.len(), 1);
    assert_eq!(registered[0].title, "A");
    assert_eq!(registered[0].estimate_count, 2);
    assert_eq!(registered[0].executed_count, 0);
    let id = registered[0].id.clone();

    // The task is put in focus and the timer started.
    let state = *session.state();
    assert_eq!(state, State::WORK(1));
    let mut app = App::new("Pomodoro", true, session.todo_list(), &state, String::new(), &None, &None, 0, &log);
    assert!(matches!(handle_event_at(&mut app, &key(KeyCode::Down), t0 - 2), Step::Continue));
    assert!(matches!(handle_event_at(&mut app, &key(KeyCode::Enter), t0 - 1), Step::Continue));
    let focus = app.todo_focus.as_ref().map(|t| t.id.clone());
    assert_eq!(focus, Some(id.clone()));
    let info = match handle_event_at(&mut app, &key(KeyCode::Char(' ')), t0) {
        Step::Emit(info) => info,
        other => panic!("unexpected {:?}", other),
    };
    assert!(session.admits(&info));
    let (next, effect) = session.apply(info);
    session = next;
    match effect {
        Effect::SaveDealing(for_id, at, state) => {
            assert_eq!(for_id, id);
            assert_eq!(at, t0);
            assert_eq!(state, State::WORK(1));
        }
        other => panic!("unexpected {:?}", other),
    }

    // The timer runs its time.
    let state = *session.state();
    let stored = session.task_dealing();
    let mut app = App::new(
        "Pomodoro",
        true,
        session.todo_list(),
        &state,
        String::new(),
        &stored.id,
        &stored.date,
        0,
        &log,
    );
    assert!(app.timer_running());
    assert!(matches!(handle_event_at(&mut app, &Event::Tick, t0 + 24 * 60), Step::Continue));
    let info = match handle_event_at(&mut app, &Event::Tick, t0 + 25 * 60) {
        Step::Emit(info) => info,
        other => panic!("unexpected {:?}", other),
    };
    assert!(matches!(info, UpdateInfo::CountIncrement(_, true)));
    assert!(UpdateInfo::should_go_next_state(&info));
    assert!(UpdateInfo::should_delete_time_stamp_of_task_start(&info));
    assert!(session.admits(&info));
    let (next, effect) = session.apply(info);
    session = next;
    match effect {
        Effect::LogWorkUnit(for_id) => assert_eq!(for_id, id),
        other => panic!("unexpected {:?}", other),
    }

    let registered = session.todo_list().get_vec_of_todo();
    assert_eq!(registered.len(), 1);
    assert_eq!(registered[0].id, id);
    assert_eq!(registered[0].executed_count, 1);
    assert_eq!(registered[0].estimate_count, 2);
    assert_eq!(*session.state(), State::BREAK(1));
    assert_eq!(session.task_dealing().date, None);
    let (forget, _) = session.close();
    assert!(forget);
}
