use pomorks::text::TextOrder;
use pomorks::todo::{generate_id, TodoError, TodoItem, TodoList};
use std::cmp::Ordering;
use std::str::FromStr;

fn item(id: &str, title: &str, finished: bool) -> TodoItem {
    TodoItem {
        id: id.to_string(),
        title: title.to_string(),
        tag: "tag".to_string(),
        project: "project".to_string(),
        estimate_count: 1,
        executed_count: 0,
        finished,
        detail: String::new(),
    }
}

#[test]
fn test_add_todo() {
    let mut list = TodoList::new();
    let item = TodoItem::new(
        "1".to_string(),
        "test".to_string(),
        "tag".to_string(),
        "project".to_string(),
        0,
        0,
        "none".to_string(),
    );

    list.add_todo(item).unwrap();
    assert_eq!(list.get_vec_of_todo().len(), 1);

    let item2 = TodoItem::new(
        "1".to_string(),
        "test2".to_string(),
        "tag2".to_string(),
        "project2".to_string(),
        0,
        0,
        "none".to_string(),
    ); // duplicated id

    let result = list.add_todo(item2);
    assert!(result.is_err());
    assert_eq!(list.get_vec_of_todo().len(), 1);
}

#[test]
fn test_delete_todo() {
    let mut list = TodoList::new();

    let todo = TodoItem::from_str(&"test test test 1".to_string()).unwrap();
    list.add_todo(todo.clone()).unwrap();
    list.delete_todo(&todo).unwrap();

    assert_eq!(list.get_vec_of_todo().len(), 0);

    let todo2 = TodoItem::from_str(&"test test test 1".to_string()).unwrap();
    list.add_todo(todo2).unwrap();
    let result = list.delete_todo(&todo.clone()); // no exist.

    assert!(result.is_err());
}

#[test]
fn test_insert_todo() {
    let mut list = TodoList::new();

    let mut todo = TodoItem::from_str(&"test test test 1".to_string()).unwrap();
    list.add_todo(todo.clone()).unwrap();

    todo.estimate_count += 1;
    list.insert_todo(todo).unwrap();

    assert_eq!(list.get_vec_of_todo().len(), 1);
    assert_eq!(list.get_vec_of_todo()[0].estimate_count, 2);
}

#[test]
fn test_drain_finished_todo() {
    let mut list = TodoList::new();
    let status: [bool; 7] = [true, true, false, false, true, false, true];

    status.iter().enumerate().for_each(|(id, finish)| {
        list.add_todo(TodoItem {
            id: id.to_string(),
            title: "test2".to_string(),
            tag: "tag2".to_string(),
            project: "project2".to_string(),
            estimate_count: 0,
            executed_count: 0,
            detail: "none".to_string(),
            finished: *finish,
        })
        .unwrap();
    });
    assert_eq!(list.get_vec_of_todo().len(), 7);

    let list_drained = list.drain_finished_todo();
    assert_eq!(list_drained.len(), 4);
    assert_eq!(list.get_vec_of_todo().len(), 3);
}

#[test]
fn add_todo_with_taken_id_is_duplicate_id_and_changes_nothing() {
    let mut list = TodoList::new();
    list.add_todo(item("a", "first", false)).unwrap();
    list.add_todo(item("b", "second", false)).unwrap();
    let result = list.add_todo(item("a", "third", true));
    assert_eq!(result, Err(TodoError::DuplicateId));
    let todos = list.get_vec_of_todo();
    assert_eq!(todos.len(), 2);
    let kept = todos.iter().find(|t| t.id == "a").unwrap();
    assert_eq!(kept.title, "first");
    assert!(!kept.finished);
}

#[test]
fn delete_todo_of_unknown_id_is_not_found() {
    let mut list = TodoList::new();
    list.add_todo(item("a", "first", false)).unwrap();
    assert_eq!(list.delete_todo(&item("zz", "first", false)), Err(TodoError::NotFound));
    assert_eq!(list.get_vec_of_todo().len(), 1);
    assert_eq!(list.delete_todo(&item("a", "whatever", true)), Ok(()));
    assert_eq!(list.get_vec_of_todo().len(), 0);
}

#[test]
fn delete_todo_keeps_the_other_tasks() {
    let mut list = TodoList::new();
    for id in ["a", "b", "c", "d"] {
        list.add_todo(item(id, id, false)).unwrap();
    }
    list.delete_todo(&item("b", "", false)).unwrap();
    let mut ids: Vec<String> = list.get_vec_of_todo().into_iter().map(|t| t.id).collect();
    ids.sort();
    assert_eq!(ids, vec!["a".to_string(), "c".to_string(), "d".to_string()]);
}

#[test]
fn insert_todo_overwrites_or_adds() {
    let mut list = TodoList::new();
    assert_eq!(list.insert_todo(item("a", "first", false)), Ok(()));
    assert_eq!(list.insert_todo(item("b", "second", false)), Ok(()));
    assert_eq!(list.insert_todo(item("a", "changed", true)), Ok(()));
    let todos = list.get_vec_of_todo();
    assert_eq!(todos.len(), 2);
    let a = todos.iter().find(|t| t.id == "a").unwrap();
    assert_eq!(a.title, "changed");
    assert!(a.finished);
    let b = todos.iter().find(|t| t.id == "b").unwrap();
    assert_eq!(b.title, "second");
}

#[test]
fn drain_finished_todo_splits_by_the_finish_mark() {
    let mut list = TodoList::new();
    list.add_todo(item("a", "first", true)).unwrap();
    list.add_todo(item("b", "second", false)).unwrap();
    list.add_todo(item("c", "third", true)).unwrap();
    let mut drained: Vec<String> =
        list.drain_finished_todo().into_iter().map(|t| t.id).collect();
    drained.sort();
    assert_eq!(drained, vec!["a".to_string(), "c".to_string()]);
    let left: Vec<String> = list.get_vec_of_todo().into_iter().map(|t| t.id).collect();
    assert_eq!(left, vec!["b".to_string()]);
    assert_eq!(list.drain_finished_todo().len(), 0);
    assert_eq!(list.get_vec_of_todo().len(), 1);
}

#[test]
fn default_registry_is_empty() {
    let list = TodoList::default();
    assert_eq!(list.get_vec_of_todo().len(), 0);
}

#[test]
fn new_item_is_unfinished() {
    let item = TodoItem::new(
        "id".to_string(),
        "title".to_string(),
        "tag".to_string(),
        "project".to_string(),
        3,
        1,
        "detail".to_string(),
    );
    assert_eq!(item.id, "id");
    assert_eq!(item.title, "title");
    assert_eq!(item.tag, "tag");
    assert_eq!(item.project, "project");
    assert_eq!(item.estimate_count, 3);
    assert_eq!(item.executed_count, 1);
    assert!(!item.finished);
    assert_eq!(item.detail, "detail");
}

#[test]
fn parsing_four_fields_gives_a_fresh_unfinished_task() {
    let item = TodoItem::from_str("title tag project 3").unwrap();
    assert_eq!(item.title, "title");
    assert_eq!(item.tag, "tag");
    assert_eq!(item.project, "project");
    assert_eq!(item.estimate_count, 3);
    assert_eq!(item.executed_count, 0);
    assert!(!item.finished);
    assert_eq!(item.detail, "");
    assert_eq!(item.id.chars().count(), 10);
    assert!(item.id.chars().all(|c| c.is_ascii_lowercase()));
}

#[test]
fn parsing_three_or_five_fields_fails() {
    assert_eq!(TodoItem::from_str("title tag 3").unwrap_err(), TodoError::ParseError);
    assert_eq!(
        TodoItem::from_str("Buy milk groceries home 3").unwrap_err(),
        TodoError::ParseError
    );
    assert_eq!(TodoItem::from_str("").unwrap_err(), TodoError::ParseError);
    assert_eq!(TodoItem::from_str("title  tag project 3").unwrap_err(), TodoError::ParseError);
}

#[test]
fn parsing_needs_a_count_in_the_last_field() {
    assert_eq!(TodoItem::from_str("title tag project x").unwrap_err(), TodoError::ParseError);
    assert_eq!(TodoItem::from_str("title tag project -1").unwrap_err(), TodoError::ParseError);
    assert_eq!(TodoItem::from_str("title tag project ").unwrap_err(), TodoError::ParseError);
    assert_eq!(TodoItem::from_str("title tag project 1.5").unwrap_err(), TodoError::ParseError);
    assert_eq!(TodoItem::from_str("title tag project 0").unwrap().estimate_count, 0);
    assert_eq!(TodoItem::from_str("title tag project +7").unwrap().estimate_count, 7);
    assert_eq!(TodoItem::from_str(" tag project 2").unwrap().title, "");
}

#[test]
fn parse_with_id_keeps_the_id() {
    let item = TodoItem::parse_with_id("abc".to_string(), "write report work 4").unwrap();
    assert_eq!(item.id, "abc");
    assert_eq!(item.title, "write");
    assert_eq!(item.tag, "report");
    assert_eq!(item.project, "work");
    assert_eq!(item.estimate_count, 4);
    assert_eq!(
        TodoItem::parse_with_id("abc".to_string(), "write report").unwrap_err(),
        TodoError::ParseError
    );
}

#[test]
fn the_trait_parses_as_the_function_does() {
    let item: TodoItem = "title tag project 12".parse().unwrap();
    assert_eq!(item.estimate_count, 12);
    let refused: Result<TodoItem, TodoError> = "title".parse();
    assert_eq!(refused.unwrap_err(), TodoError::ParseError);
}

#[test]
fn generated_ids_are_ten_lower_case_letters() {
    for _ in 0..50 {
        let id = generate_id();
        assert_eq!(id.len(), 10);
        assert!(id.chars().all(|c| ('a'..='z').contains(&c)));
    }
}

#[test]
fn generated_ids_differ() {
    let ids: Vec<String> = (0..20).map(|_| generate_id()).collect();
    let first = &ids[0];
    assert!(ids.iter().any(|id| id != first));
}

#[test]
fn tasks_are_equal_by_title_tag_and_project() {
    let a = item("a", "same", false);
    let mut b = item("b", "same", true);
    b.estimate_count = 9;
    assert!(a == b);
    let c = item("a", "other", false);
    assert!(a != c);
    let mut d = item("a", "same", false);
    d.tag = "other".to_string();
    assert!(a != d);
    let mut e = item("a", "same", false);
    e.project = "other".to_string();
    assert!(a != e);
}

#[test]
fn clone_copies_every_field() {
    let mut a = item("a", "title", true);
    a.estimate_count = 5;
    a.executed_count = 2;
    a.detail = "detail".to_string();
    let b = a.clone();
    assert_eq!(b.id, "a");
    assert_eq!(b.title, "title");
    assert_eq!(b.tag, "tag");
    assert_eq!(b.project, "project");
    assert_eq!(b.estimate_count, 5);
    assert_eq!(b.executed_count, 2);
    assert!(b.finished);
    assert_eq!(b.detail, "detail");
}

#[test]
fn error_messages() {
    assert_eq!(TodoError::DuplicateId.message(), "id is duplicated.");
    assert_eq!(TodoError::NotFound.message(), "selected todo is not exist.");
    assert_eq!(TodoError::ParseError.message(), "Todo String Parse Error.");
}

fn keyed(id: &str, project: &str, tag: &str, title: &str) -> TodoItem {
    TodoItem::new(
        id.to_string(),
        title.to_string(),
        tag.to_string(),
        project.to_string(),
        1,
        0,
        String::new(),
    )
}

#[test]
fn tasks_are_ordered_by_project_then_tag_then_title() {
    let base = keyed("1", "home", "b", "m");
    assert_eq!(base.compare(&keyed("2", "home", "b", "m")), TextOrder::Same);
    assert_eq!(base.compare(&keyed("2", "office", "a", "a")), TextOrder::Before);
    assert_eq!(base.compare(&keyed("2", "garden", "z", "z")), TextOrder::After);
    assert_eq!(base.compare(&keyed("2", "home", "c", "a")), TextOrder::Before);
    assert_eq!(base.compare(&keyed("2", "home", "a", "z")), TextOrder::After);
    assert_eq!(base.compare(&keyed("2", "home", "b", "n")), TextOrder::Before);
    assert_eq!(base.compare(&keyed("2", "home", "b", "l")), TextOrder::After);

    assert_eq!(base.partial_cmp(&keyed("2", "home", "b", "m")), Some(Ordering::Equal));
    assert_eq!(base.partial_cmp(&keyed("2", "office", "a", "a")), Some(Ordering::Less));
    assert_eq!(base.partial_cmp(&keyed("2", "home", "a", "z")), Some(Ordering::Greater));
    assert!(base < keyed("2", "home", "b", "n"));
    assert!(base > keyed("2", "home", "b", "l"));
    assert!(base <= keyed("2", "home", "b", "m"));
    assert!(base >= keyed("2", "home", "b", "m"));
}

#[test]
fn tasks_with_equal_keys_and_different_ids_compare_equal() {
    let a = keyed("aaaaaaaaaa", "p", "t", "x");
    let mut b = keyed("zzzzzzzzzz", "p", "t", "x");
    b.executed_count = 9;
    b.finished = true;
    assert_eq!(a.partial_cmp(&b), Some(Ordering::Equal));
    assert_eq!(b.partial_cmp(&a), Some(Ordering::Equal));
    assert!(a == b);
}

#[test]
fn the_order_of_tasks_sorts_them() {
    let mut tasks = vec![
        keyed("1", "b", "a", "a"),
        keyed("2", "a", "b", "a"),
        keyed("3", "a", "a", "b"),
        keyed("4", "a", "a", "a"),
        keyed("5", "", "z", "z"),
    ];
    tasks.sort_by(|x, y| x.partial_cmp(y).unwrap());
    let ids: Vec<&str> = tasks.iter().map(|t| t.id.as_str()).collect();
    assert_eq!(ids, vec!["5", "4", "3", "2", "1"]);
}
