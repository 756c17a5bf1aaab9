use pomorks::data_manage::{merge_archive, TaskDealing, TaskLogJson, TypeDataManager};
use pomorks::todo::TodoItem;

fn item(id: &str) -> TodoItem {
    TodoItem::new(
        id.to_string(),
        format!("title-{}", id),
        "tag".to_string(),
        "project".to_string(),
        1,
        0,
        String::new(),
    )
}

#[test]
fn stores_have_names() {
    assert_eq!(TypeDataManager::DataManageJson.name(), "Json");
    assert_eq!(TypeDataManager::DataManageFirebase.name(), "Firebase");
}

#[test]
fn stores_are_found_by_name() {
    assert_eq!(TypeDataManager::from_name("Json"), Some(TypeDataManager::DataManageJson));
    assert_eq!(TypeDataManager::from_name("Firebase"), Some(TypeDataManager::DataManageFirebase));
    assert_eq!(TypeDataManager::from_name("json"), None);
    assert_eq!(TypeDataManager::from_name(""), None);
    assert_eq!(TypeDataManager::from_name("Json "), None);
}

#[test]
fn stores_are_listed_with_their_places() {
    assert_eq!(
        TypeDataManager::get_all_type_name_and_index(),
        vec![(0, "Json".to_string()), (1, "Firebase".to_string())]
    );
}

#[test]
fn stores_are_found_by_place() {
    assert_eq!(TypeDataManager::from_index(0), Some(TypeDataManager::DataManageJson));
    assert_eq!(TypeDataManager::from_index(1), Some(TypeDataManager::DataManageFirebase));
    assert_eq!(TypeDataManager::from_index(2), None);
    assert_eq!(TypeDataManager::from_index(usize::MAX), None);
}

#[test]
fn stores_are_chosen_by_a_typed_place() {
    assert_eq!(TypeDataManager::select("0"), Some(TypeDataManager::DataManageJson));
    assert_eq!(TypeDataManager::select("1"), Some(TypeDataManager::DataManageFirebase));
    assert_eq!(TypeDataManager::select("+1"), Some(TypeDataManager::DataManageFirebase));
    assert_eq!(TypeDataManager::select("2"), None);
    assert_eq!(TypeDataManager::select(""), None);
    assert_eq!(TypeDataManager::select("Json"), None);
    assert_eq!(TypeDataManager::select("-1"), None);
}

#[test]
fn the_empty_record_of_a_timer() {
    let dealing = TaskDealing::empty();
    assert!(dealing.id.is_none());
    assert!(dealing.date.is_none());
    assert!(dealing.state.is_none());
}

#[test]
fn a_log_entry_is_copied_whole() {
    let log = TaskLogJson { id: "abc".to_string(), date: "2022/06/28 10:00:00+09:00".to_string() };
    let copy = log.clone();
    assert_eq!(copy.id, "abc");
    assert_eq!(copy.date, "2022/06/28 10:00:00+09:00");
}

#[test]
fn the_archive_loses_nothing() {
    let merged = merge_archive(vec![item("c"), item("d")], vec![item("a"), item("b")]);
    let ids: Vec<String> = merged.into_iter().map(|t| t.id).collect();
    assert_eq!(ids, vec!["c", "d", "a", "b"]);
    assert_eq!(merge_archive(vec![], vec![item("a")]).len(), 1);
    assert_eq!(merge_archive(vec![item("a")], vec![]).len(), 1);
    assert_eq!(merge_archive(vec![], vec![]).len(), 0);
}
