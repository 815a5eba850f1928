use dojo::{get_timestamp, readable_datetime, Todo, TodoError, TodoOptions, TodoStore};

fn words(items: &[&str]) -> Vec<String> {
    items.iter().map(|s| s.to_string()).collect()
}

fn find(rows: &[Todo], id: i32) -> Option<Todo> {
    rows.iter().find(|t| t.id == id).cloned()
}

#[test]
fn tests_test_get_timestamp() {
    assert!(get_timestamp() > 0)
}

#[test]
fn tests_test_readable_datetime() {
    let timestamp = get_timestamp();
    assert!(readable_datetime(timestamp).is_ok())
}

#[test]
fn test_list_action() {
    let store = TodoStore::new();
    assert!(TodoOptions::todo_list(&store).is_ok());
}

#[test]
fn test_add_action() {
    let mut store = TodoStore::new();
    assert!(TodoOptions::add_todo(&mut store, &[String::from("test")], get_timestamp()).is_ok());
    let rows = store.list_all();
    let last_todo_from_db = rows.last().unwrap();
    assert_eq!(last_todo_from_db.message, "test");
}

#[test]
fn test_done_action() {
    let mut store = TodoStore::new();
    let id = store.insert(String::from("hello"), false, get_timestamp()).unwrap();
    TodoOptions::done_todo(&mut store, &[id.to_string()]).unwrap();
    let fetch = find(&store.list_all(), id).unwrap();
    assert_eq!(fetch.is_done, true);
}

#[test]
fn test_add_todo_empty_args_error() {
    let mut store = TodoStore::new();
    assert!(TodoOptions::add_todo(&mut store, &[], get_timestamp()).is_err());
}

#[test]
fn test_done_todo_empty_args_error() {
    let mut store = TodoStore::new();
    assert!(TodoOptions::done_todo(&mut store, &[]).is_err())
}

#[test]
fn test_delete_todo() {
    let mut store = TodoStore::new();
    let id = store.insert(String::from("hello"), false, get_timestamp()).unwrap();
    TodoOptions::delete_todo(&mut store, &[id.to_string()]).unwrap();
    let fetch = find(&store.list_all(), id);
    assert!(fetch.is_none())
}

#[test]
fn test_delete_todo_empty_args_error() {
    let mut store = TodoStore::new();
    assert!(TodoOptions::delete_todo(&mut store, &[]).is_err())
}

#[test]
fn add_joins_and_trims_words() {
    let mut store = TodoStore::new();
    let r = TodoOptions::add_todo(&mut store, &words(&["  call", "the", "bank  "]), 1_700_000_000);
    assert!(r.is_ok());
    let rows = store.list_all();
    assert_eq!(rows.len(), 1);
    assert_eq!(rows[0].id, 1);
    assert_eq!(rows[0].message, "call the bank");
    assert_eq!(rows[0].is_done, false);
    assert_eq!(rows[0].created_at, 1_700_000_000);
}

#[test]
fn add_without_words_is_invalid_and_adds_nothing() {
    let mut store = TodoStore::new();
    TodoOptions::add_todo(&mut store, &words(&["first"]), 5).unwrap();
    let r = TodoOptions::add_todo(&mut store, &[], 6);
    assert_eq!(r, Err(TodoError::InvalidArgument));
    assert_eq!(store.list_all().len(), 1);
}

#[test]
fn done_on_existing_id_changes_only_the_flag() {
    let mut store = TodoStore::new();
    TodoOptions::add_todo(&mut store, &words(&["one"]), 10).unwrap();
    TodoOptions::add_todo(&mut store, &words(&["two"]), 20).unwrap();
    let skipped = TodoOptions::done_todo(&mut store, &words(&["2"])).unwrap();
    assert!(skipped.is_empty());
    let rows = store.list_all();
    assert_eq!(rows.len(), 2);
    assert_eq!((rows[0].id, rows[0].message.as_str(), rows[0].is_done, rows[0].created_at), (1, "one", false, 10));
    assert_eq!((rows[1].id, rows[1].message.as_str(), rows[1].is_done, rows[1].created_at), (2, "two", true, 20));
}

#[test]
fn done_on_unknown_id_succeeds_and_changes_nothing() {
    let mut store = TodoStore::new();
    TodoOptions::add_todo(&mut store, &words(&["one"]), 10).unwrap();
    let skipped = TodoOptions::done_todo(&mut store, &words(&["42"])).unwrap();
    assert!(skipped.is_empty());
    let rows = store.list_all();
    assert_eq!(rows.len(), 1);
    assert_eq!(rows[0].is_done, false);
}

#[test]
fn done_on_non_integer_succeeds_and_skips_it() {
    let mut store = TodoStore::new();
    TodoOptions::add_todo(&mut store, &words(&["one"]), 10).unwrap();
    let skipped = TodoOptions::done_todo(&mut store, &words(&["abc"])).unwrap();
    assert_eq!(skipped, words(&["abc"]));
    let rows = store.list_all();
    assert_eq!(rows.len(), 1);
    assert_eq!(rows[0].is_done, false);
}

#[test]
fn done_batch_goes_on_past_bad_ids() {
    let mut store = TodoStore::new();
    for w in ["a", "b", "c"] {
        TodoOptions::add_todo(&mut store, &words(&[w]), 1).unwrap();
    }
    let skipped = TodoOptions::done_todo(&mut store, &words(&["x", "3", "1.5", "+1"])).unwrap();
    assert_eq!(skipped, words(&["x", "1.5"]));
    let flags: Vec<bool> = store.list_all().iter().map(|t| t.is_done).collect();
    assert_eq!(flags, vec![true, false, true]);
}

#[test]
fn delete_removes_and_repeats_without_error() {
    let mut store = TodoStore::new();
    TodoOptions::add_todo(&mut store, &words(&["one"]), 10).unwrap();
    TodoOptions::add_todo(&mut store, &words(&["two"]), 20).unwrap();
    assert!(TodoOptions::delete_todo(&mut store, &words(&["1"])).is_ok());
    let ids: Vec<i32> = store.list_all().iter().map(|t| t.id).collect();
    assert_eq!(ids, vec![2]);
    assert!(TodoOptions::delete_todo(&mut store, &words(&["1"])).is_ok());
    let ids: Vec<i32> = store.list_all().iter().map(|t| t.id).collect();
    assert_eq!(ids, vec![2]);
}

#[test]
fn ids_are_not_reused_after_delete() {
    let mut store = TodoStore::new();
    TodoOptions::add_todo(&mut store, &words(&["one"]), 10).unwrap();
    TodoOptions::delete_todo(&mut store, &words(&["1"])).unwrap();
    TodoOptions::add_todo(&mut store, &words(&["two"]), 20).unwrap();
    let rows = store.list_all();
    assert_eq!(rows.len(), 1);
    assert_eq!(rows[0].id, 2);
}

#[test]
fn round_trip_buy_milk() {
    let mut store = TodoStore::new();
    TodoOptions::add_todo(&mut store, &words(&["buy", "milk"]), get_timestamp()).unwrap();
    let rows = TodoOptions::todo_list(&store).unwrap();
    assert!(rows.iter().any(|t| t.message == "buy milk"));
}

#[test]
fn whole_life_of_one_task() {
    let mut store = TodoStore::new();
    assert!(TodoOptions::todo_list(&store).unwrap().is_empty());
    TodoOptions::add_todo(&mut store, &words(&["a"]), 100).unwrap();
    let rows = TodoOptions::todo_list(&store).unwrap();
    assert_eq!(rows.len(), 1);
    assert_eq!(rows[0].id, 1);
    assert_eq!(rows[0].is_done, false);
    TodoOptions::done_todo(&mut store, &words(&["1"])).unwrap();
    let rows = TodoOptions::todo_list(&store).unwrap();
    assert_eq!(rows.len(), 1);
    assert_eq!(rows[0].is_done, true);
    TodoOptions::delete_todo(&mut store, &words(&["1"])).unwrap();
    let rows = TodoOptions::todo_list(&store).unwrap();
    assert!(rows.is_empty());
}

#[test]
fn readable_datetime_of_far_future_is_rejected() {
    assert_eq!(readable_datetime(u64::MAX), Err(TodoError::InvalidTimestamp));
    assert_eq!(readable_datetime(253402214401), Err(TodoError::InvalidTimestamp));
    assert!(readable_datetime(253402214400).is_ok());
    assert!(readable_datetime(0).is_ok());
}

#[test]
fn readable_datetime_names_the_year() {
    let text = readable_datetime(1_000_000_000).unwrap();
    assert!(text.contains("2001"));
}

#[test]
fn add_of_blank_words_is_invalid_and_adds_nothing() {
    let mut store = TodoStore::new();
    assert_eq!(TodoOptions::add_todo(&mut store, &words(&["  "]), 1), Err(TodoError::InvalidArgument));
    assert_eq!(TodoOptions::add_todo(&mut store, &words(&["", "\t"]), 1), Err(TodoError::InvalidArgument));
    assert!(store.list_all().is_empty());
    assert!(matches!(TodoOptions::new_todo(&words(&[" "]), 1), Err(TodoError::InvalidArgument)));
}

#[test]
fn timestamp_or_zero_reads_before_epoch_as_zero() {
    assert_eq!(dojo::timestamp_or_zero(None), 0);
    assert_eq!(dojo::timestamp_or_zero(Some(1_700_000_000)), 1_700_000_000);
}

#[test]
fn readable_datetime_is_never_empty() {
    assert!(!readable_datetime(0).unwrap().is_empty());
}
