use taskflow::{handle_create, NewTask, TaskFilter, TaskStore};

fn seed(store: &mut TaskStore, entries: &[(&str, bool)]) {
    for (title, done) in entries {
        handle_create(store, NewTask { title: title.to_string(), done: *done }).unwrap();
    }
}

fn filter(
    done: Option<bool>,
    offset: Option<i64>,
    limit: Option<i64>,
    sort: Option<&str>,
    order: Option<&str>,
) -> TaskFilter {
    TaskFilter {
        done,
        page: None,
        offset,
        limit,
        sort: sort.map(|s| s.to_string()),
        order: order.map(|s| s.to_string()),
    }
}

#[test]
fn list_without_filter_returns_all_in_store_order() {
    let mut store = TaskStore::new();
    seed(&mut store, &[("a", false), ("b", true), ("c", false)]);
    let tasks = store.list_tasks(&filter(None, None, None, None, None));
    let titles: Vec<&str> = tasks.iter().map(|t| t.title.as_str()).collect();
    assert_eq!(titles, vec!["a", "b", "c"]);
}

#[test]
fn list_done_filter_sort_title_desc_with_limit() {
    let mut store = TaskStore::new();
    seed(
        &mut store,
        &[
            ("pear", true),
            ("apple", false),
            ("quince", true),
            ("banana", true),
            ("fig", false),
        ],
    );
    let tasks = store.list_tasks(&filter(Some(true), Some(0), Some(10), Some("title"), Some("desc")));
    assert!(tasks.len() <= 10);
    assert!(tasks.iter().all(|t| t.done));
    let titles: Vec<&str> = tasks.iter().map(|t| t.title.as_str()).collect();
    assert_eq!(titles, vec!["quince", "pear", "banana"]);
}

#[test]
fn list_limit_bounds_result_count() {
    let mut store = TaskStore::new();
    seed(&mut store, &[("a", true), ("b", true), ("c", true), ("d", true)]);
    let tasks = store.list_tasks(&filter(Some(true), Some(0), Some(2), Some("title"), None));
    assert_eq!(tasks.len(), 2);
    let titles: Vec<&str> = tasks.iter().map(|t| t.title.as_str()).collect();
    assert_eq!(titles, vec!["a", "b"]);
}

#[test]
fn list_offset_skips_leading_rows() {
    let mut store = TaskStore::new();
    seed(&mut store, &[("a", false), ("b", false), ("c", false)]);
    let tasks = store.list_tasks(&filter(None, Some(1), Some(10), Some("title"), Some("asc")));
    let titles: Vec<&str> = tasks.iter().map(|t| t.title.as_str()).collect();
    assert_eq!(titles, vec!["b", "c"]);
}

#[test]
fn list_offset_past_end_is_empty() {
    let mut store = TaskStore::new();
    seed(&mut store, &[("a", false)]);
    let tasks = store.list_tasks(&filter(None, Some(5), None, None, None));
    assert!(tasks.is_empty());
}

#[test]
fn list_page_parameter_derives_offset() {
    let mut store = TaskStore::new();
    seed(&mut store, &[("a", false), ("b", false), ("c", false), ("d", false)]);
    let f = TaskFilter {
        done: None,
        page: Some(1),
        offset: None,
        limit: Some(2),
        sort: Some("title".to_string()),
        order: None,
    };
    let tasks = store.list_tasks(&f);
    let titles: Vec<&str> = tasks.iter().map(|t| t.title.as_str()).collect();
    assert_eq!(titles, vec!["c", "d"]);
}

#[test]
fn list_sort_by_id_desc() {
    let mut store = TaskStore::new();
    seed(&mut store, &[("first", false), ("second", false), ("third", false)]);
    let tasks = store.list_tasks(&filter(None, None, None, Some("id"), Some("desc")));
    let titles: Vec<&str> = tasks.iter().map(|t| t.title.as_str()).collect();
    assert_eq!(titles, vec!["third", "second", "first"]);
}

#[test]
fn list_sort_by_done_groups_pending_first() {
    let mut store = TaskStore::new();
    seed(&mut store, &[("x", true), ("y", false), ("z", true)]);
    let tasks = store.list_tasks(&filter(None, None, None, Some("done"), Some("asc")));
    let done_flags: Vec<bool> = tasks.iter().map(|t| t.done).collect();
    assert_eq!(done_flags, vec![false, true, true]);
}

#[test]
fn list_unknown_sort_falls_back_to_id_order() {
    let mut store = TaskStore::new();
    seed(&mut store, &[("b", false), ("a", false)]);
    let tasks = store.list_tasks(&filter(None, None, None, Some("priority"), None));
    let titles: Vec<&str> = tasks.iter().map(|t| t.title.as_str()).collect();
    assert_eq!(titles, vec!["b", "a"]);
}

#[test]
fn list_unknown_order_falls_back_to_ascending() {
    let mut store = TaskStore::new();
    seed(&mut store, &[("b", false), ("a", false)]);
    let tasks = store.list_tasks(&filter(None, None, None, Some("title"), Some("sideways")));
    let titles: Vec<&str> = tasks.iter().map(|t| t.title.as_str()).collect();
    assert_eq!(titles, vec!["a", "b"]);
}

#[test]
fn list_equal_sort_keys_break_ties_by_id() {
    let mut store = TaskStore::new();
    seed(&mut store, &[("same", false), ("same", false), ("same", false)]);
    let tasks = store.list_tasks(&filter(None, None, None, Some("title"), Some("desc")));
    let ids: Vec<i32> = tasks.iter().map(|t| t.id).collect();
    assert_eq!(ids, vec![1, 2, 3]);
}

#[test]
fn list_zero_limit_is_empty() {
    let mut store = TaskStore::new();
    seed(&mut store, &[("a", false)]);
    let tasks = store.list_tasks(&filter(None, None, Some(0), None, None));
    assert!(tasks.is_empty());
}
