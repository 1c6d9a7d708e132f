use taskflow::{
    build_delete_statement, build_get_statement, build_insert_statement, build_list_statement,
    build_update_statement, parse_sort_column, parse_sort_order, Param, SortColumn, SortOrder,
    TaskFilter,
};

fn filter(
    done: Option<bool>,
    page: Option<i64>,
    offset: Option<i64>,
    limit: Option<i64>,
    sort: Option<&str>,
    order: Option<&str>,
) -> TaskFilter {
    TaskFilter {
        done,
        page,
        offset,
        limit,
        sort: sort.map(|s| s.to_string()),
        order: order.map(|s| s.to_string()),
    }
}

#[test]
fn sort_column_allow_list() {
    assert_eq!(parse_sort_column("id"), SortColumn::Id);
    assert_eq!(parse_sort_column("title"), SortColumn::Title);
    assert_eq!(parse_sort_column("done"), SortColumn::Done);
}

#[test]
fn sort_column_fallback() {
    assert_eq!(parse_sort_column("name"), SortColumn::Id);
    assert_eq!(parse_sort_column(""), SortColumn::Id);
    assert_eq!(parse_sort_column("ID"), SortColumn::Id);
    assert_eq!(parse_sort_column("id; DROP TABLE tasks"), SortColumn::Id);
}

#[test]
fn sort_order_allow_list_and_fallback() {
    assert_eq!(parse_sort_order("asc"), SortOrder::Asc);
    assert_eq!(parse_sort_order("desc"), SortOrder::Desc);
    assert_eq!(parse_sort_order("descending"), SortOrder::Asc);
    assert_eq!(parse_sort_order("DESC"), SortOrder::Asc);
    assert_eq!(parse_sort_order(""), SortOrder::Asc);
}

#[test]
fn list_statement_full_filter() {
    let f = filter(Some(true), None, Some(0), Some(10), Some("title"), Some("desc"));
    let stmt = build_list_statement(&f);
    assert_eq!(
        stmt.text,
        "SELECT * FROM tasks WHERE done = $1 ORDER BY title desc, id LIMIT $2 OFFSET $3"
    );
    assert_eq!(stmt.params.len(), 3);
    assert!(matches!(stmt.params[0], Param::Bool(true)));
    assert!(matches!(stmt.params[1], Param::Int(10)));
    assert!(matches!(stmt.params[2], Param::Int(0)));
}

#[test]
fn list_statement_empty_filter() {
    let f = filter(None, None, None, None, None, None);
    let stmt = build_list_statement(&f);
    assert_eq!(stmt.text, "SELECT * FROM tasks OFFSET $1");
    assert_eq!(stmt.params.len(), 1);
    assert!(matches!(stmt.params[0], Param::Int(0)));
}

#[test]
fn list_statement_ignores_order_without_sort() {
    let f = filter(None, None, None, None, None, Some("desc"));
    let stmt = build_list_statement(&f);
    assert_eq!(stmt.text, "SELECT * FROM tasks OFFSET $1");
}

#[test]
fn list_statement_sort_without_order_is_ascending() {
    let f = filter(None, None, None, None, Some("done"), None);
    let stmt = build_list_statement(&f);
    assert_eq!(stmt.text, "SELECT * FROM tasks ORDER BY done asc, id OFFSET $1");
}

#[test]
fn list_statement_never_embeds_client_sort_text() {
    let f = filter(
        None,
        None,
        None,
        None,
        Some("title; DELETE FROM tasks"),
        Some("desc; --"),
    );
    let stmt = build_list_statement(&f);
    assert_eq!(stmt.text, "SELECT * FROM tasks ORDER BY id asc OFFSET $1");
    assert!(!stmt.text.contains("DELETE"));
    assert!(!stmt.text.contains("--"));
}

#[test]
fn list_statement_sort_by_id_has_no_tie_break() {
    let f = filter(None, None, None, None, Some("id"), Some("desc"));
    let stmt = build_list_statement(&f);
    assert_eq!(stmt.text, "SELECT * FROM tasks ORDER BY id desc OFFSET $1");
}

#[test]
fn list_statement_derives_offset_from_page() {
    let f = filter(None, Some(3), None, Some(10), None, None);
    let stmt = build_list_statement(&f);
    assert_eq!(stmt.text, "SELECT * FROM tasks LIMIT $1 OFFSET $2");
    assert!(matches!(stmt.params[0], Param::Int(10)));
    assert!(matches!(stmt.params[1], Param::Int(30)));
}

#[test]
fn list_statement_explicit_offset_wins_over_page() {
    let f = filter(None, Some(3), Some(7), Some(10), None, None);
    let stmt = build_list_statement(&f);
    assert!(matches!(stmt.params[1], Param::Int(7)));
}

#[test]
fn list_statement_normalizes_negative_pagination() {
    let f = filter(None, None, Some(-5), Some(-1), None, None);
    let stmt = build_list_statement(&f);
    assert!(matches!(stmt.params[0], Param::Int(0)));
    assert!(matches!(stmt.params[1], Param::Int(0)));
}

#[test]
fn list_statement_page_without_limit_gives_zero_offset() {
    let f = filter(None, Some(9), None, None, None, None);
    let stmt = build_list_statement(&f);
    assert_eq!(stmt.text, "SELECT * FROM tasks OFFSET $1");
    assert!(matches!(stmt.params[0], Param::Int(0)));
}

#[test]
fn get_statement_binds_id() {
    let stmt = build_get_statement(17);
    assert_eq!(stmt.text, "SELECT * FROM tasks WHERE id = $1");
    assert_eq!(stmt.params.len(), 1);
    assert!(matches!(stmt.params[0], Param::Int(17)));
}

#[test]
fn insert_statement_binds_title_and_done() {
    let stmt = build_insert_statement("Buy milk".to_string(), false);
    assert_eq!(
        stmt.text,
        "INSERT INTO tasks (title, done) VALUES ($1, $2) RETURNING *"
    );
    assert_eq!(stmt.params.len(), 2);
    assert!(matches!(stmt.params[0], Param::Text(ref t) if t.as_str() == "Buy milk"));
    assert!(matches!(stmt.params[1], Param::Bool(false)));
}

#[test]
fn update_statement_binds_all_three() {
    let stmt = build_update_statement(5, "New title".to_string(), true);
    assert_eq!(
        stmt.text,
        "UPDATE tasks SET title = $1, done = $2 WHERE id = $3 RETURNING *"
    );
    assert_eq!(stmt.params.len(), 3);
    assert!(matches!(stmt.params[0], Param::Text(ref t) if t.as_str() == "New title"));
    assert!(matches!(stmt.params[1], Param::Bool(true)));
    assert!(matches!(stmt.params[2], Param::Int(5)));
}

#[test]
fn delete_statement_binds_id() {
    let stmt = build_delete_statement(9);
    assert_eq!(stmt.text, "DELETE FROM tasks WHERE id = $1");
    assert_eq!(stmt.params.len(), 1);
    assert!(matches!(stmt.params[0], Param::Int(9)));
}
