//! Task-tracking persistence core: filter/sort/pagination query construction,
//! input validation, a closed error taxonomy, and the store-operation
//! semantics, all with verified contracts. Transport wiring and the actual
//! store driver live outside this crate.

pub mod config;
pub mod errors;
pub mod handlers;
pub mod order;
pub mod query;
pub mod store;
pub mod task;

pub use config::Config;
pub use errors::{AppError, classify_rows_affected, classify_store_failure};
pub use handlers::{handle_create, handle_delete, handle_update, validate_title};
pub use query::{
    Param, SortColumn, SortOrder, Statement, build_delete_statement, build_get_statement,
    build_insert_statement, build_list_statement, build_update_statement, effective_column,
    effective_order, parse_sort_column, parse_sort_order, resolve_limit, resolve_offset,
};
pub use store::TaskStore;
pub use task::{NewTask, Task, TaskFilter, title_is_valid};
