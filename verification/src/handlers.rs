//! Request handling: the validation and decision layer between transport and
//! store. A title that is empty after trimming is rejected with
//! `InvalidInput` before any store access, leaving the store untouched; valid
//! requests are passed to the store operation, whose contract then governs
//! the outcome.

use vstd::prelude::*;

use crate::errors::AppError;
use crate::store::{
    TaskStore, spec_create_ok, spec_delete_ok, spec_has_id, spec_update_ok,
};
use crate::task::{NewTask, Task, spec_title_valid, title_is_valid};

verus! {

/// The pre-store validation shared by create and update: a title that is
/// empty after trimming whitespace is rejected with `InvalidInput`, before
/// any store access.
pub fn validate_title(title: &str) -> (r: Result<(), AppError>)
    ensures
        r is Ok <==> spec_title_valid(title@),
        r matches Err(e) ==> (e matches AppError::InvalidInput(m) && m@ == "Title is empty"@),
{
    if title_is_valid(title) {
        Ok(())
    } else {
        Err(AppError::InvalidInput(String::from_str("Title is empty")))
    }
}

/// Handles create: validates the title, then inserts. An invalid title is
/// `InvalidInput` and the store is left unchanged; otherwise the insert
/// succeeds (with the assigned id) unless the id space is exhausted.
pub fn handle_create(store: &mut TaskStore, input: NewTask) -> (r: Result<Task, AppError>)
    requires
        old(store)@.wf(),
    ensures
        final(store)@.wf(),
        !spec_title_valid(input@.title) ==> (r matches Err(e) && e matches AppError::InvalidInput(
            m,
        ) && m@ == "Title is empty"@ && final(store)@ == old(store)@),
        spec_title_valid(input@.title) ==> {
            &&& (r is Ok <==> old(store)@.next_id < i32::MAX)
            &&& (r matches Ok(created) ==> spec_create_ok(
                old(store)@,
                final(store)@,
                input@,
                created@,
            ))
            &&& (r matches Err(e) ==> e is DatabaseError && final(store)@ == old(store)@)
        },
{
    match validate_title(input.title.as_str()) {
        Err(e) => Err(e),
        Ok(_) => store.create_task(input),
    }
}

/// Handles update: validates the title, then updates the row with the given
/// id. An invalid title is `InvalidInput` and the store is left unchanged; an
/// absent id is `NotFound` and the store is left unchanged — an update never
/// creates a row.
pub fn handle_update(store: &mut TaskStore, id: i32, input: &NewTask) -> (r: Result<
    Task,
    AppError,
>)
    requires
        old(store)@.wf(),
    ensures
        final(store)@.wf(),
        !spec_title_valid(input@.title) ==> (r matches Err(e) && e matches AppError::InvalidInput(
            m,
        ) && m@ == "Title is empty"@ && final(store)@ == old(store)@),
        spec_title_valid(input@.title) ==> {
            &&& (r is Ok <==> spec_has_id(old(store)@.tasks, id as int))
            &&& (r matches Ok(updated) ==> spec_update_ok(
                old(store)@,
                final(store)@,
                id as int,
                input@,
                updated@,
            ))
            &&& (r matches Err(e) ==> e matches AppError::NotFound(m) && m@ == "Task not found"@
                && final(store)@ == old(store)@)
        },
{
    match validate_title(input.title.as_str()) {
        Err(e) => Err(e),
        Ok(_) => store.update_task(id, input),
    }
}

/// Handles delete: removes the row with the given id and reports the deleted
/// id, or `NotFound` — leaving the store unchanged — when no row carries it.
pub fn handle_delete(store: &mut TaskStore, id: i32) -> (r: Result<i32, AppError>)
    requires
        old(store)@.wf(),
    ensures
        final(store)@.wf(),
        r is Ok <==> spec_has_id(old(store)@.tasks, id as int),
        r matches Ok(deleted) ==> deleted == id && spec_delete_ok(
            old(store)@,
            final(store)@,
            id as int,
        ),
        r matches Err(e) ==> (e matches AppError::NotFound(m) && m@ == "Task not found"@
            && final(store)@ == old(store)@),
{
    match store.delete_task(id) {
        Ok(_) => Ok(id),
        Err(e) => Err(e),
    }
}

} // verus!
