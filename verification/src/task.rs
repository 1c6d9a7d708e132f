//! The task entity, the create/update input payload, the read-query filter,
//! and the title-validation rule they share.

use vstd::prelude::*;
use vstd::string::StrSliceExecFns;

verus! {

/// Abstract value of a persisted task.
pub struct TaskView {
    pub id: int,
    pub title: Seq<char>,
    pub done: bool,
}

/// A persisted task: the store assigns `id` at creation and it never changes;
/// `title` and `done` are mutable through update.
#[derive(Debug)]
pub struct Task {
    pub id: i32,
    pub title: String,
    pub done: bool,
}

impl View for Task {
    type V = TaskView;

    open spec fn view(&self) -> TaskView {
        TaskView { id: self.id as int, title: self.title@, done: self.done }
    }
}

/// Abstract value of a create/update payload.
pub struct NewTaskView {
    pub title: Seq<char>,
    pub done: bool,
}

/// Input payload for create and update: a task without an id. A payload only
/// reaches the store once its title passes [`title_is_valid`].
#[derive(Debug)]
pub struct NewTask {
    pub title: String,
    pub done: bool,
}

impl View for NewTask {
    type V = NewTaskView;

    open spec fn view(&self) -> NewTaskView {
        NewTaskView { title: self.title@, done: self.done }
    }
}

/// Read-query parameters, all optional. `sort` and `order` are free-form
/// client strings and are only ever checked against an allow-list, never
/// emitted into statement text. Pagination is `offset` + `limit`; when only
/// `page` is given, the offset is derived as `page * limit`.
#[derive(Debug)]
pub struct TaskFilter {
    pub done: Option<bool>,
    pub page: Option<i64>,
    pub offset: Option<i64>,
    pub limit: Option<i64>,
    pub sort: Option<String>,
    pub order: Option<String>,
}

/// The whitespace characters that title validation ignores: the Unicode
/// `White_Space` set, the same characters `str::trim` removes — the ASCII
/// whitespace, next line, no-break space, ogham space mark, the en-quad
/// through hair-space range, line and paragraph separators, narrow no-break
/// space, medium mathematical space, and ideographic space.
pub open spec fn spec_is_space(c: char) -> bool {
    let u = c as u32;
    ||| u == 0x9
    ||| u == 0xa
    ||| u == 0xb
    ||| u == 0xc
    ||| u == 0xd
    ||| u == 0x20
    ||| u == 0x85
    ||| u == 0xa0
    ||| u == 0x1680
    ||| (0x2000 <= u && u <= 0x200a)
    ||| u == 0x2028
    ||| u == 0x2029
    ||| u == 0x202f
    ||| u == 0x205f
    ||| u == 0x3000
}

/// A title is valid when it is non-empty after trimming whitespace, that is,
/// when at least one of its characters is not whitespace.
pub open spec fn spec_title_valid(title: Seq<char>) -> bool {
    exists|i: int| 0 <= i < title.len() && !spec_is_space(title[i])
}

fn is_space_char(c: char) -> (r: bool)
    ensures
        r == spec_is_space(c),
{
    let u = c as u32;
    u == 0x9 || u == 0xa || u == 0xb || u == 0xc || u == 0xd || u == 0x20 || u == 0x85
        || u == 0xa0 || u == 0x1680 || (0x2000 <= u && u <= 0x200a) || u == 0x2028 || u == 0x2029
        || u == 0x202f || u == 0x205f || u == 0x3000
}

/// Decides the validation rule shared by create and update: the title must
/// contain at least one non-whitespace character.
pub fn title_is_valid(title: &str) -> (r: bool)
    ensures
        r == spec_title_valid(title@),
{
    let n = title.unicode_len();
    let mut i: usize = 0;
    while i < n
        invariant
            n == title@.len(),
            i <= n,
            forall|j: int| 0 <= j < i ==> spec_is_space(title@[j]),
        decreases n - i,
    {
        let c = title.get_char(i);
        if !is_space_char(c) {
            return true;
        }
        i += 1;
    }
    false
}

} // verus!
