//! The persistence semantics of the service, as a verified model: one task
//! table whose rows carry a store-assigned unique id, a validated title, and
//! a done flag. Each operation's contract states exactly when it succeeds,
//! what the result is, and how the table changes — in particular that a point
//! lookup, update, or delete of an absent id reports `NotFound` and changes
//! nothing.

use vstd::prelude::*;
use vstd::pervasive::VecAdditionalExecFns;
use vstd::relations::sorted_by;

use crate::errors::AppError;
use crate::order::{
    lemma_task_le_antisym_ids, lemma_task_le_connected, lemma_task_le_trans, spec_task_le,
    spec_task_le_fn, task_le,
};
use crate::query::{
    SortColumn, SortOrder, effective_column, effective_order, resolve_limit, resolve_offset,
    spec_effective_limit, spec_effective_offset, spec_list_sort,
};
use crate::task::{NewTask, NewTaskView, Task, TaskFilter, TaskView, spec_title_valid};

verus! {

/// The abstract values of a row sequence.
pub open spec fn task_views(s: Seq<Task>) -> Seq<TaskView> {
    s.map_values(|t: Task| t@)
}

/// Abstract state of the store: the rows in natural (insertion) order and
/// the next id to assign.
pub struct StoreView {
    pub tasks: Seq<TaskView>,
    pub next_id: int,
}

/// Whether some row carries the given id.
pub open spec fn spec_has_id(tasks: Seq<TaskView>, id: int) -> bool {
    exists|i: int| 0 <= i < tasks.len() && tasks[i].id == id
}

impl StoreView {
    /// Store well-formedness: ids are assigned from 1 upward, are unique,
    /// stay below the next id to assign, and every stored title is valid.
    pub open spec fn wf(self) -> bool {
        &&& 1 <= self.next_id <= i32::MAX
        &&& forall|i: int|
            0 <= i < self.tasks.len() ==> 1 <= #[trigger] self.tasks[i].id < self.next_id
        &&& forall|i: int, j: int|
            0 <= i < j < self.tasks.len() ==> #[trigger] self.tasks[i].id != #[trigger] self.tasks[j].id
        &&& forall|i: int|
            0 <= i < self.tasks.len() ==> spec_title_valid(#[trigger] self.tasks[i].title)
    }
}

/// What a successful create did: the new row carries the submitted title and
/// done flag plus the assigned id (the previous next id), it is appended to
/// the table, and the next id advances by one.
pub open spec fn spec_create_ok(
    pre: StoreView,
    post: StoreView,
    input: NewTaskView,
    created: TaskView,
) -> bool {
    &&& created.id == pre.next_id
    &&& created.title == input.title
    &&& created.done == input.done
    &&& post.tasks == pre.tasks.push(created)
    &&& post.next_id == pre.next_id + 1
}

/// What a successful point lookup returned: a row of the store carrying the
/// requested id.
pub open spec fn spec_get_ok(store: StoreView, id: int, got: TaskView) -> bool {
    &&& store.tasks.contains(got)
    &&& got.id == id
}

/// What a successful update did: the row with the requested id — and only
/// that row — now carries the submitted title and done flag; the returned
/// task is that updated row; no row was created or removed.
pub open spec fn spec_update_ok(
    pre: StoreView,
    post: StoreView,
    id: int,
    input: NewTaskView,
    updated: TaskView,
) -> bool {
    &&& updated.id == id
    &&& updated.title == input.title
    &&& updated.done == input.done
    &&& exists|i: int|
        0 <= i < pre.tasks.len() && #[trigger] pre.tasks[i].id == id && post.tasks
            == pre.tasks.update(i, updated)
    &&& post.next_id == pre.next_id
}

/// What a successful delete did: exactly the row with the requested id was
/// removed; everything else is unchanged.
pub open spec fn spec_delete_ok(pre: StoreView, post: StoreView, id: int) -> bool {
    &&& exists|i: int|
        0 <= i < pre.tasks.len() && #[trigger] pre.tasks[i].id == id && post.tasks
            == pre.tasks.remove(i)
    &&& post.next_id == pre.next_id
}

/// In-memory model of the task table. It realizes the persistence contract —
/// the same statement-level semantics the built statements of
/// [`crate::query`] request from a relational store.
pub struct TaskStore {
    tasks: Vec<Task>,
    next_id: i32,
}

impl View for TaskStore {
    type V = StoreView;

    closed spec fn view(&self) -> StoreView {
        StoreView { tasks: task_views(self.tasks@), next_id: self.next_id as int }
    }
}

fn copy_task(t: &Task) -> (r: Task)
    ensures
        r@ == t@,
{
    Task { id: t.id, title: t.title.clone(), done: t.done }
}

impl TaskStore {
    /// An empty store; ids will be assigned from 1.
    pub fn new() -> (s: TaskStore)
        ensures
            s@.wf(),
            s@.tasks == Seq::<TaskView>::empty(),
            s@.next_id == 1,
    {
        let s = TaskStore { tasks: Vec::new(), next_id: 1 };
        proof {
            assert(s@.tasks =~= Seq::<TaskView>::empty());
        }
        s
    }

    /// Inserts a new row. Succeeds unless the id space is exhausted, in
    /// which case it reports `DatabaseError` and changes nothing. The caller
    /// must have validated the title already.
    pub fn create_task(&mut self, input: NewTask) -> (r: Result<Task, AppError>)
        requires
            old(self)@.wf(),
            spec_title_valid(input@.title),
        ensures
            final(self)@.wf(),
            r is Ok <==> old(self)@.next_id < i32::MAX,
            r matches Ok(created) ==> spec_create_ok(old(self)@, final(self)@, input@, created@),
            r matches Err(e) ==> (e matches AppError::DatabaseError(m) && m@
                == "task id space exhausted"@ && final(self)@ == old(self)@),
    {
        if self.next_id == i32::MAX {
            return Err(AppError::DatabaseError(String::from_str("task id space exhausted")));
        }
        let id = self.next_id;
        let stored = Task { id, title: input.title.clone(), done: input.done };
        let created = Task { id, title: input.title, done: input.done };
        self.tasks.push(stored);
        self.next_id = id + 1;
        proof {
            assert(self@.tasks =~= old(self)@.tasks.push(created@));
        }
        Ok(created)
    }

    /// Point lookup by id: returns the row carrying the id, or `NotFound`
    /// exactly when no row carries it.
    pub fn get_task(&self, id: i32) -> (r: Result<Task, AppError>)
        ensures
            r is Ok <==> spec_has_id(self@.tasks, id as int),
            r matches Ok(got) ==> spec_get_ok(self@, id as int, got@),
            r matches Err(e) ==> (e matches AppError::NotFound(m) && m@ == "Task not found"@),
    {
        let n = self.tasks.len();
        let mut i: usize = 0;
        while i < n
            invariant
                n == self.tasks.len(),
                i <= n,
                forall|j: int| 0 <= j < i ==> self@.tasks[j].id != id as int,
            decreases n - i,
        {
            if self.tasks[i].id == id {
                let got = copy_task(&self.tasks[i]);
                proof {
                    assert(self@.tasks[i as int] == got@);
                }
                return Ok(got);
            }
            i += 1;
        }
        Err(AppError::NotFound(String::from_str("Task not found")))
    }

    /// Updates the title and done flag of the row with the given id and
    /// returns the updated row. Reports `NotFound`, and changes nothing,
    /// exactly when no row carries the id: an update never creates a row.
    /// The caller must have validated the title already.
    pub fn update_task(&mut self, id: i32, input: &NewTask) -> (r: Result<Task, AppError>)
        requires
            old(self)@.wf(),
            spec_title_valid(input@.title),
        ensures
            final(self)@.wf(),
            final(self)@.tasks.len() == old(self)@.tasks.len(),
            r is Ok <==> spec_has_id(old(self)@.tasks, id as int),
            r matches Ok(updated) ==> spec_update_ok(
                old(self)@,
                final(self)@,
                id as int,
                input@,
                updated@,
            ),
            r matches Err(e) ==> (e matches AppError::NotFound(m) && m@ == "Task not found"@
                && final(self)@ == old(self)@),
    {
        let n = self.tasks.len();
        let mut i: usize = 0;
        while i < n
            invariant
                n == self.tasks.len(),
                i <= n,
                *self == *old(self),
                old(self)@.wf(),
                spec_title_valid(input@.title),
                forall|j: int| 0 <= j < i ==> self@.tasks[j].id != id as int,
            decreases n - i,
        {
            if self.tasks[i].id == id {
                let stored = Task { id, title: input.title.clone(), done: input.done };
                let updated = Task { id, title: input.title.clone(), done: input.done };
                self.tasks.set(i, stored);
                proof {
                    assert(self@.tasks =~= old(self)@.tasks.update(i as int, updated@));
                    assert(old(self)@.tasks[i as int].id == id as int);
                    assert forall|j: int| 0 <= j < self@.tasks.len() implies self@.tasks[j]
                        == (if j == i { updated@ } else { old(self)@.tasks[j] }) by {}
                }
                return Ok(updated);
            }
            i += 1;
        }
        Err(AppError::NotFound(String::from_str("Task not found")))
    }

    /// Removes the row with the given id. Reports `NotFound`, and changes
    /// nothing, exactly when no row carries the id — so a caller can tell
    /// "gone now" from "already gone".
    pub fn delete_task(&mut self, id: i32) -> (r: Result<(), AppError>)
        requires
            old(self)@.wf(),
        ensures
            final(self)@.wf(),
            r is Ok <==> spec_has_id(old(self)@.tasks, id as int),
            r is Ok ==> spec_delete_ok(old(self)@, final(self)@, id as int),
            r is Ok ==> !spec_has_id(final(self)@.tasks, id as int),
            r matches Err(e) ==> (e matches AppError::NotFound(m) && m@ == "Task not found"@
                && final(self)@ == old(self)@),
    {
        let n = self.tasks.len();
        let mut i: usize = 0;
        while i < n
            invariant
                n == self.tasks.len(),
                i <= n,
                *self == *old(self),
                old(self)@.wf(),
                forall|j: int| 0 <= j < i ==> self@.tasks[j].id != id as int,
            decreases n - i,
        {
            if self.tasks[i].id == id {
                self.tasks.remove(i);
                proof {
                    assert(self@.tasks =~= old(self)@.tasks.remove(i as int));
                    assert(old(self)@.tasks[i as int].id == id as int);
                    assert forall|j: int| 0 <= j < self@.tasks.len() implies self@.tasks[j]
                        == (if j < i { old(self)@.tasks[j] } else { old(self)@.tasks[j + 1] }) by {}
                    assert forall|p: int, q: int|
                        0 <= p < q < self@.tasks.len() implies self@.tasks[p].id
                        != self@.tasks[q].id by {
                        let po: int = if p < i { p } else { p + 1 };
                        let qo: int = if q < i { q } else { q + 1 };
                        assert(old(self)@.tasks[po].id != old(self)@.tasks[qo].id);
                    }
                    lemma_delete_removes_id(old(self)@, self@, id as int);
                }
                return Ok(());
            }
            i += 1;
        }
        Err(AppError::NotFound(String::from_str("Task not found")))
    }

    /// Lists tasks under a filter: rows failing the `done` filter are
    /// dropped, a requested sort orders what remains (store order otherwise),
    /// and the requested page is cut out. Listing never fails: anomalous
    /// filter values are normalized, not rejected.
    pub fn list_tasks(&self, f: &TaskFilter) -> (r: Vec<Task>)
        ensures
            spec_list_ok(self@, *f, task_views(r@)),
    {
        let n = self.tasks.len();
        let mut rows: Vec<Task> = Vec::new();
        proof {
            assert(task_views(rows@) =~= Seq::<TaskView>::empty());
            assert(self@.tasks.take(0) =~= Seq::<TaskView>::empty());
        }
        let mut i: usize = 0;
        while i < n
            invariant
                n == self.tasks.len(),
                i <= n,
                task_views(rows@) == spec_filter_done(self@.tasks.take(i as int), f.done),
            decreases n - i,
        {
            let keep = match f.done {
                Some(d) => self.tasks[i].done == d,
                None => true,
            };
            proof {
                assert(self@.tasks.take(i as int + 1).drop_last() =~= self@.tasks.take(i as int));
                assert(self@.tasks.take(i as int + 1).last() == self@.tasks[i as int]);
            }
            if keep {
                let ghost prev = task_views(rows@);
                rows.push(copy_task(&self.tasks[i]));
                proof {
                    assert(task_views(rows@) =~= prev.push(self@.tasks[i as int]));
                }
            }
            i += 1;
        }
        proof {
            assert(self@.tasks.take(n as int) =~= self@.tasks);
        }
        let ghost filtered = spec_filter_done(self@.tasks, f.done);

        let offset = resolve_offset(f);
        let limit = resolve_limit(f);
        if f.sort.is_some() {
            let col = effective_column(&f.sort);
            let dir = effective_order(&f.order);
            let sorted = sort_tasks(rows, col, dir);
            let ghost sorted_views = task_views(sorted@);
            let out = page_tasks(sorted, offset, limit);
            proof {
                assert(sorted_views.to_multiset() == filtered.to_multiset());
                assert(spec_list_ok(self@, *f, task_views(out@)));
            }
            out
        } else {
            let out = page_tasks(rows, offset, limit);
            out
        }
    }
}

/// The rows that pass the done filter, in their original order.
pub open spec fn spec_filter_done(tasks: Seq<TaskView>, done: Option<bool>) -> Seq<TaskView>
    decreases tasks.len(),
{
    match done {
        None => tasks,
        Some(d) => if tasks.len() == 0 {
            tasks
        } else {
            let rest = spec_filter_done(tasks.drop_last(), done);
            if tasks.last().done == d {
                rest.push(tasks.last())
            } else {
                rest
            }
        },
    }
}

/// The requested page of a row sequence: skip `offset` rows, then take at
/// most `limit` rows (all remaining rows when no limit was given).
pub open spec fn spec_page(rows: Seq<TaskView>, offset: int, limit: Option<i64>) -> Seq<TaskView>
    recommends
        offset >= 0,
        limit matches Some(l) ==> l >= 0,
{
    let start: int = if offset > rows.len() {
        rows.len() as int
    } else {
        offset
    };
    let end: int = match limit {
        Some(l) => if start + l > rows.len() {
            rows.len() as int
        } else {
            start + l
        },
        None => rows.len() as int,
    };
    rows.subrange(start, end)
}

/// What a listing returned: the done-filtered rows — ordered by the validated
/// sort when one was requested, in store order otherwise — with the requested
/// page cut out. The listing order is connected and transitive, so the sorted
/// sequence is unique up to ties, which the id tie-break then also removes.
pub open spec fn spec_list_ok(store: StoreView, f: TaskFilter, out: Seq<TaskView>) -> bool {
    let filtered = spec_filter_done(store.tasks, f.done);
    let offset = spec_effective_offset(f) as int;
    let limit = spec_effective_limit(f);
    match spec_list_sort(f) {
        None => out == spec_page(filtered, offset, limit),
        Some((col, dir)) => exists|sorted: Seq<TaskView>|
            {
                &&& #[trigger] sorted.to_multiset() == filtered.to_multiset()
                &&& sorted_by(sorted, spec_task_le_fn(col, dir))
                &&& out == spec_page(sorted, offset, limit)
            },
    }
}

/// Inserts a task into a vector kept in listing order, preserving order and
/// adding exactly that task.
fn sorted_insert(out: &mut Vec<Task>, col: SortColumn, dir: SortOrder, t: Task)
    requires
        sorted_by(task_views(old(out)@), spec_task_le_fn(col, dir)),
    ensures
        sorted_by(task_views(final(out)@), spec_task_le_fn(col, dir)),
        task_views(final(out)@).to_multiset() == task_views(old(out)@).to_multiset().insert(t@),
{
    broadcast use vstd::seq_lib::group_to_multiset_ensures;

    let n = out.len();
    let mut p: usize = 0;
    while p < n && task_le(col, dir, &out[p], &t)
        invariant
            n == out.len(),
            *out == *old(out),
            p <= n,
            forall|q: int| 0 <= q < p ==> spec_task_le(col, dir, task_views(out@)[q], t@),
        decreases n - p,
    {
        p += 1;
    }
    let ghost pre = task_views(out@);
    proof {
        if p < n {
            lemma_task_le_connected(col, dir, pre[p as int], t@);
        }
    }
    out.insert(p, t);
    proof {
        assert(task_views(out@) =~= pre.insert(p as int, t@));
        let le = spec_task_le_fn(col, dir);
        let post = task_views(out@);
        assert forall|q1: int, q2: int| 0 <= q1 < q2 < post.len() implies #[trigger] le(
            post[q1],
            post[q2],
        ) by {
            let p0: int = p as int;
            if q2 < p0 {
                assert(le(pre[q1], pre[q2]));
            } else if q1 < p0 && q2 == p0 {
                assert(le(pre[q1], t@));
            } else if q1 < p0 && q2 > p0 {
                assert(le(pre[q1], pre[q2 - 1]));
            } else if q1 == p0 {
                assert(le(t@, pre[p0]));
                if q2 - 1 > p0 {
                    assert(le(pre[p0], pre[q2 - 1]));
                    lemma_task_le_trans(col, dir, t@, pre[p0], pre[q2 - 1]);
                }
            } else {
                assert(le(pre[q1 - 1], pre[q2 - 1]));
            }
        }
    }
}

/// Sorts rows by the listing order: the result is a permutation of the input
/// that is sorted by the selected column and direction.
fn sort_tasks(input: Vec<Task>, col: SortColumn, dir: SortOrder) -> (out: Vec<Task>)
    ensures
        task_views(out@).to_multiset() == task_views(input@).to_multiset(),
        sorted_by(task_views(out@), spec_task_le_fn(col, dir)),
{
    broadcast use vstd::seq_lib::group_to_multiset_ensures;

    let n = input.len();
    let mut out: Vec<Task> = Vec::new();
    proof {
        assert(task_views(out@) =~= Seq::<TaskView>::empty());
        assert(task_views(input@.take(0)) =~= Seq::<TaskView>::empty());
    }
    let mut i: usize = 0;
    while i < n
        invariant
            n == input.len(),
            i <= n,
            task_views(out@).to_multiset() == task_views(input@.take(i as int)).to_multiset(),
            sorted_by(task_views(out@), spec_task_le_fn(col, dir)),
        decreases n - i,
    {
        let t = copy_task(&input[i]);
        sorted_insert(&mut out, col, dir, t);
        proof {
            let prev = task_views(input@.take(i as int));
            assert(task_views(input@.take(i as int + 1)) =~= prev.push(input@[i as int]@));
            vstd::seq_lib::to_multiset_build(prev, input@[i as int]@);
        }
        i += 1;
    }
    proof {
        assert(input@.take(n as int) =~= input@);
    }
    out
}

/// Copies out the requested page of a row vector.
fn page_tasks(rows: Vec<Task>, offset: i64, limit: Option<i64>) -> (out: Vec<Task>)
    requires
        offset >= 0,
        limit matches Some(l) ==> l >= 0,
    ensures
        task_views(out@) == spec_page(task_views(rows@), offset as int, limit),
{
    let n = rows.len();
    let start: usize = if offset as u64 >= n as u64 {
        n
    } else {
        offset as usize
    };
    let end: usize = match limit {
        Some(l) => {
            let remaining = n - start;
            if l as u64 >= remaining as u64 {
                n
            } else {
                start + (l as usize)
            }
        },
        None => n,
    };
    let mut out: Vec<Task> = Vec::new();
    proof {
        assert(task_views(out@) =~= task_views(rows@).subrange(start as int, start as int));
    }
    let mut i: usize = start;
    while i < end
        invariant
            start <= i <= end,
            end <= n,
            n == rows.len(),
            task_views(out@) == task_views(rows@).subrange(start as int, i as int),
        decreases end - i,
    {
        let ghost prev = task_views(out@);
        out.push(copy_task(&rows[i]));
        proof {
            assert(task_views(out@) =~= prev.push(rows@[i as int]@));
            assert(task_views(out@) =~= task_views(rows@).subrange(start as int, i as int + 1));
        }
        i += 1;
    }
    proof {
        assert(task_views(out@) =~= spec_page(task_views(rows@), offset as int, limit));
    }
    out
}

/// Whether the rows of a sequence carry pairwise distinct ids.
pub open spec fn spec_distinct_ids(s: Seq<TaskView>) -> bool {
    forall|i: int, j: int| 0 <= i < j < s.len() ==> s[i].id != s[j].id
}

/// Law: the sorted listing is fully determined. Two sequences of the same
/// rows, both sorted by the listing order, are equal whenever the rows carry
/// distinct ids (as every well-formed store's rows do): the id tie-break
/// leaves the order no freedom.
pub proof fn lemma_sorted_rows_unique(
    x: Seq<TaskView>,
    y: Seq<TaskView>,
    col: SortColumn,
    dir: SortOrder,
)
    requires
        sorted_by(x, spec_task_le_fn(col, dir)),
        sorted_by(y, spec_task_le_fn(col, dir)),
        x.to_multiset() == y.to_multiset(),
        spec_distinct_ids(x),
    ensures
        x == y,
    decreases x.len(),
{
    broadcast use vstd::seq_lib::group_to_multiset_ensures;
    broadcast use vstd::multiset::group_multiset_axioms;

    if x.len() == 0 || y.len() == 0 {
        assert(x.len() == x.to_multiset().len());
        assert(y.len() == y.to_multiset().len());
        assert(x =~= y);
    } else {
        let le = spec_task_le_fn(col, dir);
        // Each head appears in the other sequence.
        assert(y.contains(y[0]));
        assert(y.to_multiset().count(y[0]) > 0);
        assert(x.to_multiset().count(y[0]) > 0);
        assert(x.contains(y[0]));
        let k = choose|k: int| 0 <= k < x.len() && x[k] == y[0];
        assert(x.contains(x[0]));
        assert(x.to_multiset().count(x[0]) > 0);
        assert(y.to_multiset().count(x[0]) > 0);
        assert(y.contains(x[0]));
        let m = choose|m: int| 0 <= m < y.len() && y[m] == x[0];
        if k > 0 && m > 0 {
            // Then the heads compare at-most both ways, so they carry the
            // same id — contradicting distinct ids at positions 0 and k.
            assert(le(x[0], x[k]));
            assert(le(y[0], y[m]));
            lemma_task_le_antisym_ids(col, dir, x[0], y[0]);
            assert(x[0].id == x[k].id);
            assert(false);
        }
        assert(x[0] == y[0]);

        let xd = x.drop_first();
        let yd = y.drop_first();
        assert(xd =~= x.remove(0));
        assert(yd =~= y.remove(0));
        assert(xd.to_multiset() == yd.to_multiset());
        assert forall|i: int, j: int| 0 <= i < j < xd.len() implies le(xd[i], xd[j]) && xd[i].id
            != xd[j].id by {
            assert(xd[i] == x[i + 1]);
            assert(xd[j] == x[j + 1]);
        }
        assert forall|i: int, j: int| 0 <= i < j < yd.len() implies le(yd[i], yd[j]) by {
            assert(yd[i] == y[i + 1]);
            assert(yd[j] == y[j + 1]);
        }
        lemma_sorted_rows_unique(xd, yd, col, dir);
        assert forall|i: int| 0 <= i < x.len() implies x[i] == y[i] by {
            if i > 0 {
                assert(x[i] == xd[i - 1]);
                assert(y[i] == yd[i - 1]);
            }
        }
        assert(x =~= y);
    }
}

proof fn lemma_filter_done_distinct(tasks: Seq<TaskView>, done: Option<bool>)
    requires
        spec_distinct_ids(tasks),
    ensures
        spec_distinct_ids(spec_filter_done(tasks, done)),
        forall|e: TaskView| #[trigger] spec_filter_done(tasks, done).contains(e) ==> tasks.contains(
            e,
        ),
    decreases tasks.len(),
{
    match done {
        None => {},
        Some(d) => {
            if tasks.len() > 0 {
                let prefix = tasks.drop_last();
                lemma_filter_done_distinct(prefix, done);
                let rest = spec_filter_done(prefix, done);
                assert forall|e: TaskView| rest.contains(e) implies tasks.contains(e) by {
                    let p = choose|p: int| 0 <= p < prefix.len() && prefix[p] == e;
                    assert(tasks[p] == e);
                }
                let whole = spec_filter_done(tasks, done);
                if tasks.last().done == d {
                    assert(whole == rest.push(tasks.last()));
                    assert forall|i: int, j: int|
                        0 <= i < j < whole.len() implies whole[i].id != whole[j].id by {
                        if j == rest.len() {
                            assert(whole[i] == rest[i]);
                            assert(rest.contains(rest[i]));
                            assert(prefix.contains(rest[i]));
                            let p = choose|p: int| 0 <= p < prefix.len() && prefix[p] == rest[i];
                            assert(tasks[p] == whole[i]);
                            assert(tasks[p].id != tasks[tasks.len() - 1].id);
                        }
                    }
                    assert forall|e: TaskView| whole.contains(e) implies tasks.contains(e) by {
                        let q = choose|q: int| 0 <= q < whole.len() && whole[q] == e;
                        if q < rest.len() {
                            assert(rest.contains(e));
                        } else {
                            assert(tasks[tasks.len() - 1] == e);
                        }
                    }
                }
            }
        },
    }
}

proof fn lemma_distinct_ids_transfer(a: Seq<TaskView>, b: Seq<TaskView>)
    requires
        spec_distinct_ids(a),
        a.to_multiset() == b.to_multiset(),
    ensures
        spec_distinct_ids(b),
{
    broadcast use vstd::seq_lib::group_to_multiset_ensures;
    broadcast use vstd::multiset::group_multiset_axioms;

    assert forall|i: int, j: int| 0 <= i < j < b.len() implies b[i].id != b[j].id by {
        if b[i].id == b[j].id {
            if b[i] == b[j] {
                // The row would occur twice in the shared multiset, yet rows
                // with distinct ids occur at most once.
                let br = b.remove(j);
                assert(br.to_multiset() == b.to_multiset().remove(b[j]));
                assert(br[i] == b[i]);
                assert(br.contains(b[i]));
                assert(br.to_multiset().count(b[i]) > 0);
                assert(a.to_multiset().count(b[i]) >= 2);
                assert(a.to_multiset().count(b[i]) > 0);
                assert(a.contains(b[i]));
                let p = choose|p: int| 0 <= p < a.len() && a[p] == b[i];
                let ar = a.remove(p);
                assert(ar.to_multiset() == a.to_multiset().remove(a[p]));
                assert(ar.to_multiset().count(b[i]) > 0);
                assert(ar.contains(b[i]));
                let q = choose|q: int| 0 <= q < ar.len() && ar[q] == b[i];
                if q < p {
                    assert(a[q] == ar[q]);
                    assert(a[q].id == a[p].id);
                } else {
                    assert(a[q + 1] == ar[q]);
                    assert(a[q + 1].id == a[p].id);
                }
                assert(false);
            } else {
                // Two different rows with the same id would both come from
                // the distinct-id sequence.
                assert(b.contains(b[i]));
                assert(b.to_multiset().count(b[i]) > 0);
                assert(a.to_multiset().count(b[i]) > 0);
                assert(a.contains(b[i]));
                assert(b.contains(b[j]));
                assert(b.to_multiset().count(b[j]) > 0);
                assert(a.to_multiset().count(b[j]) > 0);
                assert(a.contains(b[j]));
                let p = choose|p: int| 0 <= p < a.len() && a[p] == b[i];
                let q = choose|q: int| 0 <= q < a.len() && a[q] == b[j];
                assert(p != q);
                assert(a[p].id != a[q].id);
                assert(false);
            }
        }
    }
}

/// Law: a listing is deterministic — any two outputs that satisfy the listing
/// contract for the same well-formed store and the same filter are equal, so
/// the sorted listing's contract pins one result.
pub proof fn lemma_list_deterministic(
    store: StoreView,
    f: TaskFilter,
    out1: Seq<TaskView>,
    out2: Seq<TaskView>,
)
    requires
        store.wf(),
        spec_list_ok(store, f, out1),
        spec_list_ok(store, f, out2),
    ensures
        out1 == out2,
{
    let filtered = spec_filter_done(store.tasks, f.done);
    let offset = spec_effective_offset(f) as int;
    let limit = spec_effective_limit(f);
    match spec_list_sort(f) {
        None => {},
        Some((col, dir)) => {
            assert(spec_distinct_ids(store.tasks));
            lemma_filter_done_distinct(store.tasks, f.done);
            let s1 = choose|sorted: Seq<TaskView>|
                {
                    &&& #[trigger] sorted.to_multiset() == filtered.to_multiset()
                    &&& sorted_by(sorted, spec_task_le_fn(col, dir))
                    &&& out1 == spec_page(sorted, offset, limit)
                };
            let s2 = choose|sorted: Seq<TaskView>|
                {
                    &&& #[trigger] sorted.to_multiset() == filtered.to_multiset()
                    &&& sorted_by(sorted, spec_task_le_fn(col, dir))
                    &&& out2 == spec_page(sorted, offset, limit)
                };
            lemma_distinct_ids_transfer(filtered, s1);
            lemma_sorted_rows_unique(s1, s2, col, dir);
        },
    }
}

/// Law: once a delete of `id` has succeeded, no row carries `id` any more —
/// so a repeated delete of the same id must report `NotFound`, which is what
/// makes delete idempotent-observable.
pub proof fn lemma_delete_removes_id(pre: StoreView, post: StoreView, id: int)
    requires
        pre.wf(),
        spec_delete_ok(pre, post, id),
    ensures
        !spec_has_id(post.tasks, id),
{
    let i = choose|i: int|
        0 <= i < pre.tasks.len() && #[trigger] pre.tasks[i].id == id && post.tasks
            == pre.tasks.remove(i);
    assert forall|j: int| 0 <= j < post.tasks.len() implies post.tasks[j].id != id by {
        if j < i {
            assert(post.tasks[j] == pre.tasks[j]);
        } else {
            assert(post.tasks[j] == pre.tasks[j + 1]);
        }
    }
}

/// Law: a task fetched right after its creation equals the created task — the
/// submitted title and done flag under the store-assigned id.
pub proof fn lemma_create_then_get(
    pre: StoreView,
    post: StoreView,
    input: NewTaskView,
    created: TaskView,
    got: TaskView,
)
    requires
        pre.wf(),
        spec_create_ok(pre, post, input, created),
        spec_get_ok(post, created.id, got),
    ensures
        got == created,
        got.title == input.title,
        got.done == input.done,
{
    let i = choose|i: int| 0 <= i < post.tasks.len() && post.tasks[i] == got;
    if i < pre.tasks.len() {
        assert(pre.tasks[i].id < pre.next_id);
    }
}

} // verus!
