//! Safe construction of parameterized statements from a task filter.
//!
//! Client-controlled text never becomes statement structure: `sort` and
//! `order` are checked against fixed allow-lists and only the matched
//! variant's canonical spelling is emitted, while `done`, `limit`, `offset`,
//! the title, and the id travel as bound parameters. The contracts pin the
//! statement text to a concatenation of fixed literals chosen by which
//! clauses are present, so the set of possible texts is finite and
//! independent of any raw client string.

use vstd::prelude::*;
use vstd::string::StringExecFns;

use crate::task::TaskFilter;

verus! {

/// The ordering columns a client may select: the allow-list.
#[derive(Clone, Copy, Debug, PartialEq, Eq, Structural)]
pub enum SortColumn {
    Id,
    Title,
    Done,
}

/// The ordering directions a client may select: the allow-list.
#[derive(Clone, Copy, Debug, PartialEq, Eq, Structural)]
pub enum SortOrder {
    Asc,
    Desc,
}

/// A value bound to a statement placeholder, never interpolated into text.
#[derive(Debug)]
pub enum Param {
    Bool(bool),
    Int(i64),
    Text(String),
}

/// Abstract value of a bound parameter.
pub enum ParamView {
    Bool(bool),
    Int(int),
    Text(Seq<char>),
}

impl View for Param {
    type V = ParamView;

    open spec fn view(&self) -> ParamView {
        match self {
            Param::Bool(b) => ParamView::Bool(*b),
            Param::Int(v) => ParamView::Int(*v as int),
            Param::Text(s) => ParamView::Text(s@),
        }
    }
}

/// Abstract value of a statement: its text and its ordered parameters.
pub struct StatementView {
    pub text: Seq<char>,
    pub params: Seq<ParamView>,
}

/// An executable statement descriptor: statement text with numbered
/// placeholders, plus the values to bind to them, in placeholder order.
#[derive(Debug)]
pub struct Statement {
    pub text: String,
    pub params: Vec<Param>,
}

impl View for Statement {
    type V = StatementView;

    open spec fn view(&self) -> StatementView {
        StatementView {
            text: self.text@,
            params: self.params@.map_values(|p: Param| p@),
        }
    }
}

/// The column a `sort` value selects: an allow-list member names itself,
/// anything else falls back to `id`.
pub open spec fn spec_sort_column(sort: Seq<char>) -> SortColumn {
    if sort == "id"@ {
        SortColumn::Id
    } else if sort == "title"@ {
        SortColumn::Title
    } else if sort == "done"@ {
        SortColumn::Done
    } else {
        SortColumn::Id
    }
}

/// The direction an `order` value selects: `asc` or `desc` name themselves,
/// anything else falls back to ascending.
pub open spec fn spec_sort_order(order: Seq<char>) -> SortOrder {
    if order == "asc"@ {
        SortOrder::Asc
    } else if order == "desc"@ {
        SortOrder::Desc
    } else {
        SortOrder::Asc
    }
}

/// The effective ordering column of a filter; `id` when no sort was given.
pub open spec fn spec_effective_column(sort: Option<String>) -> SortColumn {
    match sort {
        Some(s) => spec_sort_column(s@),
        None => SortColumn::Id,
    }
}

/// The effective ordering direction of a filter; ascending when none given.
pub open spec fn spec_effective_order(order: Option<String>) -> SortOrder {
    match order {
        Some(s) => spec_sort_order(s@),
        None => SortOrder::Asc,
    }
}

/// Fallback law: any `sort` value outside the allow-list `{id, title, done}`
/// makes the effective ordering column `id`.
pub proof fn lemma_sort_fallback(sort: Seq<char>)
    requires
        sort != "id"@,
        sort != "title"@,
        sort != "done"@,
    ensures
        spec_sort_column(sort) == SortColumn::Id,
{
}

/// Fallback law: any `order` value outside `{asc, desc}` makes the effective
/// ordering direction ascending.
pub proof fn lemma_order_fallback(order: Seq<char>)
    requires
        order != "asc"@,
        order != "desc"@,
    ensures
        spec_sort_order(order) == SortOrder::Asc,
{
}

fn str_eq(a: &str, b: &str) -> (r: bool)
    ensures
        r == (a@ == b@),
{
    let x = a.to_owned();
    let y = b.to_owned();
    x == y
}

/// Validates a raw `sort` value against the allow-list, falling back to `id`.
pub fn parse_sort_column(sort: &str) -> (col: SortColumn)
    ensures
        col == spec_sort_column(sort@),
{
    if str_eq(sort, "id") {
        SortColumn::Id
    } else if str_eq(sort, "title") {
        SortColumn::Title
    } else if str_eq(sort, "done") {
        SortColumn::Done
    } else {
        SortColumn::Id
    }
}

/// Validates a raw `order` value against `{asc, desc}`, falling back to
/// ascending.
pub fn parse_sort_order(order: &str) -> (dir: SortOrder)
    ensures
        dir == spec_sort_order(order@),
{
    if str_eq(order, "asc") {
        SortOrder::Asc
    } else if str_eq(order, "desc") {
        SortOrder::Desc
    } else {
        SortOrder::Asc
    }
}

/// The effective ordering column of a filter's optional `sort` value.
pub fn effective_column(sort: &Option<String>) -> (col: SortColumn)
    ensures
        col == spec_effective_column(*sort),
{
    match sort {
        Some(s) => parse_sort_column(s.as_str()),
        None => SortColumn::Id,
    }
}

/// The effective ordering direction of a filter's optional `order` value.
pub fn effective_order(order: &Option<String>) -> (dir: SortOrder)
    ensures
        dir == spec_effective_order(*order),
{
    match order {
        Some(s) => parse_sort_order(s.as_str()),
        None => SortOrder::Asc,
    }
}

/// A negative pagination value is normalized to zero rather than rejected.
pub open spec fn spec_norm(v: i64) -> i64 {
    if v < 0 {
        0
    } else {
        v
    }
}

/// The effective row limit: the client's value with negatives normalized to
/// zero, or no limit at all when none was given.
pub open spec fn spec_effective_limit(f: TaskFilter) -> Option<i64> {
    match f.limit {
        Some(l) => Some(spec_norm(l)),
        None => None,
    }
}

/// Multiplication on `i64` that saturates at the extremes.
pub open spec fn spec_sat_mul(a: i64, b: i64) -> i64 {
    if a * b > i64::MAX {
        i64::MAX
    } else if a * b < i64::MIN {
        i64::MIN
    } else {
        (a * b) as i64
    }
}

/// The effective row offset: an explicit `offset` wins; otherwise a `page` is
/// converted as `page * limit` (saturating, and zero when no limit was
/// given); otherwise zero. Negative inputs are normalized to zero.
pub open spec fn spec_effective_offset(f: TaskFilter) -> i64 {
    match f.offset {
        Some(o) => spec_norm(o),
        None => match f.page {
            Some(p) => spec_sat_mul(
                spec_norm(p),
                match f.limit {
                    Some(l) => spec_norm(l),
                    None => 0,
                },
            ),
            None => 0,
        },
    }
}

/// Normalizes the filter's limit as [`spec_effective_limit`] describes.
pub fn resolve_limit(f: &TaskFilter) -> (r: Option<i64>)
    ensures
        r == spec_effective_limit(*f),
{
    match f.limit {
        Some(l) => if l < 0 {
            Some(0)
        } else {
            Some(l)
        },
        None => None,
    }
}

/// Normalizes the filter's offset as [`spec_effective_offset`] describes.
pub fn resolve_offset(f: &TaskFilter) -> (r: i64)
    ensures
        r == spec_effective_offset(*f),
{
    match f.offset {
        Some(o) => if o < 0 {
            0
        } else {
            o
        },
        None => match f.page {
            Some(p) => {
                let pp: i64 = if p < 0 {
                    0
                } else {
                    p
                };
                let lim: i64 = match f.limit {
                    Some(l) => if l < 0 {
                        0
                    } else {
                        l
                    },
                    None => 0,
                };
                match pp.checked_mul(lim) {
                    Some(v) => v,
                    None => i64::MAX,
                }
            },
            None => 0,
        },
    }
}

/// The canonical spelling of an allow-listed column, the only text the
/// builder ever emits for a sort column.
pub open spec fn spec_column_sql(c: SortColumn) -> Seq<char> {
    match c {
        SortColumn::Id => "id"@,
        SortColumn::Title => "title"@,
        SortColumn::Done => "done"@,
    }
}

/// The canonical spelling of an allow-listed direction.
pub open spec fn spec_order_sql(o: SortOrder) -> Seq<char> {
    match o {
        SortOrder::Asc => "asc"@,
        SortOrder::Desc => "desc"@,
    }
}

/// The full text of a list statement, determined by clause presence and the
/// two allow-listed enums alone: no client string reaches the text. A sort on
/// `title` or `done` also orders by `id`, the tie-break the listing order
/// promises.
pub open spec fn spec_list_sql(
    has_done: bool,
    sort: Option<(SortColumn, SortOrder)>,
    has_limit: bool,
) -> Seq<char> {
    "SELECT * FROM tasks"@ + (if has_done {
        " WHERE done = $1"@
    } else {
        Seq::<char>::empty()
    }) + (match sort {
        Some((c, o)) => " ORDER BY "@ + spec_column_sql(c) + " "@ + spec_order_sql(o) + (if c
            is Id {
            Seq::<char>::empty()
        } else {
            ", id"@
        }),
        None => Seq::<char>::empty(),
    }) + (if has_limit {
        if has_done {
            " LIMIT $2 OFFSET $3"@
        } else {
            " LIMIT $1 OFFSET $2"@
        }
    } else {
        if has_done {
            " OFFSET $2"@
        } else {
            " OFFSET $1"@
        }
    })
}

/// The sort the list statement orders by: present exactly when the filter
/// carries a `sort` value, with both components validated.
pub open spec fn spec_list_sort(f: TaskFilter) -> Option<(SortColumn, SortOrder)> {
    match f.sort {
        Some(s) => Some((spec_sort_column(s@), spec_effective_order(f.order))),
        None => None,
    }
}

/// The ordered parameter list of a list statement: the `done` filter value if
/// present, then the limit if present, then the offset.
pub open spec fn spec_list_params(f: TaskFilter) -> Seq<ParamView> {
    (match f.done {
        Some(d) => seq![ParamView::Bool(d)],
        None => Seq::<ParamView>::empty(),
    }) + (match spec_effective_limit(f) {
        Some(l) => seq![ParamView::Int(l as int)],
        None => Seq::<ParamView>::empty(),
    }) + seq![ParamView::Int(spec_effective_offset(f) as int)]
}

/// Builds the list statement for a filter. The text is exactly
/// [`spec_list_sql`] — fixed literals selected by clause presence and the
/// validated sort — and every client value rides in the parameter list.
pub fn build_list_statement(f: &TaskFilter) -> (stmt: Statement)
    ensures
        stmt@.text == spec_list_sql(f.done is Some, spec_list_sort(*f), f.limit is Some),
        stmt@.params == spec_list_params(*f),
{
    let mut text = String::from_str("SELECT * FROM tasks");
    let mut params: Vec<Param> = Vec::new();

    if let Some(d) = f.done {
        text.append(" WHERE done = $1");
        params.push(Param::Bool(d));
    }

    if let Some(sort_str) = &f.sort {
        let col = parse_sort_column(sort_str.as_str());
        let dir = effective_order(&f.order);
        text.append(" ORDER BY ");
        match col {
            SortColumn::Id => text.append("id"),
            SortColumn::Title => text.append("title"),
            SortColumn::Done => text.append("done"),
        }
        text.append(" ");
        match dir {
            SortOrder::Asc => text.append("asc"),
            SortOrder::Desc => text.append("desc"),
        }
        // The id tie-break the listing order promises, so the store cannot
        // pick its own order among rows equal on the sort column.
        if col != SortColumn::Id {
            text.append(", id");
        }
    }

    let lim = resolve_limit(f);
    let off = resolve_offset(f);
    if let Some(l) = lim {
        params.push(Param::Int(l));
        if f.done.is_some() {
            text.append(" LIMIT $2 OFFSET $3");
        } else {
            text.append(" LIMIT $1 OFFSET $2");
        }
    } else {
        if f.done.is_some() {
            text.append(" OFFSET $2");
        } else {
            text.append(" OFFSET $1");
        }
    }
    params.push(Param::Int(off));

    let stmt = Statement { text, params };
    proof {
        assert(stmt@.text =~= spec_list_sql(f.done is Some, spec_list_sort(*f), f.limit is Some));
        assert(stmt@.params =~= spec_list_params(*f));
    }
    stmt
}

/// Builds the point-lookup statement for one task by id.
pub fn build_get_statement(id: i32) -> (stmt: Statement)
    ensures
        stmt@.text == "SELECT * FROM tasks WHERE id = $1"@,
        stmt@.params == seq![ParamView::Int(id as int)],
{
    let stmt = Statement {
        text: String::from_str("SELECT * FROM tasks WHERE id = $1"),
        params: vec![Param::Int(id as i64)],
    };
    proof {
        assert(stmt@.params =~= seq![ParamView::Int(id as int)]);
    }
    stmt
}

/// Builds the insert statement: the title and done flag are bound parameters
/// and the store returns the created row, generated id included.
pub fn build_insert_statement(title: String, done: bool) -> (stmt: Statement)
    ensures
        stmt@.text == "INSERT INTO tasks (title, done) VALUES ($1, $2) RETURNING *"@,
        stmt@.params == seq![ParamView::Text(title@), ParamView::Bool(done)],
{
    let ghost title_chars = title@;
    let stmt = Statement {
        text: String::from_str("INSERT INTO tasks (title, done) VALUES ($1, $2) RETURNING *"),
        params: vec![Param::Text(title), Param::Bool(done)],
    };
    proof {
        assert(stmt@.params =~= seq![ParamView::Text(title_chars), ParamView::Bool(done)]);
    }
    stmt
}

/// Builds the update statement for one task by id, returning the updated row.
pub fn build_update_statement(id: i32, title: String, done: bool) -> (stmt: Statement)
    ensures
        stmt@.text == "UPDATE tasks SET title = $1, done = $2 WHERE id = $3 RETURNING *"@,
        stmt@.params == seq![
            ParamView::Text(title@),
            ParamView::Bool(done),
            ParamView::Int(id as int),
        ],
{
    let ghost title_chars = title@;
    let stmt = Statement {
        text: String::from_str("UPDATE tasks SET title = $1, done = $2 WHERE id = $3 RETURNING *"),
        params: vec![Param::Text(title), Param::Bool(done), Param::Int(id as i64)],
    };
    proof {
        assert(stmt@.params =~= seq![
            ParamView::Text(title_chars),
            ParamView::Bool(done),
            ParamView::Int(id as int),
        ]);
    }
    stmt
}

/// Builds the delete statement for one task by id.
pub fn build_delete_statement(id: i32) -> (stmt: Statement)
    ensures
        stmt@.text == "DELETE FROM tasks WHERE id = $1"@,
        stmt@.params == seq![ParamView::Int(id as int)],
{
    let stmt = Statement {
        text: String::from_str("DELETE FROM tasks WHERE id = $1"),
        params: vec![Param::Int(id as i64)],
    };
    proof {
        assert(stmt@.params =~= seq![ParamView::Int(id as int)]);
    }
    stmt
}

} // verus!
