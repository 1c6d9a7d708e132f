//! The ordering a sorted listing uses: by the selected column in the selected
//! direction, ties broken by ascending id — the same tie-break the built
//! statements request with `ORDER BY <column> <direction>, id`. Titles
//! compare lexicographically by code point; a relational store under a
//! locale-aware collation may place non-ASCII titles differently. The order
//! is connected and transitive, which is what the sorting proof needs.

use vstd::prelude::*;
use vstd::string::StrSliceExecFns;

use crate::query::{SortColumn, SortOrder};
use crate::task::{Task, TaskView};

verus! {

/// Strict lexicographic order on character sequences, by code point: a
/// proper prefix comes first, otherwise the first differing position decides.
pub open spec fn spec_lex_lt(a: Seq<char>, b: Seq<char>) -> bool
    decreases a.len(),
{
    if b.len() == 0 {
        false
    } else if a.len() == 0 {
        true
    } else if a[0] == b[0] {
        spec_lex_lt(a.drop_first(), b.drop_first())
    } else {
        (a[0] as u32) < (b[0] as u32)
    }
}

proof fn lemma_lex_lt_irrefl(a: Seq<char>)
    ensures
        !spec_lex_lt(a, a),
    decreases a.len(),
{
    if a.len() > 0 {
        lemma_lex_lt_irrefl(a.drop_first());
    }
}

proof fn lemma_lex_trichotomy(a: Seq<char>, b: Seq<char>)
    ensures
        a == b || spec_lex_lt(a, b) || spec_lex_lt(b, a),
    decreases a.len(),
{
    if a.len() == 0 || b.len() == 0 {
        if a.len() == 0 && b.len() == 0 {
            assert(a =~= b);
        }
    } else if a[0] == b[0] {
        let ad = a.drop_first();
        let bd = b.drop_first();
        lemma_lex_trichotomy(ad, bd);
        if ad == bd {
            assert(a.len() == b.len());
            assert forall|i: int| 0 <= i < a.len() implies a[i] == b[i] by {
                if i > 0 {
                    assert(ad[i - 1] == bd[i - 1]);
                    assert(a[i] == ad[i - 1]);
                    assert(b[i] == bd[i - 1]);
                }
            }
            assert(a =~= b);
        }
    } else {
        // Distinct characters have distinct code points.
        vstd::utf8::char_u32_cast(a[0], a[0] as u32);
        vstd::utf8::char_u32_cast(b[0], b[0] as u32);
    }
}

proof fn lemma_lex_lt_trans(a: Seq<char>, b: Seq<char>, c: Seq<char>)
    requires
        spec_lex_lt(a, b),
        spec_lex_lt(b, c),
    ensures
        spec_lex_lt(a, c),
    decreases a.len(),
{
    if a.len() > 0 && b.len() > 0 && c.len() > 0 {
        if a[0] == b[0] && b[0] == c[0] {
            lemma_lex_lt_trans(a.drop_first(), b.drop_first(), c.drop_first());
        }
    }
}

/// Strict comparison of two tasks on the selected column alone.
pub open spec fn spec_key_lt(col: SortColumn, a: TaskView, b: TaskView) -> bool {
    match col {
        SortColumn::Id => a.id < b.id,
        SortColumn::Title => spec_lex_lt(a.title, b.title),
        SortColumn::Done => !a.done && b.done,
    }
}

/// Equality of two tasks on the selected column alone.
pub open spec fn spec_key_eq(col: SortColumn, a: TaskView, b: TaskView) -> bool {
    match col {
        SortColumn::Id => a.id == b.id,
        SortColumn::Title => a.title == b.title,
        SortColumn::Done => a.done == b.done,
    }
}

/// The listing order: the selected column in the selected direction, with
/// ties on that column broken by ascending id in either direction.
pub open spec fn spec_task_le(col: SortColumn, dir: SortOrder, a: TaskView, b: TaskView) -> bool {
    if spec_key_eq(col, a, b) {
        a.id <= b.id
    } else if dir is Asc {
        spec_key_lt(col, a, b)
    } else {
        spec_key_lt(col, b, a)
    }
}

/// The listing order as a binary relation, for use with `sorted_by`.
pub open spec fn spec_task_le_fn(col: SortColumn, dir: SortOrder) -> spec_fn(
    TaskView,
    TaskView,
) -> bool {
    |a: TaskView, b: TaskView| spec_task_le(col, dir, a, b)
}

/// The listing order is connected: any two tasks compare one way or the
/// other, so a sorting pass can always place an element.
pub proof fn lemma_task_le_connected(col: SortColumn, dir: SortOrder, a: TaskView, b: TaskView)
    ensures
        spec_task_le(col, dir, a, b) || spec_task_le(col, dir, b, a),
{
    if !spec_key_eq(col, a, b) && col is Title {
        lemma_lex_trichotomy(a.title, b.title);
    }
}

proof fn lemma_key_lt_irrefl(col: SortColumn, a: TaskView, b: TaskView)
    requires
        spec_key_eq(col, a, b),
    ensures
        !spec_key_lt(col, a, b),
{
    if col is Title {
        lemma_lex_lt_irrefl(a.title);
    }
}

/// The listing order is transitive.
pub proof fn lemma_task_le_trans(
    col: SortColumn,
    dir: SortOrder,
    a: TaskView,
    b: TaskView,
    c: TaskView,
)
    requires
        spec_task_le(col, dir, a, b),
        spec_task_le(col, dir, b, c),
    ensures
        spec_task_le(col, dir, a, c),
{
    if spec_key_eq(col, a, b) && spec_key_eq(col, b, c) {
    } else if spec_key_eq(col, a, c) {
        // The two strict steps would have to cancel out, which irreflexivity
        // of the column comparison rules out.
        if spec_key_eq(col, a, b) {
            lemma_key_lt_irrefl(col, b, c);
            lemma_key_lt_irrefl(col, c, b);
        } else if spec_key_eq(col, b, c) {
            lemma_key_lt_irrefl(col, a, b);
            lemma_key_lt_irrefl(col, b, a);
        } else {
            if col is Title {
                if dir is Asc {
                    lemma_lex_lt_trans(a.title, b.title, c.title);
                } else {
                    lemma_lex_lt_trans(c.title, b.title, a.title);
                }
                lemma_lex_lt_irrefl(a.title);
            }
        }
    } else {
        if spec_key_eq(col, a, b) || spec_key_eq(col, b, c) {
        } else {
            if col is Title {
                if dir is Asc {
                    lemma_lex_lt_trans(a.title, b.title, c.title);
                } else {
                    lemma_lex_lt_trans(c.title, b.title, a.title);
                }
            }
        }
    }
}

/// The listing order admits no strict cycle: if two tasks compare at-most in
/// both directions, they agree on the selected column and carry the same id.
pub proof fn lemma_task_le_antisym_ids(col: SortColumn, dir: SortOrder, a: TaskView, b: TaskView)
    requires
        spec_task_le(col, dir, a, b),
        spec_task_le(col, dir, b, a),
    ensures
        spec_key_eq(col, a, b),
        a.id == b.id,
{
    if !spec_key_eq(col, a, b) {
        if col is Title {
            if dir is Asc {
                lemma_lex_lt_trans(a.title, b.title, a.title);
            } else {
                lemma_lex_lt_trans(b.title, a.title, b.title);
            }
            lemma_lex_lt_irrefl(a.title);
            lemma_lex_lt_irrefl(b.title);
        }
    }
}

proof fn lemma_lex_lt_step(a: Seq<char>, b: Seq<char>)
    requires
        a.len() > 0,
        b.len() > 0,
        a[0] == b[0],
    ensures
        spec_lex_lt(a, b) == spec_lex_lt(a.drop_first(), b.drop_first()),
{
}

/// Decides the lexicographic order on two strings.
pub fn lex_lt(a: &str, b: &str) -> (r: bool)
    ensures
        r == spec_lex_lt(a@, b@),
{
    let na = a.unicode_len();
    let nb = b.unicode_len();
    let mut i: usize = 0;
    proof {
        assert(a@.skip(0) =~= a@);
        assert(b@.skip(0) =~= b@);
    }
    while i < na && i < nb
        invariant
            na == a@.len(),
            nb == b@.len(),
            i <= na,
            i <= nb,
            spec_lex_lt(a@, b@) == spec_lex_lt(a@.skip(i as int), b@.skip(i as int)),
        decreases na - i,
    {
        let ca = a.get_char(i);
        let cb = b.get_char(i);
        if ca == cb {
            proof {
                let sa = a@.skip(i as int);
                let sb = b@.skip(i as int);
                assert(sa[0] == ca && sb[0] == cb);
                lemma_lex_lt_step(sa, sb);
                assert(sa.drop_first() =~= a@.skip(i as int + 1));
                assert(sb.drop_first() =~= b@.skip(i as int + 1));
            }
            i += 1;
        } else {
            proof {
                let sa = a@.skip(i as int);
                let sb = b@.skip(i as int);
                assert(sa[0] == ca && sb[0] == cb);
            }
            return (ca as u32) < (cb as u32);
        }
    }
    proof {
        let sa = a@.skip(i as int);
        let sb = b@.skip(i as int);
        assert(sa.len() == 0 || sb.len() == 0);
    }
    na < nb
}

/// Decides the listing order on two tasks.
pub fn task_le(col: SortColumn, dir: SortOrder, a: &Task, b: &Task) -> (r: bool)
    ensures
        r == spec_task_le(col, dir, a@, b@),
{
    let keys_equal = match col {
        SortColumn::Id => a.id == b.id,
        SortColumn::Title => a.title == b.title,
        SortColumn::Done => a.done == b.done,
    };
    if keys_equal {
        a.id <= b.id
    } else {
        match dir {
            SortOrder::Asc => key_lt(col, a, b),
            SortOrder::Desc => key_lt(col, b, a),
        }
    }
}

fn key_lt(col: SortColumn, a: &Task, b: &Task) -> (r: bool)
    ensures
        r == spec_key_lt(col, a@, b@),
{
    match col {
        SortColumn::Id => a.id < b.id,
        SortColumn::Title => lex_lt(a.title.as_str(), b.title.as_str()),
        SortColumn::Done => !a.done && b.done,
    }
}

} // verus!
