//! Deciding which columns hold numbers in every row of both tables.
use vstd::prelude::*;
use crate::token::{is_sci_float, sci_text};

verus! {

/// A table as text: rows of cells.
pub type Table = Seq<Seq<Seq<char>>>;

/// Why two tables cannot be compared.
#[derive(Clone, Copy, Debug, PartialEq, Eq, Structural)]
pub enum DiffError {
    /// The tables have different numbers of rows.
    RowCount { rows1: usize, rows2: usize },
    /// At 1-based `line` the two rows have different numbers of cells.
    ColumnCount { line: usize, cols1: usize, cols2: usize },
    /// At 1-based `line` the two rows hold different numbers of values to
    /// compare.
    FloatLayout { line: usize },
}

/// Both tables have the same number of rows, and each pair of rows the same
/// number of cells.
pub open spec fn same_shape(t1: Table, t2: Table) -> bool {
    t1.len() == t2.len() && forall|r: int| 0 <= r < t1.len() ==> #[trigger] t1[r].len() == t2[r].len()
}

/// Number of columns: the cell count of the first row, 0 for no rows.
pub open spec fn width(t: Table) -> int {
    if t.len() > 0 {
        t[0].len() as int
    } else {
        0
    }
}

/// Row `r` of both tables has a cell at column `i`, and both cells are numbers.
pub open spec fn numeric_at(t1: Table, t2: Table, r: int, i: int) -> bool {
    i < t1[r].len() && i < t2[r].len() && sci_text(t1[r][i]) && sci_text(t2[r][i])
}

/// Column `i` holds a number in every row of both tables.
pub open spec fn float_column(t1: Table, t2: Table, i: int) -> bool {
    0 <= i < width(t1) && forall|r: int| 0 <= r < t1.len() ==> #[trigger] numeric_at(t1, t2, r, i)
}

/// The flag of each column, in column order.
pub open spec fn classification(t1: Table, t2: Table) -> Seq<bool> {
    Seq::new(width(t1) as nat, |i: int| float_column(t1, t2, i))
}

/// The first row, 0-based, whose two cell counts differ (`t1.len()` if none).
pub open spec fn first_ragged(t1: Table, t2: Table, r: int) -> bool {
    0 <= r < t1.len() && t1[r].len() != t2[r].len() && forall|q: int|
        0 <= q < r ==> #[trigger] t1[q].len() == t2[q].len()
}

/// What the classifier answers for two tables.
pub open spec fn classify_result(t1: Table, t2: Table, res: Result<Seq<bool>, DiffError>) -> bool {
    match res {
        Ok(flags) => same_shape(t1, t2) && flags == classification(t1, t2),
        Err(DiffError::RowCount { rows1, rows2 }) => t1.len() != t2.len() && rows1 == t1.len()
            && rows2 == t2.len(),
        Err(DiffError::ColumnCount { line, cols1, cols2 }) => t1.len() == t2.len() && first_ragged(
            t1,
            t2,
            line - 1,
        ) && cols1 == t1[line - 1].len() && cols2 == t2[line - 1].len(),
        Err(DiffError::FloatLayout { .. }) => false,
    }
}

/// Checks that the tables have the same shape, then flags each column that
/// holds a number in scientific notation in every row of both tables.
pub fn classify_columns(t1: &Vec<Vec<String>>, t2: &Vec<Vec<String>>) -> (r: Result<
    Vec<bool>,
    DiffError,
>)
    ensures
        classify_result(
            t1.deep_view(),
            t2.deep_view(),
            match r {
                Ok(flags) => Ok(flags@),
                Err(e) => Err(e),
            },
        ),
{
    let ghost a = t1.deep_view();
    let ghost b = t2.deep_view();
    if t1.len() != t2.len() {
        return Err(DiffError::RowCount { rows1: t1.len(), rows2: t2.len() });
    }
    let n = t1.len();
    let mut r: usize = 0;
    while r < n
        invariant
            n == t1@.len() == t2@.len() == a.len() == b.len(),
            a == t1.deep_view(),
            b == t2.deep_view(),
            0 <= r <= n,
            forall|q: int| 0 <= q < r ==> #[trigger] a[q].len() == b[q].len(),
        decreases n - r,
    {
        assert(a[r as int].len() == t1[r as int]@.len());
        assert(b[r as int].len() == t2[r as int]@.len());
        if t1[r].len() != t2[r].len() {
            assert(first_ragged(a, b, r as int));
            return Err(
                DiffError::ColumnCount { line: r + 1, cols1: t1[r].len(), cols2: t2[r].len() },
            );
        }
        r = r + 1;
    }
    let w: usize = if n > 0 {
        t1[0].len()
    } else {
        0
    };
    assert(w == width(a)) by {
        if n > 0 {
            assert(a[0].len() == t1[0]@.len());
        }
    }
    let mut flags: Vec<bool> = Vec::new();
    let mut i: usize = 0;
    while i < w
        invariant
            n == t1@.len() == t2@.len() == a.len() == b.len(),
            a == t1.deep_view(),
            b == t2.deep_view(),
            same_shape(a, b),
            w == width(a),
            0 <= i <= w,
            flags@.len() == i,
            forall|j: int| 0 <= j < i ==> #[trigger] flags@[j] == float_column(a, b, j),
        decreases w - i,
    {
        let f = column_is_numeric(t1, t2, i);
        flags.push(f);
        i = i + 1;
    }
    assert(flags@ =~= classification(a, b));
    Ok(flags)
}

/// Whether column `i` holds a number in every row of both tables.
fn column_is_numeric(t1: &Vec<Vec<String>>, t2: &Vec<Vec<String>>, i: usize) -> (r: bool)
    requires
        same_shape(t1.deep_view(), t2.deep_view()),
        i < width(t1.deep_view()),
    ensures
        r == float_column(t1.deep_view(), t2.deep_view(), i as int),
{
    let ghost a = t1.deep_view();
    let ghost b = t2.deep_view();
    let n = t1.len();
    let mut r: usize = 0;
    while r < n
        invariant
            n == t1@.len() == t2@.len() == a.len() == b.len(),
            a == t1.deep_view(),
            b == t2.deep_view(),
            0 <= r <= n,
            forall|q: int| 0 <= q < r ==> #[trigger] numeric_at(a, b, q, i as int),
        decreases n - r,
    {
        let row1 = &t1[r];
        let row2 = &t2[r];
        assert(a[r as int] == row1.deep_view());
        assert(b[r as int] == row2.deep_view());
        if i >= row1.len() || i >= row2.len() {
            assert(!numeric_at(a, b, r as int, i as int));
            return false;
        }
        assert(a[r as int][i as int] == row1[i as int]@);
        assert(b[r as int][i as int] == row2[i as int]@);
        if !(is_sci_float(row1[i].as_str()) && is_sci_float(row2[i].as_str())) {
            assert(!numeric_at(a, b, r as int, i as int));
            return false;
        }
        r = r + 1;
    }
    true
}

/// The flagged columns, in ascending order.
pub open spec fn flagged_columns(flags: Seq<bool>, cols: Seq<usize>) -> bool {
    &&& forall|k: int| 0 <= k < cols.len() ==> #[trigger] cols[k] < flags.len() && flags[cols[k] as int]
    &&& forall|k: int, m: int| 0 <= k < m < cols.len() ==> #[trigger] cols[k] < #[trigger] cols[m]
    &&& forall|i: int| 0 <= i < flags.len() && #[trigger] flags[i] ==> cols.contains(i as usize)
}

/// The indices `i < n` for which `keep(i)` holds, in ascending order.
pub open spec fn indices_where(n: int, keep: spec_fn(int) -> bool) -> Seq<usize>
    decreases n,
{
    if n <= 0 {
        Seq::empty()
    } else if keep(n - 1) {
        indices_where(n - 1, keep).push((n - 1) as usize)
    } else {
        indices_where(n - 1, keep)
    }
}

/// Two filters that agree below `n` pick the same indices.
pub proof fn lemma_indices_agree(n: int, p: spec_fn(int) -> bool, q: spec_fn(int) -> bool)
    requires
        forall|i: int| 0 <= i < n ==> #[trigger] p(i) == q(i),
    ensures
        indices_where(n, p) == indices_where(n, q),
    decreases n,
{
    if n > 0 {
        lemma_indices_agree(n - 1, p, q);
    }
}

/// The indices of the flagged columns, in ascending order.
pub fn float_columns(flags: &Vec<bool>) -> (r: Vec<usize>)
    ensures
        flagged_columns(flags@, r@),
        r@ == indices_where(flags@.len() as int, |i: int| flags@[i]),
{
    let mut cols: Vec<usize> = Vec::new();
    let mut i: usize = 0;
    while i < flags.len()
        invariant
            0 <= i <= flags@.len(),
            forall|k: int| 0 <= k < cols@.len() ==> #[trigger] cols@[k] < i && flags@[cols@[k] as int],
            forall|k: int, m: int| 0 <= k < m < cols@.len() ==> #[trigger] cols@[k] < #[trigger] cols@[m],
            forall|j: int| 0 <= j < i && #[trigger] flags@[j] ==> cols@.contains(j as usize),
            cols@ == indices_where(i as int, |j: int| flags@[j]),
        decreases flags@.len() - i,
    {
        if flags[i] {
            let ghost before = cols@;
            cols.push(i);
            assert forall|j: int| 0 <= j < i + 1 && #[trigger] flags@[j] implies cols@.contains(j as usize) by {
                if j < i {
                    let k = choose|k: int| 0 <= k < before.len() && before[k] == j as usize;
                    assert(cols@[k] == j as usize);
                } else {
                    assert(cols@[before.len() as int] == i);
                }
            }
        }
        i = i + 1;
    }
    cols
}

/// A cell that is not a number, in either table and in any row, keeps its
/// column out of the comparison.
pub proof fn lemma_text_cell_excludes_column(t1: Table, t2: Table, r: int, i: int)
    requires
        0 <= r < t1.len(),
        0 <= i,
        !numeric_at(t1, t2, r, i),
    ensures
        !float_column(t1, t2, i),
        i < width(t1) ==> !classification(t1, t2)[i],
{
}

/// Swapping the two tables changes neither the shape check nor the flags.
pub proof fn lemma_classification_symmetric(t1: Table, t2: Table)
    ensures
        same_shape(t1, t2) <==> same_shape(t2, t1),
        same_shape(t1, t2) ==> classification(t1, t2) == classification(t2, t1),
{
    if same_shape(t1, t2) {
        assert forall|i: int| 0 <= i < width(t1) implies float_column(t1, t2, i) == float_column(
            t2,
            t1,
            i,
        ) by {
            if float_column(t1, t2, i) {
                assert forall|r: int| 0 <= r < t2.len() implies #[trigger] numeric_at(t2, t1, r, i) by {
                    assert(numeric_at(t1, t2, r, i));
                }
            }
            if float_column(t2, t1, i) {
                assert forall|r: int| 0 <= r < t1.len() implies #[trigger] numeric_at(t1, t2, r, i) by {
                    assert(numeric_at(t2, t1, r, i));
                }
            }
        }
        if t1.len() > 0 {
            assert(t1[0].len() == t2[0].len());
        }
        assert(classification(t1, t2) =~= classification(t2, t1));
    }
}

} // verus!
