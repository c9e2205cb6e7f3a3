//! Reading both tables and working out what to compare.
use vstd::prelude::*;
use crate::classify::{
    DiffError, Table, classify_columns, classification, classify_result, flagged_columns,
    float_columns, float_column, indices_where, lemma_classification_symmetric,
    lemma_indices_agree, numeric_at,
};
use crate::token::{is_sci_float, sci_text};

verus! {

/// The csv crate's error type, carried through to the caller unread.
#[verifier::external_type_specification]
#[verifier::external_body]
pub struct ExCsvError(csv::Error);

/// The rows that the csv crate reads from `data` with field delimiter `delim`,
/// no header row and equal-length records; `None` where it reports an error.
pub uninterp spec fn csv_rows(data: Seq<u8>, delim: u8) -> Option<Table>;

/// Relies on csv::ReaderBuilder (no headers, the given delimiter) and
/// csv::Reader::records: the rows read from bytes in memory depend on the
/// bytes and the delimiter alone.
#[verifier::external_body]
fn read_rows(data: &[u8], delim: u8) -> (r: Result<Vec<Vec<String>>, csv::Error>)
    ensures
        match r {
            Ok(rows) => csv_rows(data@, delim) == Some(rows.deep_view()),
            Err(_) => csv_rows(data@, delim) is None,
        },
{
    let mut rdr = csv::ReaderBuilder::new().has_headers(false).delimiter(delim).from_reader(data);
    let records = rdr.records().collect::<Result<Vec<csv::StringRecord>, csv::Error>>()?;
    Ok(records.iter().map(|rec| rec.iter().map(String::from).collect()).collect())
}

/// Which input a read error came from.
#[derive(Clone, Copy, Debug, PartialEq, Eq, Structural)]
pub enum Side {
    First,
    Second,
}

/// Why a comparison cannot go ahead.
#[derive(Debug)]
pub enum LoadError {
    /// One input could not be read as delimited text.
    Read { side: Side, error: csv::Error },
    /// The two tables differ in shape.
    Shape(DiffError),
}

/// Two tables of the same shape, and the columns to compare in every row.
pub struct Comparison {
    pub table1: Vec<Vec<String>>,
    pub table2: Vec<Vec<String>>,
    /// For each column, whether it holds a number in every row of both tables.
    pub flags: Vec<bool>,
    /// Indices of the columns that hold a number in every row of both tables.
    pub columns: Vec<usize>,
}

impl Comparison {
    /// The tables are the ones given and `columns` lists exactly their float
    /// columns.
    pub open spec fn describes(&self, t1: Table, t2: Table) -> bool {
        &&& self.table1.deep_view() == t1
        &&& self.table2.deep_view() == t2
        &&& classify_result(t1, t2, Ok(classification(t1, t2)))
        &&& self.flags@ == classification(t1, t2)
        &&& flagged_columns(classification(t1, t2), self.columns@)
        &&& self.columns@ == indices_where(self.flags@.len() as int, |i: int| self.flags@[i])
    }

    /// The comparison is consistent with its own tables.
    pub open spec fn wf(&self) -> bool {
        self.describes(self.table1.deep_view(), self.table2.deep_view())
    }

    /// The cells of row `r` to compare, as pairs of column indices into the
    /// first and the second table. Each side takes, in column order, the
    /// flagged cells that hold a number; where the two sides disagree in
    /// count the row is refused. On consistent tables both sides are the
    /// listed columns.
    pub fn row_pairs(&self, r: usize) -> (res: Result<Vec<(usize, usize)>, DiffError>)
        requires
            self.wf(),
            r < self.table1@.len(),
        ensures
            res matches Ok(p) && p@ == Seq::new(
                self.columns@.len(),
                |k: int| (self.columns@[k], self.columns@[k]),
            ),
    {
        let ghost t1 = self.table1.deep_view();
        let ghost t2 = self.table2.deep_view();
        let ghost fl = self.flags@;
        let f1 = numeric_cells(&self.table1[r], &self.flags);
        let f2 = numeric_cells(&self.table2[r], &self.flags);
        assert(t1[r as int] == self.table1[r as int].deep_view());
        assert(t2[r as int] == self.table2[r as int].deep_view());
        proof {
            let row1 = t1[r as int];
            let row2 = t2[r as int];
            assert forall|i: int| 0 <= i < fl.len() implies (fl[i] && i < row1.len() && sci_text(
                row1[i],
            )) == fl[i] by {
                if fl[i] {
                    assert(float_column(t1, t2, i));
                    assert(numeric_at(t1, t2, r as int, i));
                }
            }
            lemma_indices_agree(
                fl.len() as int,
                |i: int| fl[i] && i < row1.len() && sci_text(row1[i]),
                |i: int| fl[i],
            );
            assert forall|i: int| 0 <= i < fl.len() implies (fl[i] && i < row2.len() && sci_text(
                row2[i],
            )) == fl[i] by {
                if fl[i] {
                    assert(float_column(t1, t2, i));
                    assert(numeric_at(t1, t2, r as int, i));
                }
            }
            lemma_indices_agree(
                fl.len() as int,
                |i: int| fl[i] && i < row2.len() && sci_text(row2[i]),
                |i: int| fl[i],
            );
        }
        if f1.len() == 0 && f2.len() == 0 {
            let empty: Vec<(usize, usize)> = Vec::new();
            assert(empty@ =~= Seq::new(
                self.columns@.len(),
                |k: int| (self.columns@[k], self.columns@[k]),
            ));
            return Ok(empty);
        }
        if f1.len() != f2.len() {
            return Err(DiffError::FloatLayout { line: r + 1 });
        }
        let mut pairs: Vec<(usize, usize)> = Vec::new();
        let mut k: usize = 0;
        while k < f1.len()
            invariant
                f1@ == self.columns@,
                f2@ == self.columns@,
                0 <= k <= f1@.len(),
                pairs@ =~= Seq::new(k as nat, |j: int| (self.columns@[j], self.columns@[j])),
            decreases f1@.len() - k,
        {
            pairs.push((f1[k], f2[k]));
            k = k + 1;
        }
        Ok(pairs)
    }
}

/// In column order, the flagged cells of a row that hold a number.
fn numeric_cells(row: &Vec<String>, flags: &Vec<bool>) -> (r: Vec<usize>)
    ensures
        r@ == indices_where(
            flags@.len() as int,
            |i: int| flags@[i] && i < row.deep_view().len() && sci_text(row.deep_view()[i]),
        ),
{
    let ghost rv = row.deep_view();
    let ghost keep = |i: int| flags@[i] && i < rv.len() && sci_text(rv[i]);
    let mut cells: Vec<usize> = Vec::new();
    let mut i: usize = 0;
    while i < flags.len()
        invariant
            0 <= i <= flags@.len(),
            rv == row.deep_view(),
            rv.len() == row@.len(),
            keep == (|i: int| flags@[i] && i < rv.len() && sci_text(rv[i])),
            cells@ == indices_where(i as int, keep),
        decreases flags@.len() - i,
    {
        if flags[i] && i < row.len() {
            assert(rv[i as int] == row[i as int]@);
            if is_sci_float(row[i].as_str()) {
                cells.push(i);
            }
        }
        i = i + 1;
    }
    cells
}

/// What comes of comparing two tables already read.
pub open spec fn prepared(t1: Table, t2: Table, r: Result<Comparison, LoadError>) -> bool {
    match r {
        Ok(c) => c.describes(t1, t2),
        Err(LoadError::Shape(e)) => classify_result(t1, t2, Err(e)),
        Err(LoadError::Read { .. }) => false,
    }
}

/// Comparing the same two tables twice gives the same flags and columns, or
/// the same shape error.
pub proof fn lemma_prepare_repeatable(
    t1: Table,
    t2: Table,
    a: Result<Comparison, LoadError>,
    b: Result<Comparison, LoadError>,
)
    requires
        prepared(t1, t2, a),
        prepared(t1, t2, b),
    ensures
        a is Ok <==> b is Ok,
        a matches Ok(x) ==> (b matches Ok(y) && x.flags@ == y.flags@ && x.columns@ == y.columns@
            && x.table1.deep_view() == y.table1.deep_view() && x.table2.deep_view()
            == y.table2.deep_view()),
        a matches Err(LoadError::Shape(e)) ==> b == Err::<Comparison, LoadError>(
            LoadError::Shape(e),
        ),
{
    if let Err(LoadError::Shape(e)) = a {
        if let Err(LoadError::Shape(f)) = b {
            if let DiffError::ColumnCount { line: l1, .. } = e {
                if let DiffError::ColumnCount { line: l2, .. } = f {
                    if l1 < l2 {
                        assert(t1[l1 - 1].len() == t2[l1 - 1].len());
                    } else if l2 < l1 {
                        assert(t1[l2 - 1].len() == t2[l2 - 1].len());
                    }
                }
            }
        }
    }
}

/// Swapping the two tables gives the same flags and columns; a shape error
/// comes at the same line with the two counts swapped.
pub proof fn lemma_prepare_symmetric(
    t1: Table,
    t2: Table,
    a: Result<Comparison, LoadError>,
    b: Result<Comparison, LoadError>,
)
    requires
        prepared(t1, t2, a),
        prepared(t2, t1, b),
    ensures
        a is Ok <==> b is Ok,
        a matches Ok(x) ==> (b matches Ok(y) && x.flags@ == y.flags@ && x.columns@
            == y.columns@),
        a matches Err(LoadError::Shape(DiffError::RowCount { rows1, rows2 })) ==> b == Err::<
            Comparison,
            LoadError,
        >(LoadError::Shape(DiffError::RowCount { rows1: rows2, rows2: rows1 })),
        a matches Err(LoadError::Shape(DiffError::ColumnCount { line, cols1, cols2 })) ==> b
            == Err::<Comparison, LoadError>(
            LoadError::Shape(DiffError::ColumnCount { line, cols1: cols2, cols2: cols1 }),
        ),
{
    lemma_classification_symmetric(t1, t2);
    if let Err(LoadError::Shape(e)) = a {
        if let Err(LoadError::Shape(f)) = b {
            if let DiffError::ColumnCount { line: l1, .. } = e {
                if let DiffError::ColumnCount { line: l2, .. } = f {
                    if l1 < l2 {
                        assert(t2[l1 - 1].len() == t1[l1 - 1].len());
                    } else if l2 < l1 {
                        assert(t1[l2 - 1].len() == t2[l2 - 1].len());
                    }
                }
            }
        }
    }
}

/// Checks the shape of two tables already read and lists the columns to
/// compare.
pub fn prepare_tables(t1: Vec<Vec<String>>, t2: Vec<Vec<String>>) -> (r: Result<
    Comparison,
    LoadError,
>)
    ensures
        prepared(t1.deep_view(), t2.deep_view(), r),
{
    match classify_columns(&t1, &t2) {
        Err(e) => Err(LoadError::Shape(e)),
        Ok(flags) => {
            let columns = float_columns(&flags);
            Ok(Comparison { table1: t1, table2: t2, flags, columns })
        },
    }
}

/// Reads both inputs with field delimiter `delim`, checks their shape and
/// lists the columns to compare.
pub fn prepare(data1: &[u8], data2: &[u8], delim: u8) -> (r: Result<Comparison, LoadError>)
    ensures
        match (csv_rows(data1@, delim), csv_rows(data2@, delim)) {
            (None, _) => r matches Err(LoadError::Read { side: Side::First, .. }),
            (Some(_), None) => r matches Err(LoadError::Read { side: Side::Second, .. }),
            (Some(t1), Some(t2)) => prepared(t1, t2, r),
        },
{
    let t1 = match read_rows(data1, delim) {
        Ok(t) => t,
        Err(error) => {
            return Err(LoadError::Read { side: Side::First, error });
        },
    };
    let t2 = match read_rows(data2, delim) {
        Ok(t) => t,
        Err(error) => {
            return Err(LoadError::Read { side: Side::Second, error });
        },
    };
    prepare_tables(t1, t2)
}

} // verus!
