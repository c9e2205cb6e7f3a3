//! Laying out the report text.
use vstd::prelude::*;
use vstd::utf8::encode_utf8;

verus! {

/// How a field is padded to its column's width.
#[derive(Clone, Copy, Debug, PartialEq, Eq, Structural)]
pub enum Alignment {
    Left,
    Right,
    Center,
}

pub uninterp spec fn lower_of(s: Seq<char>) -> Seq<char>;

/// Relies on str::to_lowercase: the lowercase text depends on the text alone.
#[verifier::external_body]
fn lowercase(s: &str) -> (r: String)
    ensures
        r@ == lower_of(s@),
{
    s.to_lowercase()
}

/// The alignment a lowercase name stands for.
pub open spec fn alignment_named(name: Seq<char>) -> Option<Alignment> {
    if name == "left"@ {
        Some(Alignment::Left)
    } else if name == "right"@ {
        Some(Alignment::Right)
    } else if name == "center"@ {
        Some(Alignment::Center)
    } else {
        None
    }
}

/// The message for a name that is no alignment.
pub open spec fn invalid_alignment_message(s: Seq<char>) -> Seq<char> {
    "Invalid alignment: "@ + s + ". Must be left, right, or center"@
}

impl Alignment {
    /// The alignment that a lowercase name stands for.
    pub fn from_lowercase(name: &str) -> (r: Option<Alignment>)
        ensures
            r == alignment_named(name@),
    {
        let n = String::from_str(name);
        if n == String::from_str("left") {
            Some(Alignment::Left)
        } else if n == String::from_str("right") {
            Some(Alignment::Right)
        } else if n == String::from_str("center") {
            Some(Alignment::Center)
        } else {
            None
        }
    }

    /// Reads an alignment name, in any letter case.
    pub fn from_str(s: &str) -> (r: Result<Alignment, String>)
        ensures
            match alignment_named(lower_of(s@)) {
                Some(a) => r == Ok::<Alignment, String>(a),
                None => r matches Err(m) && m@ == invalid_alignment_message(s@),
            },
    {
        let lower = lowercase(s);
        match Alignment::from_lowercase(lower.as_str()) {
            Some(a) => Ok(a),
            None => {
                let mut m = String::from_str("Invalid alignment: ");
                m.append(s);
                m.append(". Must be left, right, or center");
                Err(m)
            },
        }
    }
}

/// The length of a text in UTF-8 bytes, as `str::len` gives it.
pub open spec fn byte_len(s: Seq<char>) -> int {
    encode_utf8(s).len() as usize as int
}

/// `n` spaces.
pub open spec fn spaces(n: int) -> Seq<char> {
    Seq::new(n as nat, |i: int| ' ')
}

/// `text` padded with spaces to `width` bytes; longer text stays as it is.
/// Centred text gets the odd space on its right.
pub open spec fn aligned(text: Seq<char>, width: int, a: Alignment) -> Seq<char> {
    let pad = width - byte_len(text);
    if pad <= 0 {
        text
    } else {
        match a {
            Alignment::Left => text + spaces(pad),
            Alignment::Right => spaces(pad) + text,
            Alignment::Center => spaces(pad / 2) + text + spaces(pad - pad / 2),
        }
    }
}

fn push_spaces(s: &mut String, n: usize)
    ensures
        final(s)@ == old(s)@ + spaces(n as int),
{
    let mut i: usize = 0;
    while i < n
        invariant
            0 <= i <= n,
            s@ == old(s)@ + spaces(i as int),
        decreases n - i,
    {
        proof {
            reveal_strlit(" ");
        }
        s.append(" ");
        assert(old(s)@ + spaces(i + 1) =~= old(s)@ + spaces(i as int) + " "@);
        i = i + 1;
    }
}

/// Pads `text` to `width` bytes as `alignment` says.
pub fn align_text(text: &str, width: usize, alignment: &Alignment) -> (r: String)
    ensures
        r@ == aligned(text@, width as int, *alignment),
{
    let len = text.len();
    assert(len as int == byte_len(text@));
    if len >= width {
        return String::from_str(text);
    }
    let padding = width - len;
    let mut out = String::new();
    assert(Seq::<char>::empty() + text@ =~= text@);
    assert(Seq::<char>::empty() + spaces((padding / 2) as int) =~= spaces((padding / 2) as int));
    assert(Seq::<char>::empty() + spaces(padding as int) =~= spaces(padding as int));
    match alignment {
        Alignment::Left => {
            out.append(text);
            push_spaces(&mut out, padding);
        },
        Alignment::Right => {
            push_spaces(&mut out, padding);
            out.append(text);
        },
        Alignment::Center => {
            let left_pad = padding / 2;
            push_spaces(&mut out, left_pad);
            out.append(text);
            push_spaces(&mut out, padding - left_pad);
        },
    }
    assert(out@ =~= aligned(text@, width as int, *alignment));
    out
}

/// The decimal digits of `n`.
pub open spec fn decimal(n: nat) -> Seq<char>
    decreases n,
{
    if n < 10 {
        seq!["0123456789"@[n as int]]
    } else {
        decimal(n / 10) + seq!["0123456789"@[(n % 10) as int]]
    }
}

fn push_decimal(s: &mut String, n: usize)
    ensures
        final(s)@ == old(s)@ + decimal(n as nat),
    decreases n,
{
    if n >= 10 {
        push_decimal(s, n / 10);
    }
    let digits = "0123456789";
    proof {
        reveal_strlit("0123456789");
    }
    assert(digits.is_ascii());
    let k = n % 10;
    let d = digits.substring_ascii(k, k + 1);
    assert(d@ =~= seq!["0123456789"@[k as int]]);
    s.append(d);
    assert(s@ =~= old(s)@ + decimal(n as nat));
}

/// `n` written in decimal.
pub fn decimal_text(n: usize) -> (r: String)
    ensures
        r@ == decimal(n as nat),
{
    let mut s = String::new();
    push_decimal(&mut s, n);
    assert(s@ =~= decimal(n as nat));
    s
}

/// The parts separated by single spaces.
pub open spec fn joined(parts: Seq<Seq<char>>) -> Seq<char>
    decreases parts.len(),
{
    if parts.len() == 0 {
        Seq::empty()
    } else if parts.len() == 1 {
        parts[0]
    } else {
        joined(parts.drop_last()) + seq![' '] + parts.last()
    }
}

/// Joins the parts with single spaces.
pub fn join_spaced(parts: &Vec<String>) -> (r: String)
    ensures
        r@ == joined(parts.deep_view()),
{
    let ghost p = parts.deep_view();
    let mut out = String::new();
    let mut i: usize = 0;
    while i < parts.len()
        invariant
            0 <= i <= parts@.len() == p.len(),
            p == parts.deep_view(),
            out@ == joined(p.take(i as int)),
        decreases parts@.len() - i,
    {
        let ghost before = out@;
        assert(p.take(i + 1).drop_last() =~= p.take(i as int));
        assert(p[i as int] == parts[i as int]@);
        if i > 0 {
            proof {
                reveal_strlit(" ");
            }
            out.append(" ");
            assert(" "@ =~= seq![' ']);
        } else {
            assert(Seq::<char>::empty() + parts[0]@ =~= parts[0]@);
        }
        out.append(parts[i].as_str());
        i = i + 1;
    }
    assert(p.take(p.len() as int) =~= p);
    out
}

fn push_line(v: &mut Vec<String>, s: String)
    ensures
        final(v).deep_view() == old(v).deep_view().push(s@),
{
    let ghost sv = s@;
    v.push(s);
    assert(v.deep_view() =~= old(v).deep_view().push(sv));
}

/// The width of column `i`: the longest of its header and its cell, in bytes.
pub open spec fn column_width(headers: Seq<Seq<char>>, row: Seq<Seq<char>>, i: int) -> int {
    if i < row.len() && byte_len(row[i]) > byte_len(headers[i]) {
        byte_len(row[i])
    } else {
        byte_len(headers[i])
    }
}

/// The first `n` cells, each padded to its column's width.
pub open spec fn aligned_cells(
    cells: Seq<Seq<char>>,
    headers: Seq<Seq<char>>,
    row: Seq<Seq<char>>,
    n: int,
    a: Alignment,
) -> Seq<Seq<char>> {
    Seq::new(n as nat, |i: int| aligned(cells[i], column_width(headers, row, i), a))
}

/// The header line and the data line of a table with one row. A column is as
/// wide as its header and its cell; a cell without a header is left out.
pub open spec fn table_text(headers: Seq<Seq<char>>, row: Seq<Seq<char>>, a: Alignment) -> Seq<
    Seq<char>,
> {
    let n = if row.len() < headers.len() {
        row.len() as int
    } else {
        headers.len() as int
    };
    seq![
        joined(aligned_cells(headers, headers, row, headers.len() as int, a)),
        joined(aligned_cells(row, headers, row, n, a)),
    ]
}

/// Lays out a header line and one data line with each column padded to a
/// common width.
pub fn format_table(headers: &Vec<String>, row: &Vec<String>, alignment: &Alignment) -> (r: Vec<
    String,
>)
    ensures
        r.deep_view() == table_text(headers.deep_view(), row.deep_view(), *alignment),
{
    let ghost h = headers.deep_view();
    let ghost c = row.deep_view();
    let mut widths: Vec<usize> = Vec::new();
    let mut i: usize = 0;
    while i < headers.len()
        invariant
            0 <= i <= headers@.len() == h.len(),
            h == headers.deep_view(),
            c == row.deep_view(),
            row@.len() == c.len(),
            widths@.len() == i,
            forall|j: int| 0 <= j < i ==> #[trigger] widths@[j] as int == column_width(h, c, j),
        decreases headers@.len() - i,
    {
        assert(h[i as int] == headers[i as int]@);
        let mut w = headers[i].as_str().len();
        if i < row.len() {
            assert(c[i as int] == row[i as int]@);
            let l = row[i].as_str().len();
            if l > w {
                w = l;
            }
        }
        widths.push(w);
        i = i + 1;
    }
    let n = if row.len() < headers.len() {
        row.len()
    } else {
        headers.len()
    };
    let mut top: Vec<String> = Vec::new();
    let mut bottom: Vec<String> = Vec::new();
    let mut i: usize = 0;
    while i < headers.len()
        invariant
            0 <= i <= headers@.len() == h.len() == widths@.len(),
            n <= h.len(),
            n <= row@.len(),
            h == headers.deep_view(),
            c == row.deep_view(),
            row@.len() == c.len(),
            forall|j: int| 0 <= j < h.len() ==> #[trigger] widths@[j] as int == column_width(h, c, j),
            top.deep_view() =~= aligned_cells(h, h, c, i as int, *alignment),
            bottom.deep_view() =~= aligned_cells(c, h, c, if i < n { i as int } else { n as int }, *alignment),
        decreases headers@.len() - i,
    {
        assert(h[i as int] == headers[i as int]@);
        let a = align_text(headers[i].as_str(), widths[i], alignment);
        push_line(&mut top, a);
        if i < n {
            assert(c[i as int] == row[i as int]@);
            let b = align_text(row[i].as_str(), widths[i], alignment);
            push_line(&mut bottom, b);
        }
        i = i + 1;
    }
    let mut lines: Vec<String> = Vec::new();
    push_line(&mut lines, join_spaced(&top));
    push_line(&mut lines, join_spaced(&bottom));
    assert(lines.deep_view() =~= table_text(h, c, *alignment));
    lines
}

/// The status word of a metric.
pub open spec fn status_word(passed: bool) -> Seq<char> {
    if passed {
        "PASSED"@
    } else {
        "FAILED"@
    }
}

/// The report fields of one metric. The three numbers arrive already written
/// out: the metric itself, then the two values that produced it.
pub struct MetricFields {
    pub metric: String,
    pub first: String,
    pub second: String,
    /// 1-based line of the two values.
    pub line: usize,
    pub passed: bool,
}

impl MetricFields {
    /// The fields in report order: metric, both values, line, status.
    pub open spec fn cells(&self) -> Seq<Seq<char>> {
        seq![
            self.metric@,
            self.first@,
            self.second@,
            decimal(self.line as nat),
            status_word(self.passed),
        ]
    }

    /// `the values: <first> and <second> (line <n>)`.
    pub open spec fn values_line(&self) -> Seq<char> {
        "the values: "@ + self.first@ + " and "@ + self.second@ + " (line "@ + decimal(
            self.line as nat,
        ) + ")"@
    }

    /// The status as text.
    pub fn status(&self) -> (r: String)
        ensures
            r@ == status_word(self.passed),
    {
        if self.passed {
            String::from_str("PASSED")
        } else {
            String::from_str("FAILED")
        }
    }

    fn push_cells(&self, v: &mut Vec<String>)
        ensures
            final(v).deep_view() == old(v).deep_view() + self.cells(),
    {
        push_line(v, self.metric.clone());
        push_line(v, self.first.clone());
        push_line(v, self.second.clone());
        push_line(v, decimal_text(self.line));
        push_line(v, self.status());
        assert(v.deep_view() =~= old(v).deep_view() + self.cells());
    }

    fn values_text(&self) -> (r: String)
        ensures
            r@ == self.values_line(),
    {
        let mut m = String::from_str("the values: ");
        m.append(self.first.as_str());
        m.append(" and ");
        m.append(self.second.as_str());
        m.append(" (line ");
        let d = decimal_text(self.line);
        m.append(d.as_str());
        m.append(")");
        m
    }
}

/// The cells of an optional metric: none where it was not asked for.
pub open spec fn optional_cells(m: Option<MetricFields>) -> Seq<Seq<char>> {
    match m {
        Some(f) => f.cells(),
        None => Seq::empty(),
    }
}

/// Header labels of the ratio metric.
pub open spec fn ratio_labels() -> Seq<Seq<char>> {
    seq!["ratio_%"@, "val1_r"@, "val2_r"@, "line_r"@, "status_r"@]
}

/// Header labels of the absolute-difference metric.
pub open spec fn diff_labels() -> Seq<Seq<char>> {
    seq!["abs_diff"@, "val1_d"@, "val2_d"@, "line_d"@, "status_d"@]
}

/// The final report: both file names and the metrics that were asked for.
pub struct Report {
    pub name1: String,
    pub name2: String,
    /// Largest ratio, as a percent difference.
    pub ratio: Option<MetricFields>,
    /// Largest absolute difference.
    pub diff: Option<MetricFields>,
}

impl Report {
    /// At least one metric was asked for.
    pub open spec fn has_metric(&self) -> bool {
        self.ratio is Some || self.diff is Some
    }

    /// The file names, then the fields of each metric asked for.
    pub open spec fn fields(&self) -> Seq<Seq<char>> {
        seq![self.name1@, self.name2@] + optional_cells(self.ratio) + optional_cells(self.diff)
    }

    /// The labels of the table header.
    pub open spec fn header_labels(&self) -> Seq<Seq<char>> {
        seq![self.name1@, self.name2@] + (if self.ratio is Some {
            ratio_labels()
        } else {
            Seq::empty()
        }) + (if self.diff is Some {
            diff_labels()
        } else {
            Seq::empty()
        })
    }

    /// The data row of the table: the metric fields without the names.
    pub open spec fn data_row(&self) -> Seq<Seq<char>> {
        optional_cells(self.ratio) + optional_cells(self.diff)
    }

    /// The lines of the verbose report.
    pub open spec fn explained(&self) -> Seq<Seq<char>> {
        seq!["files: "@ + self.name1@ + " and "@ + self.name2@, Seq::empty()] + match self.ratio {
            Some(m) => seq![
                "maximum percent difference seen: "@ + m.metric@ + "%"@,
                m.values_line(),
                "result: "@ + status_word(m.passed),
            ],
            None => Seq::empty(),
        } + (if self.has_both() {
            seq![Seq::empty()]
        } else {
            Seq::empty()
        }) + match self.diff {
            Some(m) => seq![
                "maximum absolute difference seen: "@ + m.metric@,
                m.values_line(),
                "result: "@ + status_word(m.passed),
            ],
            None => Seq::empty(),
        }
    }

    /// Both metrics were asked for.
    pub open spec fn has_both(&self) -> bool {
        self.ratio is Some && self.diff is Some
    }

    /// One line: the file names, then the fields of each metric asked for,
    /// separated by single spaces.
    pub fn compact(&self) -> (r: String)
        requires
            self.has_metric(),
        ensures
            r@ == joined(self.fields()),
    {
        let mut v: Vec<String> = Vec::new();
        push_line(&mut v, self.name1.clone());
        push_line(&mut v, self.name2.clone());
        assert(v.deep_view() =~= seq![self.name1@, self.name2@]);
        match &self.ratio {
            Some(m) => m.push_cells(&mut v),
            None => {},
        }
        assert(v.deep_view() =~= seq![self.name1@, self.name2@] + optional_cells(self.ratio));
        match &self.diff {
            Some(m) => m.push_cells(&mut v),
            None => {},
        }
        assert(v.deep_view() =~= self.fields());
        join_spaced(&v)
    }

    /// The table header labels.
    pub fn headers(&self) -> (r: Vec<String>)
        ensures
            r.deep_view() == self.header_labels(),
    {
        let mut v: Vec<String> = Vec::new();
        push_line(&mut v, self.name1.clone());
        push_line(&mut v, self.name2.clone());
        let ghost base = v.deep_view();
        if self.ratio.is_some() {
            push_line(&mut v, String::from_str("ratio_%"));
            push_line(&mut v, String::from_str("val1_r"));
            push_line(&mut v, String::from_str("val2_r"));
            push_line(&mut v, String::from_str("line_r"));
            push_line(&mut v, String::from_str("status_r"));
        }
        assert(v.deep_view() =~= base + (if self.ratio is Some {
            ratio_labels()
        } else {
            Seq::empty()
        }));
        let ghost mid = v.deep_view();
        if self.diff.is_some() {
            push_line(&mut v, String::from_str("abs_diff"));
            push_line(&mut v, String::from_str("val1_d"));
            push_line(&mut v, String::from_str("val2_d"));
            push_line(&mut v, String::from_str("line_d"));
            push_line(&mut v, String::from_str("status_d"));
        }
        assert(v.deep_view() =~= mid + (if self.diff is Some {
            diff_labels()
        } else {
            Seq::empty()
        }));
        assert(v.deep_view() =~= self.header_labels());
        v
    }

    /// The table: a header line and a data line, padded as `alignment` says.
    pub fn table(&self, alignment: &Alignment) -> (r: Vec<String>)
        ensures
            r.deep_view() == table_text(self.header_labels(), self.data_row(), *alignment),
    {
        let h = self.headers();
        let mut row: Vec<String> = Vec::new();
        match &self.ratio {
            Some(m) => m.push_cells(&mut row),
            None => {},
        }
        assert(row.deep_view() =~= optional_cells(self.ratio));
        match &self.diff {
            Some(m) => m.push_cells(&mut row),
            None => {},
        }
        assert(row.deep_view() =~= self.data_row());
        format_table(&h, &row, alignment)
    }

    /// The lines of the verbose report.
    pub fn explain(&self) -> (r: Vec<String>)
        ensures
            r.deep_view() == self.explained(),
    {
        let mut v: Vec<String> = Vec::new();
        let mut first = String::from_str("files: ");
        first.append(self.name1.as_str());
        first.append(" and ");
        first.append(self.name2.as_str());
        push_line(&mut v, first);
        push_line(&mut v, String::new());
        match &self.ratio {
            Some(m) => {
                let mut l = String::from_str("maximum percent difference seen: ");
                l.append(m.metric.as_str());
                l.append("%");
                push_line(&mut v, l);
                push_line(&mut v, m.values_text());
                let mut s = String::from_str("result: ");
                let st = m.status();
                s.append(st.as_str());
                push_line(&mut v, s);
            },
            None => {},
        }
        if self.ratio.is_some() && self.diff.is_some() {
            push_line(&mut v, String::new());
        }
        match &self.diff {
            Some(m) => {
                let mut l = String::from_str("maximum absolute difference seen: ");
                l.append(m.metric.as_str());
                push_line(&mut v, l);
                push_line(&mut v, m.values_text());
                let mut s = String::from_str("result: ");
                let st = m.status();
                s.append(st.as_str());
                push_line(&mut v, s);
            },
            None => {},
        }
        assert(v.deep_view() =~= self.explained());
        v
    }
}

} // verus!
