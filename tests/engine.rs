use f06csvdiff::classify::{classify_columns, float_columns, DiffError};
use f06csvdiff::load::{prepare, prepare_tables, LoadError, Side};
use f06csvdiff::render::{
    align_text, decimal_text, format_table, join_spaced, Alignment, MetricFields, Report,
};
use f06csvdiff::token::is_sci_float;

fn table(rows: &[&[&str]]) -> Vec<Vec<String>> {
    rows.iter().map(|r| r.iter().map(|c| c.to_string()).collect()).collect()
}

fn strings(cells: &[&str]) -> Vec<String> {
    cells.iter().map(|c| c.to_string()).collect()
}

#[test]
fn recognizes_scientific_notation() {
    for s in ["1.0E+00", "1.1E+00", "-2.5e-10", "+1E5", ".5e3", "12.75E3", "0.0E+00"] {
        assert!(is_sci_float(s), "{s}");
    }
}

#[test]
fn rejects_other_text() {
    for s in [
        "3.14", "abc", "", "1e", "e5", "1.e5", " 1e5", "1e5 ", "1e5x", "inf", "NaN", "1e+", "+-1e5",
        "1.2.3e4", "1e5e5", "1e5.0", "1E-", "..5e1",
    ] {
        assert!(!is_sci_float(s), "{s}");
    }
}

#[test]
fn text_cell_excludes_column() {
    let t1 = table(&[&["1.0E+00", "abc"]]);
    let t2 = table(&[&["1.0E+00", "2.0E+00"]]);
    let flags = classify_columns(&t1, &t2).unwrap();
    assert_eq!(flags, vec![true, false]);
    assert_eq!(float_columns(&flags), vec![0]);
}

#[test]
fn exclusion_holds_for_every_row() {
    let t1 = table(&[&["x", "1e0", "2e0"], &["y", "3e0", "plain"], &["z", "4e0", "5e0"]]);
    let t2 = table(&[&["x", "1e1", "2e1"], &["y", "3e1", "6e1"], &["z", "4e1", "5e1"]]);
    let flags = classify_columns(&t1, &t2).unwrap();
    assert_eq!(flags, vec![false, true, false]);
    assert_eq!(float_columns(&flags), vec![1]);
}

#[test]
fn mixed_only_column_leaves_nothing_to_compare() {
    let t1 = table(&[&["1.0E+00"], &["abc"]]);
    let t2 = table(&[&["1.0E+00"], &["2.0E+00"]]);
    let flags = classify_columns(&t1, &t2).unwrap();
    assert_eq!(flags, vec![false]);
    assert!(float_columns(&flags).is_empty());
}

#[test]
fn row_count_mismatch_is_reported() {
    let t1 = table(&[&["1e0"]]);
    let t2 = table(&[&["1e0"], &["2e0"]]);
    assert_eq!(classify_columns(&t1, &t2), Err(DiffError::RowCount { rows1: 1, rows2: 2 }));
    assert_eq!(classify_columns(&t2, &t1), Err(DiffError::RowCount { rows1: 2, rows2: 1 }));
}

#[test]
fn column_count_mismatch_names_first_line() {
    let t1 = table(&[&["1e0"], &["1e0", "2e0"], &["1e0"]]);
    let t2 = table(&[&["1e0"], &["1e0"], &["1e0", "5e0"]]);
    assert_eq!(
        classify_columns(&t1, &t2),
        Err(DiffError::ColumnCount { line: 2, cols1: 2, cols2: 1 })
    );
}

#[test]
fn empty_tables_have_no_columns() {
    let flags = classify_columns(&Vec::new(), &Vec::new()).unwrap();
    assert!(flags.is_empty());
    assert!(float_columns(&flags).is_empty());
}

#[test]
fn classification_ignores_argument_order() {
    let t1 = table(&[&["a", "1e0", "2e0"], &["b", "3e0", "4e0"]]);
    let t2 = table(&[&["a", "1e1", "no"], &["b", "3e1", "4e1"]]);
    assert_eq!(classify_columns(&t1, &t2), classify_columns(&t2, &t1));
    assert_eq!(classify_columns(&t1, &t2).unwrap(), vec![false, true, false]);
}

#[test]
fn classification_is_repeatable() {
    let t1 = table(&[&["a", "1e0"], &["b", "3e0"]]);
    let t2 = table(&[&["a", "1e1"], &["b", "3e1"]]);
    assert_eq!(classify_columns(&t1, &t2), classify_columns(&t1, &t2));
}

#[test]
fn prepare_reads_both_inputs() {
    let c = prepare(b"id,1.0E+00,x\nid2,2.0E+00,3e0\n", b"id,1.1E+00,2e0\nid2,2.5E+00,4e0\n", b',')
        .unwrap();
    assert_eq!(c.columns, vec![1]);
    assert_eq!(c.table1[1][1], "2.0E+00");
    assert_eq!(c.table2[0][0], "id");
}

#[test]
fn row_pairs_list_the_numeric_columns() {
    let c = prepare(b"a,1e0,2e0,x\nb,3e0,4e0,5e0\n", b"a,1e1,2e1,6e0\nb,3e1,4e1,7e0\n", b',')
        .unwrap();
    assert_eq!(c.flags, vec![false, true, true, false]);
    assert_eq!(c.row_pairs(0), Ok(vec![(1, 1), (2, 2)]));
    assert_eq!(c.row_pairs(1), Ok(vec![(1, 1), (2, 2)]));
}

#[test]
fn row_pairs_empty_without_numeric_columns() {
    let c = prepare(b"a,b\n", b"c,1e0\n", b',').unwrap();
    assert_eq!(c.row_pairs(0), Ok(vec![]));
}

#[test]
fn prepare_uses_the_delimiter() {
    let c = prepare(b"1e0;2e0\n", b"3e0;x\n", b';').unwrap();
    assert_eq!(c.columns, vec![0]);
    assert_eq!(c.table2[0], vec!["3e0".to_string(), "x".to_string()]);
}

#[test]
fn prepare_reports_which_input_is_unreadable() {
    let ragged = b"1e0,2e0\n1e0\n";
    let good = b"1e0\n1e0\n";
    assert!(matches!(
        prepare(ragged, good, b','),
        Err(LoadError::Read { side: Side::First, .. })
    ));
    assert!(matches!(
        prepare(good, ragged, b','),
        Err(LoadError::Read { side: Side::Second, .. })
    ));
}

#[test]
fn prepare_reports_row_counts() {
    let r = prepare(b"1e0\n", b"1e0\n2e0\n", b',');
    assert!(matches!(r, Err(LoadError::Shape(DiffError::RowCount { rows1: 1, rows2: 2 }))));
}

#[test]
fn prepare_tables_reports_column_counts() {
    let r = prepare_tables(table(&[&["1e0", "2e0"]]), table(&[&["1e0"]]));
    assert!(matches!(
        r,
        Err(LoadError::Shape(DiffError::ColumnCount { line: 1, cols1: 2, cols2: 1 }))
    ));
}

#[test]
fn alignment_names_in_any_case() {
    assert_eq!(Alignment::from_str("left"), Ok(Alignment::Left));
    assert_eq!(Alignment::from_str("RIGHT"), Ok(Alignment::Right));
    assert_eq!(Alignment::from_str("Center"), Ok(Alignment::Center));
    assert_eq!(Alignment::from_lowercase("center"), Some(Alignment::Center));
    assert_eq!(Alignment::from_lowercase("Center"), None);
}

#[test]
fn unknown_alignment_is_an_error() {
    assert_eq!(
        Alignment::from_str("Middle"),
        Err("Invalid alignment: Middle. Must be left, right, or center".to_string())
    );
}

#[test]
fn pads_text_to_width() {
    assert_eq!(align_text("ab", 5, &Alignment::Left), "ab   ");
    assert_eq!(align_text("ab", 5, &Alignment::Right), "   ab");
    assert_eq!(align_text("ab", 5, &Alignment::Center), " ab  ");
    assert_eq!(align_text("ab", 6, &Alignment::Center), "  ab  ");
    assert_eq!(align_text("abcdef", 3, &Alignment::Right), "abcdef");
    assert_eq!(align_text("abc", 3, &Alignment::Left), "abc");
}

#[test]
fn writes_decimal_numbers() {
    assert_eq!(decimal_text(0), "0");
    assert_eq!(decimal_text(7), "7");
    assert_eq!(decimal_text(10), "10");
    assert_eq!(decimal_text(12345), "12345");
    assert_eq!(decimal_text(usize::MAX), usize::MAX.to_string());
}

#[test]
fn joins_with_single_spaces() {
    assert_eq!(join_spaced(&strings(&["a", "bc", "d"])), "a bc d");
    assert_eq!(join_spaced(&strings(&["a", "", "d"])), "a  d");
    assert_eq!(join_spaced(&strings(&[])), "");
}

#[test]
fn table_pads_each_column() {
    let lines = format_table(&strings(&["name", "x"]), &strings(&["a", "long"]), &Alignment::Left);
    assert_eq!(lines, strings(&["name x   ", "a    long"]));
    let lines = format_table(&strings(&["h1", "h2", "h3"]), &strings(&["v"]), &Alignment::Right);
    assert_eq!(lines, strings(&["h1 h2 h3", " v"]));
}

fn metric(metric: &str, first: &str, second: &str, line: usize, passed: bool) -> MetricFields {
    MetricFields {
        metric: metric.to_string(),
        first: first.to_string(),
        second: second.to_string(),
        line,
        passed,
    }
}

fn report(ratio: Option<MetricFields>, diff: Option<MetricFields>) -> Report {
    Report { name1: "a.csv".to_string(), name2: "b.csv".to_string(), ratio, diff }
}

#[test]
fn compact_with_one_metric() {
    let r = report(None, Some(metric("1.00E-1", "+1.000000E0", "+1.100000E0", 1, false)));
    assert_eq!(r.compact(), "a.csv b.csv 1.00E-1 +1.000000E0 +1.100000E0 1 FAILED");
    let r = report(Some(metric("10.00", "+1.000000E0", "+1.100000E0", 3, true)), None);
    assert_eq!(r.compact(), "a.csv b.csv 10.00 +1.000000E0 +1.100000E0 3 PASSED");
}

#[test]
fn compact_with_both_metrics() {
    let r = report(
        Some(metric("10.00", "+1.000000E0", "+1.100000E0", 1, true)),
        Some(metric("1.00E-1", "+1.000000E0", "+1.100000E0", 12, false)),
    );
    assert_eq!(
        r.compact(),
        "a.csv b.csv 10.00 +1.000000E0 +1.100000E0 1 PASSED 1.00E-1 +1.000000E0 +1.100000E0 12 FAILED"
    );
}

#[test]
fn explain_lists_each_metric() {
    let r = report(
        Some(metric("10.00", "+1.000000E0", "+1.100000E0", 1, true)),
        Some(metric("1.00E-1", "+1.000000E0", "+1.100000E0", 2, false)),
    );
    assert_eq!(
        r.explain(),
        strings(&[
            "files: a.csv and b.csv",
            "",
            "maximum percent difference seen: 10.00%",
            "the values: +1.000000E0 and +1.100000E0 (line 1)",
            "result: PASSED",
            "",
            "maximum absolute difference seen: 1.00E-1",
            "the values: +1.000000E0 and +1.100000E0 (line 2)",
            "result: FAILED",
        ])
    );
    let r = report(None, Some(metric("0.00E0", "+0.000000E0", "+0.000000E0", 0, true)));
    assert_eq!(
        r.explain(),
        strings(&[
            "files: a.csv and b.csv",
            "",
            "maximum absolute difference seen: 0.00E0",
            "the values: +0.000000E0 and +0.000000E0 (line 0)",
            "result: PASSED",
        ])
    );
}

#[test]
fn table_headers_follow_the_metrics() {
    let r = report(Some(metric("10.00", "+1.000000E0", "+1.100000E0", 1, true)), None);
    assert_eq!(
        r.headers(),
        strings(&["a.csv", "b.csv", "ratio_%", "val1_r", "val2_r", "line_r", "status_r"])
    );
    let r = report(None, Some(metric("1.00E-1", "+1.000000E0", "+1.100000E0", 1, false)));
    assert_eq!(
        r.headers(),
        strings(&["a.csv", "b.csv", "abs_diff", "val1_d", "val2_d", "line_d", "status_d"])
    );
}

#[test]
fn table_aligns_header_and_row() {
    let r = report(None, Some(metric("1.00E-1", "+1.000000E0", "+1.100000E0", 1, false)));
    let lines = r.table(&Alignment::Left);
    assert_eq!(
        lines,
        strings(&[
            "a.csv   b.csv       abs_diff    val1_d val2_d line_d status_d",
            "1.00E-1 +1.000000E0 +1.100000E0 1      FAILED",
        ])
    );
}

/// Largest absolute difference over the listed columns, as the program
/// computes it from the prepared tables.
fn largest_diff(data1: &[u8], data2: &[u8]) -> (f64, f64, f64, usize) {
    let c = prepare(data1, data2, b',').unwrap();
    let mut best = (0.0, 0.0, 0.0, 0);
    for (line, (r1, r2)) in c.table1.iter().zip(&c.table2).enumerate() {
        for &col in &c.columns {
            let a: f64 = r1[col].parse().unwrap();
            let b: f64 = r2[col].parse().unwrap();
            if (a - b).abs() > best.0 {
                best = ((a - b).abs(), a, b, line + 1);
            }
        }
    }
    best
}

#[test]
fn single_cell_difference_fails_tight_threshold() {
    let (d, a, b, line) = largest_diff(b"1.0E+00\n", b"1.1E+00\n");
    assert!(d > 0.05);
    let r = report(
        None,
        Some(metric(&format!("{d:.2E}"), &format!("{a:+.6E}"), &format!("{b:+.6E}"), line, d <= 0.05)),
    );
    assert_eq!(r.compact(), "a.csv b.csv 1.00E-1 +1.000000E0 +1.100000E0 1 FAILED");
}

#[test]
fn single_cell_ratio_passes_loose_threshold() {
    let c = prepare(b"1.0E+00\n", b"1.1E+00\n", b',').unwrap();
    assert_eq!(c.columns, vec![0]);
    let a: f64 = c.table1[0][0].parse().unwrap();
    let b: f64 = c.table2[0][0].parse().unwrap();
    let percent = ((a.abs().max(b.abs()) / a.abs().min(b.abs()) - 1.0) * 100.0).abs();
    let passed = percent <= 0.2 * 100.0;
    let r = report(
        Some(metric(&format!("{percent:.2}"), &format!("{a:+.6E}"), &format!("{b:+.6E}"), 1, passed)),
        None,
    );
    assert_eq!(r.compact(), "a.csv b.csv 10.00 +1.000000E0 +1.100000E0 1 PASSED");
}

#[test]
fn mixed_column_keeps_neutral_extrema() {
    let (d, _, _, line) = largest_diff(b"1.0E+00\nabc\n", b"5.0E+00\n2.0E+00\n");
    assert_eq!(d, 0.0);
    assert_eq!(line, 0);
}
