use rata::double::{widen, Double};
use rata::eval::{EvalError, FilterError};
use rata::expr::{ComparisonOp, FilterExpr, ParseError};
use rata::source::{apply_filter, filter_mask, DataSource, DataSourceType};
use rata::table::{Column, Table, TableError};

fn read(s: &str) -> Option<Double> {
    s.parse::<f64>().ok().map(|x| Double { bits: x.to_bits() })
}

fn num(x: f64) -> Double {
    Double { bits: x.to_bits() }
}

fn text_col(v: &[Option<&str>]) -> Column {
    Column::Str(v.iter().map(|o| o.map(|s| s.to_string())).collect())
}

fn table(cols: Vec<(&str, Column)>) -> Table {
    let mut t = Table::new();
    for (name, c) in cols {
        t.add_column(name.to_string(), c).unwrap();
    }
    t
}

fn text_cells(t: &Table, i: usize) -> Vec<Option<String>> {
    match t.column(i) {
        Column::Str(v) => v.clone(),
        other => panic!("not text: {:?}", other),
    }
}

fn float_cells(t: &Table, i: usize) -> Vec<Option<f64>> {
    match t.column(i) {
        Column::Float64(v) => v.iter().map(|o| o.map(|d| f64::from_bits(d.bits))).collect(),
        other => panic!("not float: {:?}", other),
    }
}

fn int_cells(t: &Table, i: usize) -> Vec<Option<i64>> {
    match t.column(i) {
        Column::Int64(v) => v.clone(),
        other => panic!("not int: {:?}", other),
    }
}

fn mask_of(text: &str, t: &Table) -> Result<Vec<bool>, EvalError> {
    FilterExpr::parse(text, &read).unwrap().evaluate(t)
}

#[test]
fn price_greater_than_selects_one_row() {
    let t = table(vec![("Price", Column::Float64(vec![Some(num(100.0)), Some(num(6000.0)), Some(num(5000.0))]))]);
    let out = apply_filter("Price > 5000", &t, &read).unwrap();
    assert_eq!(out.num_rows(), 1);
    assert_eq!(float_cells(&out, 0), vec![Some(6000.0)]);
}

#[test]
fn substring_selects_all_instruments() {
    let t = table(vec![("InstrumentID", text_col(&[Some("IC2601"), Some("IC2602"), Some("IC2603")]))]);
    let out = apply_filter("InstrumentID:IC260", &t, &read).unwrap();
    assert_eq!(out.num_rows(), 3);
    assert_eq!(text_cells(&out, 0), text_cells(&t, 0));
}

#[test]
fn conjunction_selects_second_row() {
    let t = table(vec![
        ("InstrumentID", text_col(&[Some("IC2602"), Some("IC2602")])),
        ("Price", Column::Int64(vec![Some(100), Some(6000)])),
    ]);
    let out = apply_filter("InstrumentID = IC2602 AND Price > 5000", &t, &read).unwrap();
    assert_eq!(out.num_rows(), 1);
    assert_eq!(int_cells(&out, 1), vec![Some(6000)]);
}

#[test]
fn negation_selects_middle_row() {
    let t = table(vec![("Status", text_col(&[Some("Closed"), Some("Open"), Some("Closed")]))]);
    let out = apply_filter("NOT Status = Closed", &t, &read).unwrap();
    assert_eq!(text_cells(&out, 0), vec![Some("Open".to_string())]);
}

#[test]
fn missing_column_is_reported() {
    let t = table(vec![("price", Column::Int64(vec![Some(1)]))]);
    let r = apply_filter("qty > 10", &t, &read);
    assert!(matches!(r, Err(FilterError::Eval(EvalError::ColumnNotFound))));
}

#[test]
fn global_search_without_text_columns_fails() {
    let t = table(vec![("n", Column::Int64(vec![Some(1), Some(2)]))]);
    let r = apply_filter("ZZZ", &t, &read);
    assert!(matches!(r, Err(FilterError::Eval(EvalError::NoSearchableColumns))));
}

#[test]
fn blank_filter_keeps_table() {
    let t = table(vec![
        ("a", text_col(&[Some("x"), None])),
        ("b", Column::Int64(vec![Some(1), Some(2)])),
    ]);
    for text in ["", "   "] {
        let out = apply_filter(text, &t, &read).unwrap();
        assert_eq!(out.num_rows(), 2);
        assert_eq!(out.column_names(), t.column_names());
        assert_eq!(text_cells(&out, 0), text_cells(&t, 0));
        assert_eq!(int_cells(&out, 1), int_cells(&t, 1));
    }
}

#[test]
fn result_rows_keep_their_order() {
    let t = table(vec![
        ("k", Column::Int64(vec![Some(5), Some(1), Some(7), Some(3), Some(9)])),
        ("s", text_col(&[Some("e"), Some("a"), Some("g"), Some("c"), Some("i")])),
    ]);
    let out = apply_filter("k >= 3", &t, &read).unwrap();
    assert_eq!(int_cells(&out, 0), vec![Some(5), Some(7), Some(3), Some(9)]);
    assert_eq!(text_cells(&out, 1), vec![Some("e".to_string()), Some("g".to_string()), Some("c".to_string()), Some("i".to_string())]);
}

#[test]
fn double_negation_gives_mask_back() {
    let t = table(vec![("s", text_col(&[Some("ab"), Some("cd"), None]))]);
    let m = mask_of("s:a", &t).unwrap();
    assert_eq!(m, vec![true, false, false]);
    assert_eq!(mask_of("NOT NOT s:a", &t).unwrap(), m);
    // a null row is false under the comparison, so a single negation selects it
    assert_eq!(mask_of("NOT s:a", &t).unwrap(), vec![false, true, true]);
}

#[test]
fn and_or_with_itself_is_idempotent() {
    let t = table(vec![("n", Column::Int64(vec![Some(1), Some(5), None, Some(9)]))]);
    let m = mask_of("n > 3", &t).unwrap();
    assert_eq!(m, vec![false, true, false, true]);
    assert_eq!(mask_of("n > 3 AND n > 3", &t).unwrap(), m);
    assert_eq!(mask_of("n > 3 OR n > 3", &t).unwrap(), m);
}

#[test]
fn and_or_are_commutative() {
    let t = table(vec![
        ("n", Column::Int64(vec![Some(1), Some(5), Some(9)])),
        ("s", text_col(&[Some("x"), Some("y"), Some("x")])),
    ]);
    assert_eq!(mask_of("n > 3 OR s = x", &t).unwrap(), mask_of("s = x OR n > 3", &t).unwrap());
    assert_eq!(mask_of("n > 3 OR s = x", &t).unwrap(), vec![true, true, true]);
    assert_eq!(mask_of("n > 3 AND s = x", &t).unwrap(), mask_of("s = x AND n > 3", &t).unwrap());
    assert_eq!(mask_of("n > 3 AND s = x", &t).unwrap(), vec![false, false, true]);
}

#[test]
fn integer_equality_uses_float_widening() {
    // 2^53 + 1 widens to 2^53
    let big: i64 = 9_007_199_254_740_993;
    let t = table(vec![("n", Column::Int64(vec![Some(big), Some(3), None]))]);
    assert_eq!(mask_of("n = 9007199254740992", &t).unwrap(), vec![true, false, false]);
    assert_eq!(mask_of("n = 3.0", &t).unwrap(), vec![false, true, false]);
    assert_eq!(mask_of("n != 3", &t).unwrap(), vec![true, false, false]);
}

#[test]
fn widening_matches_float_conversion() {
    let samples: [i64; 10] = [0, 1, -1, 3, 1 << 52, (1 << 53) + 1, (1 << 53) + 3, i64::MAX, i64::MIN, -123_456_789_012_345_678];
    for v in samples {
        assert_eq!(widen(v).bits, (v as f64).to_bits(), "value {}", v);
    }
}

#[test]
fn float_comparisons_follow_ieee() {
    let t = table(vec![("x", Column::Float64(vec![Some(num(-0.0)), Some(num(f64::NAN)), Some(num(2.5)), Some(num(-1.0))]))]);
    assert_eq!(mask_of("x = 0", &t).unwrap(), vec![true, false, false, false]);
    assert_eq!(mask_of("x != 0", &t).unwrap(), vec![false, true, true, true]);
    assert_eq!(mask_of("x < 1", &t).unwrap(), vec![true, false, false, true]);
    assert_eq!(mask_of("x >= 2.5", &t).unwrap(), vec![false, false, true, false]);
    assert_eq!(mask_of("x <= -1", &t).unwrap(), vec![false, false, false, true]);
}

#[test]
fn parse_builds_the_tree() {
    let e = FilterExpr::parse("a = 1 or b:x AND NOT c > 'q'", &read).unwrap();
    match e {
        FilterExpr::Or(l, r) => {
            match *l {
                FilterExpr::Comparison { column, op, value, number } => {
                    assert_eq!(column, "a");
                    assert_eq!(op, ComparisonOp::Equal);
                    assert_eq!(value, "1");
                    assert_eq!(number.map(|d| f64::from_bits(d.bits)), Some(1.0));
                }
                other => panic!("{:?}", other),
            }
            match *r {
                FilterExpr::And(a, b) => {
                    assert!(matches!(*a, FilterExpr::Comparison { op: ComparisonOp::Contains, .. }));
                    match *b {
                        FilterExpr::Not(inner) => match *inner {
                            FilterExpr::Comparison { column, op, value, number } => {
                                assert_eq!(column, "c");
                                assert_eq!(op, ComparisonOp::GreaterThan);
                                assert_eq!(value, "q");
                                assert_eq!(number, None);
                            }
                            other => panic!("{:?}", other),
                        },
                        other => panic!("{:?}", other),
                    }
                }
                other => panic!("{:?}", other),
            }
        }
        other => panic!("{:?}", other),
    }
}

#[test]
fn operator_scan_prefers_earlier_listed_operator() {
    // ":" appears first in the text, but "=" is tried before it
    let e = FilterExpr::parse("time:09 = x", &read).unwrap();
    match e {
        FilterExpr::Comparison { column, op, value, .. } => {
            assert_eq!(column, "time:09");
            assert_eq!(op, ComparisonOp::Equal);
            assert_eq!(value, "x");
        }
        other => panic!("{:?}", other),
    }
    match FilterExpr::parse("a >= \"5\"", &read).unwrap() {
        FilterExpr::Comparison { op, value, .. } => {
            assert_eq!(op, ComparisonOp::GreaterOrEqual);
            assert_eq!(value, "5");
        }
        other => panic!("{:?}", other),
    }
}

#[test]
fn text_without_operator_is_global_search() {
    match FilterExpr::parse("  hello world ", &read).unwrap() {
        FilterExpr::Comparison { column, op, value, .. } => {
            assert_eq!(column, "*");
            assert_eq!(op, ComparisonOp::Contains);
            assert_eq!(value, "hello world");
        }
        other => panic!("{:?}", other),
    }
}

#[test]
fn parse_errors() {
    assert_eq!(FilterExpr::parse("   ", &read).unwrap_err(), ParseError::EmptyExpression);
    assert_eq!(FilterExpr::parse("= 5", &read).unwrap_err(), ParseError::InvalidComparison);
    assert_eq!(FilterExpr::parse("a = ''", &read).unwrap_err(), ParseError::InvalidComparison);
    assert_eq!(FilterExpr::parse("x OR a =", &read).unwrap_err(), ParseError::InvalidComparison);
    let t = table(vec![("a", Column::Int64(vec![Some(1)]))]);
    assert!(matches!(apply_filter("a >", &t, &read), Err(FilterError::Parse(ParseError::InvalidComparison))));
}

#[test]
fn type_errors() {
    let t = table(vec![
        ("n", Column::Int64(vec![Some(1)])),
        ("b", Column::Bool(vec![Some(true)])),
        ("s", text_col(&[Some("x")])),
    ]);
    assert_eq!(mask_of("n:1", &t), Err(EvalError::TypeMismatch));
    assert_eq!(mask_of("n = abc", &t), Err(EvalError::CannotParseValue));
    assert_eq!(mask_of("b = 1", &t), Err(EvalError::TypeMismatch));
    assert_eq!(mask_of("b > abc", &t), Err(EvalError::TypeMismatch));
    assert_eq!(mask_of("s > 5", &t), Err(EvalError::TypeMismatch));
    assert_eq!(mask_of("b = abc", &t), Err(EvalError::CannotParseValue));
}

#[test]
fn text_order_comparison_falls_back_to_code_points() {
    let t = table(vec![("time", text_col(&[Some("09:15:00"), Some("09:30:00"), Some("10:00:00"), None]))]);
    assert_eq!(mask_of("time > 09:20:00", &t).unwrap(), vec![false, true, true, false]);
    assert_eq!(mask_of("time <= 09:30:00", &t).unwrap(), vec![true, true, false, false]);
}

#[test]
fn global_search_ors_text_columns() {
    let t = table(vec![
        ("a", text_col(&[Some("apple"), None, Some("kiwi")])),
        ("n", Column::Int64(vec![Some(1), Some(2), Some(3)])),
        ("b", text_col(&[Some("x"), Some("pineapple"), None])),
    ]);
    assert_eq!(mask_of("apple", &t).unwrap(), vec![true, true, false]);
}

#[test]
fn empty_table_filters_to_empty() {
    let t = table(vec![("s", text_col(&[]))]);
    let out = apply_filter("s = x", &t, &read).unwrap();
    assert_eq!(out.num_rows(), 0);
    assert_eq!(out.num_columns(), 1);
}

#[test]
fn table_rejects_bad_columns() {
    let mut t = table(vec![("a", Column::Int64(vec![Some(1), Some(2)]))]);
    assert_eq!(t.add_column("a".to_string(), Column::Bool(vec![None, None])), Err(TableError::DuplicateName));
    assert_eq!(t.add_column("b".to_string(), Column::Bool(vec![None])), Err(TableError::LengthMismatch));
    assert_eq!(t.index_of(&"a".to_string()), Some(0));
    assert_eq!(t.num_columns(), 1);
}

#[test]
fn extensions_name_source_types() {
    assert_eq!(DataSourceType::from_extension("CSV"), Some(DataSourceType::Csv));
    assert_eq!(DataSourceType::from_extension("Parquet"), Some(DataSourceType::Parquet));
    assert_eq!(DataSourceType::from_extension("sqlite3"), Some(DataSourceType::Sqlite));
    assert_eq!(DataSourceType::from_extension("db"), Some(DataSourceType::Sqlite));
    assert_eq!(DataSourceType::from_extension("txt"), None);
}

#[test]
fn simple_filter_searches_named_or_all_columns() {
    let t = table(vec![
        ("a", text_col(&[Some("red"), Some("blue"), Some("green")])),
        ("n", Column::Int64(vec![Some(1), Some(2), Some(3)])),
    ]);
    let src = DataSource::new(t, DataSourceType::Csv);
    let out = src.filter_simple("re", Some("a")).unwrap();
    assert_eq!(text_cells(&out, 0), vec![Some("red".to_string()), Some("green".to_string())]);
    assert_eq!(src.filter_simple("re", Some("n")).unwrap_err(), EvalError::TypeMismatch);
    assert_eq!(src.filter_simple("lu", Some("zzz")).unwrap().num_rows(), 1);
    assert_eq!(src.filter_simple("", None).unwrap().num_rows(), 3);
    let numbers = DataSource::new(table(vec![("n", Column::Int64(vec![Some(1)]))]), DataSourceType::Csv);
    assert_eq!(numbers.filter_simple("x", None).unwrap().num_rows(), 1);
}

#[test]
fn mask_of_filter_text() {
    let t = table(vec![("n", Column::Int64(vec![Some(1), Some(8), None]))]);
    assert_eq!(filter_mask(" ", &t, &read).unwrap(), vec![true, true, true]);
    assert_eq!(filter_mask("n > 2", &t, &read).unwrap(), vec![false, true, false]);
    assert_eq!(filter_mask("n >", &t, &read), Err(FilterError::Parse(ParseError::InvalidComparison)));
    assert_eq!(filter_mask("n : 2", &t, &read), Err(FilterError::Eval(EvalError::TypeMismatch)));
}

#[test]
fn data_source_filter_and_accessors() {
    let t = table(vec![("Status", text_col(&[Some("Closed"), Some("Open")]))]);
    let src = DataSource::new(t, DataSourceType::Parquet);
    assert_eq!(src.len(), 2);
    assert!(!src.is_empty());
    assert_eq!(src.columns(), vec!["Status".to_string()]);
    assert_eq!(src.source_type(), DataSourceType::Parquet);
    let out = src.filter("Status = Open", &read).unwrap();
    assert_eq!(text_cells(&out, 0), vec![Some("Open".to_string())]);
    assert_eq!(src.dataframe().num_rows(), 2);
}
