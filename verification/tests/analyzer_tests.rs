use typestats::analyzer::TypeAnalyzer;
use typestats::error::AppError;
use typestats::value::{JsonValue, TypeRecord};

fn sorted_report(analyzer: &TypeAnalyzer) -> Vec<(String, u128, u128)> {
    let mut rows = analyzer.report();
    rows.sort_by(|a, b| a.0.cmp(&b.0));
    rows
}

#[test]
fn single_line_single_leaf() {
    let mut analyzer = TypeAnalyzer::new();
    let r = analyzer.check_line(String::from("{\"type\":\"login\",\"user\":\"a\"}"));
    assert!(r.is_ok());
    let rows = sorted_report(&analyzer);
    assert_eq!(rows, vec![(String::from("login"), 1, 8)]);
}

#[test]
fn null_field_contributes_nothing() {
    let mut analyzer = TypeAnalyzer::new();
    analyzer
        .check_line(String::from("{\"type\":\"login\",\"user\":\"a\"}"))
        .unwrap();
    analyzer
        .check_line(String::from("{\"type\":\"login\",\"user\":\"b\",\"extra\":null}"))
        .unwrap();
    let rows = sorted_report(&analyzer);
    assert_eq!(rows, vec![(String::from("login"), 2, 16)]);
}

#[test]
fn nested_mapping_sums_recursively() {
    let mut analyzer = TypeAnalyzer::new();
    analyzer
        .check_line(String::from("{\"type\":\"evt\",\"meta\":{\"a\":1,\"b\":2}}"))
        .unwrap();
    let rows = sorted_report(&analyzer);
    assert_eq!(rows, vec![(String::from("evt"), 1, 16)]);
}

#[test]
fn missing_type_field_fails_and_table_stays_empty() {
    let mut analyzer = TypeAnalyzer::new();
    let line = String::from("{\"user\":\"a\"}");
    let r = analyzer.check_line(line.clone());
    assert_eq!(r, Err(AppError::NoFieldTypeInJson(line)));
    assert!(analyzer.report().is_empty());
}

#[test]
fn non_string_type_fails_and_table_stays_empty() {
    let mut analyzer = TypeAnalyzer::new();
    let line = String::from("{\"type\":42}");
    let r = analyzer.check_line(line.clone());
    assert_eq!(r, Err(AppError::FieldTypeIsNotString(line)));
    assert!(analyzer.report().is_empty());
}

#[test]
fn non_string_type_shapes_all_fail() {
    for line in [
        "{\"type\":42}",
        "{\"type\":true}",
        "{\"type\":[\"a\"]}",
        "{\"type\":{\"a\":1}}",
        "{\"type\":null}",
    ] {
        let mut analyzer = TypeAnalyzer::new();
        let r = analyzer.check_line(String::from(line));
        assert_eq!(r, Err(AppError::FieldTypeIsNotString(String::from(line))));
        assert!(analyzer.report().is_empty());
    }
}

#[test]
fn malformed_line_fails_and_table_is_unchanged() {
    let mut analyzer = TypeAnalyzer::new();
    analyzer
        .check_line(String::from("{\"type\":\"ok\",\"v\":1}"))
        .unwrap();
    let before = sorted_report(&analyzer);
    for line in ["not json", "", "[1,2,3]", "42", "\"scalar\"", "{\"type\":\"x\""] {
        let r = analyzer.check_line(String::from(line));
        assert_eq!(r, Err(AppError::SerdeJsonError(String::from(line))));
        assert_eq!(sorted_report(&analyzer), before);
    }
}

#[test]
fn classification_failures_leave_accumulated_table_alone() {
    let mut analyzer = TypeAnalyzer::new();
    analyzer
        .check_line(String::from("{\"type\":\"a\",\"x\":1}"))
        .unwrap();
    let before = sorted_report(&analyzer);
    assert!(analyzer.check_line(String::from("{\"x\":1}")).is_err());
    assert!(analyzer.check_line(String::from("{\"type\":7}")).is_err());
    assert_eq!(sorted_report(&analyzer), before);
}

#[test]
fn counts_one_entry_per_distinct_type() {
    let mut analyzer = TypeAnalyzer::new();
    for line in [
        "{\"type\":\"a\",\"x\":1}",
        "{\"type\":\"b\"}",
        "{\"type\":\"a\",\"y\":2}",
        "{\"type\":\"c\",\"z\":null}",
        "{\"type\":\"a\"}",
    ] {
        analyzer.check_line(String::from(line)).unwrap();
    }
    let rows = sorted_report(&analyzer);
    assert_eq!(
        rows,
        vec![
            (String::from("a"), 3, 16),
            (String::from("b"), 1, 0),
            (String::from("c"), 1, 0),
        ]
    );
}

#[test]
fn same_line_twice_doubles_count_and_size() {
    let mut analyzer = TypeAnalyzer::new();
    let line = "{\"type\":\"evt\",\"p\":1,\"q\":\"s\"}";
    analyzer.check_line(String::from(line)).unwrap();
    analyzer.check_line(String::from(line)).unwrap();
    let rows = sorted_report(&analyzer);
    assert_eq!(rows, vec![(String::from("evt"), 2, 32)]);
}

#[test]
fn field_order_does_not_change_size() {
    let mut first = TypeAnalyzer::new();
    first
        .check_line(String::from("{\"type\":\"t\",\"a\":1,\"b\":\"x\",\"c\":null}"))
        .unwrap();
    let mut second = TypeAnalyzer::new();
    second
        .check_line(String::from("{\"c\":null,\"b\":\"x\",\"a\":1,\"type\":\"t\"}"))
        .unwrap();
    assert_eq!(sorted_report(&first), sorted_report(&second));
}

#[test]
fn scalar_kinds_and_arrays_cost_one_leaf_each() {
    let mut analyzer = TypeAnalyzer::new();
    analyzer
        .check_line(String::from(
            "{\"type\":\"m\",\"arr\":[1,2,3],\"flag\":true,\"num\":1.5,\"text\":\"long string is not inspected\"}",
        ))
        .unwrap();
    let rows = sorted_report(&analyzer);
    assert_eq!(rows, vec![(String::from("m"), 1, 32)]);
}

#[test]
fn type_only_record_has_zero_payload() {
    let mut analyzer = TypeAnalyzer::new();
    analyzer.check_line(String::from("{\"type\":\"x\"}")).unwrap();
    let rows = sorted_report(&analyzer);
    assert_eq!(rows, vec![(String::from("x"), 1, 0)]);
}

#[test]
fn deep_nesting_reaches_the_leaves() {
    let mut analyzer = TypeAnalyzer::new();
    analyzer
        .check_line(String::from(
            "{\"type\":\"d\",\"m\":{\"k\":{\"j\":1,\"n\":null},\"l\":2}}",
        ))
        .unwrap();
    let rows = sorted_report(&analyzer);
    assert_eq!(rows, vec![(String::from("d"), 1, 16)]);
}

#[test]
fn classify_and_size_is_pure_classification() {
    let line = String::from("{\"type\":\"login\",\"user\":\"a\"}");
    let r = typestats::classify::classify_and_size(&line);
    assert_eq!(r, Ok((String::from("login"), 8)));
    let bad = String::from("{}");
    assert_eq!(
        typestats::classify::classify_and_size(&bad),
        Err(AppError::NoFieldTypeInJson(String::from("{}")))
    );
}

#[test]
fn calculate_size_counts_every_field() {
    let record = TypeRecord {
        fields: vec![
            (String::from("type"), JsonValue::Text(String::from("t"))),
            (String::from("user"), JsonValue::Text(String::from("a"))),
            (String::from("gone"), JsonValue::Null),
            (
                String::from("meta"),
                JsonValue::Mapping(vec![
                    (String::from("a"), JsonValue::Leaf),
                    (String::from("b"), JsonValue::Leaf),
                ]),
            ),
        ],
    };
    assert_eq!(TypeAnalyzer::calculate_size(&record), 32);
}

#[test]
fn record_accumulates_directly() {
    let mut analyzer = TypeAnalyzer::new();
    analyzer.record(String::from("x"), 5);
    analyzer.record(String::from("x"), 7);
    analyzer.record(String::from("y"), 0);
    let rows = sorted_report(&analyzer);
    assert_eq!(
        rows,
        vec![(String::from("x"), 2, 12), (String::from("y"), 1, 0)]
    );
}

#[test]
fn try_check_line_accepts_ordinary_lines() {
    let mut analyzer = TypeAnalyzer::new();
    let r = analyzer.try_check_line(String::from("{\"type\":\"a\",\"v\":1}"));
    assert_eq!(r, Some(Ok(())));
    let bad = analyzer.try_check_line(String::from("{\"v\":1}"));
    assert_eq!(
        bad,
        Some(Err(AppError::NoFieldTypeInJson(String::from("{\"v\":1}"))))
    );
    let rows = sorted_report(&analyzer);
    assert_eq!(rows, vec![(String::from("a"), 1, 8)]);
}

#[test]
fn counters_at_the_brink_refuse_more() {
    let mut analyzer = TypeAnalyzer::new();
    analyzer.record(String::from("x"), u128::MAX);
    let refused = analyzer.try_check_line(String::from("{\"type\":\"x\",\"v\":1}"));
    assert_eq!(refused, None);
    assert_eq!(analyzer.report(), vec![(String::from("x"), 1, u128::MAX)]);
}

#[test]
fn empty_run_reports_nothing() {
    let analyzer = TypeAnalyzer::new();
    assert!(analyzer.report().is_empty());
}
