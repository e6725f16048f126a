//! Query expression serialization.

use appwrite::{JsonValue, Query};

#[test]
fn test_query_builder() {
    let query = Query::equal("status", JsonValue::Str("active".to_string()));
    assert!(query.contains("equal"));
    assert!(query.contains("status"));
    assert!(query.contains("active"));

    let complex_query = Query::and_queries(vec![
        Query::greater_than("age", JsonValue::Int(18)),
        Query::less_than("age", JsonValue::Int(65)),
    ]);
    assert!(complex_query.contains("and"));
}

#[test]
fn equal_serializes_exactly() {
    assert_eq!(
        Query::equal("age", JsonValue::Int(30)),
        r#"{"method":"equal","attribute":"age","values":[30]}"#
    );
}

#[test]
fn limit_serializes_without_attribute() {
    assert_eq!(Query::limit(10), r#"{"method":"limit","values":[10]}"#);
}

#[test]
fn offset_serializes_without_attribute() {
    assert_eq!(Query::offset(25), r#"{"method":"offset","values":[25]}"#);
}

#[test]
fn and_queries_embeds_parsed_subqueries_in_order() {
    let combined = Query::and_queries(vec![
        Query::greater_than("age", JsonValue::Int(18)),
        Query::less_than("age", JsonValue::Int(65)),
    ]);
    let expected = r#"{"method":"and","values":[{"method":"greaterThan","attribute":"age","values":[18]},{"method":"lessThan","attribute":"age","values":[65]}]}"#;
    assert_eq!(combined, expected);
}

#[test]
fn or_queries_drops_unparsable_subqueries() {
    let combined = Query::or_queries(vec![
        Query::equal("a", JsonValue::Int(1)),
        "not json at all".to_string(),
        Query::equal("b", JsonValue::Int(2)),
    ]);
    let expected = r#"{"method":"or","values":[{"method":"equal","attribute":"a","values":[1]},{"method":"equal","attribute":"b","values":[2]}]}"#;
    assert_eq!(combined, expected);
}

#[test]
fn serialization_is_deterministic() {
    let a = Query::between("age", JsonValue::Int(18), JsonValue::Int(65));
    let b = Query::between("age", JsonValue::Int(18), JsonValue::Int(65));
    assert_eq!(a.as_bytes(), b.as_bytes());
}

#[test]
fn between_takes_two_values() {
    assert_eq!(
        Query::between("n", JsonValue::Int(1), JsonValue::Int(5)),
        r#"{"method":"between","attribute":"n","values":[1,5]}"#
    );
}

#[test]
fn select_takes_attribute_names() {
    assert_eq!(
        Query::select(vec!["name".to_string(), "age".to_string()]),
        r#"{"method":"select","values":["name","age"]}"#
    );
}

#[test]
fn string_operators_serialize_exactly() {
    assert_eq!(
        Query::starts_with("name", "Jo"),
        r#"{"method":"startsWith","attribute":"name","values":["Jo"]}"#
    );
    assert_eq!(
        Query::ends_with("name", "hn"),
        r#"{"method":"endsWith","attribute":"name","values":["hn"]}"#
    );
    assert_eq!(
        Query::search("title", "verified"),
        r#"{"method":"search","attribute":"title","values":["verified"]}"#
    );
}

#[test]
fn attribute_only_operators_have_no_values() {
    assert_eq!(Query::is_null("bio"), r#"{"method":"isNull","attribute":"bio"}"#);
    assert_eq!(Query::is_not_null("bio"), r#"{"method":"isNotNull","attribute":"bio"}"#);
    assert_eq!(Query::order_asc("age"), r#"{"method":"orderAsc","attribute":"age"}"#);
    assert_eq!(Query::order_desc("age"), r#"{"method":"orderDesc","attribute":"age"}"#);
}

#[test]
fn cursor_operators_take_one_id() {
    assert_eq!(
        Query::cursor_before("doc1"),
        r#"{"method":"cursorBefore","values":["doc1"]}"#
    );
    assert_eq!(
        Query::cursor_after("doc2"),
        r#"{"method":"cursorAfter","values":["doc2"]}"#
    );
}

#[test]
fn comparison_operators_carry_their_tags() {
    assert_eq!(
        Query::not_equal("x", JsonValue::Int(0)),
        r#"{"method":"notEqual","attribute":"x","values":[0]}"#
    );
    assert_eq!(
        Query::less_than_equal("x", JsonValue::Int(9)),
        r#"{"method":"lessThanEqual","attribute":"x","values":[9]}"#
    );
    assert_eq!(
        Query::greater_than_equal("x", JsonValue::Int(9)),
        r#"{"method":"greaterThanEqual","attribute":"x","values":[9]}"#
    );
    assert_eq!(
        Query::contains("tags", JsonValue::Str("a".to_string())),
        r#"{"method":"contains","attribute":"tags","values":["a"]}"#
    );
}
