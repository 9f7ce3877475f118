use rag_qdrant::error::RagError;
use rag_qdrant::input::{
    exactly_one, parse_delete, parse_ensure, parse_ingest, parse_list, parse_search, parse_upsert,
    parses_as_u64, validate_point_id,
};
use rag_qdrant::json::Json;

/// A document of the library's model as a `serde_json::Value`.
fn value(j: &Json) -> serde_json::Value {
    match j {
        Json::Null => serde_json::Value::Null,
        Json::Bool(b) => serde_json::Value::Bool(*b),
        Json::Number(t) => serde_json::from_str(t).unwrap(),
        Json::Str(s) => serde_json::Value::String(s.clone()),
        Json::Array(a) => serde_json::Value::Array(a.iter().map(value).collect()),
        Json::Object(m) => serde_json::Value::Object(m.iter().map(|(k, v)| (k.clone(), value(v))).collect()),
    }
}



fn floats(v: &[String]) -> Vec<f32> {
    v.iter().map(|t| t.parse::<f32>().unwrap()).collect()
}

#[test]
fn search_accepts_a_text_query() {
    let got = parse_search(r#"{"query":"kemayoran units","top_k":3}"#).unwrap();
    assert_eq!(got.query.as_deref(), Some("kemayoran units"));
    assert_eq!(got.top_k, 3);
    assert!(got.vector.is_none());
}

#[test]
fn search_accepts_a_raw_vector() {
    let got = parse_search(r#"{"vector":[0.1,0.2,0.3]}"#).unwrap();
    assert_eq!(floats(got.vector.as_deref().unwrap()), vec![0.1f32, 0.2, 0.3]);
    assert!(got.query.is_none());
}

#[test]
fn search_top_k_defaults_to_five() {
    assert_eq!(parse_search(r#"{"query":"x"}"#).unwrap().top_k, 5);
}

#[test]
fn search_rejects_both_query_and_vector() {
    let err = parse_search(r#"{"query":"x","vector":[0.1]}"#).unwrap_err();
    assert!(matches!(err, RagError::InvalidInput(_)));
}

#[test]
fn search_rejects_neither_query_nor_vector() {
    let err = parse_search(r#"{"top_k":3}"#).unwrap_err();
    assert!(matches!(err, RagError::InvalidInput(_)));
}

#[test]
fn search_rejects_a_zero_top_k() {
    assert!(parse_search(r#"{"query":"x","top_k":0}"#).is_err());
}

#[test]
fn upsert_enforces_the_same_query_vector_rule() {
    assert!(parse_upsert(r#"{"id":"1","text":"hi"}"#).is_ok());
    assert!(parse_upsert(r#"{"id":"1","vector":[0.1]}"#).is_ok());
    assert!(parse_upsert(r#"{"id":"1","text":"hi","vector":[0.1]}"#).is_err());
    assert!(parse_upsert(r#"{"id":"1"}"#).is_err());
}

#[test]
fn upsert_requires_a_non_empty_id() {
    assert!(parse_upsert(r#"{"id":"","text":"hi"}"#).is_err());
}

#[test]
fn upsert_accepts_a_numeric_id() {
    assert!(parse_upsert(r#"{"id":"42","text":"hi"}"#).is_ok());
}

#[test]
fn upsert_accepts_a_canonical_uuid() {
    let json = r#"{"id":"3f2504e0-4f89-41d3-9a0c-0305e82c3301","text":"hi"}"#;
    assert!(parse_upsert(json).is_ok());
}

#[test]
fn upsert_rejects_an_id_that_is_neither_an_integer_nor_a_uuid() {
    let err = parse_upsert(r#"{"id":"policy-2024","text":"hi"}"#).unwrap_err();
    let RagError::InvalidInput(msg) = err else {
        panic!("expected InvalidInput");
    };
    assert!(msg.contains("policy-2024"), "message was: {msg}");
}

#[test]
fn upsert_rejects_an_empty_id_before_the_id_shape_check() {
    let err = parse_upsert(r#"{"id":"","text":"hi"}"#).unwrap_err();
    assert!(matches!(err, RagError::InvalidInput(_)));
}

#[test]
fn ingest_requires_a_doc_id_and_text() {
    let got = parse_ingest(r#"{"doc_id":"d1","text":"body"}"#).unwrap();
    assert_eq!(got.doc_id, "d1");
    assert_eq!(value(&got.metadata), serde_json::Value::Object(serde_json::Map::new()));
    assert!(parse_ingest(r#"{"text":"body"}"#).is_err());
    assert!(parse_ingest(r#"{"doc_id":"d1","text":"   "}"#).is_err());
}

#[test]
fn delete_requires_exactly_one_selector() {
    assert!(parse_delete(r#"{"ids":["a"]}"#).is_ok());
    assert!(parse_delete(r#"{"doc_id":"d1"}"#).is_ok());
    assert!(parse_delete(r#"{"ids":["a"],"doc_id":"d1"}"#).is_err());
    assert!(parse_delete(r#"{}"#).is_err());
    assert!(parse_delete(r#"{"ids":[]}"#).is_err());
}

#[test]
fn ensure_defaults_distance_to_cosine_and_rejects_unknown_metrics() {
    assert_eq!(parse_ensure(r#"{}"#).unwrap().distance, "Cosine");
    assert_eq!(parse_ensure(r#"{"distance":"Dot"}"#).unwrap().distance, "Dot");
    assert!(parse_ensure(r#"{"distance":"Manhattan"}"#).is_err());
}

#[test]
fn list_defaults_limit_and_leaves_offset_and_filter_unset() {
    let got = parse_list(r#"{}"#).unwrap();
    assert_eq!(got.limit, 50);
    assert!(got.offset.is_none());
    assert!(got.filter.is_none());
    assert!(got.collection.is_none());
}

#[test]
fn list_rejects_a_zero_limit() {
    let err = parse_list(r#"{"limit":0}"#).unwrap_err();
    assert!(matches!(err, RagError::InvalidInput(_)));
}

#[test]
fn list_accepts_an_explicit_offset_and_filter() {
    let got = parse_list(r#"{"limit":10,"offset":"abc","filter":{"must":[]}}"#).unwrap();
    assert_eq!(got.limit, 10);
    assert_eq!(got.offset.as_ref().map(value), Some(serde_json::Value::String("abc".to_string())));
    let filter: serde_json::Value = serde_json::from_str(r#"{"must":[]}"#).unwrap();
    assert_eq!(got.filter.as_ref().map(value), Some(filter));
}

// ---- further cases ----

#[test]
fn exactly_one_names_the_tool_and_the_problem() {
    assert!(exactly_one("rag_search", true, false).is_ok());
    assert!(exactly_one("rag_search", false, true).is_ok());
    assert_eq!(
        exactly_one("rag_search", true, true).unwrap_err(),
        RagError::InvalidInput("rag_search: pass either a text field or `vector`, not both".to_string())
    );
    assert_eq!(
        exactly_one("rag_upsert", false, false).unwrap_err(),
        RagError::InvalidInput("rag_upsert: pass either a text field or `vector`".to_string())
    );
}

#[test]
fn a_blank_query_counts_as_no_query() {
    assert!(parse_search(r#"{"query":"   "}"#).is_err());
    assert!(parse_search(r#"{"query":"   ","vector":[1]}"#).is_ok());
}

#[test]
fn an_empty_vector_counts_as_no_vector() {
    assert!(parse_search(r#"{"vector":[]}"#).is_err());
    assert!(parse_search(r#"{"query":"q","vector":[]}"#).is_ok());
}

#[test]
fn malformed_json_is_invalid_input_naming_the_tool() {
    let RagError::InvalidInput(msg) = parse_search("{ not json").unwrap_err() else {
        panic!("expected InvalidInput");
    };
    assert!(msg.starts_with("decode rag_search input: "), "message was: {msg}");
}

#[test]
fn a_member_of_the_wrong_type_is_refused_by_name() {
    let RagError::InvalidInput(msg) = parse_search(r#"{"query":7}"#).unwrap_err() else {
        panic!("expected InvalidInput");
    };
    assert!(msg.contains("`query`"), "message was: {msg}");
    let RagError::InvalidInput(msg) = parse_list(r#"{"limit":-1}"#).unwrap_err() else {
        panic!("expected InvalidInput");
    };
    assert!(msg.contains("`limit`"), "message was: {msg}");
    assert!(parse_search(r#"{"query":"x","top_k":4294967296}"#).is_err());
    assert!(parse_search(r#"{"query":"x","top_k":2.5}"#).is_err());
}

#[test]
fn arguments_that_are_not_an_object_are_refused() {
    assert!(parse_list("[]").is_err());
    assert!(parse_delete("\"d1\"").is_err());
}

#[test]
fn a_missing_required_member_is_named() {
    let RagError::InvalidInput(msg) = parse_upsert(r#"{"text":"hi"}"#).unwrap_err() else {
        panic!("expected InvalidInput");
    };
    assert!(msg.contains("missing field `id`"), "message was: {msg}");
}

#[test]
fn null_optional_members_count_as_absent() {
    let got = parse_search(r#"{"query":"x","vector":null,"filter":null,"collection":null,"_tenant_overlay":null}"#).unwrap();
    assert!(got.vector.is_none());
    assert!(got.filter.is_none());
    assert!(got.collection.is_none());
    assert!(got.tenant_overlay.is_none());
}

#[test]
fn the_tenant_overlay_is_read_with_unknown_keys_ignored() {
    let got = parse_list(r#"{"_tenant_overlay":{"collection":"t","qdrant_url":"https://q","future":1}}"#).unwrap();
    let o = got.tenant_overlay.unwrap();
    assert_eq!(o.collection.as_deref(), Some("t"));
    assert_eq!(o.qdrant_url.as_deref(), Some("https://q"));
}

#[test]
fn a_bad_distance_is_quoted_in_the_message() {
    let RagError::InvalidInput(msg) = parse_ensure(r#"{"distance":"Manhattan"}"#).unwrap_err() else {
        panic!("expected InvalidInput");
    };
    assert_eq!(
        msg,
        "rag_collection_ensure: distance must be one of [\"Cosine\", \"Dot\", \"Euclid\"], got \"Manhattan\""
    );
}

#[test]
fn point_ids_follow_qdrant_rules() {
    assert!(validate_point_id("0").is_ok());
    assert!(validate_point_id("+7").is_ok());
    assert!(validate_point_id("18446744073709551615").is_ok());
    assert!(validate_point_id("18446744073709551616").is_err());
    assert!(validate_point_id("-1").is_err());
    assert!(validate_point_id("+").is_err());
    assert!(validate_point_id(" 1").is_err());
    assert!(validate_point_id("3F2504E0-4F89-41D3-9A0C-0305E82C3301").is_ok());
    assert!(validate_point_id("3f2504e04f8941d39a0c0305e82c3301").is_ok());
    assert!(validate_point_id("{3f2504e0-4f89-41d3-9a0c-0305e82c3301}").is_ok());
    assert!(validate_point_id("URN:uuid:3f2504e0-4f89-41d3-9a0c-0305e82c3301").is_ok());
    assert!(validate_point_id("3f2504e0-4f89-41d3-9a0c-0305e82c330g").is_err());
    assert_eq!(
        validate_point_id("x y").unwrap_err(),
        RagError::InvalidInput("rag_upsert: id \"x y\" must be an unsigned integer or a UUID".to_string())
    );
}

#[test]
fn parses_as_u64_matches_std() {
    for s in ["", "0", "007", "+1", "++1", "1+", "99999999999999999999", "18446744073709551615", "a", "+"] {
        assert_eq!(parses_as_u64(s), s.parse::<u64>().is_ok(), "{s:?}");
    }
}

#[test]
fn ingest_metadata_defaults_to_an_empty_object_but_keeps_an_explicit_null() {
    let got = parse_ingest(r#"{"doc_id":"d1","text":"body","metadata":null}"#).unwrap();
    assert_eq!(value(&got.metadata), serde_json::Value::Null);
}

#[test]
fn upsert_payload_defaults_to_an_empty_object() {
    let got = parse_upsert(r#"{"id":"1","text":"hi"}"#).unwrap();
    assert_eq!(value(&got.payload), serde_json::Value::Object(serde_json::Map::new()));
}

#[test]
fn the_defaults_are_five_fifty_and_cosine() {
    assert_eq!(rag_qdrant::input::default_top_k(), 5);
    assert_eq!(rag_qdrant::input::default_list_limit(), 50);
    assert_eq!(rag_qdrant::input::default_distance(), "Cosine");
}
