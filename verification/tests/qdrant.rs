use rag_qdrant::error::RagError;
use rag_qdrant::host::HttpRequest;
use rag_qdrant::json::Json;
use rag_qdrant::qdrant::{
    chunk_point_id, delete_request, ensure_collection_request, parse_ack, parse_ensure_ack,
    parse_hits, parse_scroll, query_request, scroll_request, upsert_request, DeleteSelector, Point,
};

/// A JSON document in the library's model, from its text.
fn json_of(text: &str) -> Json {
    fn conv(v: &serde_json::Value) -> Json {
        match v {
            serde_json::Value::Null => Json::Null,
            serde_json::Value::Bool(b) => Json::Bool(*b),
            serde_json::Value::Number(n) => Json::Number(n.to_string()),
            serde_json::Value::String(s) => Json::Str(s.clone()),
            serde_json::Value::Array(a) => Json::Array(a.iter().map(conv).collect()),
            serde_json::Value::Object(m) => Json::Object(m.iter().map(|(k, v)| (k.clone(), conv(v))).collect()),
        }
    }
    conv(&serde_json::from_str(text).unwrap())
}

/// A document of the library's model as a `serde_json::Value`.
fn value(j: &Json) -> serde_json::Value {
    match j {
        Json::Null => serde_json::Value::Null,
        Json::Bool(b) => serde_json::Value::Bool(*b),
        Json::Number(t) => serde_json::from_str(t).unwrap(),
        Json::Str(s) => serde_json::Value::String(s.clone()),
        Json::Array(a) => serde_json::Value::Array(a.iter().map(value).collect()),
        Json::Object(m) => serde_json::Value::Object(m.iter().map(|(k, v)| (k.clone(), value(v))).collect()),
    }
}


const BASE: &str = "https://c.qdrant.io:6333";

fn body_of(req: &HttpRequest) -> serde_json::Value {
    serde_json::from_slice(req.body.as_deref().unwrap()).unwrap()
}


fn v(text: &str) -> serde_json::Value {
    serde_json::from_str(text).unwrap()
}


/// The decimal text of an `f32` component, as the extension receives it.
fn num(x: f32) -> String {
    (x as f64).to_string()
}

#[test]
fn every_request_carries_the_api_key_header() {
    let reqs = [
        ensure_collection_request(BASE, "kb", 8, "Cosine", "k"),
        upsert_request(BASE, "kb", &Vec::new(), "k"),
        query_request(BASE, "kb", &vec![num(0.1)], 5, None, "k"),
        delete_request(BASE, "kb", &DeleteSelector::DocId("d".into()), "k"),
        scroll_request(BASE, "kb", 50, None, None, "k"),
    ];
    for req in &reqs {
        assert!(
            req.headers.contains(&("api-key".to_string(), "k".to_string())),
            "missing api-key on {}",
            req.url
        );
    }
}

#[test]
fn ensure_collection_puts_the_vector_params() {
    let req = ensure_collection_request(BASE, "kb", 1536, "Cosine", "k");
    assert_eq!(req.method, "PUT");
    assert_eq!(req.url, "https://c.qdrant.io:6333/collections/kb");
    assert_eq!(body_of(&req), v(r#"{"vectors":{"size":1536,"distance":"Cosine"}}"#));
}

#[test]
fn upsert_waits_for_the_write_to_be_visible() {
    let point = Point {
        id: "3f2504e0-4f89-41d3-9a0c-0305e82c3301".to_string(),
        vector: vec![num(0.1), num(0.2)],
        payload: json_of(r#"{"doc_id":"d1","chunk_index":0}"#),
    };
    let req = upsert_request(BASE, "kb", &vec![point], "k");
    assert_eq!(req.method, "PUT");
    assert_eq!(req.url, "https://c.qdrant.io:6333/collections/kb/points?wait=true");
    let body = body_of(&req);
    assert_eq!(body["points"][0]["id"], "3f2504e0-4f89-41d3-9a0c-0305e82c3301");
    assert_eq!(body["points"][0]["payload"]["doc_id"], "d1");
}

#[test]
fn query_uses_the_query_api_not_the_legacy_search_path() {
    let req = query_request(BASE, "kb", &vec![num(0.1), num(0.2)], 7, None, "k");
    assert_eq!(req.method, "POST");
    assert_eq!(req.url, "https://c.qdrant.io:6333/collections/kb/points/query");
    assert!(!req.url.contains("/points/search"));
    let body = body_of(&req);
    assert_eq!(body["limit"], 7);
    assert_eq!(body["with_payload"], true);
    // f32 precision: convert expected values to f32 and back to match serialized form
    assert_eq!(
        body["query"],
        serde_json::Value::Array(vec![(0.1f32 as f64).into(), (0.2f32 as f64).into()])
    );
    assert!(body.get("filter").is_none());
}

#[test]
fn a_query_filter_is_passed_through_verbatim() {
    let filter = json_of(r#"{"must":[{"key":"lang","match":{"value":"id"}}]}"#);
    let req = query_request(BASE, "kb", &vec![num(0.1)], 3, Some(&filter), "k");
    assert_eq!(body_of(&req)["filter"], value(&filter));
}

#[test]
fn delete_by_ids_sends_a_points_list() {
    let sel = DeleteSelector::Ids(vec!["a".into(), "b".into()]);
    let req = delete_request(BASE, "kb", &sel, "k");
    assert_eq!(req.method, "POST");
    assert_eq!(req.url, "https://c.qdrant.io:6333/collections/kb/points/delete?wait=true");
    assert_eq!(body_of(&req)["points"], v(r#"["a", "b"]"#));
}

#[test]
fn scroll_asks_for_payload_but_not_vectors() {
    let req = scroll_request(BASE, "kb", 25, None, None, "k");
    assert_eq!(req.method, "POST");
    assert_eq!(req.url, "https://c.qdrant.io:6333/collections/kb/points/scroll");
    let body = body_of(&req);
    assert_eq!(body["limit"], 25);
    assert_eq!(body["with_payload"], true);
    assert_eq!(body["with_vector"], false);
    assert!(body.get("offset").is_none());
    assert!(body.get("filter").is_none());
}

#[test]
fn scroll_forwards_an_offset_and_a_filter_when_given() {
    let offset = json_of(r#""3f2504e0-4f89-41d3-9a0c-0305e82c3301""#);
    let filter = json_of(r#"{"must":[{"key":"doc_id","match":{"value":"d1"}}]}"#);
    let req = scroll_request(BASE, "kb", 10, Some(&offset), Some(&filter), "k");
    let body = body_of(&req);
    assert_eq!(body["offset"], value(&offset));
    assert_eq!(body["filter"], value(&filter));
}

#[test]
fn scroll_hits_are_grouped_by_nothing_at_the_parser_level() {
    let body = br#"{"result":{"points":[
        {"id":"p1","payload":{"doc_id":"d1","chunk_index":0}},
        {"id":"p2","payload":{"doc_id":"d1","chunk_index":1}}
    ],"next_page_offset":null}}"#;
    let page = parse_scroll(200, body).unwrap();
    assert_eq!(page.points.len(), 2);
    assert_eq!(page.points[0].id, "p1");
    assert_eq!(value(&page.points[0].payload)["doc_id"], "d1");
    assert!(page.next_page_offset.is_none());
}

#[test]
fn a_present_next_page_offset_is_surfaced() {
    let body = br#"{"result":{"points":[],"next_page_offset":"3f2504e0-4f89-41d3-9a0c-0305e82c3301"}}"#;
    let page = parse_scroll(200, body).unwrap();
    assert_eq!(
        page.next_page_offset.as_ref().map(value),
        Some(v(r#""3f2504e0-4f89-41d3-9a0c-0305e82c3301""#))
    );
}

#[test]
fn a_null_next_page_offset_means_no_more_pages() {
    let body = br#"{"result":{"points":[],"next_page_offset":null}}"#;
    assert!(parse_scroll(200, body).unwrap().next_page_offset.is_none());
}

#[test]
fn a_missing_next_page_offset_also_means_no_more_pages() {
    let body = br#"{"result":{"points":[]}}"#;
    assert!(parse_scroll(200, body).unwrap().next_page_offset.is_none());
}

#[test]
fn an_empty_collection_scrolls_to_an_empty_page() {
    let body = br#"{"result":{"points":[],"next_page_offset":null}}"#;
    let page = parse_scroll(200, body).unwrap();
    assert!(page.points.is_empty());
    assert!(page.next_page_offset.is_none());
}

#[test]
fn scroll_status_codes_map_onto_distinct_errors() {
    assert!(matches!(parse_scroll(401, b"nope").unwrap_err(), RagError::PermissionDenied(_)));
    assert!(matches!(parse_scroll(404, b"missing").unwrap_err(), RagError::NotFound(_)));
}

#[test]
fn delete_by_doc_id_sends_a_payload_filter() {
    let sel = DeleteSelector::DocId("d1".into());
    let req = delete_request(BASE, "kb", &sel, "k");
    assert_eq!(
        body_of(&req)["filter"],
        v(r#"{"must":[{"key":"doc_id","match":{"value":"d1"}}]}"#)
    );
}

#[test]
fn chunk_ids_are_stable_uuids_that_differ_per_chunk_and_per_doc() {
    let a = chunk_point_id("doc-1", 0);
    assert_eq!(a, chunk_point_id("doc-1", 0), "must be deterministic");
    assert_ne!(a, chunk_point_id("doc-1", 1));
    assert_ne!(a, chunk_point_id("doc-2", 0));
    // Qdrant only accepts an unsigned integer or a UUID.
    assert_eq!(a.len(), 36);
    assert_eq!(a.matches('-').count(), 4);
}

#[test]
fn hits_are_parsed_from_the_query_api_envelope() {
    let body = br#"{"result":{"points":[
        {"id":"p1","score":0.91,"payload":{"text":"hello"}},
        {"id":"p2","score":0.42,"payload":{"text":"world"}}
    ]},"status":"ok"}"#;
    let hits = parse_hits(200, body).unwrap();
    assert_eq!(hits.len(), 2);
    assert_eq!(hits[0].id, "p1");
    let Json::Number(score) = &hits[0].score else {
        panic!("score is not a number");
    };
    assert!((score.parse::<f32>().unwrap() - 0.91).abs() < 1e-6);
    assert_eq!(value(&hits[1].payload)["text"], "world");
}

#[test]
fn a_numeric_point_id_is_rendered_as_a_string() {
    let body = br#"{"result":{"points":[{"id":42,"score":0.5,"payload":{}}]}}"#;
    assert_eq!(parse_hits(200, body).unwrap()[0].id, "42");
}

#[test]
fn status_codes_map_onto_distinct_errors() {
    assert!(matches!(parse_hits(401, b"nope").unwrap_err(), RagError::PermissionDenied(_)));
    assert!(matches!(parse_hits(404, b"missing").unwrap_err(), RagError::NotFound(_)));
    assert!(matches!(parse_hits(503, b"down").unwrap_err(), RagError::Internal(_)));
    assert!(matches!(parse_hits(200, b"<html>").unwrap_err(), RagError::Internal(_)));
}

#[test]
fn an_ack_only_needs_a_2xx() {
    assert!(parse_ack(200, br#"{"status":"ok"}"#).is_ok());
    assert!(parse_ack(404, b"gone").is_err());
}

#[test]
fn creating_a_collection_that_already_exists_counts_as_success() {
    assert!(parse_ensure_ack(409, b"Collection `kb` already exists!").is_ok());
    assert!(parse_ensure_ack(400, br#"{"status":{"error":"Collection `kb` already exists!"}}"#).is_ok());
    assert!(parse_ensure_ack(400, br#"{"status":{"error":"bad dim"}}"#).is_err());
    assert!(parse_ensure_ack(503, b"retry: the collection already exists upstream").is_err());
    assert!(parse_ensure_ack(409, b"collection is locked for snapshot").is_err());
}

#[test]
fn a_401_is_permission_denied_even_if_the_body_mentions_already_exists() {
    let err = parse_ensure_ack(401, b"... already exists ...").expect_err("must not succeed");
    assert!(matches!(err, RagError::PermissionDenied(_)), "got {err:?}");
}

// ---- further cases ----

#[test]
fn status_messages_carry_the_status_and_the_body() {
    assert_eq!(
        parse_ack(403, b"denied").unwrap_err(),
        RagError::PermissionDenied("Qdrant rejected the api-key (HTTP 403): denied".to_string())
    );
    assert_eq!(
        parse_ack(404, b"no such collection").unwrap_err(),
        RagError::NotFound("Qdrant returned 404 \u{2014} collection or point missing: no such collection".to_string())
    );
    assert_eq!(
        parse_ack(500, b"boom").unwrap_err(),
        RagError::Internal("Qdrant returned HTTP 500: boom".to_string())
    );
    assert!(parse_ack(299, b"").is_ok());
    assert!(parse_ack(300, b"").is_err());
    assert!(parse_ack(199, b"").is_err());
}

#[test]
fn the_already_exists_phrase_is_matched_in_any_ascii_case() {
    assert!(parse_ensure_ack(409, b"ALREADY EXISTS").is_ok());
    assert!(parse_ensure_ack(499, b"Already Exists").is_ok());
    assert!(parse_ensure_ack(500, b"already exists").is_err());
    assert!(parse_ensure_ack(403, b"already exists").is_err());
}

#[test]
fn a_body_without_result_points_is_internal() {
    assert_eq!(
        parse_hits(200, br#"{"result":{}}"#).unwrap_err(),
        RagError::Internal("Qdrant response has no result.points".to_string())
    );
    assert_eq!(
        parse_scroll(200, br#"{"status":"ok"}"#).unwrap_err(),
        RagError::Internal("Qdrant response has no result".to_string())
    );
    assert_eq!(
        parse_scroll(200, br#"{"result":{"points":{}}}"#).unwrap_err(),
        RagError::Internal("Qdrant response has no result.points".to_string())
    );
}

#[test]
fn a_hit_without_score_or_payload_gets_zero_and_null() {
    let hits = parse_hits(200, br#"{"result":{"points":[{"id":"p"}]}}"#).unwrap();
    assert_eq!(hits[0].score, Json::Number("0.0".to_string()));
    assert_eq!(hits[0].payload, Json::Null);
    let hits = parse_hits(200, br#"{"result":{"points":[{"score":1}]}}"#).unwrap();
    assert_eq!(hits[0].id, "");
}

#[test]
fn a_numeric_scroll_offset_is_passed_back_as_a_number() {
    let page = parse_scroll(200, br#"{"result":{"points":[],"next_page_offset":17}}"#).unwrap();
    assert_eq!(page.next_page_offset, Some(Json::Number("17".to_string())));
}

#[test]
fn chunk_ids_are_the_uuid_v5_of_doc_and_index() {
    // Uuid::new_v5 of the X.500 namespace and "doc-1:0", computed independently.
    let ns = uuid::Uuid::from_bytes([
        0x6b, 0xa7, 0xb8, 0x12, 0x9d, 0xad, 0x11, 0xd1, 0x80, 0xb4, 0x00, 0xc0, 0x4f, 0xd4, 0x30, 0xc8,
    ]);
    assert_eq!(chunk_point_id("doc-1", 0), uuid::Uuid::new_v5(&ns, b"doc-1:0").to_string());
    assert_eq!(chunk_point_id("d", 12), uuid::Uuid::new_v5(&ns, b"d:12").to_string());
    assert!(rag_qdrant::input::validate_point_id(&chunk_point_id("any", 3)).is_ok());
}
