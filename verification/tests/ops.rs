use std::cell::RefCell;

use rag_qdrant::config::{overlay_from, resolve, ChunkConfig, Config, EmbeddingConfig};
use rag_qdrant::error::RagError;
use rag_qdrant::host::{HostCalls, HttpRequest, HttpResponse};
use rag_qdrant::input::{parse_delete, parse_ensure, parse_ingest, parse_list, parse_search, parse_upsert};
use rag_qdrant::json::Json;
use rag_qdrant::ops::{
    delete, ensure_collection, ingest, list, search, upsert, EMBEDDING_KEY_REF, QDRANT_KEY_REF,
};

/// A JSON document in the library's model, from its text.
fn json_of(text: &str) -> Json {
    fn conv(v: &serde_json::Value) -> Json {
        match v {
            serde_json::Value::Null => Json::Null,
            serde_json::Value::Bool(b) => Json::Bool(*b),
            serde_json::Value::Number(n) => Json::Number(n.to_string()),
            serde_json::Value::String(s) => Json::Str(s.clone()),
            serde_json::Value::Array(a) => Json::Array(a.iter().map(conv).collect()),
            serde_json::Value::Object(m) => Json::Object(m.iter().map(|(k, v)| (k.clone(), conv(v))).collect()),
        }
    }
    conv(&serde_json::from_str(text).unwrap())
}

/// A document of the library's model as a `serde_json::Value`.
fn value(j: &Json) -> serde_json::Value {
    match j {
        Json::Null => serde_json::Value::Null,
        Json::Bool(b) => serde_json::Value::Bool(*b),
        Json::Number(t) => serde_json::from_str(t).unwrap(),
        Json::Str(s) => serde_json::Value::String(s.clone()),
        Json::Array(a) => serde_json::Value::Array(a.iter().map(value).collect()),
        Json::Object(m) => serde_json::Value::Object(m.iter().map(|(k, v)| (k.clone(), value(v))).collect()),
    }
}


/// A request as the mock host saw it.
#[derive(Clone, Debug)]
struct SeenCall {
    method: String,
    url: String,
    headers: Vec<(String, String)>,
    body: Option<Vec<u8>>,
}

/// An in-memory host: canned responses keyed by method and URL, secrets by
/// URI, and a record of every request sent.
struct TestHost {
    canned: RefCell<Vec<(String, String, u16, Vec<u8>)>>,
    secrets: RefCell<Vec<(String, String)>>,
    calls: RefCell<Vec<SeenCall>>,
    secret_reads: RefCell<Vec<String>>,
}

impl TestHost {
    fn new() -> TestHost {
        TestHost {
            canned: RefCell::new(Vec::new()),
            secrets: RefCell::new(Vec::new()),
            calls: RefCell::new(Vec::new()),
            secret_reads: RefCell::new(Vec::new()),
        }
    }

    fn expect(&self, method: &str, url: &str, resp: (u16, Vec<u8>)) {
        self.canned.borrow_mut().push((method.to_string(), url.to_string(), resp.0, resp.1));
    }

    fn set_secret(&self, uri: &str, value: &str) {
        self.secrets.borrow_mut().push((uri.to_string(), value.to_string()));
    }

    fn calls(&self) -> Vec<SeenCall> {
        self.calls.borrow().clone()
    }
}

impl HostCalls for TestHost {
    fn fetch(&self, req: &HttpRequest) -> Result<HttpResponse, String> {
        self.calls.borrow_mut().push(SeenCall {
            method: req.method.clone(),
            url: req.url.clone(),
            headers: req.headers.clone(),
            body: req.body.clone(),
        });
        let canned = self.canned.borrow();
        match canned.iter().rev().find(|(m, u, _, _)| *m == req.method && *u == req.url) {
            Some((_, _, status, body)) => Ok(HttpResponse { status: *status, body: body.clone() }),
            None => Ok(HttpResponse { status: 404, body: b"no canned response".to_vec() }),
        }
    }

    fn secret(&self, uri: &str) -> Result<String, String> {
        self.secret_reads.borrow_mut().push(uri.to_string());
        match self.secrets.borrow().iter().find(|(u, _)| u == uri) {
            Some((_, v)) => Ok(v.clone()),
            None => Err(format!("secret {uri} is not set")),
        }
    }
}

const BASE: &str = "https://c.qdrant.io:6333";
const EMBED_URL: &str = "https://api.openai.com/v1/embeddings";

fn cfg() -> Config {
    Config {
        qdrant_url: BASE.to_string(),
        collection: "kb".to_string(),
        embedding: EmbeddingConfig {
            base_url: "https://api.openai.com/v1".to_string(),
            model: "text-embedding-3-small".to_string(),
            dimensions: 3,
        },
        chunk: ChunkConfig { max_chars: 10, overlap_chars: 2 },
        require_tenant_overlay: false,
    }
}

fn ok(json: &str) -> (u16, Vec<u8>) {
    (200, json.as_bytes().to_vec())
}

/// `n` embedding vectors of the configured width.
fn embed_ok(n: usize) -> (u16, Vec<u8>) {
    let data: Vec<String> = (0..n)
        .map(|i| format!(r#"{{"index": {i}, "embedding": [0.1, 0.2, 0.3]}}"#))
        .collect();
    (200, format!(r#"{{"data": [{}]}}"#, data.join(",")).into_bytes())
}


fn body_json(call: &SeenCall) -> serde_json::Value {
    serde_json::from_slice(call.body.as_deref().unwrap()).unwrap()
}

/// A host with both secrets present and every Qdrant/embedding call happy.
fn happy_host(embeddings: usize) -> TestHost {
    let host = TestHost::new();
    host.set_secret(QDRANT_KEY_REF, "qk");
    host.set_secret(EMBEDDING_KEY_REF, "ek");
    host.expect("POST", EMBED_URL, embed_ok(embeddings));
    host.expect("PUT", &format!("{BASE}/collections/kb"), ok(r#"{"result":true}"#));
    host.expect("PUT", &format!("{BASE}/collections/kb/points?wait=true"), ok(r#"{"status":"ok"}"#));
    host.expect("POST", &format!("{BASE}/collections/kb/points/delete?wait=true"), ok(r#"{"status":"ok"}"#));
    host.expect(
        "POST",
        &format!("{BASE}/collections/kb/points/query"),
        ok(r#"{"result":{"points":[{"id":"p1","score":0.9,"payload":{"text":"hi"}}]}}"#),
    );
    host
}

#[test]
fn search_by_text_embeds_first_then_queries() {
    let host = happy_host(1);
    let input = parse_search(r#"{"query":"halo","top_k":2}"#).unwrap();
    let out = value(&search(&host, &cfg(), &input).unwrap());

    let calls = host.calls();
    assert_eq!(calls.len(), 2, "expected embed then query");
    assert_eq!(calls[0].url, EMBED_URL);
    assert_eq!(calls[1].url, format!("{BASE}/collections/kb/points/query"));
    assert_eq!(out["hits"][0]["id"], "p1");
}

#[test]
fn search_by_vector_skips_the_embedding_call_entirely() {
    let host = happy_host(1);
    let input = parse_search(r#"{"vector":[0.1,0.2,0.3]}"#).unwrap();
    search(&host, &cfg(), &input).unwrap();

    let calls = host.calls();
    assert_eq!(calls.len(), 1);
    assert!(!calls[0].url.contains("embeddings"));
}

#[test]
fn a_raw_search_vector_of_the_wrong_width_is_rejected_before_any_call() {
    let host = happy_host(1);
    let input = parse_search(r#"{"vector":[0.1,0.2]}"#).unwrap();
    let err = search(&host, &cfg(), &input).unwrap_err();
    assert!(matches!(err, RagError::SchemaInvalid(_)), "got {err:?}");
    assert!(host.calls().is_empty(), "must not reach the network");
}

#[test]
fn ingest_deletes_the_document_before_upserting_its_chunks() {
    // 25 chars with a 10/2 window → 3 chunks, so three vectors come back.
    let host = happy_host(3);
    let input = parse_ingest(r#"{"doc_id":"d1","text":"abcdefghijklmnopqrstuvwxy"}"#).unwrap();
    let out = value(&ingest(&host, &cfg(), &input).unwrap());

    let urls: Vec<String> = host.calls().into_iter().map(|c| c.url).collect();
    let delete_at = urls.iter().position(|u| u.contains("/points/delete")).expect("no delete call");
    let upsert_at = urls.iter().position(|u| u.contains("/points?wait=true")).expect("no upsert call");
    assert!(delete_at < upsert_at, "delete must precede upsert, got {urls:?}");
    assert_eq!(out["chunks"], 3);
}

#[test]
fn ingest_writes_deterministic_uuid_ids_carrying_doc_id_and_index() {
    let host = happy_host(1);
    let input = parse_ingest(r#"{"doc_id":"d1","text":"short"}"#).unwrap();
    ingest(&host, &cfg(), &input).unwrap();

    let upsert_call = host.calls().into_iter().find(|c| c.url.contains("/points?wait=true")).expect("no upsert call");
    let body = body_json(&upsert_call);
    assert_eq!(body["points"][0]["id"], rag_qdrant::qdrant::chunk_point_id("d1", 0));
    assert_eq!(body["points"][0]["payload"]["doc_id"], "d1");
    assert_eq!(body["points"][0]["payload"]["chunk_index"], 0);
    assert_eq!(body["points"][0]["payload"]["text"], "short");
}

#[test]
fn ingest_forwards_caller_metadata_into_every_chunk_payload() {
    let host = happy_host(1);
    let input = parse_ingest(r#"{"doc_id":"d1","text":"short","metadata":{"lang":"id"}}"#).unwrap();
    ingest(&host, &cfg(), &input).unwrap();

    let upsert_call = host.calls().into_iter().find(|c| c.url.contains("/points?wait=true")).expect("no upsert call");
    assert_eq!(body_json(&upsert_call)["points"][0]["payload"]["lang"], "id");
}

#[test]
fn ingest_rejects_non_object_metadata_before_any_call() {
    let host = happy_host(1);
    let input = parse_ingest(r#"{"doc_id":"d1","text":"short","metadata":null}"#).unwrap();
    let err = ingest(&host, &cfg(), &input).unwrap_err();
    assert!(matches!(err, RagError::InvalidInput(_)), "got {err:?}");
    assert!(host.calls().is_empty(), "must not reach the network");
}

#[test]
fn upsert_rejects_non_object_payload_before_any_call() {
    let host = happy_host(1);
    let input = parse_upsert(r#"{"id":"1","text":"hi","payload":[1,2]}"#).unwrap();
    let err = upsert(&host, &cfg(), &input).unwrap_err();
    assert!(matches!(err, RagError::InvalidInput(_)), "got {err:?}");
    assert!(host.calls().is_empty(), "must not reach the network");
}

#[test]
fn a_missing_secret_surfaces_as_permission_denied() {
    let host = TestHost::new(); // nothing set
    let input = parse_search(r#"{"vector":[0.1,0.2,0.3]}"#).unwrap();
    let err = search(&host, &cfg(), &input).unwrap_err();
    assert!(matches!(err, RagError::PermissionDenied(_)), "got {err:?}");
}

#[test]
fn nothing_is_requested_outside_the_declared_network_allowlist() {
    let host = happy_host(1);
    let input = parse_ingest(r#"{"doc_id":"d1","text":"short"}"#).unwrap();
    ingest(&host, &cfg(), &input).unwrap();
    for call in host.calls() {
        assert!(
            call.url.contains("c.qdrant.io") || call.url.contains("api.openai.com"),
            "unexpected host: {}",
            call.url
        );
    }
}

#[test]
fn delete_and_ensure_return_an_acknowledgement() {
    let host = happy_host(1);
    let del = parse_delete(r#"{"doc_id":"d1"}"#).unwrap();
    assert_eq!(value(&delete(&host, &cfg(), &del).unwrap())["ok"], true);

    let ens = parse_ensure(r#"{}"#).unwrap();
    assert_eq!(value(&ensure_collection(&host, &cfg(), &ens).unwrap())["ok"], true);
}

#[test]
fn a_collection_override_is_honoured_over_the_configured_default() {
    let host = happy_host(1);
    host.expect("POST", &format!("{BASE}/collections/other/points/query"), ok(r#"{"result":{"points":[]}}"#));
    let input = parse_search(r#"{"vector":[0.1,0.2,0.3],"collection":"other"}"#).unwrap();
    search(&host, &cfg(), &input).unwrap();
    assert!(host.calls()[0].url.contains("/collections/other/"));
}

/// A host with only the Qdrant secret set, whose scroll endpoint returns
/// `scroll_response` for `collection`.
fn list_host(scroll_response: (u16, Vec<u8>), collection: &str) -> TestHost {
    let host = TestHost::new();
    host.set_secret(QDRANT_KEY_REF, "qk");
    host.expect("POST", &format!("{BASE}/collections/{collection}/points/scroll"), scroll_response);
    host
}

const EMPTY_PAGE: &str = r#"{"result": {"points": [], "next_page_offset": null}}"#;

#[test]
fn list_groups_several_chunks_of_two_documents_into_two_entries() {
    let body = r#"{"result": {"points": [
        {"id": "p1", "payload": {"doc_id": "d1", "chunk_index": 0, "text": "a"}},
        {"id": "p2", "payload": {"doc_id": "d1", "chunk_index": 1, "text": "b"}},
        {"id": "p3", "payload": {"doc_id": "d2", "chunk_index": 0, "text": "c", "lang": "id"}}
    ], "next_page_offset": null}}"#;
    let host = list_host(ok(body), "kb");
    let input = parse_list(r#"{}"#).unwrap();
    let out = value(&list(&host, &cfg(), &input).unwrap());

    let docs = out["documents"].as_array().unwrap();
    assert_eq!(docs.len(), 2, "two doc_ids must collapse to two entries");
    let d1 = docs.iter().find(|d| d["doc_id"] == "d1").unwrap();
    assert_eq!(d1["chunk_count"], 2);
    let d2 = docs.iter().find(|d| d["doc_id"] == "d2").unwrap();
    assert_eq!(d2["chunk_count"], 1);
    assert_eq!(d2["metadata"]["lang"], "id");
    assert!(d2["metadata"].get("text").is_none());
    assert!(d2["metadata"].get("chunk_index").is_none());
    assert!(d2["metadata"].get("doc_id").is_none());
}

#[test]
fn list_groups_a_point_with_no_doc_id_under_its_own_point_id() {
    let body = r#"{"result": {"points": [{"id": "p1", "payload": {"lang": "id"}}], "next_page_offset": null}}"#;
    let host = list_host(ok(body), "kb");
    let input = parse_list(r#"{}"#).unwrap();
    let out = value(&list(&host, &cfg(), &input).unwrap());
    let docs = out["documents"].as_array().unwrap();
    assert_eq!(docs.len(), 1);
    assert_eq!(docs[0]["doc_id"], "p1");
    assert_eq!(docs[0]["chunk_count"], 1);
}

#[test]
fn list_picks_the_lowest_chunk_index_metadata_regardless_of_scroll_order() {
    let body = r#"{"result": {"points": [
        {"id": "pc", "payload": {"doc_id": "d1", "chunk_index": 2, "marker": "idx2"}},
        {"id": "pa", "payload": {"doc_id": "d1", "chunk_index": 0, "marker": "idx0"}},
        {"id": "pb", "payload": {"doc_id": "d1", "chunk_index": 1, "marker": "idx1"}}
    ], "next_page_offset": null}}"#;
    let host = list_host(ok(body), "kb");
    let input = parse_list(r#"{}"#).unwrap();
    let out = value(&list(&host, &cfg(), &input).unwrap());
    let docs = out["documents"].as_array().unwrap();
    assert_eq!(docs.len(), 1);
    assert_eq!(docs[0]["chunk_count"], 3, "every point in the group must still be counted");
    assert_eq!(
        docs[0]["metadata"]["marker"], "idx0",
        "the surviving metadata must be chunk_index 0's, not the first point Qdrant returned"
    );
}

#[test]
fn list_breaks_ties_among_indexless_points_by_point_id_ascending() {
    let body = r#"{"result": {"points": [
        {"id": "zzz", "payload": {"doc_id": "d1", "marker": "from-zzz"}},
        {"id": "aaa", "payload": {"doc_id": "d1", "marker": "from-aaa"}}
    ], "next_page_offset": null}}"#;
    let host = list_host(ok(body), "kb");
    let input = parse_list(r#"{}"#).unwrap();
    let out = value(&list(&host, &cfg(), &input).unwrap());
    let docs = out["documents"].as_array().unwrap();
    assert_eq!(docs.len(), 1);
    assert_eq!(docs[0]["chunk_count"], 2);
    assert_eq!(docs[0]["metadata"]["marker"], "from-aaa");
}

#[test]
fn list_surfaces_the_pagination_offset_when_qdrant_returns_one() {
    let body = r#"{"result": {"points": [], "next_page_offset": "3f2504e0-4f89-41d3-9a0c-0305e82c3301"}}"#;
    let host = list_host(ok(body), "kb");
    let input = parse_list(r#"{}"#).unwrap();
    let out = value(&list(&host, &cfg(), &input).unwrap());
    assert_eq!(out["next_page_offset"], "3f2504e0-4f89-41d3-9a0c-0305e82c3301");
}

#[test]
fn list_omits_the_pagination_offset_key_entirely_when_qdrant_has_no_more_pages() {
    let host = list_host(ok(EMPTY_PAGE), "kb");
    let input = parse_list(r#"{}"#).unwrap();
    let out = value(&list(&host, &cfg(), &input).unwrap());
    assert!(
        out.as_object().unwrap().get("next_page_offset").is_none(),
        "next_page_offset must be absent, not null, once pages are exhausted: {out}"
    );
}

#[test]
fn list_on_an_empty_collection_returns_an_empty_list_not_an_error() {
    let host = list_host(ok(EMPTY_PAGE), "kb");
    let input = parse_list(r#"{}"#).unwrap();
    let out = value(&list(&host, &cfg(), &input).unwrap());
    assert_eq!(out["documents"].as_array().unwrap().len(), 0);
}

#[test]
fn list_collection_override_reaches_the_request_url() {
    let host = list_host(ok(EMPTY_PAGE), "other");
    let input = parse_list(r#"{"collection":"other"}"#).unwrap();
    list(&host, &cfg(), &input).unwrap();
    assert!(host.calls()[0].url.contains("/collections/other/points/scroll"));
}

fn cfg_requiring_overlay() -> Config {
    Config { require_tenant_overlay: true, ..cfg() }
}

#[test]
fn the_tenant_overlay_collection_reaches_the_request_url() {
    let host = list_host(ok(EMPTY_PAGE), "tenant-a");
    let input = parse_list(r#"{"_tenant_overlay":{"collection":"tenant-a"}}"#).unwrap();
    list(&host, &cfg(), &input).unwrap();
    assert!(host.calls()[0].url.contains("/collections/tenant-a/points/scroll"));
}

#[test]
fn the_overlay_outranks_the_configured_default_without_any_caller_argument() {
    let host = happy_host(1);
    host.expect("POST", &format!("{BASE}/collections/tenant-a/points/query"), ok(r#"{"result":{"points":[]}}"#));
    let input = parse_search(r#"{"vector":[0.1,0.2,0.3],"_tenant_overlay":{"collection":"tenant-a"}}"#).unwrap();
    search(&host, &cfg(), &input).unwrap();
    assert!(host.calls()[0].url.contains("/collections/tenant-a/"));
}

#[test]
fn a_caller_collection_is_refused_while_the_overlay_pins_one() {
    let host = happy_host(1);
    let input = parse_search(
        r#"{"vector":[0.1,0.2,0.3],"collection":"tenant-b","_tenant_overlay":{"collection":"tenant-a"}}"#,
    )
    .unwrap();
    let err = search(&host, &cfg(), &input).unwrap_err();
    assert!(
        matches!(err, RagError::InvalidInput(ref m) if m.contains("tenant-b") && m.contains("tenant-a")),
        "unexpected error: {err:?}"
    );
    assert!(host.calls().is_empty(), "refusal must happen before any host call");
}

#[test]
fn a_caller_collection_matching_the_overlay_is_refused_too() {
    let host = happy_host(1);
    let input = parse_search(
        r#"{"vector":[0.1,0.2,0.3],"collection":"tenant-a","_tenant_overlay":{"collection":"tenant-a"}}"#,
    )
    .unwrap();
    let err = search(&host, &cfg(), &input).unwrap_err();
    assert!(matches!(err, RagError::InvalidInput(_)), "got {err:?}");
    assert!(host.calls().is_empty());
}

#[test]
fn a_refused_search_on_the_text_path_never_reaches_the_embeddings_api() {
    let host = happy_host(1);
    let input = parse_search(
        r#"{"query":"anything","collection":"tenant-b","_tenant_overlay":{"collection":"tenant-a"}}"#,
    )
    .unwrap();
    let err = search(&host, &cfg(), &input).unwrap_err();
    assert!(matches!(err, RagError::InvalidInput(_)), "got {err:?}");
    assert!(host.calls().is_empty(), "no embeddings call may precede the refusal");
}

#[test]
fn a_refused_ingest_never_reaches_the_embeddings_api() {
    let host = happy_host(4);
    let input = parse_ingest(
        r#"{"doc_id":"d1","text":"a much longer document that would chunk into several pieces","collection":"tenant-b","_tenant_overlay":{"collection":"tenant-a"}}"#,
    )
    .unwrap();
    let err = ingest(&host, &cfg(), &input).unwrap_err();
    assert!(matches!(err, RagError::InvalidInput(_)), "got {err:?}");
    assert!(host.calls().is_empty());
}

#[test]
fn delete_also_refuses_a_caller_collection_under_an_overlay() {
    let host = happy_host(0);
    let input = parse_delete(
        r#"{"doc_id":"d1","collection":"tenant-b","_tenant_overlay":{"collection":"tenant-a"}}"#,
    )
    .unwrap();
    let err = delete(&host, &cfg(), &input).unwrap_err();
    assert!(matches!(err, RagError::InvalidInput(_)), "got {err:?}");
    assert!(host.calls().is_empty());
    assert!(host.secret_reads.borrow().is_empty(), "no secret may be read before the refusal");
}

#[test]
fn ingest_also_refuses_a_caller_collection_under_an_overlay() {
    let host = happy_host(1);
    let input = parse_ingest(
        r#"{"doc_id":"d1","text":"hello there","collection":"tenant-b","_tenant_overlay":{"collection":"tenant-a"}}"#,
    )
    .unwrap();
    let err = ingest(&host, &cfg(), &input).unwrap_err();
    assert!(matches!(err, RagError::InvalidInput(_)), "got {err:?}");
    assert!(host.calls().is_empty(), "nothing may be embedded or written before the refusal");
}

#[test]
fn a_caller_collection_still_works_when_no_overlay_is_present() {
    let host = list_host(ok(EMPTY_PAGE), "other");
    let input = parse_list(r#"{"collection":"other"}"#).unwrap();
    list(&host, &cfg(), &input).unwrap();
    assert!(host.calls()[0].url.contains("/collections/other/"));
}

#[test]
fn an_overlay_without_a_collection_leaves_the_caller_override_alone() {
    let host = list_host(ok(EMPTY_PAGE), "other");
    let input = parse_list(
        r#"{"collection":"other","_tenant_overlay":{"qdrant_url":"https://c.qdrant.io:6333"}}"#,
    )
    .unwrap();
    list(&host, &cfg(), &input).unwrap();
    assert!(host.calls()[0].url.contains("/collections/other/"));
}

#[test]
fn a_blank_overlay_collection_is_refused_rather_than_used() {
    let host = happy_host(1);
    let input = parse_search(r#"{"vector":[0.1,0.2,0.3],"_tenant_overlay":{"collection":"   "}}"#).unwrap();
    let err = search(&host, &cfg(), &input).unwrap_err();
    assert!(matches!(err, RagError::InvalidInput(_)), "got {err:?}");
    assert!(host.calls().is_empty());
}

#[test]
fn an_overlay_repeating_the_configured_qdrant_url_is_accepted() {
    let host = list_host(ok(EMPTY_PAGE), "tenant-a");
    let json = format!(r#"{{"_tenant_overlay":{{"collection":"tenant-a","qdrant_url":"{BASE}"}}}}"#);
    let input = parse_list(&json).unwrap();
    list(&host, &cfg(), &input).unwrap();
    assert!(host.calls()[0].url.contains("/collections/tenant-a/"));
}

#[test]
fn an_overlay_qdrant_url_that_disagrees_is_refused() {
    let host = happy_host(1);
    let input = parse_search(
        r#"{"vector":[0.1,0.2,0.3],"_tenant_overlay":{"collection":"tenant-a","qdrant_url":"https://elsewhere.qdrant.io:6333"}}"#,
    )
    .unwrap();
    let err = search(&host, &cfg(), &input).unwrap_err();
    assert!(
        matches!(err, RagError::InvalidInput(ref m) if m.contains("elsewhere.qdrant.io")),
        "unexpected error: {err:?}"
    );
    assert!(host.calls().is_empty());
}

#[test]
fn require_tenant_overlay_refuses_a_call_the_host_did_not_stamp() {
    let host = happy_host(1);
    let input = parse_search(r#"{"vector":[0.1,0.2,0.3]}"#).unwrap();
    let err = search(&host, &cfg_requiring_overlay(), &input).unwrap_err();
    assert!(
        matches!(err, RagError::PermissionDenied(ref m) if m.contains("require_tenant_overlay")),
        "unexpected error: {err:?}"
    );
    assert!(host.calls().is_empty());
}

#[test]
fn require_tenant_overlay_is_not_satisfied_by_a_caller_collection() {
    let host = happy_host(1);
    let input = parse_search(r#"{"vector":[0.1,0.2,0.3],"collection":"tenant-a"}"#).unwrap();
    let err = search(&host, &cfg_requiring_overlay(), &input).unwrap_err();
    assert!(matches!(err, RagError::PermissionDenied(_)), "got {err:?}");
    assert!(host.calls().is_empty());
}

#[test]
fn require_tenant_overlay_passes_once_the_host_stamps_one() {
    let host = list_host(ok(EMPTY_PAGE), "tenant-a");
    let input = parse_list(r#"{"_tenant_overlay":{"collection":"tenant-a"}}"#).unwrap();
    list(&host, &cfg_requiring_overlay(), &input).unwrap();
    assert!(host.calls()[0].url.contains("/collections/tenant-a/"));
}

#[test]
fn unknown_keys_inside_the_overlay_are_ignored() {
    let host = list_host(ok(EMPTY_PAGE), "tenant-a");
    let input = parse_list(r#"{"_tenant_overlay":{"collection":"tenant-a","future_key":{"nested":true}}}"#).unwrap();
    list(&host, &cfg(), &input).unwrap();
    assert!(host.calls()[0].url.contains("/collections/tenant-a/"));
}

#[test]
fn an_overlay_alone_configures_a_call_that_reaches_the_right_cluster() {
    let overlay = overlay_from(
        &json_of(r#"{"qdrant_url":"https://tenant-a.qdrant.io:6333","collection":"tenant-a-kb"}"#),
    )
    .unwrap();
    let cfg = resolve(None, Some(&overlay))
        .expect("an overlay carrying a url and a collection is a complete configuration");

    let host = TestHost::new();
    host.set_secret(QDRANT_KEY_REF, "qk");
    host.expect("POST", "https://tenant-a.qdrant.io:6333/collections/tenant-a-kb/points/scroll", ok(EMPTY_PAGE));

    let input = parse_list(
        r#"{"_tenant_overlay":{"qdrant_url":"https://tenant-a.qdrant.io:6333","collection":"tenant-a-kb"}}"#,
    )
    .unwrap();
    list(&host, &cfg, &input).unwrap();
    assert_eq!(host.calls()[0].url, "https://tenant-a.qdrant.io:6333/collections/tenant-a-kb/points/scroll");
}

#[test]
fn two_overlays_in_a_row_are_not_confused_with_one_another() {
    for (host_name, collection) in [("tenant-a.qdrant.io", "tenant-a-kb"), ("tenant-b.qdrant.io", "tenant-b-kb")] {
        let url = format!("https://{host_name}:6333");
        let json = format!(r#"{{"_tenant_overlay":{{"qdrant_url":"{url}","collection":"{collection}"}}}}"#);
        let input = parse_list(&json).unwrap();
        let cfg = resolve(None, input.tenant_overlay.as_ref()).expect("must resolve");

        let host = TestHost::new();
        host.set_secret(QDRANT_KEY_REF, "qk");
        let expected = format!("{url}/collections/{collection}/points/scroll");
        host.expect("POST", &expected, ok(EMPTY_PAGE));

        list(&host, &cfg, &input).unwrap();
        assert_eq!(host.calls()[0].url, expected);
    }
}

#[test]
fn an_overlay_without_a_collection_still_trips_require_tenant_overlay() {
    let input = parse_search(
        r#"{"vector":[0.1,0.2,0.3],
            "_tenant_overlay":{"qdrant_url":"https://c.qdrant.io:6333",
                               "require_tenant_overlay":true}}"#,
    )
    .unwrap();
    let cfg = resolve(None, input.tenant_overlay.as_ref()).unwrap();
    let host = happy_host(1);
    let err = search(&host, &cfg, &input).unwrap_err();
    assert!(matches!(err, RagError::PermissionDenied(_)), "got {err:?}");
    assert!(host.calls().is_empty());
}

#[test]
fn a_call_with_no_collection_from_any_source_names_what_to_configure() {
    let input = parse_search(
        r#"{"vector":[0.1,0.2,0.3],
            "_tenant_overlay":{"qdrant_url":"https://c.qdrant.io:6333"}}"#,
    )
    .unwrap();
    let cfg = resolve(None, input.tenant_overlay.as_ref()).unwrap();
    assert_eq!(cfg.collection, "", "nothing named a collection");

    let host = happy_host(1);
    let err = search(&host, &cfg, &input).unwrap_err();
    let RagError::InvalidInput(msg) = err else {
        panic!("expected InvalidInput, got {err:?}");
    };
    assert!(msg.contains("admin console"), "message was: {msg}");
    assert!(host.calls().is_empty());
}

// ---- further cases ----

#[test]
fn an_ingest_makes_its_calls_in_the_documented_order() {
    let host = happy_host(3);
    let input = parse_ingest(r#"{"doc_id":"d1","text":"abcdefghijklmnopqrstuvwxy"}"#).unwrap();
    ingest(&host, &cfg(), &input).unwrap();
    let calls: Vec<(String, String)> = host.calls().into_iter().map(|c| (c.method, c.url)).collect();
    assert_eq!(
        calls,
        vec![
            ("POST".to_string(), EMBED_URL.to_string()),
            ("PUT".to_string(), format!("{BASE}/collections/kb")),
            ("POST".to_string(), format!("{BASE}/collections/kb/points/delete?wait=true")),
            ("PUT".to_string(), format!("{BASE}/collections/kb/points?wait=true")),
        ]
    );
    assert_eq!(*host.secret_reads.borrow(), vec![EMBEDDING_KEY_REF.to_string(), QDRANT_KEY_REF.to_string()]);
}

#[test]
fn a_failed_embedding_leaves_the_stored_document_alone() {
    let host = happy_host(1);
    host.expect("POST", EMBED_URL, (500, b"down".to_vec()));
    let input = parse_ingest(r#"{"doc_id":"d1","text":"short"}"#).unwrap();
    let err = ingest(&host, &cfg(), &input).unwrap_err();
    assert_eq!(err, RagError::Internal("embeddings API returned HTTP 500: down".to_string()));
    assert_eq!(host.calls().len(), 1, "only the embeddings request may have been sent");
}

#[test]
fn a_failed_delete_stops_the_ingest_before_any_write() {
    let host = happy_host(1);
    host.expect("POST", &format!("{BASE}/collections/kb/points/delete?wait=true"), (503, b"busy".to_vec()));
    let input = parse_ingest(r#"{"doc_id":"d1","text":"short"}"#).unwrap();
    let err = ingest(&host, &cfg(), &input).unwrap_err();
    assert_eq!(err, RagError::Internal("Qdrant returned HTTP 503: busy".to_string()));
    assert!(!host.calls().iter().any(|c| c.url.ends_with("/points?wait=true")));
}

#[test]
fn too_few_vectors_for_the_chunks_is_internal() {
    let host = happy_host(2);
    let input = parse_ingest(r#"{"doc_id":"d1","text":"abcdefghijklmnopqrstuvwxy"}"#).unwrap();
    assert_eq!(
        ingest(&host, &cfg(), &input).unwrap_err(),
        RagError::Internal("embeddings API returned 2 vectors for 3 inputs".to_string())
    );
}

#[test]
fn every_qdrant_request_carries_the_resolved_key() {
    let host = happy_host(1);
    let input = parse_ingest(r#"{"doc_id":"d1","text":"short"}"#).unwrap();
    ingest(&host, &cfg(), &input).unwrap();
    for call in host.calls() {
        if call.url.starts_with(BASE) {
            assert!(call.headers.contains(&("api-key".to_string(), "qk".to_string())), "{}", call.url);
        } else {
            assert!(call.headers.contains(&("authorization".to_string(), "Bearer ek".to_string())), "{}", call.url);
        }
    }
}

#[test]
fn upsert_stores_the_text_in_the_payload_and_answers_with_the_id() {
    let host = happy_host(1);
    let input = parse_upsert(r#"{"id":"42","text":"hello","payload":{"k":"v"}}"#).unwrap();
    let out = value(&upsert(&host, &cfg(), &input).unwrap());
    assert_eq!(out, serde_json::from_str::<serde_json::Value>(r#"{"ok":true,"id":"42"}"#).unwrap());
    let write = host.calls().into_iter().find(|c| c.url.ends_with("/points?wait=true")).unwrap();
    let body = body_json(&write);
    assert_eq!(body["points"][0]["id"], "42");
    assert_eq!(body["points"][0]["payload"]["text"], "hello");
    assert_eq!(body["points"][0]["payload"]["k"], "v");
}

#[test]
fn a_transport_failure_is_internal() {
    struct DeadHost;
    impl HostCalls for DeadHost {
        fn fetch(&self, _req: &HttpRequest) -> Result<HttpResponse, String> {
            Err("connection refused".to_string())
        }
        fn secret(&self, _uri: &str) -> Result<String, String> {
            Ok("k".to_string())
        }
    }
    let input = parse_search(r#"{"vector":[0.1,0.2,0.3]}"#).unwrap();
    assert_eq!(
        search(&DeadHost, &cfg(), &input).unwrap_err(),
        RagError::Internal("host http::fetch failed: connection refused".to_string())
    );
}

#[test]
fn a_missing_secret_names_the_uri() {
    let host = TestHost::new();
    let input = parse_list(r#"{}"#).unwrap();
    assert_eq!(
        list(&host, &cfg(), &input).unwrap_err(),
        RagError::PermissionDenied(format!("host could not resolve {QDRANT_KEY_REF}: secret {QDRANT_KEY_REF} is not set"))
    );
}

#[test]
fn ensure_collection_reports_what_it_created() {
    let host = happy_host(1);
    host.expect("PUT", &format!("{BASE}/collections/kb"), (409, b"Collection `kb` already exists!".to_vec()));
    let ens = parse_ensure(r#"{"dimensions":8,"distance":"Dot"}"#).unwrap();
    let out = value(&ensure_collection(&host, &cfg(), &ens).unwrap());
    assert_eq!(
        out,
        serde_json::from_str::<serde_json::Value>(r#"{"ok":true,"collection":"kb","dimensions":8,"distance":"Dot"}"#).unwrap()
    );
    let body = body_json(&host.calls()[0]);
    assert_eq!(body["vectors"]["size"], 8);
}

#[test]
fn a_caller_vector_reaches_qdrant_unchanged() {
    let host = happy_host(1);
    let input = parse_search(r#"{"vector":[0.5,1,2.25],"top_k":9}"#).unwrap();
    let out = value(&search(&host, &cfg(), &input).unwrap());
    let body = body_json(&host.calls()[0]);
    assert_eq!(body["query"], serde_json::from_str::<serde_json::Value>("[0.5,1,2.25]").unwrap());
    assert_eq!(body["limit"], 9);
    assert_eq!(out["hits"][0]["payload"]["text"], "hi");
}

#[test]
fn reingesting_a_document_overwrites_the_same_point_ids() {
    let ids_of = |text: &str| -> Vec<serde_json::Value> {
        let host = happy_host(1);
        let input = parse_ingest(&format!(r#"{{"doc_id":"d1","text":"{text}","metadata":{{"v":"{text}"}}}}"#)).unwrap();
        ingest(&host, &cfg(), &input).unwrap();
        let write = host.calls().into_iter().find(|c| c.url.ends_with("/points?wait=true")).unwrap();
        body_json(&write)["points"].as_array().unwrap().iter().map(|p| p["id"].clone()).collect()
    };
    assert_eq!(ids_of("first"), ids_of("second"));
}

#[test]
fn a_refused_listing_or_ensure_reads_no_secret() {
    let host = list_host(ok(EMPTY_PAGE), "tenant-a");
    let input = parse_list(r#"{"collection":"tenant-b","_tenant_overlay":{"collection":"tenant-a"}}"#).unwrap();
    assert!(matches!(list(&host, &cfg(), &input).unwrap_err(), RagError::InvalidInput(_)));
    let ens = parse_ensure(r#"{"collection":"tenant-b","_tenant_overlay":{"collection":"tenant-a"}}"#).unwrap();
    assert!(matches!(ensure_collection(&host, &cfg(), &ens).unwrap_err(), RagError::InvalidInput(_)));
    let ens = parse_ensure(r#"{}"#).unwrap();
    assert!(matches!(ensure_collection(&host, &cfg_requiring_overlay(), &ens).unwrap_err(), RagError::PermissionDenied(_)));
    assert!(host.calls().is_empty());
    assert!(host.secret_reads.borrow().is_empty());
}

#[test]
fn listed_documents_come_in_order_of_first_appearance_and_count_every_point() {
    let body = r#"{"result": {"points": [
        {"id": "p1", "payload": {"doc_id": "zeta", "chunk_index": 1}},
        {"id": "p2", "payload": {"doc_id": "alpha", "chunk_index": 0}},
        {"id": "p3", "payload": {"doc_id": "zeta", "chunk_index": 0}},
        {"id": "p4", "payload": {}}
    ], "next_page_offset": null}}"#;
    let host = list_host(ok(body), "kb");
    let out = value(&list(&host, &cfg(), &parse_list("{}").unwrap()).unwrap());
    let docs = out["documents"].as_array().unwrap();
    let ids: Vec<&str> = docs.iter().map(|d| d["doc_id"].as_str().unwrap()).collect();
    assert_eq!(ids, vec!["zeta", "alpha", "p4"]);
    let total: u64 = docs.iter().map(|d| d["chunk_count"].as_u64().unwrap()).sum();
    assert_eq!(total, 4);
}
