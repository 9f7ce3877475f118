use rag_qdrant::config::EmbeddingConfig;
use rag_qdrant::embed::{embed_request, parse_embed_response};
use rag_qdrant::error::RagError;

fn cfg() -> EmbeddingConfig {
    EmbeddingConfig {
        base_url: "https://api.openai.com/v1".to_string(),
        model: "text-embedding-3-small".to_string(),
        dimensions: 3,
    }
}

fn floats(vs: &[Vec<String>]) -> Vec<Vec<f32>> {
    vs.iter().map(|v| v.iter().map(|t| t.parse::<f32>().unwrap()).collect()).collect()
}

#[test]
fn the_request_targets_the_embeddings_endpoint_with_bearer_auth() {
    let req = embed_request(&cfg(), &vec!["hello".to_string()], "sk-test");
    assert_eq!(req.method, "POST");
    assert_eq!(req.url, "https://api.openai.com/v1/embeddings");
    assert!(req.headers.contains(&("authorization".to_string(), "Bearer sk-test".to_string())));
    assert!(req.headers.contains(&("content-type".to_string(), "application/json".to_string())));
}

#[test]
fn the_request_body_carries_the_model_and_every_input() {
    let req = embed_request(&cfg(), &vec!["a".to_string(), "b".to_string()], "k");
    let body: serde_json::Value = serde_json::from_slice(req.body.as_deref().unwrap()).unwrap();
    assert_eq!(body["model"], "text-embedding-3-small");
    assert_eq!(body["input"], serde_json::from_str::<serde_json::Value>(r#"["a", "b"]"#).unwrap());
}

#[test]
fn a_successful_response_yields_vectors_in_index_order() {
    // Deliberately out of order — the API does not promise ordering.
    let body = br#"{"data":[
        {"index":1,"embedding":[0.4,0.5,0.6]},
        {"index":0,"embedding":[0.1,0.2,0.3]}
    ]}"#;
    let got = parse_embed_response(200, body, 3).unwrap();
    assert_eq!(floats(&got), vec![vec![0.1, 0.2, 0.3], vec![0.4, 0.5, 0.6]]);
}

#[test]
fn a_dimension_mismatch_is_schema_invalid_not_internal() {
    let body = br#"{"data":[{"index":0,"embedding":[0.1,0.2]}]}"#;
    let err = parse_embed_response(200, body, 3).unwrap_err();
    assert!(matches!(err, RagError::SchemaInvalid(_)), "got {err:?}");
}

#[test]
fn a_401_is_permission_denied() {
    let err = parse_embed_response(401, b"{\"error\":\"bad key\"}", 3).unwrap_err();
    assert!(matches!(err, RagError::PermissionDenied(_)), "got {err:?}");
}

#[test]
fn a_500_is_internal() {
    let err = parse_embed_response(500, b"upstream on fire", 3).unwrap_err();
    assert!(matches!(err, RagError::Internal(_)), "got {err:?}");
}

#[test]
fn a_200_with_a_non_json_body_is_internal_not_a_panic() {
    let err = parse_embed_response(200, b"<html>nope</html>", 3).unwrap_err();
    assert!(matches!(err, RagError::Internal(_)), "got {err:?}");
}

// ---- further cases ----

#[test]
fn a_duplicated_index_is_internal_not_silently_mispaired() {
    let body = br#"{"data":[
        {"index":0,"embedding":[0.1,0.2,0.3]},
        {"index":0,"embedding":[0.4,0.5,0.6]}
    ]}"#;
    assert_eq!(
        parse_embed_response(200, body, 3).unwrap_err(),
        RagError::Internal("embeddings API returned indices that are not exactly 0..2".to_string())
    );
}

#[test]
fn an_index_out_of_range_is_internal() {
    let body = br#"{"data":[{"index":1,"embedding":[0.1,0.2,0.3]}]}"#;
    assert!(matches!(parse_embed_response(200, body, 3).unwrap_err(), RagError::Internal(_)));
}

#[test]
fn the_first_mismatch_in_index_order_is_reported() {
    let body = br#"{"data":[
        {"index":1,"embedding":[0.1]},
        {"index":0,"embedding":[0.1,0.2]}
    ]}"#;
    assert_eq!(
        parse_embed_response(200, body, 3).unwrap_err(),
        RagError::SchemaInvalid("embedding at index 0 has 2 dimensions, collection expects 3".to_string())
    );
}

#[test]
fn embeddings_status_messages_carry_the_status_and_the_body() {
    assert_eq!(
        parse_embed_response(403, b"no", 3).unwrap_err(),
        RagError::PermissionDenied("embeddings API rejected the key (HTTP 403): no".to_string())
    );
    assert_eq!(
        parse_embed_response(302, b"moved", 3).unwrap_err(),
        RagError::Internal("embeddings API returned HTTP 302: moved".to_string())
    );
}

#[test]
fn a_body_of_the_wrong_shape_is_internal() {
    for body in [&br#"{"data":{}}"#[..], br#"{}"#, br#"{"data":[{"index":"0","embedding":[1,2,3]}]}"#, br#"{"data":[{"index":0,"embedding":["x"]}]}"#] {
        let err = parse_embed_response(200, body, 3).unwrap_err();
        assert!(matches!(err, RagError::Internal(ref m) if m.starts_with("embeddings response is not JSON: ")), "got {err:?}");
    }
}

#[test]
fn an_empty_data_array_yields_no_vectors() {
    assert!(parse_embed_response(200, br#"{"data":[]}"#, 3).unwrap().is_empty());
}
