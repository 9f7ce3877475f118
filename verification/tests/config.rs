use rag_qdrant::config::{
    installed, overlay_from, parse_config, resolve, store, ChunkConfig, Config, ConfigOverlay,
    ConfigStore, EmbeddingOverlay, DEFAULT_EMBEDDING_BASE_URL, DEFAULT_EMBEDDING_DIMENSIONS,
    DEFAULT_EMBEDDING_MODEL,
};
use rag_qdrant::error::RagError;
use rag_qdrant::json::Json;

/// A JSON document in the library's model, from its text.
fn json_of(text: &str) -> Json {
    fn conv(v: &serde_json::Value) -> Json {
        match v {
            serde_json::Value::Null => Json::Null,
            serde_json::Value::Bool(b) => Json::Bool(*b),
            serde_json::Value::Number(n) => Json::Number(n.to_string()),
            serde_json::Value::String(s) => Json::Str(s.clone()),
            serde_json::Value::Array(a) => Json::Array(a.iter().map(conv).collect()),
            serde_json::Value::Object(m) => Json::Object(m.iter().map(|(k, v)| (k.clone(), conv(v))).collect()),
        }
    }
    conv(&serde_json::from_str(text).unwrap())
}



const FULL: &str = r#"{
  "qdrant_url": "https://c.qdrant.io:6333",
  "collection": "kb",
  "embedding": {
    "base_url": "https://api.openai.com/v1",
    "model": "text-embedding-3-small",
    "dimensions": 1536
  },
  "chunk": { "max_chars": 1200, "overlap_chars": 150 }
}"#;

fn overlay(json: &str) -> ConfigOverlay {
    overlay_from(&json_of(json))
        .expect("overlay fixture must parse")
}

#[test]
fn require_tenant_overlay_defaults_to_off() {
    let cfg = parse_config(FULL).expect("FULL must parse");
    assert!(!cfg.require_tenant_overlay);
}

#[test]
fn require_tenant_overlay_can_be_switched_on() {
    let json = FULL.replace(
        r#""collection": "kb""#,
        r#""collection": "kb", "require_tenant_overlay": true"#,
    );
    let cfg = parse_config(&json).expect("config with the flag must parse");
    assert!(cfg.require_tenant_overlay);
}

#[test]
fn a_full_config_parses() {
    let cfg = parse_config(FULL).unwrap();
    assert_eq!(cfg.qdrant_url, "https://c.qdrant.io:6333");
    assert_eq!(cfg.collection, "kb");
    assert_eq!(cfg.embedding.dimensions, 1536);
    assert_eq!(cfg.chunk.max_chars, 1200);
}

#[test]
fn a_trailing_slash_on_the_qdrant_url_is_normalised_away() {
    let cfg = parse_config(&FULL.replace("6333", "6333/")).unwrap();
    assert!(!cfg.qdrant_url.ends_with('/'));
}

#[test]
fn chunk_settings_default_when_omitted() {
    let json = r#"{
      "qdrant_url": "https://c.qdrant.io:6333",
      "collection": "kb",
      "embedding": { "base_url": "https://x/v1", "model": "m", "dimensions": 8 }
    }"#;
    let cfg = parse_config(json).unwrap();
    assert_eq!(cfg.chunk.max_chars, 1200);
    assert_eq!(cfg.chunk.overlap_chars, 150);
}

#[test]
fn a_missing_required_field_names_the_field() {
    let err = parse_config(r#"{"collection":"kb"}"#).unwrap_err();
    let RagError::InvalidInput(msg) = err else {
        panic!("expected InvalidInput");
    };
    assert!(msg.contains("qdrant_url"), "message was: {msg}");
}

#[test]
fn an_overlap_at_or_above_the_window_is_rejected() {
    let json = FULL.replace(r#""overlap_chars": 150"#, r#""overlap_chars": 1200"#);
    assert!(matches!(parse_config(&json), Err(RagError::InvalidInput(_))));
}

#[test]
fn zero_dimensions_is_rejected() {
    let json = FULL.replace(r#""dimensions": 1536"#, r#""dimensions": 0"#);
    assert!(matches!(parse_config(&json), Err(RagError::InvalidInput(_))));
}

#[test]
fn no_baseline_is_installed_until_init_runs() {
    // A store nothing was ever put into holds no baseline: `installed` must
    // return None, never fabricate a config.
    let baseline = ConfigStore::new();
    assert!(installed(&baseline).is_none());
}

#[test]
fn an_overlay_alone_configures_the_extension_with_no_init_at_all() {
    let cfg = resolve(
        None,
        Some(&overlay(
            r#"{"qdrant_url":"https://t.qdrant.io:6333","collection":"tenant-a"}"#,
        )),
    )
    .expect("an overlay carrying a url and a collection is a complete configuration");
    assert_eq!(cfg.qdrant_url, "https://t.qdrant.io:6333");
    assert_eq!(cfg.collection, "tenant-a");
    assert_eq!(cfg.embedding.base_url, DEFAULT_EMBEDDING_BASE_URL);
    assert_eq!(cfg.embedding.model, DEFAULT_EMBEDDING_MODEL);
    assert_eq!(cfg.embedding.dimensions, DEFAULT_EMBEDDING_DIMENSIONS);
    assert_eq!(cfg.chunk, ChunkConfig::default());
}

#[test]
fn an_overlay_can_supply_the_embedding_and_chunk_settings_too() {
    let cfg = resolve(
        None,
        Some(&overlay(
            r#"{
              "qdrant_url":"https://t.qdrant.io:6333",
              "collection":"tenant-a",
              "embedding":{"base_url":"https://llm.internal/v1/","model":"e5","dimensions":768},
              "chunk":{"max_chars":400,"overlap_chars":40}
            }"#,
        )),
    )
    .unwrap();
    assert_eq!(cfg.embedding.base_url, "https://llm.internal/v1");
    assert_eq!(cfg.embedding.model, "e5");
    assert_eq!(cfg.embedding.dimensions, 768);
    assert_eq!(cfg.chunk.max_chars, 400);
    assert_eq!(cfg.chunk.overlap_chars, 40);
}

#[test]
fn an_init_baseline_alone_still_configures_the_extension() {
    let base = parse_config(FULL).unwrap();
    let resolved = resolve(Some(&base), None).expect("a baseline alone must resolve");
    assert_eq!(resolved, base);
}

#[test]
fn an_overlay_field_wins_over_the_baseline_and_leaves_its_siblings_alone() {
    let base = parse_config(FULL).unwrap();
    let cfg = resolve(
        Some(&base),
        Some(&overlay(r#"{"collection":"tenant-a","embedding":{"dimensions":768}}"#)),
    )
    .unwrap();
    assert_eq!(cfg.collection, "tenant-a");
    assert_eq!(cfg.embedding.dimensions, 768);
    assert_eq!(cfg.embedding.model, "text-embedding-3-small");
    assert_eq!(cfg.qdrant_url, base.qdrant_url);
    assert_eq!(cfg.chunk, base.chunk);
}

#[test]
fn an_overlay_may_switch_require_tenant_overlay_on() {
    let base = parse_config(FULL).unwrap();
    assert!(!base.require_tenant_overlay);
    let cfg = resolve(Some(&base), Some(&overlay(r#"{"require_tenant_overlay":true}"#))).unwrap();
    assert!(cfg.require_tenant_overlay);
}

#[test]
fn unknown_overlay_keys_are_ignored() {
    let cfg = resolve(
        None,
        Some(&overlay(
            r#"{"qdrant_url":"https://t.qdrant.io:6333","collection":"c","future_key":{"a":1}}"#,
        )),
    )
    .unwrap();
    assert_eq!(cfg.collection, "c");
}

#[test]
fn no_baseline_and_no_overlay_is_an_error_naming_what_to_do_about_it() {
    let err = resolve(None, None).unwrap_err();
    let RagError::InvalidInput(msg) = err else {
        panic!("expected InvalidInput");
    };
    assert!(msg.contains("qdrant_url"), "message was: {msg}");
    assert!(msg.contains("collection"), "message was: {msg}");
    assert!(msg.contains("admin console"), "message was: {msg}");
    assert!(!msg.contains("lifecycle::init"), "message was: {msg}");
}

#[test]
fn an_overlay_with_no_qdrant_url_and_no_baseline_is_the_same_error() {
    let err = resolve(None, Some(&overlay(r#"{"collection":"tenant-a"}"#))).unwrap_err();
    let RagError::InvalidInput(msg) = err else {
        panic!("expected InvalidInput");
    };
    assert!(msg.contains("admin console"), "message was: {msg}");
}

#[test]
fn an_overlay_qdrant_url_contradicting_the_init_baseline_is_refused() {
    let base = parse_config(FULL).unwrap();
    let err = resolve(
        Some(&base),
        Some(&overlay(
            r#"{"collection":"tenant-a","qdrant_url":"https://elsewhere.qdrant.io:6333"}"#,
        )),
    )
    .unwrap_err();
    let RagError::InvalidInput(msg) = err else {
        panic!("expected InvalidInput");
    };
    assert!(msg.contains("elsewhere.qdrant.io"), "message was: {msg}");
    assert!(msg.contains("c.qdrant.io"), "message was: {msg}");
}

#[test]
fn an_overlay_repeating_the_baseline_qdrant_url_is_accepted() {
    let base = parse_config(FULL).unwrap();
    let cfg = resolve(
        Some(&base),
        Some(&overlay(
            r#"{"collection":"tenant-a","qdrant_url":"https://c.qdrant.io:6333/"}"#,
        )),
    )
    .expect("an echo of the baseline is not a contradiction");
    assert_eq!(cfg.qdrant_url, base.qdrant_url);
    assert_eq!(cfg.collection, "tenant-a");
}

#[test]
fn without_an_init_baseline_the_overlay_chooses_the_cluster_freely() {
    let cfg = resolve(
        None,
        Some(&overlay(
            r#"{"collection":"tenant-a","qdrant_url":"https://elsewhere.qdrant.io:6333"}"#,
        )),
    )
    .expect("no baseline means no contradiction");
    assert_eq!(cfg.qdrant_url, "https://elsewhere.qdrant.io:6333");
}

#[test]
fn a_blank_overlay_qdrant_url_is_refused_rather_than_ignored() {
    let err = resolve(None, Some(&overlay(r#"{"qdrant_url":"   "}"#))).unwrap_err();
    assert!(matches!(err, RagError::InvalidInput(_)), "got {err:?}");
}

#[test]
fn an_out_of_range_overlay_value_is_rejected_at_resolution() {
    let base = parse_config(FULL).unwrap();
    let err = resolve(Some(&base), Some(&overlay(r#"{"embedding":{"dimensions":0}}"#))).unwrap_err();
    assert!(matches!(err, RagError::InvalidInput(_)), "got {err:?}");

    let err = resolve(Some(&base), Some(&overlay(r#"{"chunk":{"max_chars":100}}"#))).unwrap_err();
    assert!(matches!(err, RagError::InvalidInput(_)), "got {err:?}");
}

fn full_cfg() -> Config {
    parse_config(FULL).unwrap()
}

#[test]
fn a_config_store_accepts_its_first_config() {
    let mut baseline = ConfigStore::new();
    assert!(baseline.store(full_cfg()).is_ok());
    assert_eq!(baseline.installed().unwrap().collection, "kb");
}

#[test]
fn a_second_store_of_an_identical_config_is_a_harmless_reload() {
    let mut baseline = ConfigStore::new();
    baseline.store(full_cfg()).unwrap();
    assert!(baseline.store(full_cfg()).is_ok());
    assert_eq!(baseline.installed().unwrap().collection, "kb");
}

#[test]
fn a_second_store_of_a_differing_config_is_rejected_and_the_original_survives() {
    let mut baseline = ConfigStore::new();
    baseline.store(full_cfg()).unwrap();

    let mut changed = full_cfg();
    changed.collection = "other".to_string();
    let err = baseline.store(changed).expect_err("a changed config must be rejected");
    let RagError::InvalidInput(msg) = err else {
        panic!("expected InvalidInput");
    };
    assert!(msg.contains("different"), "message was: {msg}");
    assert!(msg.contains("restart"), "message was: {msg}");
    assert_eq!(baseline.installed().unwrap().collection, "kb");
}

// ---- further cases ----

#[test]
fn the_free_store_function_applies_the_same_policy() {
    let mut baseline = ConfigStore::new();
    assert!(store(&mut baseline, full_cfg()).is_ok());
    assert!(store(&mut baseline, full_cfg()).is_ok());
    let mut changed = full_cfg();
    changed.chunk.overlap_chars = 10;
    assert!(store(&mut baseline, changed).is_err());
    assert_eq!(installed(&baseline).unwrap().chunk.overlap_chars, 150);
}

#[test]
fn the_overlap_message_names_both_numbers() {
    let json = FULL.replace(r#""overlap_chars": 150"#, r#""overlap_chars": 1300"#);
    let RagError::InvalidInput(msg) = parse_config(&json).unwrap_err() else {
        panic!("expected InvalidInput");
    };
    assert_eq!(
        msg,
        "config: chunk.overlap_chars (1300) must be less than chunk.max_chars (1200)"
    );
}

#[test]
fn a_config_document_that_is_not_json_is_invalid_input() {
    let err = parse_config("{ nope").unwrap_err();
    let RagError::InvalidInput(msg) = err else {
        panic!("expected InvalidInput");
    };
    assert!(msg.starts_with("config: "), "message was: {msg}");
}

#[test]
fn a_config_member_of_the_wrong_type_is_refused_by_name() {
    let json = FULL.replace(r#""dimensions": 1536"#, r#""dimensions": "many""#);
    let RagError::InvalidInput(msg) = parse_config(&json).unwrap_err() else {
        panic!("expected InvalidInput");
    };
    assert!(msg.contains("dimensions"), "message was: {msg}");
}

#[test]
fn an_empty_embeddings_url_in_the_overlay_is_refused() {
    let o = ConfigOverlay {
        qdrant_url: Some("https://t.qdrant.io".to_string()),
        embedding: Some(EmbeddingOverlay { base_url: Some("  / ".to_string()), model: None, dimensions: None }),
        ..ConfigOverlay::default()
    };
    let RagError::InvalidInput(msg) = resolve(None, Some(&o)).unwrap_err() else {
        panic!("expected InvalidInput");
    };
    assert_eq!(msg, "config: embedding.base_url is empty");
}

#[test]
fn an_overlay_url_is_trimmed_of_spaces_and_trailing_slashes() {
    let o = ConfigOverlay { qdrant_url: Some("  https://t.qdrant.io:6333//  ".to_string()), ..ConfigOverlay::default() };
    assert_eq!(resolve(None, Some(&o)).unwrap().qdrant_url, "https://t.qdrant.io:6333");
}
