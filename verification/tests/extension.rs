use std::cell::Cell;

use rag_qdrant::config::ConfigStore;
use rag_qdrant::error::RagError;
use rag_qdrant::extension::{dispatch, map_error, Component, ExtensionError};
use rag_qdrant::host::{HostCalls, HttpRequest, HttpResponse};
use rag_qdrant::tool_meta::{all_tools, SEARCH_TOOL};

/// A host that only counts what it is asked for and answers nothing.
struct CountingHost {
    fetches: Cell<usize>,
    secrets: Cell<usize>,
}

impl CountingHost {
    fn new() -> CountingHost {
        CountingHost { fetches: Cell::new(0), secrets: Cell::new(0) }
    }

    fn untouched(&self) -> bool {
        self.fetches.get() == 0 && self.secrets.get() == 0
    }
}

impl HostCalls for CountingHost {
    fn fetch(&self, _req: &HttpRequest) -> Result<HttpResponse, String> {
        self.fetches.set(self.fetches.get() + 1);
        Err("no network in this test".to_string())
    }

    fn secret(&self, _uri: &str) -> Result<String, String> {
        self.secrets.set(self.secrets.get() + 1);
        Err("no secrets in this test".to_string())
    }
}

#[test]
fn all_six_tools_are_listed() {
    let names: Vec<&str> = all_tools().into_iter().map(|t| t.name).collect();
    assert_eq!(
        names,
        vec!["rag_search", "rag_upsert", "rag_ingest", "rag_delete", "rag_collection_ensure", "rag_list"]
    );
}

#[test]
fn every_tool_is_available_to_both_flow_and_agentic_worker() {
    for tool in all_tools() {
        assert!(
            tool.capabilities.contains(&"flow".to_string())
                && tool.capabilities.contains(&"agentic_worker".to_string()),
            "{} is missing a capability: {:?}",
            tool.name,
            tool.capabilities
        );
    }
}

#[test]
fn every_schema_is_valid_json() {
    for tool in all_tools() {
        serde_json::from_str::<serde_json::Value>(tool.input_schema_json)
            .unwrap_or_else(|e| panic!("{} input schema: {e}", tool.name));
        serde_json::from_str::<serde_json::Value>(tool.output_schema_json)
            .unwrap_or_else(|e| panic!("{} output schema: {e}", tool.name));
    }
}

#[test]
fn every_tool_declares_side_effects_and_a_confirmation_stance() {
    for tool in all_tools() {
        let meta: serde_json::Value = serde_json::from_str(tool.agentic_worker_metadata)
            .unwrap_or_else(|e| panic!("{} metadata: {e}", tool.name));
        assert!(meta.get("side_effects").is_some(), "{} has no side_effects", tool.name);
        assert!(meta.get("confirmation_required").is_some(), "{} has no confirmation_required", tool.name);
        assert!(meta.get("usage_hint").is_some(), "{} has no usage_hint", tool.name);
    }
}

#[test]
fn the_either_or_tools_encode_that_constraint_formally_not_only_in_prose() {
    for (name, pair) in [
        ("rag_search", ["query", "vector"]),
        ("rag_upsert", ["text", "vector"]),
        ("rag_delete", ["ids", "doc_id"]),
    ] {
        let tool = all_tools()
            .into_iter()
            .find(|t| t.name == name)
            .unwrap_or_else(|| panic!("{name} missing"));
        let schema: serde_json::Value = serde_json::from_str(tool.input_schema_json).unwrap();
        let branches = schema["oneOf"].as_array().unwrap_or_else(|| panic!("{name} has no oneOf")).clone();
        assert_eq!(branches.len(), 2, "{name}");
        for (i, branch) in branches.iter().enumerate() {
            assert_eq!(branch["required"][0], pair[i], "{name} branch {i}");
            assert_eq!(branch["not"]["required"][0], pair[1 - i], "{name} branch {i}");
        }
    }
}

#[test]
fn reads_do_not_ask_for_confirmation_and_writes_do() {
    for tool in all_tools() {
        let meta: serde_json::Value = serde_json::from_str(tool.agentic_worker_metadata).unwrap();
        let confirm = meta["confirmation_required"].as_bool().unwrap();
        match tool.name {
            "rag_search" => assert!(!confirm, "search must not prompt"),
            "rag_upsert" => assert!(!confirm, "upsert must not prompt"),
            "rag_list" => assert!(!confirm, "list must not prompt"),
            _ => assert!(confirm, "{} must prompt", tool.name),
        }
    }
}

#[test]
fn the_six_tools_reach_the_wit_layer_with_their_metadata_intact() {
    let listed = Component::list_tools();
    assert_eq!(listed.len(), 6);
    for tool in &listed {
        assert!(
            tool.agentic_worker_metadata.is_some(),
            "{} lost its metadata crossing the WIT boundary",
            tool.name
        );
        let caps = tool.capabilities.clone().unwrap_or_default();
        assert!(caps.contains(&"flow".to_string()));
        assert!(caps.contains(&"agentic_worker".to_string()));
        assert!(tool.output_schema_json.is_some());
    }
}

#[test]
fn an_unknown_tool_is_rejected_before_any_host_call() {
    let host = CountingHost::new();
    let err = Component::invoke_tool(&host, &ConfigStore::new(), "nope", "{}").unwrap_err();
    assert!(matches!(err, ExtensionError::InvalidInput(_)));
    assert!(host.untouched());
}

#[test]
fn malformed_arguments_are_rejected_before_any_host_call() {
    let host = CountingHost::new();
    let err = Component::invoke_tool(&host, &ConfigStore::new(), SEARCH_TOOL, "{ not json").unwrap_err();
    assert!(matches!(err, ExtensionError::InvalidInput(_)));
    assert!(host.untouched());
}

#[test]
fn an_unconfigured_call_is_refused_with_an_operator_actionable_message() {
    let host = CountingHost::new();
    let err = Component::invoke_tool(&host, &ConfigStore::new(), SEARCH_TOOL, r#"{"query":"anything"}"#).unwrap_err();
    let ExtensionError::InvalidInput(msg) = err else {
        panic!("expected InvalidInput, got {err:?}");
    };
    assert!(msg.contains("admin console"), "message was: {msg}");
    assert!(msg.contains("qdrant_url"), "message was: {msg}");
    assert!(msg.contains("collection"), "message was: {msg}");
    assert!(!msg.contains("lifecycle::init"), "message was: {msg}");
    assert!(host.untouched());
}

#[test]
fn an_overlay_configures_the_call_and_the_isolation_refusal_still_fires() {
    let host = CountingHost::new();
    let err = Component::invoke_tool(
        &host,
        &ConfigStore::new(),
        SEARCH_TOOL,
        r#"{"vector":[0.1,0.2,0.3],"collection":"tenant-b",
            "_tenant_overlay":{"qdrant_url":"https://t.qdrant.io:6333",
                               "collection":"tenant-a"}}"#,
    )
    .unwrap_err();
    let ExtensionError::InvalidInput(msg) = err else {
        panic!("expected InvalidInput, got {err:?}");
    };
    assert!(
        msg.contains("tenant-b") && msg.contains("tenant-a"),
        "expected the caller-collection refusal, got: {msg}"
    );
    assert!(host.untouched());
}

#[test]
fn every_rag_error_maps_onto_a_distinct_extension_error() {
    assert!(matches!(map_error(RagError::InvalidInput("x".into())), ExtensionError::InvalidInput(_)));
    assert!(matches!(map_error(RagError::PermissionDenied("x".into())), ExtensionError::PermissionDenied(_)));
    assert!(matches!(map_error(RagError::NotFound("x".into())), ExtensionError::NotFound(_)));
    assert!(matches!(map_error(RagError::SchemaInvalid("x".into())), ExtensionError::SchemaInvalid(_)));
    assert!(matches!(map_error(RagError::Internal("x".into())), ExtensionError::Internal(_)));
}

// ---- further cases ----

#[test]
fn map_error_keeps_the_message() {
    assert_eq!(map_error(RagError::NotFound("gone".into())), ExtensionError::NotFound("gone".to_string()));
}

#[test]
fn an_unknown_tool_is_named_in_the_refusal() {
    let host = CountingHost::new();
    assert_eq!(
        dispatch(&host, None, "rag_other", "{}").unwrap_err(),
        RagError::InvalidInput("unknown tool: rag_other".to_string())
    );
}

#[test]
fn init_installs_a_baseline_that_later_calls_use() {
    let mut baseline = ConfigStore::new();
    Component::init(&mut baseline, r#"{"qdrant_url":"https://c.qdrant.io:6333","collection":"kb"}"#).unwrap();
    assert_eq!(baseline.installed().unwrap().collection, "kb");
    // A call with no overlay is now configured, and gets as far as the key.
    let host = CountingHost::new();
    let err = Component::invoke_tool(&host, &baseline, SEARCH_TOOL, r#"{"vector":[0.1]}"#).unwrap_err();
    assert!(matches!(err, ExtensionError::SchemaInvalid(_)), "got {err:?}");
    let err = Component::invoke_tool(&host, &baseline, "rag_list", "{}").unwrap_err();
    assert!(matches!(err, ExtensionError::PermissionDenied(_)), "got {err:?}");
    assert_eq!(host.secrets.get(), 1);
    // A differing second init is refused and the first stays.
    let err = Component::init(&mut baseline, r#"{"qdrant_url":"https://c.qdrant.io:6333","collection":"other"}"#).unwrap_err();
    assert!(matches!(err, ExtensionError::InvalidInput(_)));
    assert_eq!(baseline.installed().unwrap().collection, "kb");
}

#[test]
fn a_bad_init_document_is_refused_and_installs_nothing() {
    let mut baseline = ConfigStore::new();
    assert!(Component::init(&mut baseline, r#"{"collection":"kb"}"#).is_err());
    assert!(baseline.installed().is_none());
}

#[test]
fn the_identity_and_capabilities_are_fixed() {
    let id = Component::get_identity();
    assert_eq!(id.id, "greentic.rag-qdrant");
    assert_eq!(id.version, "0.3.0");
    assert_eq!(id.kind, rag_qdrant::extension::ExtensionKind::Design);
    let offered = Component::get_offered();
    assert_eq!(offered.len(), 1);
    assert_eq!(offered[0].id, "greentic:rag/qdrant");
    assert_eq!(offered[0].version, "1.0.0");
    assert!(Component::get_required().is_empty());
}

#[test]
fn the_knowledge_interface_has_nothing_packaged() {
    assert!(Component::list_entries(None).is_empty());
    assert!(Component::suggest_entries("q", 5).is_empty());
    let Err(ExtensionError::NotFound(msg)) = Component::get_entry("x") else {
        panic!("expected NotFound");
    };
    assert_eq!(msg, "no packaged knowledge entry: x");
    assert!(Component::validate_content("t", "{}").valid);
    let fragments = Component::system_prompt_fragments();
    assert_eq!(fragments.len(), 1);
    assert_eq!(fragments[0].section, "knowledge");
    assert_eq!(fragments[0].priority, 100);
    assert!(fragments[0].content_markdown.contains("rag_search"));
}

#[test]
fn an_error_describes_itself_by_kind_and_message() {
    assert_eq!(RagError::InvalidInput("bad".into()).describe(), "invalid input: bad");
    assert_eq!(RagError::PermissionDenied("no".into()).describe(), "permission denied: no");
    assert_eq!(RagError::NotFound("gone".into()).describe(), "not found: gone");
    assert_eq!(RagError::SchemaInvalid("w".into()).describe(), "schema invalid: w");
    assert_eq!(RagError::Internal("boom".into()).describe(), "internal: boom");
    Component::shutdown();
}

/// A host with the Qdrant key and one canned scroll page.
struct ListingHost;

impl HostCalls for ListingHost {
    fn fetch(&self, req: &HttpRequest) -> Result<HttpResponse, String> {
        if req.method == "POST" && req.url == "https://t.qdrant.io:6333/collections/kb/points/scroll" {
            Ok(HttpResponse {
                status: 200,
                body: br#"{"result":{"points":[{"id":"p1","payload":{"doc_id":"d1","chunk_index":0,"text":"a","lang":"en"}}],"next_page_offset":7}}"#.to_vec(),
            })
        } else {
            Ok(HttpResponse { status: 404, body: b"unexpected".to_vec() })
        }
    }

    fn secret(&self, uri: &str) -> Result<String, String> {
        if uri == "secret://rag-qdrant/qdrant_api_key" { Ok("qk".to_string()) } else { Err("unknown".to_string()) }
    }
}

#[test]
fn a_configured_call_answers_with_the_operation_s_json_text() {
    let out = Component::invoke_tool(
        &ListingHost,
        &ConfigStore::new(),
        "rag_list",
        r#"{"_tenant_overlay":{"qdrant_url":"https://t.qdrant.io:6333/","collection":"kb"}}"#,
    )
    .unwrap();
    let got: serde_json::Value = serde_json::from_str(&out).unwrap();
    let want: serde_json::Value = serde_json::from_str(
        r#"{"documents":[{"doc_id":"d1","chunk_count":1,"metadata":{"lang":"en"}}],"next_page_offset":7}"#,
    )
    .unwrap();
    assert_eq!(got, want);
}
