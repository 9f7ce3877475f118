//! The catalogue of the six tools: names, descriptions, JSON schemas,
//! capabilities and agentic-worker metadata.
use vstd::prelude::*;

verus! {

pub const SEARCH_TOOL: &'static str = "rag_search";
pub const UPSERT_TOOL: &'static str = "rag_upsert";
pub const INGEST_TOOL: &'static str = "rag_ingest";
pub const DELETE_TOOL: &'static str = "rag_delete";
pub const ENSURE_TOOL: &'static str = "rag_collection_ensure";
pub const LIST_TOOL: &'static str = "rag_list";

pub const SEARCH_DESCRIPTION: &'static str = "Semantic search over the Qdrant knowledge base.";
pub const UPSERT_DESCRIPTION: &'static str = "Store or replace a single point by id.";
pub const INGEST_DESCRIPTION: &'static str = "Chunk, embed and store a whole document under a doc_id.";
pub const DELETE_DESCRIPTION: &'static str = "Delete points by id, or every chunk of one document.";
pub const ENSURE_DESCRIPTION: &'static str = "Create the collection if absent, with a fixed vector width and metric.";
pub const LIST_DESCRIPTION: &'static str = "Enumerate stored documents, grouped by doc_id, with pagination.";

pub struct ToolMeta {
    pub name: &'static str,
    pub description: &'static str,
    pub input_schema_json: &'static str,
    pub output_schema_json: &'static str,
    pub capabilities: Vec<String>,
    pub agentic_worker_metadata: &'static str,
}

pub const HITS_OUTPUT: &'static str = r#"{
  "type": "object",
  "required": ["hits"],
  "properties": {
    "hits": {
      "type": "array",
      "items": {
        "type": "object",
        "properties": {
          "id": { "type": "string" },
          "score": { "type": "number" },
          "payload": { "type": "object" }
        }
      }
    }
  }
}"#;

pub const ACK_OUTPUT: &'static str = r#"{
  "type": "object",
  "required": ["ok"],
  "properties": { "ok": { "type": "boolean" } }
}"#;

pub const SEARCH_INPUT: &'static str = r#"{
  "type": "object",
  "properties": {
    "query": { "type": "string", "description": "Text to search for. Pass this OR vector, not both." },
    "vector": { "type": "array", "items": { "type": "number" }, "description": "A pre-computed embedding. Pass this OR query, not both." },
    "top_k": { "type": "integer", "minimum": 1, "description": "How many results to return (default 5)." },
    "filter": { "type": "object", "description": "A Qdrant filter object, passed through verbatim." },
    "collection": { "type": "string", "description": "Override the configured default collection. Rejected when the host supplies a per-tenant collection for the caller \u2014 in a multi-tenant install the collection is chosen by tenant configuration, not per call." }
  },
  "oneOf": [
    { "required": ["query"],  "not": { "required": ["vector"] } },
    { "required": ["vector"], "not": { "required": ["query"] } }
  ]
}"#;

pub const UPSERT_INPUT: &'static str = r#"{
  "type": "object",
  "required": ["id"],
  "properties": {
    "id": { "type": "string", "description": "Point id. Must be an unsigned integer or a UUID." },
    "text": { "type": "string", "description": "Text to embed and store. Pass this OR vector, not both." },
    "vector": { "type": "array", "items": { "type": "number" }, "description": "A pre-computed embedding. Pass this OR text, not both." },
    "payload": { "type": "object", "description": "Arbitrary metadata stored alongside the point." },
    "collection": { "type": "string", "description": "Override the configured default collection. Rejected when the host supplies a per-tenant collection for the caller \u2014 in a multi-tenant install the collection is chosen by tenant configuration, not per call." }
  },
  "oneOf": [
    { "required": ["text"],   "not": { "required": ["vector"] } },
    { "required": ["vector"], "not": { "required": ["text"] } }
  ]
}"#;

pub const INGEST_INPUT: &'static str = r#"{
  "type": "object",
  "required": ["doc_id", "text"],
  "properties": {
    "doc_id": { "type": "string", "description": "Stable document identifier. Re-ingesting the same doc_id replaces its chunks." },
    "text": { "type": "string", "description": "Full document text. It is chunked, embedded and stored." },
    "metadata": { "type": "object", "description": "Metadata copied onto every chunk of this document." },
    "collection": { "type": "string", "description": "Override the configured default collection. Rejected when the host supplies a per-tenant collection for the caller \u2014 in a multi-tenant install the collection is chosen by tenant configuration, not per call." }
  }
}"#;

pub const DELETE_INPUT: &'static str = r#"{
  "type": "object",
  "properties": {
    "ids": { "type": "array", "items": { "type": "string" }, "description": "Point ids to delete. Pass this OR doc_id, not both." },
    "doc_id": { "type": "string", "description": "Delete every chunk of this document. Pass this OR ids, not both." },
    "collection": { "type": "string", "description": "Override the configured default collection. Rejected when the host supplies a per-tenant collection for the caller \u2014 in a multi-tenant install the collection is chosen by tenant configuration, not per call." }
  },
  "oneOf": [
    { "required": ["ids"],    "not": { "required": ["doc_id"] } },
    { "required": ["doc_id"], "not": { "required": ["ids"] } }
  ]
}"#;

pub const ENSURE_INPUT: &'static str = r#"{
  "type": "object",
  "properties": {
    "collection": { "type": "string", "description": "Collection to create. Defaults to the configured one. Rejected when the host supplies a per-tenant collection for the caller." },
    "dimensions": { "type": "integer", "minimum": 1, "description": "Vector width. Defaults to the configured embedding dimensions." },
    "distance": { "type": "string", "enum": ["Cosine", "Dot", "Euclid"], "description": "Distance metric (default Cosine)." }
  }
}"#;

pub const LIST_INPUT: &'static str = r#"{
  "type": "object",
  "properties": {
    "limit": { "type": "integer", "minimum": 1, "description": "Max chunks to scan per page (default 50). Chunk counts in the response are only for chunks returned within this page." },
    "offset": { "description": "Opaque page cursor from a previous call's next_page_offset. Omit to start from the first page." },
    "filter": { "type": "object", "description": "A Qdrant filter object, passed through verbatim." },
    "collection": { "type": "string", "description": "Override the configured default collection. Rejected when the host supplies a per-tenant collection for the caller \u2014 in a multi-tenant install the collection is chosen by tenant configuration, not per call." }
  }
}"#;

pub const LIST_OUTPUT: &'static str = r#"{
  "type": "object",
  "required": ["documents"],
  "properties": {
    "documents": {
      "type": "array",
      "items": {
        "type": "object",
        "properties": {
          "doc_id": { "type": "string" },
          "chunk_count": { "type": "integer" },
          "metadata": { "type": "object" }
        }
      }
    },
    "next_page_offset": { "description": "Present only when another page exists. Pass verbatim as `offset` on the next call." }
  }
}"#;

pub const SEARCH_META: &'static str = r#"{
  "usage_hint": "Retrieve passages from the knowledge base by meaning. Pass a natural-language query; the extension embeds it and returns the closest stored chunks with their scores and metadata. Use this before answering anything that depends on stored documents.",
  "side_effects": "read",
  "cost": "low",
  "confirmation_required": false
}"#;

pub const UPSERT_META: &'static str = r#"{
  "usage_hint": "Store or replace one point by id. Use for short, self-contained facts where you control the id. For a whole document, use rag_ingest instead so it gets chunked.",
  "side_effects": "write",
  "cost": "low",
  "confirmation_required": false
}"#;

pub const INGEST_META: &'static str = r#"{
  "usage_hint": "Upload a whole document: it is chunked, embedded, and stored under doc_id. Re-ingesting the same doc_id replaces all of that document's existing chunks.",
  "side_effects": "write",
  "cost": "medium",
  "confirmation_required": true
}"#;

pub const DELETE_META: &'static str = r#"{
  "usage_hint": "Remove points, either by explicit ids or by deleting every chunk of one doc_id. This is not recoverable.",
  "side_effects": "write",
  "cost": "low",
  "confirmation_required": true
}"#;

pub const ENSURE_META: &'static str = r#"{
  "usage_hint": "Create the collection if it does not exist, fixing its vector width and distance metric. Safe to call repeatedly; ingest and upsert already call it.",
  "side_effects": "write",
  "cost": "low",
  "confirmation_required": true
}"#;

pub const LIST_META: &'static str = r#"{
  "usage_hint": "Enumerate the documents stored in the knowledge base, grouped by doc_id with a chunk count and the metadata stored at ingest. Use this to answer what is in the knowledge base before deciding what to search, ingest or delete. Results are paginated: pass the previous response's next_page_offset back as offset to continue. chunk_count reflects only the current page, not the document's total chunk count — a document whose chunks straddle a page boundary will show a partial count on each page it appears in.",
  "side_effects": "read",
  "cost": "low",
  "confirmation_required": false
}"#;

/// Both surfaces a tool is offered on.
pub open spec fn both_spec() -> Seq<Seq<char>> {
    seq!["flow"@, "agentic_worker"@]
}

/// Every tool is offered to flows and to agentic workers.
pub fn both() -> (r: Vec<String>)
    ensures
        crate::text::strings_view(r@) == both_spec(),
{
    let r = vec![String::from_str("flow"), String::from_str("agentic_worker")];
    assert(crate::text::strings_view(r@) =~= both_spec());
    r
}

/// The metadata of one tool, as a tuple of its texts.
pub open spec fn meta_spec(m: ToolMeta) -> (Seq<char>, Seq<char>, Seq<char>, Seq<char>, Seq<char>) {
    (m.name@, m.description@, m.input_schema_json@, m.output_schema_json@, m.agentic_worker_metadata@)
}

/// The catalogue, in order.
pub open spec fn catalogue() -> Seq<(Seq<char>, Seq<char>, Seq<char>, Seq<char>, Seq<char>)> {
    seq![
        (SEARCH_TOOL@, SEARCH_DESCRIPTION@, SEARCH_INPUT@, HITS_OUTPUT@, SEARCH_META@),
        (UPSERT_TOOL@, UPSERT_DESCRIPTION@, UPSERT_INPUT@, ACK_OUTPUT@, UPSERT_META@),
        (INGEST_TOOL@, INGEST_DESCRIPTION@, INGEST_INPUT@, ACK_OUTPUT@, INGEST_META@),
        (DELETE_TOOL@, DELETE_DESCRIPTION@, DELETE_INPUT@, ACK_OUTPUT@, DELETE_META@),
        (ENSURE_TOOL@, ENSURE_DESCRIPTION@, ENSURE_INPUT@, ACK_OUTPUT@, ENSURE_META@),
        (LIST_TOOL@, LIST_DESCRIPTION@, LIST_INPUT@, LIST_OUTPUT@, LIST_META@),
    ]
}

fn tool(
    name: &'static str,
    description: &'static str,
    input_schema_json: &'static str,
    output_schema_json: &'static str,
    agentic_worker_metadata: &'static str,
) -> (r: ToolMeta)
    ensures
        meta_spec(r) == (name@, description@, input_schema_json@, output_schema_json@, agentic_worker_metadata@),
        crate::text::strings_view(r.capabilities@) == both_spec(),
{
    ToolMeta { name, description, input_schema_json, output_schema_json, capabilities: both(), agentic_worker_metadata }
}

/// Every tool this extension contributes, in catalogue order, each offered
/// to flows and to agentic workers.
pub fn all_tools() -> (r: Vec<ToolMeta>)
    ensures
        r@.len() == 6,
        forall|i: int| 0 <= i < 6 ==> meta_spec(#[trigger] r@[i]) == catalogue()[i],
        forall|i: int| 0 <= i < 6 ==> crate::text::strings_view((#[trigger] r@[i]).capabilities@) == both_spec(),
{
    let r = vec![
        tool(SEARCH_TOOL, SEARCH_DESCRIPTION, SEARCH_INPUT, HITS_OUTPUT, SEARCH_META),
        tool(UPSERT_TOOL, UPSERT_DESCRIPTION, UPSERT_INPUT, ACK_OUTPUT, UPSERT_META),
        tool(INGEST_TOOL, INGEST_DESCRIPTION, INGEST_INPUT, ACK_OUTPUT, INGEST_META),
        tool(DELETE_TOOL, DELETE_DESCRIPTION, DELETE_INPUT, ACK_OUTPUT, DELETE_META),
        tool(ENSURE_TOOL, ENSURE_DESCRIPTION, ENSURE_INPUT, ACK_OUTPUT, ENSURE_META),
        tool(LIST_TOOL, LIST_DESCRIPTION, LIST_INPUT, LIST_OUTPUT, LIST_META),
    ];
    r
}

} // verus!
