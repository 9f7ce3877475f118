//! The extension as the host sees it: its identity, its tool catalogue, the
//! tool entry point, the initialisation baseline, and the error taxonomy it
//! reports in. Argument parsing comes first, then this call's configuration
//! is resolved (the host stamps it onto the arguments), then the operation
//! runs.
use vstd::prelude::*;

use crate::config::{
    base_view, installed, parse_config, parse_config_spec, resolve, resolve_spec, store, Config,
    ConfigStore, ConfigV,
};
use crate::error::{ErrV, RagError};
use crate::host::{answered_by, HostCall, HostCalls, Traced};
use crate::input::{
    opt_overlay_view, parse_delete, parse_delete_spec, parse_ensure, parse_ensure_spec,
    parse_ingest, parse_ingest_spec, parse_list, parse_list_spec, parse_search, parse_search_spec,
    parse_upsert, parse_upsert_spec, TenantOverlay,
};
use crate::json::{encode_json_text, json_text, Json, JsonV};
use crate::ops::{
    delete_outcome, delete_traced, ensure_collection_traced, ensure_outcome, extends,
    ingest_outcome, ingest_traced, list_outcome, list_traced, only, res_view, search_outcome,
    search_traced, upsert_outcome, upsert_traced,
};
use crate::text::{cat, str_eq, strings_view};
use crate::tool_meta::{
    all_tools, both_spec, catalogue, meta_spec, DELETE_TOOL, ENSURE_TOOL, INGEST_TOOL, LIST_TOOL,
    SEARCH_TOOL, UPSERT_TOOL,
};

verus! {

pub const EXTENSION_ID: &'static str = "greentic.rag-qdrant";
pub const EXTENSION_VERSION: &'static str = "0.3.0";
pub const OFFERED_CAPABILITY: &'static str = "greentic:rag/qdrant";
pub const OFFERED_VERSION: &'static str = "1.0.0";
pub const UNKNOWN_TOOL: &'static str = "unknown tool: ";
pub const NO_ENTRY: &'static str = "no packaged knowledge entry: ";
pub const PROMPT_SECTION: &'static str = "knowledge";
pub const PROMPT_TEXT: &'static str = "A Qdrant-backed knowledge base is available. Call `rag_search` before answering questions that depend on stored documents, and ground the answer in the returned passages rather than prior knowledge.";

/// The host's error taxonomy.
#[derive(Debug, PartialEq, Eq)]
pub enum ExtensionError {
    InvalidInput(String),
    PermissionDenied(String),
    NotFound(String),
    SchemaInvalid(String),
    Internal(String),
}

impl View for ExtensionError {
    type V = ErrV;

    open spec fn view(&self) -> ErrV {
        match self {
            ExtensionError::InvalidInput(m) => ErrV::InvalidInput(m@),
            ExtensionError::PermissionDenied(m) => ErrV::PermissionDenied(m@),
            ExtensionError::NotFound(m) => ErrV::NotFound(m@),
            ExtensionError::SchemaInvalid(m) => ErrV::SchemaInvalid(m@),
            ExtensionError::Internal(m) => ErrV::Internal(m@),
        }
    }
}

/// Map the library's error taxonomy onto the host's: each kind onto the
/// kind of the same name, the message unchanged.
pub fn map_error(err: RagError) -> (r: ExtensionError)
    ensures
        r@ == err@,
{
    match err {
        RagError::InvalidInput(m) => ExtensionError::InvalidInput(m),
        RagError::PermissionDenied(m) => ExtensionError::PermissionDenied(m),
        RagError::NotFound(m) => ExtensionError::NotFound(m),
        RagError::SchemaInvalid(m) => ExtensionError::SchemaInvalid(m),
        RagError::Internal(m) => ExtensionError::Internal(m),
    }
}

/// One tool call, from call `s` of `calls`: parse the arguments, resolve
/// this call's configuration from the baseline and the overlay the host
/// stamped on the arguments, run the operation, and print its result as
/// JSON. Parsing and resolution make no host call; an unknown tool name is
/// refused before any.
pub open spec fn dispatch_outcome(base: Option<ConfigV>, name: Seq<char>, args: Seq<char>, calls: Seq<HostCall>, s: int) -> Option<Result<Seq<char>, ErrV>> {
    let printed = |o: Option<Result<JsonV, ErrV>>| match o {
        None => None,
        Some(Err(e)) => Some(Err(e)),
        Some(Ok(v)) => Some(Ok(json_text(v))),
    };
    if name == SEARCH_TOOL@ {
        match parse_search_spec(args) {
            Err(e) => only(calls, s, Err(e)),
            Ok(inp) => match resolve_spec(base, inp.tenant_overlay) {
                Err(e) => only(calls, s, Err(e)),
                Ok(cfg) => printed(search_outcome(cfg, inp, calls, s)),
            },
        }
    } else if name == UPSERT_TOOL@ {
        match parse_upsert_spec(args) {
            Err(e) => only(calls, s, Err(e)),
            Ok(inp) => match resolve_spec(base, inp.tenant_overlay) {
                Err(e) => only(calls, s, Err(e)),
                Ok(cfg) => printed(upsert_outcome(cfg, inp, calls, s)),
            },
        }
    } else if name == INGEST_TOOL@ {
        match parse_ingest_spec(args) {
            Err(e) => only(calls, s, Err(e)),
            Ok(inp) => match resolve_spec(base, inp.tenant_overlay) {
                Err(e) => only(calls, s, Err(e)),
                Ok(cfg) => printed(ingest_outcome(cfg, inp, calls, s)),
            },
        }
    } else if name == DELETE_TOOL@ {
        match parse_delete_spec(args) {
            Err(e) => only(calls, s, Err(e)),
            Ok(inp) => match resolve_spec(base, inp.tenant_overlay) {
                Err(e) => only(calls, s, Err(e)),
                Ok(cfg) => printed(delete_outcome(cfg, inp, calls, s)),
            },
        }
    } else if name == ENSURE_TOOL@ {
        match parse_ensure_spec(args) {
            Err(e) => only(calls, s, Err(e)),
            Ok(inp) => match resolve_spec(base, inp.tenant_overlay) {
                Err(e) => only(calls, s, Err(e)),
                Ok(cfg) => printed(ensure_outcome(cfg, inp, calls, s)),
            },
        }
    } else if name == LIST_TOOL@ {
        match parse_list_spec(args) {
            Err(e) => only(calls, s, Err(e)),
            Ok(inp) => match resolve_spec(base, inp.tenant_overlay) {
                Err(e) => only(calls, s, Err(e)),
                Ok(cfg) => printed(list_outcome(cfg, inp, calls, s)),
            },
        }
    } else {
        only(calls, s, Err(ErrV::InvalidInput(UNKNOWN_TOOL@ + name)))
    }
}

/// The refusal a tool call meets before any host call, if any: an unknown
/// tool, arguments that do not parse, or a configuration that does not
/// resolve.
pub open spec fn refusal_before_calls(base: Option<ConfigV>, name: Seq<char>, args: Seq<char>) -> Option<ErrV> {
    if name == SEARCH_TOOL@ {
        match parse_search_spec(args) {
            Err(e) => Some(e),
            Ok(inp) => match resolve_spec(base, inp.tenant_overlay) { Err(e) => Some(e), Ok(_) => None },
        }
    } else if name == UPSERT_TOOL@ {
        match parse_upsert_spec(args) {
            Err(e) => Some(e),
            Ok(inp) => match resolve_spec(base, inp.tenant_overlay) { Err(e) => Some(e), Ok(_) => None },
        }
    } else if name == INGEST_TOOL@ {
        match parse_ingest_spec(args) {
            Err(e) => Some(e),
            Ok(inp) => match resolve_spec(base, inp.tenant_overlay) { Err(e) => Some(e), Ok(_) => None },
        }
    } else if name == DELETE_TOOL@ {
        match parse_delete_spec(args) {
            Err(e) => Some(e),
            Ok(inp) => match resolve_spec(base, inp.tenant_overlay) { Err(e) => Some(e), Ok(_) => None },
        }
    } else if name == ENSURE_TOOL@ {
        match parse_ensure_spec(args) {
            Err(e) => Some(e),
            Ok(inp) => match resolve_spec(base, inp.tenant_overlay) { Err(e) => Some(e), Ok(_) => None },
        }
    } else if name == LIST_TOOL@ {
        match parse_list_spec(args) {
            Err(e) => Some(e),
            Ok(inp) => match resolve_spec(base, inp.tenant_overlay) { Err(e) => Some(e), Ok(_) => None },
        }
    } else {
        Some(ErrV::InvalidInput(UNKNOWN_TOOL@ + name))
    }
}

/// An unknown tool, malformed arguments and an unresolvable configuration
/// are refused before any secret is read or request sent, with that
/// refusal's error.
pub proof fn lemma_refusals_precede_host_calls(base: Option<ConfigV>, name: Seq<char>, args: Seq<char>, calls: Seq<HostCall>, r: Result<Seq<char>, ErrV>)
    requires
        refusal_before_calls(base, name, args) is Some,
        dispatch_outcome(base, name, args, calls, 0) == Some(r),
    ensures
        calls.len() == 0,
        r == Err::<Seq<char>, ErrV>(refusal_before_calls(base, name, args)->0),
{
}

fn printed(r: Result<Json, RagError>) -> (out: Result<String, RagError>)
    ensures
        match r {
            Ok(v) => out matches Ok(t) && t@ == json_text(v@),
            Err(e) => out matches Err(e2) && e2@ == e@,
        },
{
    match r {
        Ok(v) => Ok(encode_json_text(&v)),
        Err(e) => Err(e),
    }
}

fn overlay_ref(o: &Option<TenantOverlay>) -> (r: Option<&TenantOverlay>)
    ensures
        crate::config::overlay_view(r) == opt_overlay_view(*o),
{
    match o {
        Some(v) => Some(v),
        None => None,
    }
}

/// One tool call through a recording host. See [`dispatch_outcome`].
pub fn dispatch_traced<H: HostCalls>(t: &mut Traced<H>, base: Option<&Config>, name: &str, args_json: &str) -> (r: Result<String, RagError>)
    ensures
        final(t).host() == old(t).host(),
        extends(old(t).calls(), final(t).calls()),
        dispatch_outcome(base_view(base), name@, args_json@, final(t).calls(), old(t).calls().len() as int) == Some(res_view(r)),
{
    let ghost s0 = t.calls();
    assert(s0.take(s0.len() as int) =~= s0);
    if str_eq(name, SEARCH_TOOL) {
        let input = parse_search(args_json)?;
        let cfg = resolve(base, overlay_ref(&input.tenant_overlay))?;
        printed(search_traced(t, &cfg, &input))
    } else if str_eq(name, UPSERT_TOOL) {
        let input = parse_upsert(args_json)?;
        let cfg = resolve(base, overlay_ref(&input.tenant_overlay))?;
        printed(upsert_traced(t, &cfg, &input))
    } else if str_eq(name, INGEST_TOOL) {
        let input = parse_ingest(args_json)?;
        let cfg = resolve(base, overlay_ref(&input.tenant_overlay))?;
        printed(ingest_traced(t, &cfg, &input))
    } else if str_eq(name, DELETE_TOOL) {
        let input = parse_delete(args_json)?;
        let cfg = resolve(base, overlay_ref(&input.tenant_overlay))?;
        printed(delete_traced(t, &cfg, &input))
    } else if str_eq(name, ENSURE_TOOL) {
        let input = parse_ensure(args_json)?;
        let cfg = resolve(base, overlay_ref(&input.tenant_overlay))?;
        printed(ensure_collection_traced(t, &cfg, &input))
    } else if str_eq(name, LIST_TOOL) {
        let input = parse_list(args_json)?;
        let cfg = resolve(base, overlay_ref(&input.tenant_overlay))?;
        printed(list_traced(t, &cfg, &input))
    } else {
        Err(RagError::InvalidInput(cat(UNKNOWN_TOOL, name)))
    }
}

/// One tool call. The host's replies decide the outcome; the contract
/// states that some sequence of replies leads to it through the calls that
/// [`dispatch_outcome`] prescribes. [`dispatch_traced`] states which.
pub fn dispatch<H: HostCalls>(host: &H, base: Option<&Config>, name: &str, args_json: &str) -> (r: Result<String, RagError>)
    ensures
        exists|calls: Seq<HostCall>| answered_by(host, calls) && dispatch_outcome(base_view(base), name@, args_json@, calls, 0) == Some(res_view(r)),
        refusal_before_calls(base_view(base), name@, args_json@) matches Some(e) ==> res_view(r) == Err::<Seq<char>, ErrV>(e),
{
    let mut t = Traced::new(host);
    let r = dispatch_traced(&mut t, base, name, args_json);
    let trace = t.finish();
    assert(dispatch_outcome(base_view(base), name@, args_json@, trace@, 0) == Some(res_view(r)));
    proof {
        if refusal_before_calls(base_view(base), name@, args_json@) is Some {
            lemma_refusals_precede_host_calls(base_view(base), name@, args_json@, trace@, res_view(r));
        }
    }
    r
}

/// The kinds of extension a host loads.
#[derive(Debug, Clone, Copy, PartialEq, Eq)]
pub enum ExtensionKind {
    Design,
}

/// Who this extension is.
pub struct ExtensionIdentity {
    pub id: String,
    pub version: String,
    pub kind: ExtensionKind,
}

/// A capability, by id and version.
pub struct CapabilityRef {
    pub id: String,
    pub version: String,
}

/// A tool as the host lists it.
pub struct ToolDefinition {
    pub name: String,
    pub description: String,
    pub input_schema_json: String,
    pub output_schema_json: Option<String>,
    pub capabilities: Option<Vec<String>>,
    pub agentic_worker_metadata: Option<String>,
}

/// The outcome of validating a piece of designer content.
pub struct ValidateResult {
    pub valid: bool,
    pub diagnostics: Vec<String>,
}

/// A fragment contributed to the agent's system prompt.
pub struct PromptFragment {
    pub section: String,
    pub content_markdown: String,
    pub priority: u32,
}

/// A packaged knowledge entry. This extension packages none: its content
/// lives in Qdrant and is reached through `rag_search`.
pub struct KnowledgeEntry {
    pub id: String,
    pub title: String,
}

/// The extension's entry points.
pub struct Component;

impl Component {
    /// `greentic.rag-qdrant`, this version, a design extension.
    pub fn get_identity() -> (r: ExtensionIdentity)
        ensures
            r.id@ == EXTENSION_ID@,
            r.version@ == EXTENSION_VERSION@,
            r.kind == ExtensionKind::Design,
    {
        ExtensionIdentity {
            id: String::from_str(EXTENSION_ID),
            version: String::from_str(EXTENSION_VERSION),
            kind: ExtensionKind::Design,
        }
    }

    /// The one capability offered: `greentic:rag/qdrant` 1.0.0.
    pub fn get_offered() -> (r: Vec<CapabilityRef>)
        ensures
            r@.len() == 1,
            r@[0].id@ == OFFERED_CAPABILITY@,
            r@[0].version@ == OFFERED_VERSION@,
    {
        vec![CapabilityRef { id: String::from_str(OFFERED_CAPABILITY), version: String::from_str(OFFERED_VERSION) }]
    }

    /// No capability is required.
    pub fn get_required() -> (r: Vec<CapabilityRef>)
        ensures
            r@.len() == 0,
    {
        Vec::new()
    }

    /// Parse and store the initialisation baseline. See [`parse_config`] and
    /// [`ConfigStore::store`].
    pub fn init(baseline: &mut ConfigStore, config_json: &str) -> (r: Result<(), ExtensionError>)
        ensures
            match parse_config_spec(config_json@) {
                Err(e) => r matches Err(x) && x@ == e && final(baseline).current() == old(baseline).current(),
                Ok(cfg) => match old(baseline).current() {
                    None => r is Ok && final(baseline).current() == Some(cfg),
                    Some(existing) => final(baseline).current() == Some(existing) && (r is Ok <==> existing == cfg),
                },
            },
    {
        let cfg = match parse_config(config_json) {
            Ok(c) => c,
            Err(e) => return Err(map_error(e)),
        };
        match store(baseline, cfg) {
            Ok(_) => Ok(()),
            Err(e) => Err(map_error(e)),
        }
    }

    /// Nothing to release: no client, no connection pool.
    pub fn shutdown() {
    }

    /// The six tools, each with its output schema, its capabilities and its
    /// agentic-worker metadata.
    pub fn list_tools() -> (r: Vec<ToolDefinition>)
        ensures
            r@.len() == 6,
            forall|i: int| 0 <= i < 6 ==> {
                let d = #[trigger] r@[i];
                &&& (d.name@, d.description@, d.input_schema_json@, d.output_schema_json->0@, d.agentic_worker_metadata->0@) == catalogue()[i]
                &&& d.output_schema_json is Some
                &&& d.agentic_worker_metadata is Some
                &&& d.capabilities is Some
                &&& strings_view(d.capabilities->0@) == both_spec()
            },
    {
        let tools = all_tools();
        let mut out: Vec<ToolDefinition> = Vec::new();
        let mut i: usize = 0;
        while i < tools.len()
            invariant
                tools@.len() == 6,
                forall|k: int| 0 <= k < 6 ==> meta_spec(#[trigger] tools@[k]) == catalogue()[k],
                forall|k: int| 0 <= k < 6 ==> strings_view((#[trigger] tools@[k]).capabilities@) == both_spec(),
                i <= tools.len(),
                out@.len() == i,
                forall|k: int| 0 <= k < i ==> {
                    let d = #[trigger] out@[k];
                    &&& (d.name@, d.description@, d.input_schema_json@, d.output_schema_json->0@, d.agentic_worker_metadata->0@) == catalogue()[k]
                    &&& d.output_schema_json is Some
                    &&& d.agentic_worker_metadata is Some
                    &&& d.capabilities is Some
                    &&& strings_view(d.capabilities->0@) == both_spec()
                },
            decreases tools.len() - i,
        {
            let m = &tools[i];
            let caps = crate::embed::copy_strings(&m.capabilities);
            out.push(ToolDefinition {
                name: String::from_str(m.name),
                description: String::from_str(m.description),
                input_schema_json: String::from_str(m.input_schema_json),
                output_schema_json: Some(String::from_str(m.output_schema_json)),
                capabilities: Some(caps),
                agentic_worker_metadata: Some(String::from_str(m.agentic_worker_metadata)),
            });
            i += 1;
        }
        out
    }

    /// Run one tool against this process's baseline. See [`dispatch`].
    pub fn invoke_tool<H: HostCalls>(host: &H, baseline: &ConfigStore, name: &str, args_json: &str) -> (r: Result<String, ExtensionError>)
        ensures
            exists|calls: Seq<HostCall>| answered_by(host, calls) && dispatch_outcome(baseline.current(), name@, args_json@, calls, 0) == Some(match r {
                Ok(t) => Ok::<Seq<char>, ErrV>(t@),
                Err(e) => Err::<Seq<char>, ErrV>(e@),
            }),
            refusal_before_calls(baseline.current(), name@, args_json@) matches Some(e) ==> (r matches Err(x) && x@ == e),
    {
        let base = installed(baseline);
        assert(base_view(base) == baseline.current());
        match dispatch(host, base, name, args_json) {
            Ok(t) => Ok(t),
            Err(e) => Err(map_error(e)),
        }
    }

    /// Designer content is not validated by this extension: always valid.
    pub fn validate_content(_content_type: &str, _content_json: &str) -> (r: ValidateResult)
        ensures
            r.valid,
            r.diagnostics@.len() == 0,
    {
        ValidateResult { valid: true, diagnostics: Vec::new() }
    }

    /// The one prompt fragment: call `rag_search` before answering from
    /// stored documents.
    pub fn system_prompt_fragments() -> (r: Vec<PromptFragment>)
        ensures
            r@.len() == 1,
            r@[0].section@ == PROMPT_SECTION@,
            r@[0].content_markdown@ == PROMPT_TEXT@,
            r@[0].priority == 100,
    {
        vec![PromptFragment {
            section: String::from_str(PROMPT_SECTION),
            content_markdown: String::from_str(PROMPT_TEXT),
            priority: 100,
        }]
    }

    /// No packaged knowledge entries.
    pub fn list_entries(_category_filter: Option<&str>) -> (r: Vec<KnowledgeEntry>)
        ensures
            r@.len() == 0,
    {
        Vec::new()
    }

    /// Every lookup of a packaged entry is `NotFound`.
    pub fn get_entry(id: &str) -> (r: Result<KnowledgeEntry, ExtensionError>)
        ensures
            r matches Err(e) && e@ == ErrV::NotFound(NO_ENTRY@ + id@),
    {
        Err(ExtensionError::NotFound(cat(NO_ENTRY, id)))
    }

    /// No packaged entries to suggest.
    pub fn suggest_entries(_query: &str, _limit: u32) -> (r: Vec<KnowledgeEntry>)
        ensures
            r@.len() == 0,
    {
        Vec::new()
    }
}

} // verus!
