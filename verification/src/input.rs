//! Tool arguments: JSON in, validated typed values out.
//!
//! Each tool's arguments are one JSON object. Optional members may be missing
//! or `null`, unknown members are ignored, and a member of the wrong type is
//! refused with a message naming it. Numbers in a `vector` are kept as their
//! decimal text and passed to Qdrant unchanged.
use vstd::prelude::*;

use crate::config::{overlay_from, overlay_spec, ConfigOverlay, ConfigOverlayV};
use crate::error::{ErrV, RagError};
use crate::fields::{
    opt_json_view, opt_numbers, opt_numbers_spec, opt_string, opt_string_spec, opt_strings,
    opt_strings_spec, opt_strings_view, opt_u32, opt_u32_spec, opt_value, present, req_string,
    req_string_spec, string_or, string_or_spec, type_msg, u32_or, u32_or_spec, value_or_empty,
    value_or_empty_spec, wrong_type, AN_OBJECT, NOT_AN_OBJECT,
};
use crate::json::{decode_json_text, digits_value, is_digits, json_decode_text, parse_digits, Json, JsonV};
use crate::qdrant::{uuid_parses, uuid_text};
use crate::tool_meta::{DELETE_TOOL, ENSURE_TOOL, INGEST_TOOL, LIST_TOOL, SEARCH_TOOL, UPSERT_TOOL};
use crate::text::{all_ws, cat, cat3, debug_str, debug_text, is_blank, opt_view};

verus! {

/// The host's per-tenant configuration for this extension, delivered on every
/// call under the reserved argument `_tenant_overlay`. It is the same document
/// as the initialisation baseline, differing only in scope, so it has the same
/// shape. It is not caller input: both hosts strip it from the caller's
/// arguments and insert their own.
pub type TenantOverlay = ConfigOverlay;


pub const BOTH_GIVEN: &'static str = ": pass either a text field or `vector`, not both";
pub const NEITHER_GIVEN: &'static str = ": pass either a text field or `vector`";
pub const TOP_K_ZERO: &'static str = "rag_search: top_k must be greater than zero";
pub const ID_EMPTY: &'static str = "rag_upsert: id is empty";
pub const BAD_ID_1: &'static str = "rag_upsert: id ";
pub const BAD_ID_2: &'static str = " must be an unsigned integer or a UUID";
pub const DOC_ID_EMPTY: &'static str = "rag_ingest: doc_id is empty";
pub const TEXT_EMPTY: &'static str = "rag_ingest: text is empty";
pub const DELETE_BOTH: &'static str = "rag_delete: pass either `ids` or `doc_id`, not both";
pub const DELETE_NEITHER: &'static str = "rag_delete: pass either `ids` or `doc_id`";
pub const BAD_DISTANCE: &'static str = "rag_collection_ensure: distance must be one of [\"Cosine\", \"Dot\", \"Euclid\"], got ";
pub const LIMIT_ZERO: &'static str = "rag_list: limit must be greater than zero";

pub const DEFAULT_TOP_K: u32 = 5;
pub const DEFAULT_LIST_LIMIT: u32 = 50;
pub const DEFAULT_DISTANCE: &'static str = "Cosine";

/// The default number of hits.
pub fn default_top_k() -> (r: u32)
    ensures
        r == DEFAULT_TOP_K,
{
    DEFAULT_TOP_K
}

/// The default page size of a listing.
pub fn default_list_limit() -> (r: u32)
    ensures
        r == DEFAULT_LIST_LIMIT,
{
    DEFAULT_LIST_LIMIT
}

/// The default distance metric of a new collection.
pub fn default_distance() -> (r: String)
    ensures
        r@ == DEFAULT_DISTANCE@,
{
    String::from_str(DEFAULT_DISTANCE)
}

pub open spec fn opt_overlay_view(o: Option<ConfigOverlay>) -> Option<ConfigOverlayV> {
    match o {
        Some(v) => Some(v@),
        None => None,
    }
}

#[derive(Debug)]
pub struct SearchInput {
    pub query: Option<String>,
    pub vector: Option<Vec<String>>,
    pub top_k: u32,
    pub filter: Option<Json>,
    pub collection: Option<String>,
    /// Injected by the host, never by the caller. See [`TenantOverlay`].
    pub tenant_overlay: Option<TenantOverlay>,
}

pub struct SearchInputV {
    pub query: Option<Seq<char>>,
    pub vector: Option<Seq<Seq<char>>>,
    pub top_k: u32,
    pub filter: Option<JsonV>,
    pub collection: Option<Seq<char>>,
    pub tenant_overlay: Option<ConfigOverlayV>,
}

impl View for SearchInput {
    type V = SearchInputV;

    open spec fn view(&self) -> SearchInputV {
        SearchInputV {
            query: opt_view(self.query),
            vector: opt_strings_view(self.vector),
            top_k: self.top_k,
            filter: opt_json_view(self.filter),
            collection: opt_view(self.collection),
            tenant_overlay: opt_overlay_view(self.tenant_overlay),
        }
    }
}

#[derive(Debug)]
pub struct UpsertInput {
    pub id: String,
    pub text: Option<String>,
    pub vector: Option<Vec<String>>,
    pub payload: Json,
    pub collection: Option<String>,
    /// Injected by the host, never by the caller. See [`TenantOverlay`].
    pub tenant_overlay: Option<TenantOverlay>,
}

pub struct UpsertInputV {
    pub id: Seq<char>,
    pub text: Option<Seq<char>>,
    pub vector: Option<Seq<Seq<char>>>,
    pub payload: JsonV,
    pub collection: Option<Seq<char>>,
    pub tenant_overlay: Option<ConfigOverlayV>,
}

impl View for UpsertInput {
    type V = UpsertInputV;

    open spec fn view(&self) -> UpsertInputV {
        UpsertInputV {
            id: self.id@,
            text: opt_view(self.text),
            vector: opt_strings_view(self.vector),
            payload: self.payload@,
            collection: opt_view(self.collection),
            tenant_overlay: opt_overlay_view(self.tenant_overlay),
        }
    }
}

#[derive(Debug)]
pub struct IngestInput {
    pub doc_id: String,
    pub text: String,
    pub metadata: Json,
    pub collection: Option<String>,
    /// Injected by the host, never by the caller. See [`TenantOverlay`].
    pub tenant_overlay: Option<TenantOverlay>,
}

pub struct IngestInputV {
    pub doc_id: Seq<char>,
    pub text: Seq<char>,
    pub metadata: JsonV,
    pub collection: Option<Seq<char>>,
    pub tenant_overlay: Option<ConfigOverlayV>,
}

impl View for IngestInput {
    type V = IngestInputV;

    open spec fn view(&self) -> IngestInputV {
        IngestInputV {
            doc_id: self.doc_id@,
            text: self.text@,
            metadata: self.metadata@,
            collection: opt_view(self.collection),
            tenant_overlay: opt_overlay_view(self.tenant_overlay),
        }
    }
}

#[derive(Debug)]
pub struct DeleteInput {
    pub ids: Option<Vec<String>>,
    pub doc_id: Option<String>,
    pub collection: Option<String>,
    /// Injected by the host, never by the caller. See [`TenantOverlay`].
    pub tenant_overlay: Option<TenantOverlay>,
}

pub struct DeleteInputV {
    pub ids: Option<Seq<Seq<char>>>,
    pub doc_id: Option<Seq<char>>,
    pub collection: Option<Seq<char>>,
    pub tenant_overlay: Option<ConfigOverlayV>,
}

impl View for DeleteInput {
    type V = DeleteInputV;

    open spec fn view(&self) -> DeleteInputV {
        DeleteInputV {
            ids: opt_strings_view(self.ids),
            doc_id: opt_view(self.doc_id),
            collection: opt_view(self.collection),
            tenant_overlay: opt_overlay_view(self.tenant_overlay),
        }
    }
}

#[derive(Debug)]
pub struct EnsureInput {
    pub collection: Option<String>,
    pub dimensions: Option<u32>,
    pub distance: String,
    /// Injected by the host, never by the caller. See [`TenantOverlay`].
    pub tenant_overlay: Option<TenantOverlay>,
}

pub struct EnsureInputV {
    pub collection: Option<Seq<char>>,
    pub dimensions: Option<u32>,
    pub distance: Seq<char>,
    pub tenant_overlay: Option<ConfigOverlayV>,
}

impl View for EnsureInput {
    type V = EnsureInputV;

    open spec fn view(&self) -> EnsureInputV {
        EnsureInputV {
            collection: opt_view(self.collection),
            dimensions: self.dimensions,
            distance: self.distance@,
            tenant_overlay: opt_overlay_view(self.tenant_overlay),
        }
    }
}

#[derive(Debug)]
pub struct ListInput {
    /// Page size: chunks scanned per Qdrant scroll call, not documents.
    pub limit: u32,
    /// Opaque cursor from a previous call's `next_page_offset`.
    pub offset: Option<Json>,
    pub filter: Option<Json>,
    pub collection: Option<String>,
    /// Injected by the host, never by the caller. See [`TenantOverlay`].
    pub tenant_overlay: Option<TenantOverlay>,
}

pub struct ListInputV {
    pub limit: u32,
    pub offset: Option<JsonV>,
    pub filter: Option<JsonV>,
    pub collection: Option<Seq<char>>,
    pub tenant_overlay: Option<ConfigOverlayV>,
}

impl View for ListInput {
    type V = ListInputV;

    open spec fn view(&self) -> ListInputV {
        ListInputV {
            limit: self.limit,
            offset: opt_json_view(self.offset),
            filter: opt_json_view(self.filter),
            collection: opt_view(self.collection),
            tenant_overlay: opt_overlay_view(self.tenant_overlay),
        }
    }
}

// ===== the members every tool shares =====

/// The host's `_tenant_overlay`, when it sent one.
pub open spec fn overlay_field_spec(doc: JsonV) -> Result<Option<ConfigOverlayV>, Seq<char>> {
    match present(doc, "_tenant_overlay"@) {
        None => Ok(None),
        Some(v) => if v is Object {
            match overlay_spec(v) {
                Ok(o) => Ok(Some(o)),
                Err(m) => Err(m),
            }
        } else {
            Err(type_msg("_tenant_overlay"@, AN_OBJECT@))
        },
    }
}

fn overlay_field(doc: &Json) -> (r: Result<Option<TenantOverlay>, String>)
    ensures
        match r {
            Ok(o) => overlay_field_spec(doc@) == Ok::<Option<ConfigOverlayV>, Seq<char>>(opt_overlay_view(o)),
            Err(m) => overlay_field_spec(doc@) == Err::<Option<ConfigOverlayV>, Seq<char>>(m@),
        },
{
    match doc.get("_tenant_overlay") {
        None | Some(Json::Null) => Ok(None),
        Some(v) => {
            if !v.is_object() {
                return Err(wrong_type("_tenant_overlay", AN_OBJECT));
            }
            Ok(Some(overlay_from(v)?))
        },
    }
}

pub open spec fn decode_msg(tool: Seq<char>, m: Seq<char>) -> Seq<char> {
    "decode "@ + tool + " input: "@ + m
}

fn decode_err(tool: &str, m: &str) -> (r: RagError)
    ensures
        r@ == ErrV::InvalidInput(decode_msg(tool@, m@)),
{
    let mut s = cat3("decode ", tool, " input: ");
    s.append(m);
    RagError::InvalidInput(s)
}

/// The arguments as a JSON object, or the message that says why not.
pub open spec fn arguments_spec(json: Seq<char>) -> Result<JsonV, Seq<char>> {
    match json_decode_text(json) {
        Err(m) => Err(m),
        Ok(doc) => if doc is Object { Ok(doc) } else { Err(NOT_AN_OBJECT@) },
    }
}

fn arguments(json: &str) -> (r: Result<Json, String>)
    ensures
        match r {
            Ok(d) => arguments_spec(json@) == Ok::<JsonV, Seq<char>>(d@),
            Err(m) => arguments_spec(json@) == Err::<JsonV, Seq<char>>(m@),
        },
{
    let doc = decode_json_text(json)?;
    if doc.is_object() { Ok(doc) } else { Err(String::from_str(NOT_AN_OBJECT)) }
}

/// Exactly one of a text field and a vector field must be present: both
/// would mean two conflicting intents, neither leaves nothing to do.
pub open spec fn exactly_one_spec(tool: Seq<char>, has_text: bool, has_vector: bool) -> Result<(), ErrV> {
    if has_text && has_vector {
        Err(ErrV::InvalidInput(tool + BOTH_GIVEN@))
    } else if !has_text && !has_vector {
        Err(ErrV::InvalidInput(tool + NEITHER_GIVEN@))
    } else {
        Ok(())
    }
}

/// See [`exactly_one_spec`].
pub fn exactly_one(tool: &str, has_text: bool, has_vector: bool) -> (r: Result<(), RagError>)
    ensures
        match r {
            Ok(_) => exactly_one_spec(tool@, has_text, has_vector) is Ok,
            Err(e) => exactly_one_spec(tool@, has_text, has_vector) == Err::<(), ErrV>(e@),
        },
{
    if has_text && has_vector {
        Err(RagError::InvalidInput(cat(tool, BOTH_GIVEN)))
    } else if !has_text && !has_vector {
        Err(RagError::InvalidInput(cat(tool, NEITHER_GIVEN)))
    } else {
        Ok(())
    }
}

/// A text that is present and not all whitespace.
pub open spec fn has_text(t: Option<Seq<char>>) -> bool {
    t is Some && !all_ws(t->0)
}

/// A list that is present and not empty.
pub open spec fn has_items(v: Option<Seq<Seq<char>>>) -> bool {
    v is Some && v->0.len() > 0
}

fn some_text(t: &Option<String>) -> (r: bool)
    ensures
        r == has_text(opt_view(*t)),
{
    match t {
        Some(s) => !is_blank(s.as_str()),
        None => false,
    }
}

fn some_items(v: &Option<Vec<String>>) -> (r: bool)
    ensures
        r == has_items(opt_strings_view(*v)),
{
    match v {
        Some(xs) => xs.len() > 0,
        None => false,
    }
}

// ===== rag_search =====

pub open spec fn search_fields(doc: JsonV) -> Result<SearchInputV, Seq<char>> {
    match opt_string_spec(doc, "query"@) {
        Err(m) => Err(m),
        Ok(query) => match opt_numbers_spec(doc, "vector"@) {
            Err(m) => Err(m),
            Ok(vector) => match u32_or_spec(doc, "top_k"@, DEFAULT_TOP_K) {
                Err(m) => Err(m),
                Ok(top_k) => match opt_string_spec(doc, "collection"@) {
                    Err(m) => Err(m),
                    Ok(collection) => match overlay_field_spec(doc) {
                        Err(m) => Err(m),
                        Ok(tenant_overlay) => Ok(SearchInputV {
                            query, vector, top_k, filter: present(doc, "filter"@), collection, tenant_overlay,
                        }),
                    },
                },
            },
        },
    }
}

/// `rag_search` arguments: exactly one of a non-blank `query` and a
/// non-empty `vector`, and a `top_k` (default 5) above zero.
pub open spec fn parse_search_spec(json: Seq<char>) -> Result<SearchInputV, ErrV> {
    match arguments_spec(json) {
        Err(m) => Err(ErrV::InvalidInput(decode_msg(SEARCH_TOOL@, m))),
        Ok(doc) => match search_fields(doc) {
            Err(m) => Err(ErrV::InvalidInput(decode_msg(SEARCH_TOOL@, m))),
            Ok(s) => match exactly_one_spec(SEARCH_TOOL@, has_text(s.query), has_items(s.vector)) {
                Err(e) => Err(e),
                Ok(_) => if s.top_k == 0 { Err(ErrV::InvalidInput(TOP_K_ZERO@)) } else { Ok(s) },
            },
        },
    }
}

fn search_from(doc: &Json) -> (r: Result<SearchInput, String>)
    ensures
        match r {
            Ok(s) => search_fields(doc@) == Ok::<SearchInputV, Seq<char>>(s@),
            Err(m) => search_fields(doc@) == Err::<SearchInputV, Seq<char>>(m@),
        },
{
    let query = opt_string(doc, "query")?;
    let vector = opt_numbers(doc, "vector")?;
    let top_k = u32_or(doc, "top_k", DEFAULT_TOP_K)?;
    let collection = opt_string(doc, "collection")?;
    let tenant_overlay = overlay_field(doc)?;
    Ok(SearchInput { query, vector, top_k, filter: opt_value(doc, "filter"), collection, tenant_overlay })
}

/// See [`parse_search_spec`].
pub fn parse_search(json: &str) -> (r: Result<SearchInput, RagError>)
    ensures
        match r {
            Ok(s) => parse_search_spec(json@) == Ok::<SearchInputV, ErrV>(s@),
            Err(e) => parse_search_spec(json@) == Err::<SearchInputV, ErrV>(e@),
        },
{
    let doc = match arguments(json) {
        Ok(d) => d,
        Err(m) => return Err(decode_err(SEARCH_TOOL, m.as_str())),
    };
    let parsed = match search_from(&doc) {
        Ok(p) => p,
        Err(m) => return Err(decode_err(SEARCH_TOOL, m.as_str())),
    };
    exactly_one(SEARCH_TOOL, some_text(&parsed.query), some_items(&parsed.vector))?;
    if parsed.top_k == 0 {
        return Err(RagError::InvalidInput(String::from_str(TOP_K_ZERO)));
    }
    Ok(parsed)
}

// ===== rag_upsert =====

/// What `str::parse::<u64>` accepts: an optional `+`, then one or more ASCII
/// digits whose value fits in 64 bits.
pub open spec fn u64_text(s: Seq<char>) -> bool {
    let digits = if s.len() > 0 && s[0] == '+' { s.drop_first() } else { s };
    is_digits(digits) && digits_value(digits) <= u64::MAX
}

/// Whether `s.parse::<u64>()` succeeds.
pub fn parses_as_u64(s: &str) -> (r: bool)
    ensures
        r == u64_text(s@),
{
    let n = s.unicode_len();
    if n > 0 && s.get_char(0) == '+' {
        let rest = s.substring_char(1, n);
        assert(rest@ =~= s@.drop_first());
        parse_digits(rest).is_some()
    } else {
        parse_digits(s).is_some()
    }
}

/// Qdrant accepts only an unsigned integer or a UUID as a point id.
pub open spec fn point_id_ok(id: Seq<char>) -> bool {
    u64_text(id) || uuid_text(id)
}

pub open spec fn bad_id_msg(id: Seq<char>) -> Seq<char> {
    BAD_ID_1@ + debug_text(id) + BAD_ID_2@
}

/// Refuse, before any host call, a point id Qdrant would reject with an
/// opaque 400 after an embeddings call had already been spent.
pub fn validate_point_id(id: &str) -> (r: Result<(), RagError>)
    ensures
        match r {
            Ok(_) => point_id_ok(id@),
            Err(e) => !point_id_ok(id@) && e@ == ErrV::InvalidInput(bad_id_msg(id@)),
        },
{
    if parses_as_u64(id) || uuid_parses(id) {
        return Ok(());
    }
    Err(RagError::InvalidInput(cat3(BAD_ID_1, debug_str(id).as_str(), BAD_ID_2)))
}

pub open spec fn upsert_fields(doc: JsonV) -> Result<UpsertInputV, Seq<char>> {
    match req_string_spec(doc, "id"@) {
        Err(m) => Err(m),
        Ok(id) => match opt_string_spec(doc, "text"@) {
            Err(m) => Err(m),
            Ok(text) => match opt_numbers_spec(doc, "vector"@) {
                Err(m) => Err(m),
                Ok(vector) => match opt_string_spec(doc, "collection"@) {
                    Err(m) => Err(m),
                    Ok(collection) => match overlay_field_spec(doc) {
                        Err(m) => Err(m),
                        Ok(tenant_overlay) => Ok(UpsertInputV {
                            id, text, vector, payload: value_or_empty_spec(doc, "payload"@), collection, tenant_overlay,
                        }),
                    },
                },
            },
        },
    }
}

/// `rag_upsert` arguments: a non-blank `id` that is an unsigned integer or
/// a UUID, and exactly one of a non-blank `text` and a non-empty `vector`.
/// The payload defaults to `{}`.
pub open spec fn parse_upsert_spec(json: Seq<char>) -> Result<UpsertInputV, ErrV> {
    match arguments_spec(json) {
        Err(m) => Err(ErrV::InvalidInput(decode_msg(UPSERT_TOOL@, m))),
        Ok(doc) => match upsert_fields(doc) {
            Err(m) => Err(ErrV::InvalidInput(decode_msg(UPSERT_TOOL@, m))),
            Ok(u) => if all_ws(u.id) {
                Err(ErrV::InvalidInput(ID_EMPTY@))
            } else if !point_id_ok(u.id) {
                Err(ErrV::InvalidInput(bad_id_msg(u.id)))
            } else {
                match exactly_one_spec(UPSERT_TOOL@, has_text(u.text), has_items(u.vector)) {
                    Err(e) => Err(e),
                    Ok(_) => Ok(u),
                }
            },
        },
    }
}

fn upsert_from(doc: &Json) -> (r: Result<UpsertInput, String>)
    ensures
        match r {
            Ok(u) => upsert_fields(doc@) == Ok::<UpsertInputV, Seq<char>>(u@),
            Err(m) => upsert_fields(doc@) == Err::<UpsertInputV, Seq<char>>(m@),
        },
{
    let id = req_string(doc, "id")?;
    let text = opt_string(doc, "text")?;
    let vector = opt_numbers(doc, "vector")?;
    let collection = opt_string(doc, "collection")?;
    let tenant_overlay = overlay_field(doc)?;
    Ok(UpsertInput { id, text, vector, payload: value_or_empty(doc, "payload"), collection, tenant_overlay })
}

/// See [`parse_upsert_spec`].
pub fn parse_upsert(json: &str) -> (r: Result<UpsertInput, RagError>)
    ensures
        match r {
            Ok(u) => parse_upsert_spec(json@) == Ok::<UpsertInputV, ErrV>(u@),
            Err(e) => parse_upsert_spec(json@) == Err::<UpsertInputV, ErrV>(e@),
        },
{
    let doc = match arguments(json) {
        Ok(d) => d,
        Err(m) => return Err(decode_err(UPSERT_TOOL, m.as_str())),
    };
    let parsed = match upsert_from(&doc) {
        Ok(p) => p,
        Err(m) => return Err(decode_err(UPSERT_TOOL, m.as_str())),
    };
    if is_blank(parsed.id.as_str()) {
        return Err(RagError::InvalidInput(String::from_str(ID_EMPTY)));
    }
    validate_point_id(parsed.id.as_str())?;
    exactly_one(UPSERT_TOOL, some_text(&parsed.text), some_items(&parsed.vector))?;
    Ok(parsed)
}

// ===== rag_ingest =====

pub open spec fn ingest_fields(doc: JsonV) -> Result<IngestInputV, Seq<char>> {
    match req_string_spec(doc, "doc_id"@) {
        Err(m) => Err(m),
        Ok(doc_id) => match req_string_spec(doc, "text"@) {
            Err(m) => Err(m),
            Ok(text) => match opt_string_spec(doc, "collection"@) {
                Err(m) => Err(m),
                Ok(collection) => match overlay_field_spec(doc) {
                    Err(m) => Err(m),
                    Ok(tenant_overlay) => Ok(IngestInputV {
                        doc_id, text, metadata: value_or_empty_spec(doc, "metadata"@), collection, tenant_overlay,
                    }),
                },
            },
        },
    }
}

/// `rag_ingest` arguments: a non-blank `doc_id` and a non-blank `text`; the
/// metadata defaults to `{}`.
pub open spec fn parse_ingest_spec(json: Seq<char>) -> Result<IngestInputV, ErrV> {
    match arguments_spec(json) {
        Err(m) => Err(ErrV::InvalidInput(decode_msg(INGEST_TOOL@, m))),
        Ok(doc) => match ingest_fields(doc) {
            Err(m) => Err(ErrV::InvalidInput(decode_msg(INGEST_TOOL@, m))),
            Ok(i) => if all_ws(i.doc_id) {
                Err(ErrV::InvalidInput(DOC_ID_EMPTY@))
            } else if all_ws(i.text) {
                Err(ErrV::InvalidInput(TEXT_EMPTY@))
            } else {
                Ok(i)
            },
        },
    }
}

fn ingest_from(doc: &Json) -> (r: Result<IngestInput, String>)
    ensures
        match r {
            Ok(i) => ingest_fields(doc@) == Ok::<IngestInputV, Seq<char>>(i@),
            Err(m) => ingest_fields(doc@) == Err::<IngestInputV, Seq<char>>(m@),
        },
{
    let doc_id = req_string(doc, "doc_id")?;
    let text = req_string(doc, "text")?;
    let collection = opt_string(doc, "collection")?;
    let tenant_overlay = overlay_field(doc)?;
    Ok(IngestInput { doc_id, text, metadata: value_or_empty(doc, "metadata"), collection, tenant_overlay })
}

/// See [`parse_ingest_spec`].
pub fn parse_ingest(json: &str) -> (r: Result<IngestInput, RagError>)
    ensures
        match r {
            Ok(i) => parse_ingest_spec(json@) == Ok::<IngestInputV, ErrV>(i@),
            Err(e) => parse_ingest_spec(json@) == Err::<IngestInputV, ErrV>(e@),
        },
{
    let doc = match arguments(json) {
        Ok(d) => d,
        Err(m) => return Err(decode_err(INGEST_TOOL, m.as_str())),
    };
    let parsed = match ingest_from(&doc) {
        Ok(p) => p,
        Err(m) => return Err(decode_err(INGEST_TOOL, m.as_str())),
    };
    if is_blank(parsed.doc_id.as_str()) {
        return Err(RagError::InvalidInput(String::from_str(DOC_ID_EMPTY)));
    }
    if is_blank(parsed.text.as_str()) {
        return Err(RagError::InvalidInput(String::from_str(TEXT_EMPTY)));
    }
    Ok(parsed)
}

// ===== rag_delete =====

pub open spec fn delete_fields(doc: JsonV) -> Result<DeleteInputV, Seq<char>> {
    match opt_strings_spec(doc, "ids"@) {
        Err(m) => Err(m),
        Ok(ids) => match opt_string_spec(doc, "doc_id"@) {
            Err(m) => Err(m),
            Ok(doc_id) => match opt_string_spec(doc, "collection"@) {
                Err(m) => Err(m),
                Ok(collection) => match overlay_field_spec(doc) {
                    Err(m) => Err(m),
                    Ok(tenant_overlay) => Ok(DeleteInputV { ids, doc_id, collection, tenant_overlay }),
                },
            },
        },
    }
}

/// `rag_delete` arguments: exactly one of a non-empty `ids` and a non-blank
/// `doc_id`. Accepting neither would delete everything.
pub open spec fn parse_delete_spec(json: Seq<char>) -> Result<DeleteInputV, ErrV> {
    match arguments_spec(json) {
        Err(m) => Err(ErrV::InvalidInput(decode_msg(DELETE_TOOL@, m))),
        Ok(doc) => match delete_fields(doc) {
            Err(m) => Err(ErrV::InvalidInput(decode_msg(DELETE_TOOL@, m))),
            Ok(d) => if has_items(d.ids) && has_text(d.doc_id) {
                Err(ErrV::InvalidInput(DELETE_BOTH@))
            } else if !has_items(d.ids) && !has_text(d.doc_id) {
                Err(ErrV::InvalidInput(DELETE_NEITHER@))
            } else {
                Ok(d)
            },
        },
    }
}

fn delete_from(doc: &Json) -> (r: Result<DeleteInput, String>)
    ensures
        match r {
            Ok(d) => delete_fields(doc@) == Ok::<DeleteInputV, Seq<char>>(d@),
            Err(m) => delete_fields(doc@) == Err::<DeleteInputV, Seq<char>>(m@),
        },
{
    let ids = opt_strings(doc, "ids")?;
    let doc_id = opt_string(doc, "doc_id")?;
    let collection = opt_string(doc, "collection")?;
    let tenant_overlay = overlay_field(doc)?;
    Ok(DeleteInput { ids, doc_id, collection, tenant_overlay })
}

/// See [`parse_delete_spec`].
pub fn parse_delete(json: &str) -> (r: Result<DeleteInput, RagError>)
    ensures
        match r {
            Ok(d) => parse_delete_spec(json@) == Ok::<DeleteInputV, ErrV>(d@),
            Err(e) => parse_delete_spec(json@) == Err::<DeleteInputV, ErrV>(e@),
        },
{
    let doc = match arguments(json) {
        Ok(d) => d,
        Err(m) => return Err(decode_err(DELETE_TOOL, m.as_str())),
    };
    let parsed = match delete_from(&doc) {
        Ok(p) => p,
        Err(m) => return Err(decode_err(DELETE_TOOL, m.as_str())),
    };
    let has_ids = some_items(&parsed.ids);
    let has_doc = some_text(&parsed.doc_id);
    if has_ids && has_doc {
        return Err(RagError::InvalidInput(String::from_str(DELETE_BOTH)));
    }
    if !has_ids && !has_doc {
        return Err(RagError::InvalidInput(String::from_str(DELETE_NEITHER)));
    }
    Ok(parsed)
}

// ===== rag_collection_ensure =====

/// The metrics a collection may be created with. Qdrant also implements
/// `Manhattan`, left out as a poor fit for normalised embeddings.
pub open spec fn distance_ok(d: Seq<char>) -> bool {
    d == "Cosine"@ || d == "Dot"@ || d == "Euclid"@
}

pub open spec fn ensure_fields(doc: JsonV) -> Result<EnsureInputV, Seq<char>> {
    match opt_string_spec(doc, "collection"@) {
        Err(m) => Err(m),
        Ok(collection) => match opt_u32_spec(doc, "dimensions"@) {
            Err(m) => Err(m),
            Ok(dimensions) => match string_or_spec(doc, "distance"@, DEFAULT_DISTANCE@) {
                Err(m) => Err(m),
                Ok(distance) => match overlay_field_spec(doc) {
                    Err(m) => Err(m),
                    Ok(tenant_overlay) => Ok(EnsureInputV { collection, dimensions, distance, tenant_overlay }),
                },
            },
        },
    }
}

/// `rag_collection_ensure` arguments: a `distance` (default `Cosine`) that is
/// one of `Cosine`, `Dot` and `Euclid`.
pub open spec fn parse_ensure_spec(json: Seq<char>) -> Result<EnsureInputV, ErrV> {
    match arguments_spec(json) {
        Err(m) => Err(ErrV::InvalidInput(decode_msg(ENSURE_TOOL@, m))),
        Ok(doc) => match ensure_fields(doc) {
            Err(m) => Err(ErrV::InvalidInput(decode_msg(ENSURE_TOOL@, m))),
            Ok(e) => if distance_ok(e.distance) {
                Ok(e)
            } else {
                Err(ErrV::InvalidInput(BAD_DISTANCE@ + debug_text(e.distance)))
            },
        },
    }
}

fn ensure_from(doc: &Json) -> (r: Result<EnsureInput, String>)
    ensures
        match r {
            Ok(e) => ensure_fields(doc@) == Ok::<EnsureInputV, Seq<char>>(e@),
            Err(m) => ensure_fields(doc@) == Err::<EnsureInputV, Seq<char>>(m@),
        },
{
    let collection = opt_string(doc, "collection")?;
    let dimensions = opt_u32(doc, "dimensions")?;
    let distance = string_or(doc, "distance", DEFAULT_DISTANCE)?;
    let tenant_overlay = overlay_field(doc)?;
    Ok(EnsureInput { collection, dimensions, distance, tenant_overlay })
}

fn is_allowed_distance(d: &str) -> (r: bool)
    ensures
        r == distance_ok(d@),
{
    crate::text::str_eq(d, "Cosine") || crate::text::str_eq(d, "Dot") || crate::text::str_eq(d, "Euclid")
}

/// See [`parse_ensure_spec`].
pub fn parse_ensure(json: &str) -> (r: Result<EnsureInput, RagError>)
    ensures
        match r {
            Ok(e) => parse_ensure_spec(json@) == Ok::<EnsureInputV, ErrV>(e@),
            Err(e) => parse_ensure_spec(json@) == Err::<EnsureInputV, ErrV>(e@),
        },
{
    let doc = match arguments(json) {
        Ok(d) => d,
        Err(m) => return Err(decode_err(ENSURE_TOOL, m.as_str())),
    };
    let parsed = match ensure_from(&doc) {
        Ok(p) => p,
        Err(m) => return Err(decode_err(ENSURE_TOOL, m.as_str())),
    };
    if !is_allowed_distance(parsed.distance.as_str()) {
        return Err(RagError::InvalidInput(cat(BAD_DISTANCE, debug_str(parsed.distance.as_str()).as_str())));
    }
    Ok(parsed)
}

// ===== rag_list =====

pub open spec fn list_fields(doc: JsonV) -> Result<ListInputV, Seq<char>> {
    match u32_or_spec(doc, "limit"@, DEFAULT_LIST_LIMIT) {
        Err(m) => Err(m),
        Ok(limit) => match opt_string_spec(doc, "collection"@) {
            Err(m) => Err(m),
            Ok(collection) => match overlay_field_spec(doc) {
                Err(m) => Err(m),
                Ok(tenant_overlay) => Ok(ListInputV {
                    limit,
                    offset: present(doc, "offset"@),
                    filter: present(doc, "filter"@),
                    collection,
                    tenant_overlay,
                }),
            },
        },
    }
}

/// `rag_list` arguments: a `limit` (default 50) above zero.
pub open spec fn parse_list_spec(json: Seq<char>) -> Result<ListInputV, ErrV> {
    match arguments_spec(json) {
        Err(m) => Err(ErrV::InvalidInput(decode_msg(LIST_TOOL@, m))),
        Ok(doc) => match list_fields(doc) {
            Err(m) => Err(ErrV::InvalidInput(decode_msg(LIST_TOOL@, m))),
            Ok(l) => if l.limit == 0 { Err(ErrV::InvalidInput(LIMIT_ZERO@)) } else { Ok(l) },
        },
    }
}

fn list_from(doc: &Json) -> (r: Result<ListInput, String>)
    ensures
        match r {
            Ok(l) => list_fields(doc@) == Ok::<ListInputV, Seq<char>>(l@),
            Err(m) => list_fields(doc@) == Err::<ListInputV, Seq<char>>(m@),
        },
{
    let limit = u32_or(doc, "limit", DEFAULT_LIST_LIMIT)?;
    let collection = opt_string(doc, "collection")?;
    let tenant_overlay = overlay_field(doc)?;
    Ok(ListInput {
        limit,
        offset: opt_value(doc, "offset"),
        filter: opt_value(doc, "filter"),
        collection,
        tenant_overlay,
    })
}

/// See [`parse_list_spec`].
pub fn parse_list(json: &str) -> (r: Result<ListInput, RagError>)
    ensures
        match r {
            Ok(l) => parse_list_spec(json@) == Ok::<ListInputV, ErrV>(l@),
            Err(e) => parse_list_spec(json@) == Err::<ListInputV, ErrV>(e@),
        },
{
    let doc = match arguments(json) {
        Ok(d) => d,
        Err(m) => return Err(decode_err(LIST_TOOL, m.as_str())),
    };
    let parsed = match list_from(&doc) {
        Ok(p) => p,
        Err(m) => return Err(decode_err(LIST_TOOL, m.as_str())),
    };
    if parsed.limit == 0 {
        return Err(RagError::InvalidInput(String::from_str(LIMIT_ZERO)));
    }
    Ok(parsed)
}

// ===== what accepted arguments guarantee =====

/// Accepted search arguments carry exactly one of a non-blank query and a
/// non-empty vector, and a `top_k` above zero: 5 when the caller gave none.
/// The filter is the caller's, passed on as given.
pub proof fn lemma_search_arguments(json: Seq<char>)
    requires
        parse_search_spec(json) is Ok,
    ensures
        ({
            let s = parse_search_spec(json)->Ok_0;
            let doc = arguments_spec(json)->Ok_0;
            &&& has_text(s.query) != has_items(s.vector)
            &&& s.top_k > 0
            &&& crate::json::get(doc, "top_k"@) is None ==> s.top_k == 5
            &&& s.filter == present(doc, "filter"@)
        }),
{
}

/// Accepted upsert arguments carry an id Qdrant accepts (an unsigned integer
/// or a UUID), exactly one of a non-blank text and a non-empty vector, and a
/// payload that is `{}` when the caller gave none.
pub proof fn lemma_upsert_arguments(json: Seq<char>)
    requires
        parse_upsert_spec(json) is Ok,
    ensures
        ({
            let u = parse_upsert_spec(json)->Ok_0;
            let doc = arguments_spec(json)->Ok_0;
            &&& point_id_ok(u.id)
            &&& has_text(u.text) != has_items(u.vector)
            &&& crate::json::get(doc, "payload"@) is None ==> u.payload == JsonV::Object(Seq::empty())
        }),
{
}

/// Accepted ingest arguments carry a non-blank document id and a non-blank
/// text, and metadata that is `{}` when the caller gave none.
pub proof fn lemma_ingest_arguments(json: Seq<char>)
    requires
        parse_ingest_spec(json) is Ok,
    ensures
        ({
            let i = parse_ingest_spec(json)->Ok_0;
            let doc = arguments_spec(json)->Ok_0;
            &&& !all_ws(i.doc_id)
            &&& !all_ws(i.text)
            &&& crate::json::get(doc, "metadata"@) is None ==> i.metadata == JsonV::Object(Seq::empty())
        }),
{
}

/// Accepted delete arguments select by exactly one of a non-empty `ids`
/// list and a non-blank `doc_id`: never by neither, which would leave
/// nothing to tell the points apart.
pub proof fn lemma_delete_arguments(json: Seq<char>)
    requires
        parse_delete_spec(json) is Ok,
    ensures
        has_items(parse_delete_spec(json)->Ok_0.ids) != has_text(parse_delete_spec(json)->Ok_0.doc_id),
{
}

/// Accepted ensure arguments name one of the metrics `Cosine`, `Dot` and
/// `Euclid`: `Cosine` when the caller named none.
pub proof fn lemma_ensure_arguments(json: Seq<char>)
    requires
        parse_ensure_spec(json) is Ok,
    ensures
        ({
            let e = parse_ensure_spec(json)->Ok_0;
            let doc = arguments_spec(json)->Ok_0;
            &&& e.distance == "Cosine"@ || e.distance == "Dot"@ || e.distance == "Euclid"@
            &&& crate::json::get(doc, "distance"@) is None ==> e.distance == "Cosine"@
        }),
{
}

/// Accepted list arguments ask for a page of at least one point: 50 when
/// the caller gave no `limit`. Offset and filter are the caller's.
pub proof fn lemma_list_arguments(json: Seq<char>)
    requires
        parse_list_spec(json) is Ok,
    ensures
        ({
            let l = parse_list_spec(json)->Ok_0;
            let doc = arguments_spec(json)->Ok_0;
            &&& l.limit > 0
            &&& crate::json::get(doc, "limit"@) is None ==> l.limit == 50
            &&& l.offset == present(doc, "offset"@)
            &&& l.filter == present(doc, "filter"@)
        }),
{
}

} // verus!
