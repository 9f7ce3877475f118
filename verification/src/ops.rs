//! Orchestration: the only place that issues more than one host call per
//! tool, and the tenant-isolation rule that decides which collection a call
//! may touch.
use vstd::prelude::*;

use crate::config::{not_configured, not_configured_msg, trim_slashes, trim_slashes_spec, Config, ConfigOverlayV, ConfigV, overlay_view};
use crate::embed::{embed_request, embed_request_spec, embeds_inputs, parse_embed_response, parse_embed_spec, vectors_view};
use crate::error::{ErrV, RagError};
use crate::host::{answered_by, HostCall, HostCalls, HttpRequest, HttpRequestV, HttpResponse, HttpResponseV, Traced};
use crate::fields::opt_json_view;
use crate::chunk::{chunk_text, chunk_text_spec};
use crate::embed::copy_strings;
use crate::input::{
    opt_overlay_view, DeleteInput, DeleteInputV, EnsureInput, EnsureInputV, IngestInput,
    IngestInputV, ListInput, ListInputV, SearchInput, SearchInputV, TenantOverlay, UpsertInput,
    UpsertInputV, DEFAULT_DISTANCE,
};
use crate::json::{array, as_array, entries_get, get, numbers_json, strings_json, json_decode, json_seq_view, object1, object2, object3, object4, Json, JsonV};
use crate::listing::{group_page, group_points, groups_view, DocGroup, DocGroupV};
use crate::qdrant::{
    add_member, collection_url, chunk_name, chunk_point_id, delete_request, delete_request_spec, parse_scroll,
    parse_scroll_spec, points_view, scroll_request, scroll_request_spec, upsert_request,
    upsert_request_spec, uuid_v5_text, with_member, DeleteSelector, DeleteSelectorV, Point, PointV,
    CHUNK_NAMESPACE,
    hits_view, opt_json, parse_hits, parse_hits_spec, query_request, query_request_spec, Hit, HitV,
    ensure_ack_spec, ensure_collection_request, ensure_collection_request_spec, parse_ack,
    parse_ensure_ack, status_error_spec, payload_of, point_id_spec, result_points, score_of,
    scroll_point_spec, request_spec, ensure_body, delete_body,
};
use crate::text::{all_ws, cat, debug_str, debug_text, decimal, decimal_string, is_blank, opt_ref_view, opt_view, str_eq, strings_view};

verus! {

/// Secret URIs, exactly as the extension declares its secret permissions.
pub const QDRANT_KEY_REF: &'static str = "secret://rag-qdrant/qdrant_api_key";
pub const EMBEDDING_KEY_REF: &'static str = "secret://rag-qdrant/embedding_api_key";

pub const CLUSTER_MISMATCH_1: &'static str = "tenant overlay sets qdrant_url ";
pub const CLUSTER_MISMATCH_2: &'static str = ", which is not the ";
pub const CLUSTER_MISMATCH_3: &'static str = " this call was configured with. Refusing rather than reading this tenant's collection off another cluster.";
pub const BLANK_PINNED: &'static str = "tenant overlay pins an empty collection name; fix this tenant's extension configuration";
pub const PINNED_OVERRIDE_1: &'static str = "collection ";
pub const PINNED_OVERRIDE_2: &'static str = " was passed, but this tenant's collection is set by the host (";
pub const PINNED_OVERRIDE_3: &'static str = ") and cannot be overridden per call. Remove the `collection` argument.";
pub const OVERLAY_REQUIRED: &'static str = "this instance sets require_tenant_overlay, but the host sent no tenant collection for this call. Refusing rather than falling back to the shared configured collection.";

pub open spec fn cluster_mismatch_msg(url: Seq<char>, configured: Seq<char>) -> Seq<char> {
    CLUSTER_MISMATCH_1@ + debug_text(url) + CLUSTER_MISMATCH_2@ + debug_text(configured) + CLUSTER_MISMATCH_3@
}

pub open spec fn pinned_override_msg(requested: Seq<char>, pinned: Seq<char>) -> Seq<char> {
    PINNED_OVERRIDE_1@ + debug_text(requested) + PINNED_OVERRIDE_2@ + debug_text(pinned) + PINNED_OVERRIDE_3@
}

/// Which collection a call reads and writes, or why it may not proceed.
///
/// Highest first: the overlay's collection (host-set, the isolation
/// boundary); the caller's `collection` argument, only when no overlay pins
/// one; the configured collection. A caller collection is refused whenever
/// the overlay pins one, even a matching one. An overlay naming a different
/// cluster than the one the call was configured with is refused first.
pub open spec fn collection_of_spec(cfg: ConfigV, overlay: Option<ConfigOverlayV>, requested: Option<Seq<char>>) -> Result<Seq<char>, ErrV> {
    let url = match overlay { Some(o) => o.qdrant_url, None => None };
    let pinned = match overlay { Some(o) => o.collection, None => None };
    if url is Some && trim_slashes_spec(url->0) != cfg.qdrant_url {
        Err(ErrV::InvalidInput(cluster_mismatch_msg(url->0, cfg.qdrant_url)))
    } else {
        match pinned {
            Some(p) => {
                if all_ws(p) {
                    Err(ErrV::InvalidInput(BLANK_PINNED@))
                } else {
                    match requested {
                        Some(r) => Err(ErrV::InvalidInput(pinned_override_msg(r, p))),
                        None => Ok(p),
                    }
                }
            },
            None => {
                if cfg.require_tenant_overlay {
                    Err(ErrV::PermissionDenied(OVERLAY_REQUIRED@))
                } else {
                    let chosen = match requested { Some(r) => r, None => cfg.collection };
                    if all_ws(chosen) {
                        Err(ErrV::InvalidInput(not_configured_msg("collection"@)))
                    } else {
                        Ok(chosen)
                    }
                }
            },
        }
    }
}

/// See [`collection_of_spec`].
pub fn collection_of(cfg: &Config, overlay: Option<&TenantOverlay>, requested: Option<&String>) -> (r: Result<String, RagError>)
    ensures
        match r {
            Ok(c) => collection_of_spec(cfg@, overlay_view(overlay), opt_ref_view(requested)) == Ok::<Seq<char>, ErrV>(c@),
            Err(e) => collection_of_spec(cfg@, overlay_view(overlay), opt_ref_view(requested)) == Err::<Seq<char>, ErrV>(e@),
        },
{
    let url: Option<&String> = match overlay { Some(o) => o.qdrant_url.as_ref(), None => None };
    let pinned: Option<&String> = match overlay { Some(o) => o.collection.as_ref(), None => None };
    if let Some(u) = url {
        let t = trim_slashes(u.as_str());
        if !str_eq(t.as_str(), cfg.qdrant_url.as_str()) {
            let mut m = String::from_str(CLUSTER_MISMATCH_1);
            m.append(debug_str(u.as_str()).as_str());
            m.append(CLUSTER_MISMATCH_2);
            m.append(debug_str(cfg.qdrant_url.as_str()).as_str());
            m.append(CLUSTER_MISMATCH_3);
            return Err(RagError::InvalidInput(m));
        }
    }
    match pinned {
        Some(p) => {
            if is_blank(p.as_str()) {
                return Err(RagError::InvalidInput(String::from_str(BLANK_PINNED)));
            }
            match requested {
                Some(req) => {
                    let mut m = String::from_str(PINNED_OVERRIDE_1);
                    m.append(debug_str(req.as_str()).as_str());
                    m.append(PINNED_OVERRIDE_2);
                    m.append(debug_str(p.as_str()).as_str());
                    m.append(PINNED_OVERRIDE_3);
                    Err(RagError::InvalidInput(m))
                },
                None => Ok(p.clone()),
            }
        },
        None => {
            if cfg.require_tenant_overlay {
                return Err(RagError::PermissionDenied(String::from_str(OVERLAY_REQUIRED)));
            }
            let chosen: &String = match requested { Some(req) => req, None => &cfg.collection };
            if is_blank(chosen.as_str()) {
                return Err(not_configured("collection"));
            }
            Ok(chosen.clone())
        },
    }
}


// ===== which collection a call may touch =====

/// While the overlay pins a collection, any caller `collection` is refused,
/// even one naming the pinned collection.
pub proof fn lemma_pinned_collection_refuses_caller(cfg: ConfigV, o: ConfigOverlayV, requested: Seq<char>)
    requires
        o.collection is Some,
    ensures
        collection_of_spec(cfg, Some(o), Some(requested)) is Err,
        collection_of_spec(cfg, Some(o), Some(requested))->Err_0 is InvalidInput,
{
}

/// A pinned, non-blank collection on the configured cluster is the one the
/// call uses, whatever the configuration's default.
pub proof fn lemma_pinned_collection_is_used(cfg: ConfigV, o: ConfigOverlayV)
    requires
        o.collection is Some,
        !all_ws(o.collection->0),
        o.qdrant_url is Some ==> trim_slashes_spec(o.qdrant_url->0) == cfg.qdrant_url,
    ensures
        collection_of_spec(cfg, Some(o), None) == Ok::<Seq<char>, ErrV>(o.collection->0),
{
}

/// When the operator requires a tenant overlay, a call the host did not
/// stamp with a collection is refused, and a caller `collection` does not
/// make up for it.
pub proof fn lemma_required_overlay_refuses_unstamped(cfg: ConfigV, overlay: Option<ConfigOverlayV>, requested: Option<Seq<char>>)
    requires
        cfg.require_tenant_overlay,
        overlay is None || overlay->0.collection is None,
    ensures
        collection_of_spec(cfg, overlay, requested) is Err,
{
}

/// With no overlay, a caller `collection` that is not blank is used, unless
/// the operator requires an overlay.
pub proof fn lemma_caller_collection_without_overlay(cfg: ConfigV, requested: Seq<char>)
    requires
        !cfg.require_tenant_overlay,
        !all_ws(requested),
    ensures
        collection_of_spec(cfg, None, Some(requested)) == Ok::<Seq<char>, ErrV>(requested),
{
}

// ===== host calls, one step at a time =====
//
// Every operation below is specified by a function that reads the calls it
// made, in order, from a trace: it says which call must come next given the
// replies so far, and what the operation returns. `only(calls, n, r)` closes
// a run: exactly `n` calls were made and the outcome is `r`.

pub const FETCH_FAILED: &'static str = "host http::fetch failed: ";
pub const SECRET_FAILED_1: &'static str = "host could not resolve ";
pub const SECRET_FAILED_2: &'static str = ": ";
pub const COUNT_1: &'static str = "embeddings API returned ";
pub const COUNT_2: &'static str = " vectors for ";
pub const COUNT_3: &'static str = " inputs";
pub const WIDTH_1: &'static str = "vector has ";
pub const WIDTH_2: &'static str = " dimensions, collection expects ";

pub open spec fn only<T>(calls: Seq<HostCall>, n: int, r: T) -> Option<T> {
    if calls.len() == n { Some(r) } else { None }
}

pub open spec fn secret_err(uri: Seq<char>, e: Seq<char>) -> ErrV {
    ErrV::PermissionDenied(SECRET_FAILED_1@ + uri + SECRET_FAILED_2@ + e)
}

pub open spec fn fetch_err(e: Seq<char>) -> ErrV {
    ErrV::Internal(FETCH_FAILED@ + e)
}

/// Call `i` resolves the secret `uri`: the key, or the refusal.
pub open spec fn secret_at(calls: Seq<HostCall>, i: int, uri: Seq<char>) -> Option<Result<Seq<char>, ErrV>> {
    if 0 <= i < calls.len() {
        match calls[i] {
            HostCall::Secret { uri: u, reply } => if u == uri {
                Some(match reply {
                    Ok(k) => Ok(k),
                    Err(e) => Err(secret_err(uri, e)),
                })
            } else {
                None
            },
            _ => None,
        }
    } else {
        None
    }
}

/// Call `i` sends `req`: the response, or the transport failure.
pub open spec fn fetch_at(calls: Seq<HostCall>, i: int, req: HttpRequestV) -> Option<Result<HttpResponseV, ErrV>> {
    if 0 <= i < calls.len() {
        match calls[i] {
            HostCall::Fetch { req: q, reply } => if q == req {
                Some(match reply {
                    Ok(resp) => Ok(resp),
                    Err(e) => Err(fetch_err(e)),
                })
            } else {
                None
            },
            _ => None,
        }
    } else {
        None
    }
}

/// Call `i` sends the write `req`, acknowledged by any 2xx.
pub open spec fn ack_at(calls: Seq<HostCall>, i: int, req: HttpRequestV) -> Option<Result<(), ErrV>> {
    match fetch_at(calls, i, req) {
        None => None,
        Some(Err(e)) => Some(Err(e)),
        Some(Ok(resp)) => Some(match status_error_spec(resp.status, resp.body) {
            Some(e) => Err(e),
            None => Ok(()),
        }),
    }
}

/// Call `i` sends the collection-creating `req`; "already exists" counts as
/// success.
pub open spec fn ensure_at(calls: Seq<HostCall>, i: int, req: HttpRequestV) -> Option<Result<(), ErrV>> {
    match fetch_at(calls, i, req) {
        None => None,
        Some(Err(e)) => Some(Err(e)),
        Some(Ok(resp)) => Some(ensure_ack_spec(resp.status, resp.body)),
    }
}

pub open spec fn count_msg(got: nat, wanted: nat) -> Seq<char> {
    COUNT_1@ + decimal(got) + COUNT_2@ + decimal(wanted) + COUNT_3@
}

/// Embedding `texts` in one request, starting at call `i`: the embeddings
/// key, then the request. The outcome and the number of calls it took.
pub open spec fn embed_at(cfg: ConfigV, texts: Seq<Seq<char>>, calls: Seq<HostCall>, i: int) -> Option<(Result<Seq<Seq<Seq<char>>>, ErrV>, int)> {
    match secret_at(calls, i, EMBEDDING_KEY_REF@) {
        None => None,
        Some(Err(e)) => Some((Err(e), 1)),
        Some(Ok(key)) => match fetch_at(calls, i + 1, embed_request_spec(cfg.embedding, texts, key)) {
            None => None,
            Some(Err(e)) => Some((Err(e), 2)),
            Some(Ok(resp)) => Some((match parse_embed_spec(resp.status, resp.body, cfg.embedding.dimensions) {
                Err(e) => Err(e),
                Ok(vs) => if vs.len() != texts.len() {
                    Err(ErrV::Internal(count_msg(vs.len(), texts.len())))
                } else {
                    Ok(vs)
                },
            }, 2)),
        },
    }
}

/// `b` begins with `a`.
pub open spec fn extends(a: Seq<HostCall>, b: Seq<HostCall>) -> bool {
    a.len() <= b.len() && b.take(a.len() as int) == a
}

proof fn lemma_embed_at_extends(cfg: ConfigV, texts: Seq<Seq<char>>, a: Seq<HostCall>, b: Seq<HostCall>, i: int)
    requires
        extends(a, b),
        embed_at(cfg, texts, a, i) is Some,
    ensures
        embed_at(cfg, texts, b, i) == embed_at(cfg, texts, a, i),
{
    assert(a[i] == b.take(a.len() as int)[i]);
    if i + 1 < a.len() {
        assert(a[i + 1] == b.take(a.len() as int)[i + 1]);
    }
}

pub open spec fn res_view<T: View>(r: Result<T, RagError>) -> Result<T::V, ErrV> {
    match r {
        Ok(x) => Ok(x@),
        Err(e) => Err(e@),
    }
}

fn secret<H: HostCalls>(t: &mut Traced<H>, uri: &str) -> (r: Result<String, RagError>)
    ensures
        final(t).host() == old(t).host(),
        final(t).calls().len() == old(t).calls().len() + 1,
        extends(old(t).calls(), final(t).calls()),
        secret_at(final(t).calls(), old(t).calls().len() as int, uri@) == Some(match r {
            Ok(k) => Ok::<Seq<char>, ErrV>(k@),
            Err(e) => Err::<Seq<char>, ErrV>(e@),
        }),
{
    let r = t.secret(uri);
    assert(t.calls().take(old(t).calls().len() as int) =~= old(t).calls());
    match r {
        Ok(k) => Ok(k),
        Err(e) => {
            let mut m = String::from_str(SECRET_FAILED_1);
            m.append(uri);
            m.append(SECRET_FAILED_2);
            m.append(e.as_str());
            Err(RagError::PermissionDenied(m))
        },
    }
}

fn send<H: HostCalls>(t: &mut Traced<H>, req: &HttpRequest) -> (r: Result<HttpResponse, RagError>)
    ensures
        final(t).host() == old(t).host(),
        final(t).calls().len() == old(t).calls().len() + 1,
        extends(old(t).calls(), final(t).calls()),
        fetch_at(final(t).calls(), old(t).calls().len() as int, req@) == Some(match r {
            Ok(resp) => Ok::<HttpResponseV, ErrV>(resp@),
            Err(e) => Err::<HttpResponseV, ErrV>(e@),
        }),
{
    let r = t.fetch(req);
    assert(t.calls().take(old(t).calls().len() as int) =~= old(t).calls());
    match r {
        Ok(resp) => Ok(resp),
        Err(e) => Err(RagError::Internal(cat(FETCH_FAILED, e.as_str()))),
    }
}

/// Embed a batch of texts in one call. See [`embed_at`].
fn embed_all<H: HostCalls>(t: &mut Traced<H>, cfg: &Config, texts: &Vec<String>) -> (r: Result<Vec<Vec<String>>, RagError>)
    ensures
        final(t).host() == old(t).host(),
        extends(old(t).calls(), final(t).calls()),
        embed_at(cfg@, strings_view(texts@), final(t).calls(), old(t).calls().len() as int) == Some((match r {
            Ok(vs) => Ok::<Seq<Seq<Seq<char>>>, ErrV>(vectors_view(vs@)),
            Err(e) => Err::<Seq<Seq<Seq<char>>>, ErrV>(e@),
        }, final(t).calls().len() - old(t).calls().len())),
{
    let ghost start = t.calls();
    let key = match secret(t, EMBEDDING_KEY_REF) {
        Ok(k) => k,
        Err(e) => return Err(e),
    };
    let ghost mid = t.calls();
    let req = embed_request(&cfg.embedding, texts, key.as_str());
    let resp = match send(t, &req) {
        Ok(resp) => resp,
        Err(e) => {
            assert(mid[start.len() as int] == t.calls().take(mid.len() as int)[start.len() as int]);
            assert(t.calls().take(start.len() as int) =~= start);
            return Err(e);
        },
    };
    assert(mid[start.len() as int] == t.calls().take(mid.len() as int)[start.len() as int]);
    assert(t.calls().take(start.len() as int) =~= start);
    let vectors = parse_embed_response(resp.status, &resp.body, cfg.embedding.dimensions)?;
    if vectors.len() != texts.len() {
        let mut m = String::from_str(COUNT_1);
        m.append(decimal_string(vectors.len() as u64).as_str());
        m.append(COUNT_2);
        m.append(decimal_string(texts.len() as u64).as_str());
        m.append(COUNT_3);
        return Err(RagError::Internal(m));
    }
    Ok(vectors)
}

pub open spec fn width_msg(got: nat, expected: nat) -> Seq<char> {
    WIDTH_1@ + decimal(got) + WIDTH_2@ + decimal(expected)
}

/// A caller-supplied vector must match the configured width, or Qdrant
/// rejects the whole request with an opaque 400.
pub open spec fn check_width_spec(cfg: ConfigV, vector: Seq<Seq<char>>) -> Result<(), ErrV> {
    if vector.len() == cfg.embedding.dimensions {
        Ok(())
    } else {
        Err(ErrV::SchemaInvalid(width_msg(vector.len(), cfg.embedding.dimensions as nat)))
    }
}

fn check_width(cfg: &Config, vector: &Vec<String>) -> (r: Result<(), RagError>)
    ensures
        match r {
            Ok(_) => check_width_spec(cfg@, strings_view(vector@)) is Ok,
            Err(e) => check_width_spec(cfg@, strings_view(vector@)) == Err::<(), ErrV>(e@),
        },
{
    if vector.len() == cfg.embedding.dimensions as usize {
        return Ok(());
    }
    let mut m = String::from_str(WIDTH_1);
    m.append(decimal_string(vector.len() as u64).as_str());
    m.append(WIDTH_2);
    m.append(decimal_string(cfg.embedding.dimensions as u64).as_str());
    Err(RagError::SchemaInvalid(m))
}

fn ensure<H: HostCalls>(t: &mut Traced<H>, cfg: &Config, collection: &str, dimensions: u32, distance: &str, qdrant_key: &str) -> (r: Result<(), RagError>)
    ensures
        final(t).host() == old(t).host(),
        final(t).calls().len() == old(t).calls().len() + 1,
        extends(old(t).calls(), final(t).calls()),
        ensure_at(final(t).calls(), old(t).calls().len() as int,
            ensure_collection_request_spec(cfg@.qdrant_url, collection@, dimensions, distance@, qdrant_key@)) == Some(match r {
            Ok(_) => Ok::<(), ErrV>(()),
            Err(e) => Err::<(), ErrV>(e@),
        }),
{
    let req = ensure_collection_request(cfg.qdrant_url.as_str(), collection, dimensions, distance, qdrant_key);
    let resp = send(t, &req)?;
    parse_ensure_ack(resp.status, &resp.body)
}

fn acked<H: HostCalls>(t: &mut Traced<H>, req: &HttpRequest) -> (r: Result<(), RagError>)
    ensures
        final(t).host() == old(t).host(),
        final(t).calls().len() == old(t).calls().len() + 1,
        extends(old(t).calls(), final(t).calls()),
        ack_at(final(t).calls(), old(t).calls().len() as int, req@) == Some(match r {
            Ok(_) => Ok::<(), ErrV>(()),
            Err(e) => Err::<(), ErrV>(e@),
        }),
{
    let resp = send(t, req)?;
    parse_ack(resp.status, &resp.body)
}


proof fn lemma_extends_at(a: Seq<HostCall>, b: Seq<HostCall>, i: int)
    requires
        extends(a, b),
        0 <= i < a.len(),
    ensures
        b[i] == a[i],
{
    assert(b.take(a.len() as int)[i] == b[i]);
}

proof fn lemma_extends_trans(a: Seq<HostCall>, b: Seq<HostCall>, c: Seq<HostCall>)
    requires
        extends(a, b),
        extends(b, c),
    ensures
        extends(a, c),
{
    assert(c.take(a.len() as int) =~= a) by {
        assert forall|k: int| 0 <= k < a.len() implies c.take(a.len() as int)[k] == a[k] by {
            lemma_extends_at(b, c, k);
            lemma_extends_at(a, b, k);
        }
    }
}

// ===== rag_search =====

pub const NO_QUERY: &'static str = "rag_search: pass either a query or a vector";

pub open spec fn hit_json(h: HitV) -> JsonV {
    JsonV::Object(seq![("id"@, JsonV::Str(h.id)), ("score"@, h.score), ("payload"@, h.payload)])
}

/// What `rag_search` returns: `{"hits": [{"id", "score", "payload"}, ...]}`.
pub open spec fn search_json(hits: Seq<HitV>) -> JsonV {
    JsonV::Object(seq![("hits"@, JsonV::Array(hits.map_values(|h: HitV| hit_json(h))))])
}

/// The Qdrant half of a search, from call `i`: the Qdrant key, then the
/// query.
pub open spec fn query_outcome(cfg: ConfigV, c: Seq<char>, v: Seq<Seq<char>>, inp: SearchInputV, calls: Seq<HostCall>, i: int) -> Option<Result<JsonV, ErrV>> {
    match secret_at(calls, i, QDRANT_KEY_REF@) {
        None => None,
        Some(Err(e)) => only(calls, i + 1, Err(e)),
        Some(Ok(key)) => match fetch_at(calls, i + 1, query_request_spec(cfg.qdrant_url, c, v, inp.top_k, inp.filter, key)) {
            None => None,
            Some(Err(e)) => only(calls, i + 2, Err(e)),
            Some(Ok(resp)) => only(calls, i + 2, match parse_hits_spec(resp.status, resp.body) {
                Err(e) => Err(e),
                Ok(hits) => Ok(search_json(hits)),
            }),
        },
    }
}

/// `rag_search`, from call `s` of `calls`. The collection is resolved before
/// any host call: a refused call costs no embeddings request. A caller vector
/// is checked against the configured width, also before any call; a query is
/// embedded first. Then the Qdrant key is read and the query sent.
pub open spec fn search_outcome(cfg: ConfigV, inp: SearchInputV, calls: Seq<HostCall>, s: int) -> Option<Result<JsonV, ErrV>> {
    match collection_of_spec(cfg, inp.tenant_overlay, inp.collection) {
        Err(e) => only(calls, s, Err(e)),
        Ok(c) => match inp.vector {
            Some(v) => match check_width_spec(cfg, v) {
                Err(e) => only(calls, s, Err(e)),
                Ok(_) => query_outcome(cfg, c, v, inp, calls, s),
            },
            None => match inp.query {
                None => only(calls, s, Err(ErrV::InvalidInput(NO_QUERY@))),
                Some(q) => match embed_at(cfg, seq![q], calls, s) {
                    None => None,
                    Some((Err(e), n)) => only(calls, s + n, Err(e)),
                    Some((Ok(vs), n)) => query_outcome(cfg, c, vs[0], inp, calls, s + n),
                },
            },
        },
    }
}

fn search_output(hits: &Vec<Hit>) -> (r: Json)
    ensures
        r@ == search_json(hits_view(hits@)),
{
    let ghost want = hits_view(hits@).map_values(|h: HitV| hit_json(h));
    let mut items: Vec<Json> = Vec::new();
    let mut i: usize = 0;
    while i < hits.len()
        invariant
            i <= hits.len(),
            want == hits_view(hits@).map_values(|h: HitV| hit_json(h)),
            json_seq_view(items@) =~= want.take(i as int),
        decreases hits.len() - i,
    {
        let h = &hits[i];
        let item = object3("id", Json::Str(h.id.clone()), "score", h.score.duplicate(), "payload", h.payload.duplicate());
        let ghost prev = items@;
        items.push(item);
        assert(items@.drop_last() =~= prev);
        assert(want.take(i + 1) =~= want.take(i as int).push(hit_json(h@)));
        i += 1;
    }
    assert(want.take(i as int) =~= want);
    object1("hits", array(items))
}

fn opt_ref(o: &Option<Json>) -> (r: Option<&Json>)
    ensures
        opt_json(r) == opt_json_view(*o),
{
    match o {
        Some(j) => Some(j),
        None => None,
    }
}

fn opt_overlay_ref(o: &Option<TenantOverlay>) -> (r: Option<&TenantOverlay>)
    ensures
        overlay_view(r) == opt_overlay_view(*o),
{
    match o {
        Some(v) => Some(v),
        None => None,
    }
}

fn opt_string_ref(o: &Option<String>) -> (r: Option<&String>)
    ensures
        opt_ref_view(r) == opt_view(*o),
{
    match o {
        Some(v) => Some(v),
        None => None,
    }
}

/// The Qdrant half of a search. See [`query_outcome`].
fn run_query<H: HostCalls>(t: &mut Traced<H>, cfg: &Config, collection: &str, vector: &Vec<String>, input: &SearchInput) -> (r: Result<Json, RagError>)
    ensures
        final(t).host() == old(t).host(),
        extends(old(t).calls(), final(t).calls()),
        query_outcome(cfg@, collection@, strings_view(vector@), input@, final(t).calls(), old(t).calls().len() as int) == Some(res_view(r)),
{
    let ghost s0 = t.calls();
    let key = match secret(t, QDRANT_KEY_REF) {
        Ok(k) => k,
        Err(e) => return Err(e),
    };
    let ghost s1 = t.calls();
    let req = query_request(cfg.qdrant_url.as_str(), collection, vector, input.top_k, opt_ref(&input.filter), key.as_str());
    let r = send(t, &req);
    proof {
        lemma_extends_at(s1, t.calls(), s0.len() as int);
        lemma_extends_trans(s0, s1, t.calls());
    }
    let resp = match r {
        Ok(resp) => resp,
        Err(e) => return Err(e),
    };
    let hits = match parse_hits(resp.status, &resp.body) {
        Ok(h) => h,
        Err(e) => return Err(e),
    };
    Ok(search_output(&hits))
}

/// `rag_search` through a recording host. See [`search_outcome`].
pub fn search_traced<H: HostCalls>(t: &mut Traced<H>, cfg: &Config, input: &SearchInput) -> (r: Result<Json, RagError>)
    ensures
        final(t).host() == old(t).host(),
        extends(old(t).calls(), final(t).calls()),
        search_outcome(cfg@, input@, final(t).calls(), old(t).calls().len() as int) == Some(res_view(r)),
{
    let ghost s0 = t.calls();
    assert(s0.take(s0.len() as int) =~= s0);
    let collection = match collection_of(cfg, opt_overlay_ref(&input.tenant_overlay), opt_string_ref(&input.collection)) {
        Ok(c) => c,
        Err(e) => return Err(e),
    };
    match &input.vector {
        Some(v) => {
            match check_width(cfg, v) {
                Ok(_) => {},
                Err(e) => return Err(e),
            }
            run_query(t, cfg, collection.as_str(), v, input)
        },
        None => match &input.query {
            None => Err(RagError::InvalidInput(String::from_str(NO_QUERY))),
            Some(q) => {
                let texts = vec![q.clone()];
                assert(strings_view(texts@) =~= seq![q@]);
                let vs = match embed_all(t, cfg, &texts) {
                    Ok(vs) => vs,
                    Err(e) => return Err(e),
                };
                let ghost s1 = t.calls();
                assert(vectors_view(vs@)[0] == strings_view(vs@[0]@));
                let r = run_query(t, cfg, collection.as_str(), &vs[0], input);
                proof {
                    lemma_embed_at_extends(cfg@, seq![q@], s1, t.calls(), s0.len() as int);
                    lemma_extends_trans(s0, s1, t.calls());
                }
                r
            },
        },
    }
}

/// `rag_search`. The host's replies decide the outcome; the contract states
/// that some sequence of replies leads to it through the calls that
/// [`search_outcome`] prescribes. [`search_traced`] states which.
pub fn search<H: HostCalls>(host: &H, cfg: &Config, input: &SearchInput) -> (r: Result<Json, RagError>)
    ensures
        exists|calls: Seq<HostCall>| answered_by(host, calls) && search_outcome(cfg@, input@, calls, 0) == Some(res_view(r)),
        search_outcome(cfg@, input@, Seq::empty(), 0) is Some ==> search_outcome(cfg@, input@, Seq::empty(), 0) == Some(res_view(r)),
{
    let mut t = Traced::new(host);
    let r = search_traced(&mut t, cfg, input);
    let trace = t.finish();
    assert(search_outcome(cfg@, input@, trace@, 0) == Some(res_view(r)));
    r
}

/// The array under `key` of an object, when there is one.
pub open spec fn array_member(v: JsonV, key: Seq<char>) -> Option<Seq<JsonV>> {
    match get(v, key) {
        Some(a) => as_array(a),
        None => None,
    }
}

/// The `result.points` array of the JSON body of the last reply in `calls`,
/// when that reply is a decodable HTTP response that carries one.
pub open spec fn last_reply_points(calls: Seq<HostCall>) -> Option<Seq<JsonV>> {
    if calls.len() == 0 {
        None
    } else {
        match calls.last() {
            HostCall::Fetch { reply: Ok(resp), .. } => match json_decode(resp.body) {
                Ok(doc) => match get(doc, "result"@) {
                    Some(result) => result_points(result),
                    None => None,
                },
                Err(_) => None,
            },
            _ => None,
        }
    }
}

/// `hits[k]` of a search answer is the `k`-th point Qdrant returned.
pub open spec fn hit_matches_point(hit: JsonV, p: JsonV) -> bool {
    &&& get(hit, "id"@) == Some(JsonV::Str(point_id_spec(p)))
    &&& get(hit, "score"@) == Some(score_of(p))
    &&& get(hit, "payload"@) == Some(payload_of(p))
}

proof fn lemma_hit_json_members(h: HitV)
    ensures
        get(hit_json(h), "id"@) == Some(JsonV::Str(h.id)),
        get(hit_json(h), "score"@) == Some(h.score),
        get(hit_json(h), "payload"@) == Some(h.payload),
{
    reveal_strlit("id");
    reveal_strlit("score");
    reveal_strlit("payload");
    let m = seq![("id"@, JsonV::Str(h.id)), ("score"@, h.score), ("payload"@, h.payload)];
    assert("id"@.len() == 2 && "score"@.len() == 5 && "payload"@.len() == 7);
    assert(m[0].0 != m[1].0 && m[0].0 != m[2].0 && m[1].0 != m[2].0);
    crate::json::lemma_entries_get_at(m, 0);
    crate::json::lemma_entries_get_at(m, 1);
    crate::json::lemma_entries_get_at(m, 2);
}

/// The answer to a search lists, at position `k` of `hits`, the id, score and
/// payload of hit `k`: the order of the hits is kept.
pub proof fn lemma_search_json_keeps_order(hits: Seq<HitV>)
    ensures
        array_member(search_json(hits), "hits"@) matches Some(hs) && hs.len() == hits.len()
            && forall|k: int| 0 <= k < hits.len() ==> {
                &&& get(#[trigger] hs[k], "id"@) == Some(JsonV::Str(hits[k].id))
                &&& get(hs[k], "score"@) == Some(hits[k].score)
                &&& get(hs[k], "payload"@) == Some(hits[k].payload)
            },
{
    reveal_strlit("hits");
    let hs = hits.map_values(|h: HitV| hit_json(h));
    crate::json::lemma_entries_get_at(seq![("hits"@, JsonV::Array(hs))], 0);
    assert forall|k: int| 0 <= k < hits.len() implies {
        &&& get(#[trigger] hs[k], "id"@) == Some(JsonV::Str(hits[k].id))
        &&& get(hs[k], "score"@) == Some(hits[k].score)
        &&& get(hs[k], "payload"@) == Some(hits[k].payload)
    } by {
        lemma_hit_json_members(hits[k]);
    }
}

proof fn lemma_query_outcome_keeps_ranking(cfg: ConfigV, c: Seq<char>, v: Seq<Seq<char>>, inp: SearchInputV, calls: Seq<HostCall>, i: int, out: JsonV)
    requires
        0 <= i,
        query_outcome(cfg, c, v, inp, calls, i) == Some(Ok::<JsonV, ErrV>(out)),
    ensures
        last_reply_points(calls) matches Some(ps) && array_member(out, "hits"@) matches Some(hs)
            && hs.len() == ps.len()
            && forall|k: int| 0 <= k < ps.len() ==> hit_matches_point(#[trigger] hs[k], ps[k]),
{
    let key = secret_at(calls, i, QDRANT_KEY_REF@)->Some_0->Ok_0;
    let resp = fetch_at(calls, i + 1, query_request_spec(cfg.qdrant_url, c, v, inp.top_k, inp.filter, key))->Some_0->Ok_0;
    assert(calls.last() == calls[i + 1]);
    let hits = parse_hits_spec(resp.status, resp.body)->Ok_0;
    assert(out == search_json(hits));
    lemma_search_json_keeps_order(hits);
}

/// A successful search answers with Qdrant's ranking kept: hit `k` of the
/// answer is point `k` of the `result.points` Qdrant sent back for the query,
/// with its id, score and payload, and there are as many hits as points.
pub proof fn lemma_search_keeps_qdrant_ranking(cfg: ConfigV, inp: SearchInputV, calls: Seq<HostCall>, out: JsonV)
    requires
        search_outcome(cfg, inp, calls, 0) == Some(Ok::<JsonV, ErrV>(out)),
    ensures
        last_reply_points(calls) matches Some(ps) && array_member(out, "hits"@) matches Some(hs)
            && hs.len() == ps.len()
            && forall|k: int| 0 <= k < ps.len() ==> hit_matches_point(#[trigger] hs[k], ps[k]),
{
    let c = collection_of_spec(cfg, inp.tenant_overlay, inp.collection)->Ok_0;
    match inp.vector {
        Some(v) => {
            lemma_query_outcome_keeps_ranking(cfg, c, v, inp, calls, 0, out);
        },
        None => {
            let q = inp.query->Some_0;
            let (vs, n) = embed_at(cfg, seq![q], calls, 0)->Some_0;
            lemma_query_outcome_keeps_ranking(cfg, c, vs->Ok_0[0], inp, calls, n, out);
        },
    }
}


/// `req` is a `POST` to the query path of collection `c` with the Qdrant key
/// whose body asks for the `top_k` points nearest `v`, with their payloads,
/// under `filter` when there is one.
pub open spec fn queries_nearest(req: HttpRequestV, base: Seq<char>, c: Seq<char>, key: Seq<char>, v: Seq<Seq<char>>, top_k: u32, filter: Option<JsonV>) -> bool {
    exists|body: JsonV| {
        &&& req == #[trigger] request_spec("POST"@, collection_url(base, c) + "/points/query"@, key, body)
        &&& get(body, "query"@) == Some(JsonV::Array(numbers_json(v)))
        &&& get(body, "limit"@) == Some(JsonV::Number(decimal(top_k as nat)))
        &&& get(body, "with_payload"@) == Some(JsonV::Bool(true))
        &&& get(body, "filter"@) == filter
    }
}

/// The vector a search queries with: the caller's, else the embedding the
/// embeddings API returned (call 1) for the query text.
pub open spec fn search_vector(cfg: ConfigV, inp: SearchInputV, calls: Seq<HostCall>) -> Seq<Seq<char>> {
    match inp.vector {
        Some(v) => v,
        None => match reply_at(calls, 1) {
            Some(er) => parse_embed_spec(er.status, er.body, cfg.embedding.dimensions)->Ok_0[0],
            None => Seq::empty(),
        },
    }
}

proof fn lemma_query_body_members(v: Seq<Seq<char>>, top_k: u32, filter: Option<JsonV>)
    ensures
        ({
            let body = with_member(JsonV::Object(seq![
                ("query"@, JsonV::Array(numbers_json(v))),
                ("limit"@, JsonV::Number(decimal(top_k as nat))),
                ("with_payload"@, JsonV::Bool(true)),
            ]), "filter"@, filter);
            &&& get(body, "query"@) == Some(JsonV::Array(numbers_json(v)))
            &&& get(body, "limit"@) == Some(JsonV::Number(decimal(top_k as nat)))
            &&& get(body, "with_payload"@) == Some(JsonV::Bool(true))
            &&& get(body, "filter"@) == filter
        }),
{
    reveal_strlit("query");
    reveal_strlit("limit");
    reveal_strlit("with_payload");
    reveal_strlit("filter");
    assert("query"@.len() == 5 && "limit"@.len() == 5 && "with_payload"@.len() == 12 && "filter"@.len() == 6);
    assert("query"@[0] == 'q' && "limit"@[0] == 'l');
    let m = seq![
        ("query"@, JsonV::Array(numbers_json(v))),
        ("limit"@, JsonV::Number(decimal(top_k as nat))),
        ("with_payload"@, JsonV::Bool(true)),
    ];
    let o = JsonV::Object(m);
    assert(m[0].0 != m[1].0 && m[0].0 != m[2].0 && m[1].0 != m[2].0);
    crate::json::lemma_entries_get_at(m, 0);
    crate::json::lemma_entries_get_at(m, 1);
    crate::json::lemma_entries_get_at(m, 2);
    // no member of the literal is named `filter`
    let m1 = m.drop_first();
    let m2 = m1.drop_first();
    let m3 = m2.drop_first();
    assert(m3 =~= Seq::<(Seq<char>, JsonV)>::empty());
    assert(entries_get(m3, "filter"@) is None);
    assert(m2[0] == m[2] && m1[0] == m[1]);
    assert(entries_get(m2, "filter"@) == entries_get(m3, "filter"@));
    assert(entries_get(m1, "filter"@) == entries_get(m2, "filter"@));
    assert(entries_get(m, "filter"@) is None);
    match filter {
        Some(f) => {
            crate::qdrant::lemma_with_member_get(o, "filter"@, f, "query"@);
            crate::qdrant::lemma_with_member_get(o, "filter"@, f, "limit"@);
            crate::qdrant::lemma_with_member_get(o, "filter"@, f, "with_payload"@);
            crate::qdrant::lemma_with_member_get(o, "filter"@, f, "filter"@);
        },
        None => {},
    }
}

/// A search sends its query, as its last call, to the collection the call
/// resolved to: the caller's vector or the query's embedding, `top_k` as
/// the limit, the caller's filter, payloads asked for.
pub proof fn lemma_search_queries_what_was_asked(cfg: ConfigV, inp: SearchInputV, calls: Seq<HostCall>, out: JsonV)
    requires
        search_outcome(cfg, inp, calls, 0) == Some(Ok::<JsonV, ErrV>(out)),
    ensures
        calls.len() >= 2,
        secret_value_at(calls, calls.len() - 2) matches Some(key)
            && request_at(calls, calls.len() - 1) matches Some(req)
            && queries_nearest(req, cfg.qdrant_url, collection_of_spec(cfg, inp.tenant_overlay, inp.collection)->Ok_0, key,
                search_vector(cfg, inp, calls), inp.top_k, inp.filter),
{
    let c = collection_of_spec(cfg, inp.tenant_overlay, inp.collection)->Ok_0;
    let i: int = if inp.vector is Some { 0 } else { 2 };
    let v = search_vector(cfg, inp, calls);
    if inp.vector is None {
        let q = inp.query->0;
        let ekey = secret_at(calls, 0, EMBEDDING_KEY_REF@)->Some_0->Ok_0;
        let er = fetch_at(calls, 1, embed_request_spec(cfg.embedding, seq![q], ekey))->Some_0->Ok_0;
        assert(reply_at(calls, 1) == Some(er));
        assert(embed_at(cfg, seq![q], calls, 0)->Some_0.1 == 2);
    }
    let key = secret_at(calls, i, QDRANT_KEY_REF@)->Some_0->Ok_0;
    assert(secret_value_at(calls, i) == Some(key));
    let req = query_request_spec(cfg.qdrant_url, c, v, inp.top_k, inp.filter, key);
    assert(calls.len() == i + 2);
    assert(request_at(calls, i + 1) == Some(req));
    lemma_query_body_members(v, inp.top_k, inp.filter);
    assert(queries_nearest(req, cfg.qdrant_url, c, key, v, inp.top_k, inp.filter));
}

// ===== rag_upsert =====

pub const PAYLOAD_NOT_OBJECT: &'static str = "rag_upsert: payload must be a JSON object";
pub const NO_TEXT: &'static str = "rag_upsert: pass either text or a vector";

pub open spec fn opt_str_json(t: Option<Seq<char>>) -> Option<JsonV> {
    match t {
        Some(s) => Some(JsonV::Str(s)),
        None => None,
    }
}

/// The one point an upsert writes: the caller's payload with the text, when
/// there is one, stored under `text`.
pub open spec fn upsert_point(inp: UpsertInputV, v: Seq<Seq<char>>) -> PointV {
    PointV { id: inp.id, vector: v, payload: with_member(inp.payload, "text"@, opt_str_json(inp.text)) }
}

pub open spec fn upsert_json(id: Seq<char>) -> JsonV {
    JsonV::Object(seq![("ok"@, JsonV::Bool(true)), ("id"@, JsonV::Str(id))])
}

/// The Qdrant half of an upsert, from call `i`: the Qdrant key, the
/// collection ensured, the point written.
pub open spec fn write_outcome(cfg: ConfigV, c: Seq<char>, v: Seq<Seq<char>>, inp: UpsertInputV, calls: Seq<HostCall>, i: int) -> Option<Result<JsonV, ErrV>> {
    match secret_at(calls, i, QDRANT_KEY_REF@) {
        None => None,
        Some(Err(e)) => only(calls, i + 1, Err(e)),
        Some(Ok(key)) => match ensure_at(calls, i + 1, ensure_collection_request_spec(cfg.qdrant_url, c, cfg.embedding.dimensions, DEFAULT_DISTANCE@, key)) {
            None => None,
            Some(Err(e)) => only(calls, i + 2, Err(e)),
            Some(Ok(_)) => match ack_at(calls, i + 2, upsert_request_spec(cfg.qdrant_url, c, seq![upsert_point(inp, v)], key)) {
                None => None,
                Some(Err(e)) => only(calls, i + 3, Err(e)),
                Some(Ok(_)) => only(calls, i + 3, Ok(upsert_json(inp.id))),
            },
        },
    }
}

/// `rag_upsert`, from call `s`. A non-object payload and a refused
/// collection are rejected before any host call; a caller vector is checked
/// against the configured width, a text embedded.
pub open spec fn upsert_outcome(cfg: ConfigV, inp: UpsertInputV, calls: Seq<HostCall>, s: int) -> Option<Result<JsonV, ErrV>> {
    if !(inp.payload is Object) {
        only(calls, s, Err(ErrV::InvalidInput(PAYLOAD_NOT_OBJECT@)))
    } else {
        match collection_of_spec(cfg, inp.tenant_overlay, inp.collection) {
            Err(e) => only(calls, s, Err(e)),
            Ok(c) => match inp.vector {
                Some(v) => match check_width_spec(cfg, v) {
                    Err(e) => only(calls, s, Err(e)),
                    Ok(_) => write_outcome(cfg, c, v, inp, calls, s),
                },
                None => match inp.text {
                    None => only(calls, s, Err(ErrV::InvalidInput(NO_TEXT@))),
                    Some(t) => match embed_at(cfg, seq![t], calls, s) {
                        None => None,
                        Some((Err(e), n)) => only(calls, s + n, Err(e)),
                        Some((Ok(vs), n)) => write_outcome(cfg, c, vs[0], inp, calls, s + n),
                    },
                },
            },
        }
    }
}

fn run_write<H: HostCalls>(t: &mut Traced<H>, cfg: &Config, collection: &str, vector: &Vec<String>, input: &UpsertInput) -> (r: Result<Json, RagError>)
    ensures
        final(t).host() == old(t).host(),
        extends(old(t).calls(), final(t).calls()),
        write_outcome(cfg@, collection@, strings_view(vector@), input@, final(t).calls(), old(t).calls().len() as int) == Some(res_view(r)),
{
    let ghost s0 = t.calls();
    let key = match secret(t, QDRANT_KEY_REF) {
        Ok(k) => k,
        Err(e) => return Err(e),
    };
    let ghost s1 = t.calls();
    let e = ensure(t, cfg, collection, cfg.embedding.dimensions, DEFAULT_DISTANCE, key.as_str());
    let ghost s2 = t.calls();
    proof {
        lemma_extends_at(s1, s2, s0.len() as int);
        lemma_extends_trans(s0, s1, s2);
    }
    match e {
        Ok(_) => {},
        Err(e) => return Err(e),
    }
    let text_json: Option<Json> = match &input.text {
        Some(x) => Some(Json::Str(x.clone())),
        None => None,
    };
    let payload = add_member(input.payload.duplicate(), "text", opt_ref(&text_json));
    let point = Point { id: input.id.clone(), vector: copy_strings(vector), payload };
    let points = vec![point];
    assert(points_view(points@) =~= seq![upsert_point(input@, strings_view(vector@))]);
    let req = upsert_request(cfg.qdrant_url.as_str(), collection, &points, key.as_str());
    let a = acked(t, &req);
    proof {
        lemma_extends_at(s2, t.calls(), s0.len() as int);
        lemma_extends_at(s2, t.calls(), s1.len() as int);
        lemma_extends_trans(s0, s2, t.calls());
    }
    match a {
        Ok(_) => Ok(object2("ok", Json::Bool(true), "id", Json::Str(input.id.clone()))),
        Err(e) => Err(e),
    }
}

/// `rag_upsert` through a recording host. See [`upsert_outcome`].
pub fn upsert_traced<H: HostCalls>(t: &mut Traced<H>, cfg: &Config, input: &UpsertInput) -> (r: Result<Json, RagError>)
    ensures
        final(t).host() == old(t).host(),
        extends(old(t).calls(), final(t).calls()),
        upsert_outcome(cfg@, input@, final(t).calls(), old(t).calls().len() as int) == Some(res_view(r)),
{
    let ghost s0 = t.calls();
    assert(s0.take(s0.len() as int) =~= s0);
    if !input.payload.is_object() {
        return Err(RagError::InvalidInput(String::from_str(PAYLOAD_NOT_OBJECT)));
    }
    let collection = match collection_of(cfg, opt_overlay_ref(&input.tenant_overlay), opt_string_ref(&input.collection)) {
        Ok(c) => c,
        Err(e) => return Err(e),
    };
    match &input.vector {
        Some(v) => {
            match check_width(cfg, v) {
                Ok(_) => {},
                Err(e) => return Err(e),
            }
            run_write(t, cfg, collection.as_str(), v, input)
        },
        None => match &input.text {
            None => Err(RagError::InvalidInput(String::from_str(NO_TEXT))),
            Some(x) => {
                let texts = vec![x.clone()];
                assert(strings_view(texts@) =~= seq![x@]);
                let vs = match embed_all(t, cfg, &texts) {
                    Ok(vs) => vs,
                    Err(e) => return Err(e),
                };
                let ghost s1 = t.calls();
                assert(vectors_view(vs@)[0] == strings_view(vs@[0]@));
                let r = run_write(t, cfg, collection.as_str(), &vs[0], input);
                proof {
                    lemma_embed_at_extends(cfg@, seq![x@], s1, t.calls(), s0.len() as int);
                    lemma_extends_trans(s0, s1, t.calls());
                }
                r
            },
        },
    }
}

/// `rag_upsert`. See [`search`] for what the contract states.
pub fn upsert<H: HostCalls>(host: &H, cfg: &Config, input: &UpsertInput) -> (r: Result<Json, RagError>)
    ensures
        exists|calls: Seq<HostCall>| answered_by(host, calls) && upsert_outcome(cfg@, input@, calls, 0) == Some(res_view(r)),
        upsert_outcome(cfg@, input@, Seq::empty(), 0) is Some ==> upsert_outcome(cfg@, input@, Seq::empty(), 0) == Some(res_view(r)),
{
    let mut t = Traced::new(host);
    let r = upsert_traced(&mut t, cfg, input);
    let trace = t.finish();
    assert(upsert_outcome(cfg@, input@, trace@, 0) == Some(res_view(r)));
    r
}

/// The point an upsert writes carries the caller's id and the vector it was
/// given; its payload is the caller's, with `text` set to the text when one
/// was given and every other member as the caller sent it.
pub open spec fn writes_point(p: PointV, inp: UpsertInputV, v: Seq<Seq<char>>) -> bool {
    &&& p.id == inp.id
    &&& p.vector == v
    &&& inp.text matches Some(t) ==> get(p.payload, "text"@) == Some(JsonV::Str(t))
    &&& forall|k: Seq<char>| !(k == "text"@ && inp.text is Some)
        ==> #[trigger] get(p.payload, k) == get(inp.payload, k)
}

pub proof fn lemma_upsert_point_is_the_callers(inp: UpsertInputV, v: Seq<Seq<char>>)
    requires
        inp.payload is Object,
    ensures
        writes_point(upsert_point(inp, v), inp, v),
{
    let p = upsert_point(inp, v);
    assert forall|k: Seq<char>| !(k == "text"@ && inp.text is Some)
        implies #[trigger] get(p.payload, k) == get(inp.payload, k) by {
        if inp.text is Some {
            crate::qdrant::lemma_with_member_get(inp.payload, "text"@, JsonV::Str(inp.text->0), k);
        }
    }
    if inp.text is Some {
        crate::qdrant::lemma_with_member_get(inp.payload, "text"@, JsonV::Str(inp.text->0), "text"@);
    }
}

/// `req` writes to collection `c` exactly one point, one that
/// [`writes_point`] describes.
pub open spec fn upserts_one_point(req: HttpRequestV, base: Seq<char>, c: Seq<char>, key: Seq<char>, inp: UpsertInputV, v: Seq<Seq<char>>) -> bool {
    exists|p: PointV| req == #[trigger] upsert_request_spec(base, c, seq![p], key) && writes_point(p, inp, v)
}

/// The vector an upsert stores: the caller's, else the embedding the
/// embeddings API returned (call 1) for the text.
pub open spec fn upsert_vector(cfg: ConfigV, inp: UpsertInputV, calls: Seq<HostCall>) -> Seq<Seq<char>> {
    match inp.vector {
        Some(v) => v,
        None => match reply_at(calls, 1) {
            Some(er) => parse_embed_spec(er.status, er.body, cfg.embedding.dimensions)->Ok_0[0],
            None => Seq::empty(),
        },
    }
}

/// A successful upsert writes one point, by its last call, to the
/// collection the call resolved to: the caller's id, the caller's vector or
/// the text's embedding, the caller's payload with the text under `text`.
/// It answers `ok` and the caller's id.
pub proof fn lemma_upsert_writes_the_callers_point(cfg: ConfigV, inp: UpsertInputV, calls: Seq<HostCall>, out: JsonV)
    requires
        upsert_outcome(cfg, inp, calls, 0) == Some(Ok::<JsonV, ErrV>(out)),
    ensures
        calls.len() >= 3,
        secret_value_at(calls, calls.len() - 3) matches Some(key)
            && request_at(calls, calls.len() - 1) matches Some(req)
            && upserts_one_point(req, cfg.qdrant_url, collection_of_spec(cfg, inp.tenant_overlay, inp.collection)->Ok_0, key,
                inp, upsert_vector(cfg, inp, calls)),
        get(out, "ok"@) == Some(JsonV::Bool(true)),
        get(out, "id"@) == Some(JsonV::Str(inp.id)),
{
    let c = collection_of_spec(cfg, inp.tenant_overlay, inp.collection)->Ok_0;
    let i: int = if inp.vector is Some { 0 } else { 2 };
    let v = upsert_vector(cfg, inp, calls);
    if inp.vector is None {
        let t = inp.text->0;
        let ekey = secret_at(calls, 0, EMBEDDING_KEY_REF@)->Some_0->Ok_0;
        let er = fetch_at(calls, 1, embed_request_spec(cfg.embedding, seq![t], ekey))->Some_0->Ok_0;
        assert(reply_at(calls, 1) == Some(er));
        assert(embed_at(cfg, seq![t], calls, 0)->Some_0.1 == 2);
    }
    let key = secret_at(calls, i, QDRANT_KEY_REF@)->Some_0->Ok_0;
    assert(secret_value_at(calls, i) == Some(key));
    let p = upsert_point(inp, v);
    let req = upsert_request_spec(cfg.qdrant_url, c, seq![p], key);
    assert(calls.len() == i + 3);
    assert(request_at(calls, i + 2) == Some(req));
    lemma_upsert_point_is_the_callers(inp, v);
    assert(upserts_one_point(req, cfg.qdrant_url, c, key, inp, v));
    reveal_strlit("ok");
    reveal_strlit("id");
    assert("ok"@.len() == 2 && "id"@.len() == 2 && "ok"@[0] == 'o' && "id"@[0] == 'i');
    let m = seq![("ok"@, JsonV::Bool(true)), ("id"@, JsonV::Str(inp.id))];
    assert(m[0].0 != m[1].0);
    crate::json::lemma_entries_get_at(m, 0);
    crate::json::lemma_entries_get_at(m, 1);
}

// ===== rag_ingest =====

pub const METADATA_NOT_OBJECT: &'static str = "rag_ingest: metadata must be a JSON object";
pub const NO_CHUNKS: &'static str = "rag_ingest: text produced no chunks";

/// A chunk's payload: the caller's metadata plus `doc_id`, `chunk_index` and
/// `text`.
pub open spec fn chunk_payload(meta: JsonV, doc_id: Seq<char>, index: nat, text: Seq<char>) -> JsonV {
    with_member(
        with_member(
            with_member(meta, "doc_id"@, Some(JsonV::Str(doc_id))),
            "chunk_index"@, Some(JsonV::Number(decimal(index))),
        ),
        "text"@, Some(JsonV::Str(text)),
    )
}

/// The points an ingest writes: one per chunk, with its deterministic id,
/// its vector and its payload.
pub open spec fn chunk_points(inp: IngestInputV, chunks: Seq<Seq<char>>, vs: Seq<Seq<Seq<char>>>) -> Seq<PointV> {
    Seq::new(chunks.len(), |i: int| PointV {
        id: uuid_v5_text(CHUNK_NAMESPACE@, chunk_name(inp.doc_id, i as nat)),
        vector: vs[i],
        payload: chunk_payload(inp.metadata, inp.doc_id, i as nat, chunks[i]),
    })
}

pub open spec fn ingest_json(doc_id: Seq<char>, chunks: nat) -> JsonV {
    JsonV::Object(seq![("ok"@, JsonV::Bool(true)), ("doc_id"@, JsonV::Str(doc_id)), ("chunks"@, JsonV::Number(decimal(chunks)))])
}

/// The Qdrant half of an ingest, from call `i`: the Qdrant key, the
/// collection ensured, the document's existing chunks deleted, the new ones
/// written. Without the delete, re-ingesting a shortened document would
/// leave its tail chunks behind, still matching searches.
pub open spec fn store_outcome(cfg: ConfigV, c: Seq<char>, inp: IngestInputV, chunks: Seq<Seq<char>>, vs: Seq<Seq<Seq<char>>>, calls: Seq<HostCall>, i: int) -> Option<Result<JsonV, ErrV>> {
    match secret_at(calls, i, QDRANT_KEY_REF@) {
        None => None,
        Some(Err(e)) => only(calls, i + 1, Err(e)),
        Some(Ok(key)) => match ensure_at(calls, i + 1, ensure_collection_request_spec(cfg.qdrant_url, c, cfg.embedding.dimensions, DEFAULT_DISTANCE@, key)) {
            None => None,
            Some(Err(e)) => only(calls, i + 2, Err(e)),
            Some(Ok(_)) => match ack_at(calls, i + 2, delete_request_spec(cfg.qdrant_url, c, DeleteSelectorV::DocId(inp.doc_id), key)) {
                None => None,
                Some(Err(e)) => only(calls, i + 3, Err(e)),
                Some(Ok(_)) => match ack_at(calls, i + 3, upsert_request_spec(cfg.qdrant_url, c, chunk_points(inp, chunks, vs), key)) {
                    None => None,
                    Some(Err(e)) => only(calls, i + 4, Err(e)),
                    Some(Ok(_)) => only(calls, i + 4, Ok(ingest_json(inp.doc_id, chunks.len()))),
                },
            },
        },
    }
}

/// `rag_ingest`, from call `s`: chunk, embed every chunk in one request,
/// then store. A non-object metadata, a refused collection and a text that
/// yields no chunks are rejected before any host call; embedding comes
/// before the delete, so a failed embeddings call leaves the previous
/// version of the document intact.
pub open spec fn ingest_outcome(cfg: ConfigV, inp: IngestInputV, calls: Seq<HostCall>, s: int) -> Option<Result<JsonV, ErrV>> {
    if !(inp.metadata is Object) {
        only(calls, s, Err(ErrV::InvalidInput(METADATA_NOT_OBJECT@)))
    } else {
        match collection_of_spec(cfg, inp.tenant_overlay, inp.collection) {
            Err(e) => only(calls, s, Err(e)),
            Ok(c) => {
                let chunks = chunk_text_spec(inp.text, cfg.chunk.max_chars, cfg.chunk.overlap_chars);
                if chunks.len() == 0 {
                    only(calls, s, Err(ErrV::InvalidInput(NO_CHUNKS@)))
                } else {
                    match embed_at(cfg, chunks, calls, s) {
                        None => None,
                        Some((Err(e), n)) => only(calls, s + n, Err(e)),
                        Some((Ok(vs), n)) => store_outcome(cfg, c, inp, chunks, vs, calls, s + n),
                    }
                }
            },
        }
    }
}

fn chunk_points_of(input: &IngestInput, chunks: &Vec<String>, vectors: &Vec<Vec<String>>) -> (r: Vec<Point>)
    requires
        vectors.len() == chunks.len(),
        input.metadata@ is Object,
    ensures
        points_view(r@) == chunk_points(input@, strings_view(chunks@), vectors_view(vectors@)),
{
    let ghost want = chunk_points(input@, strings_view(chunks@), vectors_view(vectors@));
    let mut out: Vec<Point> = Vec::new();
    let mut i: usize = 0;
    while i < chunks.len()
        invariant
            i <= chunks.len(),
            vectors.len() == chunks.len(),
            want == chunk_points(input@, strings_view(chunks@), vectors_view(vectors@)),
            points_view(out@) =~= want.take(i as int),
        decreases chunks.len() - i,
    {
        let doc = Json::Str(input.doc_id.clone());
        let index = Json::number(i as u64);
        let text = Json::Str(chunks[i].clone());
        let p1 = add_member(input.metadata.duplicate(), "doc_id", Some(&doc));
        let p2 = add_member(p1, "chunk_index", Some(&index));
        let payload = add_member(p2, "text", Some(&text));
        let point = Point { id: chunk_point_id(input.doc_id.as_str(), i), vector: copy_strings(&vectors[i]), payload };
        assert(point@ == want[i as int]);
        let ghost prev = out@;
        out.push(point);
        assert(out@ =~= prev.push(point));
        assert(want.take(i + 1) =~= want.take(i as int).push(want[i as int]));
        i += 1;
    }
    assert(want.take(i as int) =~= want);
    out
}

fn run_store<H: HostCalls>(t: &mut Traced<H>, cfg: &Config, collection: &str, input: &IngestInput, chunks: &Vec<String>, vectors: &Vec<Vec<String>>) -> (r: Result<Json, RagError>)
    requires
        vectors.len() == chunks.len(),
        input.metadata@ is Object,
    ensures
        final(t).host() == old(t).host(),
        extends(old(t).calls(), final(t).calls()),
        store_outcome(cfg@, collection@, input@, strings_view(chunks@), vectors_view(vectors@), final(t).calls(), old(t).calls().len() as int) == Some(res_view(r)),
{
    let ghost s0 = t.calls();
    let key = match secret(t, QDRANT_KEY_REF) {
        Ok(k) => k,
        Err(e) => return Err(e),
    };
    let ghost s1 = t.calls();
    let e = ensure(t, cfg, collection, cfg.embedding.dimensions, DEFAULT_DISTANCE, key.as_str());
    let ghost s2 = t.calls();
    proof {
        lemma_extends_at(s1, s2, s0.len() as int);
        lemma_extends_trans(s0, s1, s2);
    }
    match e {
        Ok(_) => {},
        Err(e) => return Err(e),
    }
    let del = delete_request(cfg.qdrant_url.as_str(), collection, &DeleteSelector::DocId(input.doc_id.clone()), key.as_str());
    let d = acked(t, &del);
    let ghost s3 = t.calls();
    proof {
        lemma_extends_at(s2, s3, s0.len() as int);
        lemma_extends_at(s2, s3, s1.len() as int);
        lemma_extends_trans(s0, s2, s3);
    }
    match d {
        Ok(_) => {},
        Err(e) => return Err(e),
    }
    let points = chunk_points_of(input, chunks, vectors);
    let req = upsert_request(cfg.qdrant_url.as_str(), collection, &points, key.as_str());
    let a = acked(t, &req);
    proof {
        lemma_extends_at(s3, t.calls(), s0.len() as int);
        lemma_extends_at(s3, t.calls(), s1.len() as int);
        lemma_extends_at(s3, t.calls(), s2.len() as int);
        lemma_extends_trans(s0, s3, t.calls());
    }
    match a {
        Ok(_) => Ok(object3(
            "ok", Json::Bool(true),
            "doc_id", Json::Str(input.doc_id.clone()),
            "chunks", Json::number(points.len() as u64),
        )),
        Err(e) => Err(e),
    }
}

/// `rag_ingest` through a recording host. See [`ingest_outcome`].
pub fn ingest_traced<H: HostCalls>(t: &mut Traced<H>, cfg: &Config, input: &IngestInput) -> (r: Result<Json, RagError>)
    ensures
        final(t).host() == old(t).host(),
        extends(old(t).calls(), final(t).calls()),
        ingest_outcome(cfg@, input@, final(t).calls(), old(t).calls().len() as int) == Some(res_view(r)),
{
    let ghost s0 = t.calls();
    assert(s0.take(s0.len() as int) =~= s0);
    if !input.metadata.is_object() {
        return Err(RagError::InvalidInput(String::from_str(METADATA_NOT_OBJECT)));
    }
    let collection = match collection_of(cfg, opt_overlay_ref(&input.tenant_overlay), opt_string_ref(&input.collection)) {
        Ok(c) => c,
        Err(e) => return Err(e),
    };
    let chunks = chunk_text(input.text.as_str(), cfg.chunk.max_chars, cfg.chunk.overlap_chars);
    if chunks.len() == 0 {
        return Err(RagError::InvalidInput(String::from_str(NO_CHUNKS)));
    }
    let vectors = match embed_all(t, cfg, &chunks) {
        Ok(vs) => vs,
        Err(e) => return Err(e),
    };
    let ghost s1 = t.calls();
    let r = run_store(t, cfg, collection.as_str(), input, &chunks, &vectors);
    proof {
        lemma_embed_at_extends(cfg@, strings_view(chunks@), s1, t.calls(), s0.len() as int);
        lemma_extends_trans(s0, s1, t.calls());
    }
    r
}

/// `rag_ingest`. See [`search`] for what the contract states.
pub fn ingest<H: HostCalls>(host: &H, cfg: &Config, input: &IngestInput) -> (r: Result<Json, RagError>)
    ensures
        exists|calls: Seq<HostCall>| answered_by(host, calls) && ingest_outcome(cfg@, input@, calls, 0) == Some(res_view(r)),
        ingest_outcome(cfg@, input@, Seq::empty(), 0) is Some ==> ingest_outcome(cfg@, input@, Seq::empty(), 0) == Some(res_view(r)),
{
    let mut t = Traced::new(host);
    let r = ingest_traced(&mut t, cfg, input);
    let trace = t.finish();
    assert(ingest_outcome(cfg@, input@, trace@, 0) == Some(res_view(r)));
    r
}

/// Re-ingesting a document writes the same point ids for the same chunk
/// positions, whatever its text, metadata or vectors, so Qdrant's upsert
/// overwrites the old chunks in place instead of accumulating duplicates.
pub proof fn lemma_reingest_reuses_point_ids(a: IngestInputV, b: IngestInputV, ca: Seq<Seq<char>>, cb: Seq<Seq<char>>, va: Seq<Seq<Seq<char>>>, vb: Seq<Seq<Seq<char>>>, i: int)
    requires
        a.doc_id == b.doc_id,
        0 <= i < ca.len(),
        0 <= i < cb.len(),
    ensures
        chunk_points(a, ca, va)[i].id == chunk_points(b, cb, vb)[i].id,
{
}

/// Point `i` of an ingest is chunk `i`: it carries the embedding returned for
/// input `i` and the id derived from the document and position `i`, one point
/// per chunk.
pub proof fn lemma_chunk_points_pair_by_position(inp: IngestInputV, chunks: Seq<Seq<char>>, vs: Seq<Seq<Seq<char>>>, i: int)
    requires
        0 <= i < chunks.len(),
    ensures
        chunk_points(inp, chunks, vs).len() == chunks.len(),
        chunk_points(inp, chunks, vs)[i].vector == vs[i],
        chunk_points(inp, chunks, vs)[i].id == uuid_v5_text(CHUNK_NAMESPACE@, chunk_name(inp.doc_id, i as nat)),
        inp.metadata is Object ==> stores_chunk(chunk_points(inp, chunks, vs)[i].payload, inp.doc_id, i as nat, chunks[i]),
{
    if inp.metadata is Object {
        lemma_chunk_payload_members(inp.metadata, inp.doc_id, i as nat, chunks[i]);
    }
}

/// A payload that records chunk `index` of document `doc_id` with its text.
pub open spec fn stores_chunk(payload: JsonV, doc_id: Seq<char>, index: nat, text: Seq<char>) -> bool {
    &&& get(payload, "doc_id"@) == Some(JsonV::Str(doc_id))
    &&& get(payload, "chunk_index"@) == Some(JsonV::Number(decimal(index)))
    &&& get(payload, "text"@) == Some(JsonV::Str(text))
}

/// A chunk's payload holds its document, its position and its text, over
/// whatever the caller's metadata said under those keys.
pub proof fn lemma_chunk_payload_members(meta: JsonV, doc_id: Seq<char>, index: nat, text: Seq<char>)
    requires
        meta is Object,
    ensures
        stores_chunk(chunk_payload(meta, doc_id, index, text), doc_id, index, text),
{
    reveal_strlit("doc_id");
    reveal_strlit("chunk_index");
    reveal_strlit("text");
    assert("doc_id"@.len() == 6 && "chunk_index"@.len() == 11 && "text"@.len() == 4);
    let p1 = with_member(meta, "doc_id"@, Some(JsonV::Str(doc_id)));
    let p2 = with_member(p1, "chunk_index"@, Some(JsonV::Number(decimal(index))));
    crate::qdrant::lemma_with_member_get(meta, "doc_id"@, JsonV::Str(doc_id), "doc_id"@);
    crate::qdrant::lemma_with_member_get(p1, "chunk_index"@, JsonV::Number(decimal(index)), "doc_id"@);
    crate::qdrant::lemma_with_member_get(p1, "chunk_index"@, JsonV::Number(decimal(index)), "chunk_index"@);
    crate::qdrant::lemma_with_member_get(p2, "text"@, JsonV::Str(text), "doc_id"@);
    crate::qdrant::lemma_with_member_get(p2, "text"@, JsonV::Str(text), "chunk_index"@);
    crate::qdrant::lemma_with_member_get(p2, "text"@, JsonV::Str(text), "text"@);
}

/// The response of the fetch at call `i`, when the host answered it.
pub open spec fn reply_at(calls: Seq<HostCall>, i: int) -> Option<HttpResponseV> {
    if 0 <= i < calls.len() {
        match calls[i] {
            HostCall::Fetch { reply: Ok(resp), .. } => Some(resp),
            _ => None,
        }
    } else {
        None
    }
}

/// The request sent at call `i`, when call `i` is a fetch.
pub open spec fn request_at(calls: Seq<HostCall>, i: int) -> Option<HttpRequestV> {
    if 0 <= i < calls.len() {
        match calls[i] {
            HostCall::Fetch { req, .. } => Some(req),
            _ => None,
        }
    } else {
        None
    }
}

/// The secret resolved at call `i`, when the host resolved it.
pub open spec fn secret_value_at(calls: Seq<HostCall>, i: int) -> Option<Seq<char>> {
    if 0 <= i < calls.len() {
        match calls[i] {
            HostCall::Secret { reply: Ok(k), .. } => Some(k),
            _ => None,
        }
    } else {
        None
    }
}

/// An ingest asks the embeddings API, by call 1, for the embeddings of the
/// document's chunks, every one, in order: embedding `i` of the reply belongs
/// to chunk `i`.
pub proof fn lemma_ingest_embeds_the_chunks_in_order(cfg: ConfigV, inp: IngestInputV, calls: Seq<HostCall>, out: JsonV)
    requires
        ingest_outcome(cfg, inp, calls, 0) == Some(Ok::<JsonV, ErrV>(out)),
    ensures
        request_at(calls, 1) matches Some(req)
            && embeds_inputs(req, cfg.embedding.base_url, cfg.embedding.model,
                chunk_text_spec(inp.text, cfg.chunk.max_chars, cfg.chunk.overlap_chars)),
{
    let chunks = chunk_text_spec(inp.text, cfg.chunk.max_chars, cfg.chunk.overlap_chars);
    let ekey = secret_at(calls, 0, EMBEDDING_KEY_REF@)->Some_0->Ok_0;
    let req = embed_request_spec(cfg.embedding, chunks, ekey);
    assert(fetch_at(calls, 1, req) is Some);
    assert(request_at(calls, 1) == Some(req));
    crate::embed::lemma_embed_request_lists_inputs(cfg.embedding, chunks, ekey);
}

/// Before writing its chunks, an ingest removes every point of the
/// document (call 4, selecting by payload `doc_id`), so a re-ingest of a
/// shorter text leaves no stale chunk behind.
pub proof fn lemma_ingest_replaces_the_document(cfg: ConfigV, inp: IngestInputV, calls: Seq<HostCall>, out: JsonV)
    requires
        ingest_outcome(cfg, inp, calls, 0) == Some(Ok::<JsonV, ErrV>(out)),
    ensures
        request_at(calls, 4) matches Some(req) && deletes_document(req, inp.doc_id),
{
    let c = collection_of_spec(cfg, inp.tenant_overlay, inp.collection)->Ok_0;
    let chunks = chunk_text_spec(inp.text, cfg.chunk.max_chars, cfg.chunk.overlap_chars);
    let ekey = secret_at(calls, 0, EMBEDDING_KEY_REF@)->Some_0->Ok_0;
    assert(fetch_at(calls, 1, embed_request_spec(cfg.embedding, chunks, ekey)) is Some);
    assert(embed_at(cfg, chunks, calls, 0)->Some_0.1 == 2);
    let key = secret_at(calls, 2, QDRANT_KEY_REF@)->Some_0->Ok_0;
    let sel = DeleteSelectorV::DocId(inp.doc_id);
    let req = delete_request_spec(cfg.qdrant_url, c, sel, key);
    assert(request_at(calls, 4) == Some(req));
    lemma_delete_body_members(sel);
    assert(req == request_spec("POST"@, collection_url(cfg.qdrant_url, c) + "/points/delete?wait=true"@, key, delete_body(sel)));
}

/// `req` writes to collection `c` one point per chunk, and point `i`
/// carries the embedding `vs[i]`, the id of position `i` of document
/// `doc_id`, and a payload recording that document, position `i` and the
/// text of chunk `i`.
pub open spec fn upserts_chunks_in_order(req: HttpRequestV, base: Seq<char>, c: Seq<char>, key: Seq<char>, chunks: Seq<Seq<char>>, vs: Seq<Seq<Seq<char>>>, doc_id: Seq<char>) -> bool {
    exists|pts: Seq<PointV>| {
        &&& req == #[trigger] upsert_request_spec(base, c, pts, key)
        &&& pts.len() == chunks.len()
        &&& forall|i: int| 0 <= i < pts.len() ==> {
            &&& (#[trigger] pts[i]).vector == vs[i]
            &&& pts[i].id == uuid_v5_text(CHUNK_NAMESPACE@, chunk_name(doc_id, i as nat))
            &&& stores_chunk(pts[i].payload, doc_id, i as nat, chunks[i])
        }
    }
}

/// The upsert of a successful ingest writes one point per chunk, and point
/// `i` carries the embedding the embeddings API returned for chunk `i`, the
/// id of position `i` of the document and chunk `i`'s text and position: no
/// chunk is stored under another chunk's vector. The answer counts the
/// chunks written. The embeddings reply is call 1, the Qdrant key call 2,
/// the upsert call 5.
pub proof fn lemma_ingest_pairs_chunks_with_embeddings(cfg: ConfigV, inp: IngestInputV, calls: Seq<HostCall>, out: JsonV)
    requires
        ingest_outcome(cfg, inp, calls, 0) == Some(Ok::<JsonV, ErrV>(out)),
    ensures
        calls.len() == 6,
        reply_at(calls, 1) matches Some(er)
            && parse_embed_spec(er.status, er.body, cfg.embedding.dimensions) matches Ok(vs)
            && secret_value_at(calls, 2) matches Some(key)
            && request_at(calls, 5) matches Some(req)
            && upserts_chunks_in_order(req, cfg.qdrant_url, collection_of_spec(cfg, inp.tenant_overlay, inp.collection)->Ok_0, key,
                chunk_text_spec(inp.text, cfg.chunk.max_chars, cfg.chunk.overlap_chars), vs, inp.doc_id),
        get(out, "doc_id"@) == Some(JsonV::Str(inp.doc_id)),
        get(out, "chunks"@) == Some(JsonV::Number(decimal(chunk_text_spec(inp.text, cfg.chunk.max_chars, cfg.chunk.overlap_chars).len()))),
{
    let c = collection_of_spec(cfg, inp.tenant_overlay, inp.collection)->Ok_0;
    let chunks = chunk_text_spec(inp.text, cfg.chunk.max_chars, cfg.chunk.overlap_chars);
    let ekey = secret_at(calls, 0, EMBEDDING_KEY_REF@)->Some_0->Ok_0;
    let er = fetch_at(calls, 1, embed_request_spec(cfg.embedding, chunks, ekey))->Some_0->Ok_0;
    let vs = parse_embed_spec(er.status, er.body, cfg.embedding.dimensions)->Ok_0;
    assert(embed_at(cfg, chunks, calls, 0) == Some((Ok::<Seq<Seq<Seq<char>>>, ErrV>(vs), 2int)));
    let key = secret_at(calls, 2, QDRANT_KEY_REF@)->Some_0->Ok_0;
    let pts = chunk_points(inp, chunks, vs);
    let req = upsert_request_spec(cfg.qdrant_url, c, pts, key);
    assert(reply_at(calls, 1) == Some(er));
    assert(secret_value_at(calls, 2) == Some(key));
    assert(request_at(calls, 5) == Some(req));
    assert forall|i: int| 0 <= i < pts.len() implies {
        &&& (#[trigger] pts[i]).vector == vs[i]
        &&& pts[i].id == uuid_v5_text(CHUNK_NAMESPACE@, chunk_name(inp.doc_id, i as nat))
        &&& stores_chunk(pts[i].payload, inp.doc_id, i as nat, chunks[i])
    } by {
        lemma_chunk_points_pair_by_position(inp, chunks, vs, i);
    }
    assert(upserts_chunks_in_order(req, cfg.qdrant_url, c, key, chunks, vs, inp.doc_id));
    assert(out == ingest_json(inp.doc_id, chunks.len()));
    reveal_strlit("ok");
    reveal_strlit("doc_id");
    reveal_strlit("chunks");
    assert("ok"@.len() == 2 && "doc_id"@.len() == 6 && "chunks"@.len() == 6 && "doc_id"@[0] == 'd' && "chunks"@[0] == 'c');
    let m = seq![("ok"@, JsonV::Bool(true)), ("doc_id"@, JsonV::Str(inp.doc_id)), ("chunks"@, JsonV::Number(decimal(chunks.len())))];
    assert(m[0].0 != m[1].0 && m[0].0 != m[2].0 && m[1].0 != m[2].0);
    crate::json::lemma_entries_get_at(m, 1);
    crate::json::lemma_entries_get_at(m, 2);
}

// ===== rag_delete =====

pub const DELETE_NO_SELECTOR: &'static str = "rag_delete: pass either ids or doc_id";

pub open spec fn ok_json() -> JsonV {
    JsonV::Object(seq![("ok"@, JsonV::Bool(true))])
}

/// Which points a delete removes: the ids when the list is not empty, else
/// the document.
pub open spec fn delete_selector_spec(inp: DeleteInputV) -> Option<DeleteSelectorV> {
    if inp.ids is Some && inp.ids->0.len() > 0 {
        Some(DeleteSelectorV::Ids(inp.ids->0))
    } else if inp.doc_id is Some {
        Some(DeleteSelectorV::DocId(inp.doc_id->0))
    } else {
        None
    }
}

/// `rag_delete`, from call `s`: the collection is resolved before any host
/// call, so a refused one costs no secret read; then the Qdrant key is read
/// and the delete sent.
pub open spec fn delete_outcome(cfg: ConfigV, inp: DeleteInputV, calls: Seq<HostCall>, s: int) -> Option<Result<JsonV, ErrV>> {
    match delete_selector_spec(inp) {
        None => only(calls, s, Err(ErrV::InvalidInput(DELETE_NO_SELECTOR@))),
        Some(sel) => match collection_of_spec(cfg, inp.tenant_overlay, inp.collection) {
            Err(e) => only(calls, s, Err(e)),
            Ok(c) => match secret_at(calls, s, QDRANT_KEY_REF@) {
                None => None,
                Some(Err(e)) => only(calls, s + 1, Err(e)),
                Some(Ok(key)) => match ack_at(calls, s + 1, delete_request_spec(cfg.qdrant_url, c, sel, key)) {
                    None => None,
                    Some(Err(e)) => only(calls, s + 2, Err(e)),
                    Some(Ok(_)) => only(calls, s + 2, Ok(ok_json())),
                },
            },
        },
    }
}

fn delete_selector(input: &DeleteInput) -> (r: Option<DeleteSelector>)
    ensures
        match r {
            Some(sel) => delete_selector_spec(input@) == Some(sel@),
            None => delete_selector_spec(input@) is None,
        },
{
    match &input.ids {
        Some(ids) => if ids.len() > 0 {
            return Some(DeleteSelector::Ids(copy_strings(ids)));
        },
        None => {},
    }
    match &input.doc_id {
        Some(d) => Some(DeleteSelector::DocId(d.clone())),
        None => None,
    }
}

/// `rag_delete` through a recording host. See [`delete_outcome`].
pub fn delete_traced<H: HostCalls>(t: &mut Traced<H>, cfg: &Config, input: &DeleteInput) -> (r: Result<Json, RagError>)
    ensures
        final(t).host() == old(t).host(),
        extends(old(t).calls(), final(t).calls()),
        delete_outcome(cfg@, input@, final(t).calls(), old(t).calls().len() as int) == Some(res_view(r)),
{
    let ghost s0 = t.calls();
    assert(s0.take(s0.len() as int) =~= s0);
    let selector = match delete_selector(input) {
        Some(sel) => sel,
        None => return Err(RagError::InvalidInput(String::from_str(DELETE_NO_SELECTOR))),
    };
    let collection = match collection_of(cfg, opt_overlay_ref(&input.tenant_overlay), opt_string_ref(&input.collection)) {
        Ok(c) => c,
        Err(e) => return Err(e),
    };
    let key = match secret(t, QDRANT_KEY_REF) {
        Ok(k) => k,
        Err(e) => return Err(e),
    };
    let ghost s1 = t.calls();
    let req = delete_request(cfg.qdrant_url.as_str(), collection.as_str(), &selector, key.as_str());
    let a = acked(t, &req);
    proof {
        lemma_extends_at(s1, t.calls(), s0.len() as int);
        lemma_extends_trans(s0, s1, t.calls());
    }
    match a {
        Ok(_) => Ok(object1("ok", Json::Bool(true))),
        Err(e) => Err(e),
    }
}

/// `rag_delete`. See [`search`] for what the contract states.
pub fn delete<H: HostCalls>(host: &H, cfg: &Config, input: &DeleteInput) -> (r: Result<Json, RagError>)
    ensures
        exists|calls: Seq<HostCall>| answered_by(host, calls) && delete_outcome(cfg@, input@, calls, 0) == Some(res_view(r)),
        delete_outcome(cfg@, input@, Seq::empty(), 0) is Some ==> delete_outcome(cfg@, input@, Seq::empty(), 0) == Some(res_view(r)),
{
    let mut t = Traced::new(host);
    let r = delete_traced(&mut t, cfg, input);
    let trace = t.finish();
    assert(delete_outcome(cfg@, input@, trace@, 0) == Some(res_view(r)));
    r
}

/// A non-empty `ids` list selects exactly those ids, all of them in the
/// order given; without one, a `doc_id` selects that document's chunks.
pub proof fn lemma_delete_selects_every_given_id(inp: DeleteInputV)
    ensures
        inp.ids is Some && inp.ids->0.len() > 0
            ==> delete_selector_spec(inp) == Some(DeleteSelectorV::Ids(inp.ids->0)),
        !(inp.ids is Some && inp.ids->0.len() > 0) && inp.doc_id is Some
            ==> delete_selector_spec(inp) == Some(DeleteSelectorV::DocId(inp.doc_id->0)),
{
}

/// A successful delete sends one request, call 1, to the collection the
/// call resolved to, with the Qdrant key of call 0: given a non-empty `ids`
/// list it names exactly those ids, else it names the document.
pub proof fn lemma_delete_request_names_the_selection(cfg: ConfigV, inp: DeleteInputV, calls: Seq<HostCall>, out: JsonV)
    requires
        delete_outcome(cfg, inp, calls, 0) == Some(Ok::<JsonV, ErrV>(out)),
    ensures
        calls.len() == 2,
        secret_value_at(calls, 0) matches Some(key) && request_at(calls, 1) == Some(delete_request_spec(
            cfg.qdrant_url,
            collection_of_spec(cfg, inp.tenant_overlay, inp.collection)->Ok_0,
            if inp.ids is Some && inp.ids->0.len() > 0 {
                DeleteSelectorV::Ids(inp.ids->0)
            } else {
                DeleteSelectorV::DocId(inp.doc_id->0)
            },
            key,
        )),
        inp.ids is Some && inp.ids->0.len() > 0 ==> deletes_ids(request_at(calls, 1)->Some_0, inp.ids->0),
        !(inp.ids is Some && inp.ids->0.len() > 0) ==> deletes_document(request_at(calls, 1)->Some_0, inp.doc_id->0),
{
    let key = secret_at(calls, 0, QDRANT_KEY_REF@)->Some_0->Ok_0;
    assert(secret_value_at(calls, 0) == Some(key));
    let c = collection_of_spec(cfg, inp.tenant_overlay, inp.collection)->Ok_0;
    let sel = delete_selector_spec(inp)->Some_0;
    lemma_delete_body_members(sel);
    let url = collection_url(cfg.qdrant_url, c) + "/points/delete?wait=true"@;
    assert(request_at(calls, 1)->Some_0 == request_spec("POST"@, url, key, delete_body(sel)));
}

/// `req` is a `POST` to a delete path whose body names exactly the points
/// `ids`, in that order.
pub open spec fn deletes_ids(req: HttpRequestV, ids: Seq<Seq<char>>) -> bool {
    exists|url: Seq<char>, key: Seq<char>, body: JsonV| {
        &&& req == #[trigger] request_spec("POST"@, url, key, body)
        &&& get(body, "points"@) == Some(JsonV::Array(strings_json(ids)))
    }
}

/// `req` is a `POST` to a delete path whose body selects, by one condition,
/// the points whose payload `doc_id` is `doc_id`.
pub open spec fn deletes_document(req: HttpRequestV, doc_id: Seq<char>) -> bool {
    exists|url: Seq<char>, key: Seq<char>, body: JsonV| {
        &&& req == #[trigger] request_spec("POST"@, url, key, body)
        &&& selects_document(body, doc_id)
    }
}

/// `body` has a `filter` with one `must` condition: payload `doc_id` matches
/// the value `doc_id`.
pub open spec fn selects_document(body: JsonV, doc_id: Seq<char>) -> bool {
    match get(body, "filter"@) {
        Some(f) => match get(f, "must"@) {
            Some(JsonV::Array(conds)) => {
                &&& conds.len() == 1
                &&& get(conds[0], "key"@) == Some(JsonV::Str("doc_id"@))
                &&& get(conds[0], "match"@) is Some
                &&& get(get(conds[0], "match"@)->0, "value"@) == Some(JsonV::Str(doc_id))
            },
            _ => false,
        },
        None => false,
    }
}

proof fn lemma_delete_body_members(sel: DeleteSelectorV)
    ensures
        sel matches DeleteSelectorV::Ids(ids) ==> get(delete_body(sel), "points"@) == Some(JsonV::Array(strings_json(ids))),
        sel matches DeleteSelectorV::DocId(d) ==> selects_document(delete_body(sel), d),
{
    match sel {
        DeleteSelectorV::Ids(ids) => {
            crate::json::lemma_entries_get_at(seq![("points"@, JsonV::Array(strings_json(ids)))], 0);
        },
        DeleteSelectorV::DocId(d) => {
            reveal_strlit("key");
            reveal_strlit("match");
            assert("key"@.len() == 3 && "match"@.len() == 5);
            let mv = JsonV::Object(seq![("value"@, JsonV::Str(d))]);
            let cm = seq![("key"@, JsonV::Str("doc_id"@)), ("match"@, mv)];
            assert(cm[0].0 != cm[1].0);
            crate::json::lemma_entries_get_at(cm, 0);
            crate::json::lemma_entries_get_at(cm, 1);
            crate::json::lemma_entries_get_at(seq![("value"@, JsonV::Str(d))], 0);
            let conds = seq![JsonV::Object(cm)];
            let f = JsonV::Object(seq![("must"@, JsonV::Array(conds))]);
            crate::json::lemma_entries_get_at(seq![("must"@, JsonV::Array(conds))], 0);
            crate::json::lemma_entries_get_at(seq![("filter"@, f)], 0);
        },
    }
}

// ===== rag_collection_ensure =====

pub open spec fn ensured_json(c: Seq<char>, dimensions: u32, distance: Seq<char>) -> JsonV {
    JsonV::Object(seq![
        ("ok"@, JsonV::Bool(true)),
        ("collection"@, JsonV::Str(c)),
        ("dimensions"@, JsonV::Number(decimal(dimensions as nat))),
        ("distance"@, JsonV::Str(distance)),
    ])
}

/// The width a collection is created with: the caller's, else the
/// configured one.
pub open spec fn ensure_dimensions(cfg: ConfigV, inp: EnsureInputV) -> u32 {
    match inp.dimensions {
        Some(d) => d,
        None => cfg.embedding.dimensions,
    }
}

/// `rag_collection_ensure`, from call `s`: the collection is resolved
/// before any host call; then the Qdrant key is read and the collection
/// created (an existing one is success).
pub open spec fn ensure_outcome(cfg: ConfigV, inp: EnsureInputV, calls: Seq<HostCall>, s: int) -> Option<Result<JsonV, ErrV>> {
    match collection_of_spec(cfg, inp.tenant_overlay, inp.collection) {
        Err(e) => only(calls, s, Err(e)),
        Ok(c) => match secret_at(calls, s, QDRANT_KEY_REF@) {
            None => None,
            Some(Err(e)) => only(calls, s + 1, Err(e)),
            Some(Ok(key)) => match ensure_at(calls, s + 1, ensure_collection_request_spec(cfg.qdrant_url, c, ensure_dimensions(cfg, inp), inp.distance, key)) {
                None => None,
                Some(Err(e)) => only(calls, s + 2, Err(e)),
                Some(Ok(_)) => only(calls, s + 2, Ok(ensured_json(c, ensure_dimensions(cfg, inp), inp.distance))),
            },
        },
    }
}

/// `rag_collection_ensure` through a recording host. See
/// [`ensure_outcome`].
pub fn ensure_collection_traced<H: HostCalls>(t: &mut Traced<H>, cfg: &Config, input: &EnsureInput) -> (r: Result<Json, RagError>)
    ensures
        final(t).host() == old(t).host(),
        extends(old(t).calls(), final(t).calls()),
        ensure_outcome(cfg@, input@, final(t).calls(), old(t).calls().len() as int) == Some(res_view(r)),
{
    let ghost s0 = t.calls();
    assert(s0.take(s0.len() as int) =~= s0);
    let collection = match collection_of(cfg, opt_overlay_ref(&input.tenant_overlay), opt_string_ref(&input.collection)) {
        Ok(c) => c,
        Err(e) => return Err(e),
    };
    let key = match secret(t, QDRANT_KEY_REF) {
        Ok(k) => k,
        Err(e) => return Err(e),
    };
    let ghost s1 = t.calls();
    let dimensions = match input.dimensions {
        Some(d) => d,
        None => cfg.embedding.dimensions,
    };
    let e = ensure(t, cfg, collection.as_str(), dimensions, input.distance.as_str(), key.as_str());
    proof {
        lemma_extends_at(s1, t.calls(), s0.len() as int);
        lemma_extends_trans(s0, s1, t.calls());
    }
    match e {
        Ok(_) => Ok(object4(
            "ok", Json::Bool(true),
            "collection", Json::Str(collection.clone()),
            "dimensions", Json::number(dimensions as u64),
            "distance", Json::Str(input.distance.clone()),
        )),
        Err(e) => Err(e),
    }
}

/// `rag_collection_ensure`. See [`search`] for what the contract states.
pub fn ensure_collection<H: HostCalls>(host: &H, cfg: &Config, input: &EnsureInput) -> (r: Result<Json, RagError>)
    ensures
        exists|calls: Seq<HostCall>| answered_by(host, calls) && ensure_outcome(cfg@, input@, calls, 0) == Some(res_view(r)),
        ensure_outcome(cfg@, input@, Seq::empty(), 0) is Some ==> ensure_outcome(cfg@, input@, Seq::empty(), 0) == Some(res_view(r)),
{
    let mut t = Traced::new(host);
    let r = ensure_collection_traced(&mut t, cfg, input);
    let trace = t.finish();
    assert(ensure_outcome(cfg@, input@, trace@, 0) == Some(res_view(r)));
    r
}

/// `req` is a `PUT` of collection `c` with the Qdrant key, creating it with
/// vectors `dimensions` wide compared by `distance`.
pub open spec fn creates_collection(req: HttpRequestV, base: Seq<char>, c: Seq<char>, key: Seq<char>, dimensions: u32, distance: Seq<char>) -> bool {
    exists|body: JsonV| {
        &&& req == #[trigger] request_spec("PUT"@, collection_url(base, c), key, body)
        &&& get(body, "vectors"@) matches Some(vv)
            && get(vv, "size"@) == Some(JsonV::Number(decimal(dimensions as nat)))
            && get(vv, "distance"@) == Some(JsonV::Str(distance))
    }
}

proof fn lemma_ensure_body_members(dimensions: u32, distance: Seq<char>)
    ensures
        get(ensure_body(dimensions, distance), "vectors"@) matches Some(vv)
            && get(vv, "size"@) == Some(JsonV::Number(decimal(dimensions as nat)))
            && get(vv, "distance"@) == Some(JsonV::Str(distance)),
{
    reveal_strlit("vectors");
    reveal_strlit("size");
    reveal_strlit("distance");
    assert("size"@.len() == 4 && "distance"@.len() == 8);
    let inner = seq![
        ("size"@, JsonV::Number(decimal(dimensions as nat))),
        ("distance"@, JsonV::Str(distance)),
    ];
    assert(inner[0].0 != inner[1].0);
    crate::json::lemma_entries_get_at(inner, 0);
    crate::json::lemma_entries_get_at(inner, 1);
    crate::json::lemma_entries_get_at(seq![("vectors"@, JsonV::Object(inner))], 0);
}

/// A successful ensure reports the collection its `PUT` went to, the
/// collection the call resolved to (not the configured default), with the
/// width and metric it was created with; the `PUT`, call 1, asks for that
/// width and metric.
pub proof fn lemma_ensure_reports_the_ensured_collection(cfg: ConfigV, inp: EnsureInputV, calls: Seq<HostCall>, out: JsonV)
    requires
        ensure_outcome(cfg, inp, calls, 0) == Some(Ok::<JsonV, ErrV>(out)),
    ensures
        collection_of_spec(cfg, inp.tenant_overlay, inp.collection) matches Ok(c)
            && request_at(calls, 1) matches Some(req)
            && secret_value_at(calls, 0) matches Some(key)
            && req.method == "PUT"@
            && req.url == collection_url(cfg.qdrant_url, c)
            && get(out, "collection"@) == Some(JsonV::Str(c))
            && get(out, "dimensions"@) == Some(JsonV::Number(decimal(ensure_dimensions(cfg, inp) as nat)))
            && get(out, "distance"@) == Some(JsonV::Str(inp.distance))
            && creates_collection(req, cfg.qdrant_url, c, key, ensure_dimensions(cfg, inp), inp.distance),
{
    let c = collection_of_spec(cfg, inp.tenant_overlay, inp.collection)->Ok_0;
    let d = ensure_dimensions(cfg, inp);
    assert(out == ensured_json(c, d, inp.distance));
    let key = secret_at(calls, 0, QDRANT_KEY_REF@)->Some_0->Ok_0;
    assert(secret_value_at(calls, 0) == Some(key));
    lemma_ensure_body_members(d, inp.distance);
    assert(creates_collection(ensure_collection_request_spec(cfg.qdrant_url, c, d, inp.distance, key), cfg.qdrant_url, c, key, d, inp.distance));
    reveal_strlit("ok");
    reveal_strlit("collection");
    reveal_strlit("dimensions");
    reveal_strlit("distance");
    assert("ok"@.len() == 2 && "collection"@.len() == 10 && "dimensions"@.len() == 10 && "distance"@.len() == 8);
    let m = seq![
        ("ok"@, JsonV::Bool(true)),
        ("collection"@, JsonV::Str(c)),
        ("dimensions"@, JsonV::Number(decimal(d as nat))),
        ("distance"@, JsonV::Str(inp.distance)),
    ];
    assert(m[0].0 != m[1].0 && m[0].0 != m[2].0 && m[0].0 != m[3].0);
    assert("collection"@[0] == 'c' && "dimensions"@[0] == 'd');
    assert(m[1].0 != m[2].0 && m[1].0 != m[3].0 && m[2].0 != m[3].0);
    crate::json::lemma_entries_get_at(m, 1);
    crate::json::lemma_entries_get_at(m, 2);
    crate::json::lemma_entries_get_at(m, 3);
}

// ===== rag_list =====

pub open spec fn doc_json(g: DocGroupV) -> JsonV {
    JsonV::Object(seq![
        ("doc_id"@, JsonV::Str(g.doc_id)),
        ("chunk_count"@, JsonV::Number(decimal(g.chunk_count))),
        ("metadata"@, g.metadata),
    ])
}

/// What `rag_list` returns: the page's documents, and `next_page_offset`
/// only when there is another page.
pub open spec fn list_json(groups: Seq<DocGroupV>, next: Option<JsonV>) -> JsonV {
    let docs = ("documents"@, JsonV::Array(groups.map_values(|g: DocGroupV| doc_json(g))));
    match next {
        Some(v) => JsonV::Object(seq![docs, ("next_page_offset"@, v)]),
        None => JsonV::Object(seq![docs]),
    }
}

/// `rag_list`, from call `s`: the collection is resolved before any host
/// call; then the Qdrant key is read and one scroll page fetched and grouped
/// by document (see [`group_points`]). One page per call: the caller pages
/// with `next_page_offset`, so a large collection is never silently
/// truncated.
pub open spec fn list_outcome(cfg: ConfigV, inp: ListInputV, calls: Seq<HostCall>, s: int) -> Option<Result<JsonV, ErrV>> {
    match collection_of_spec(cfg, inp.tenant_overlay, inp.collection) {
        Err(e) => only(calls, s, Err(e)),
        Ok(c) => match secret_at(calls, s, QDRANT_KEY_REF@) {
            None => None,
            Some(Err(e)) => only(calls, s + 1, Err(e)),
            Some(Ok(key)) => match fetch_at(calls, s + 1, scroll_request_spec(cfg.qdrant_url, c, inp.limit, inp.offset, inp.filter, key)) {
                None => None,
                Some(Err(e)) => only(calls, s + 2, Err(e)),
                Some(Ok(resp)) => only(calls, s + 2, match parse_scroll_spec(resp.status, resp.body) {
                    Err(e) => Err(e),
                    Ok(page) => Ok(list_json(group_points(page.points), page.next_page_offset)),
                }),
            },
        },
    }
}

fn list_output(groups: &Vec<DocGroup>, next: Option<Json>) -> (r: Json)
    ensures
        r@ == list_json(groups_view(groups@), opt_json_view(next)),
{
    let ghost want = groups_view(groups@).map_values(|g: DocGroupV| doc_json(g));
    let mut items: Vec<Json> = Vec::new();
    let mut i: usize = 0;
    while i < groups.len()
        invariant
            i <= groups.len(),
            want == groups_view(groups@).map_values(|g: DocGroupV| doc_json(g)),
            json_seq_view(items@) =~= want.take(i as int),
        decreases groups.len() - i,
    {
        let g = &groups[i];
        let item = object3(
            "doc_id", Json::Str(g.doc_id.clone()),
            "chunk_count", Json::number(g.chunk_count),
            "metadata", g.metadata.duplicate(),
        );
        let ghost prev = items@;
        items.push(item);
        assert(items@.drop_last() =~= prev);
        assert(want.take(i + 1) =~= want.take(i as int).push(doc_json(g@)));
        i += 1;
    }
    assert(want.take(i as int) =~= want);
    match next {
        Some(v) => object2("documents", array(items), "next_page_offset", v),
        None => object1("documents", array(items)),
    }
}

/// `rag_list` through a recording host. See [`list_outcome`].
pub fn list_traced<H: HostCalls>(t: &mut Traced<H>, cfg: &Config, input: &ListInput) -> (r: Result<Json, RagError>)
    ensures
        final(t).host() == old(t).host(),
        extends(old(t).calls(), final(t).calls()),
        list_outcome(cfg@, input@, final(t).calls(), old(t).calls().len() as int) == Some(res_view(r)),
{
    let ghost s0 = t.calls();
    assert(s0.take(s0.len() as int) =~= s0);
    let collection = match collection_of(cfg, opt_overlay_ref(&input.tenant_overlay), opt_string_ref(&input.collection)) {
        Ok(c) => c,
        Err(e) => return Err(e),
    };
    let key = match secret(t, QDRANT_KEY_REF) {
        Ok(k) => k,
        Err(e) => return Err(e),
    };
    let ghost s1 = t.calls();
    let req = scroll_request(cfg.qdrant_url.as_str(), collection.as_str(), input.limit, opt_ref(&input.offset), opt_ref(&input.filter), key.as_str());
    let r = send(t, &req);
    proof {
        lemma_extends_at(s1, t.calls(), s0.len() as int);
        lemma_extends_trans(s0, s1, t.calls());
    }
    let resp = match r {
        Ok(resp) => resp,
        Err(e) => return Err(e),
    };
    let page = match parse_scroll(resp.status, &resp.body) {
        Ok(p) => p,
        Err(e) => return Err(e),
    };
    let groups = group_page(&page.points);
    Ok(list_output(&groups, page.next_page_offset))
}

/// `rag_list`. See [`search`] for what the contract states.
pub fn list<H: HostCalls>(host: &H, cfg: &Config, input: &ListInput) -> (r: Result<Json, RagError>)
    ensures
        exists|calls: Seq<HostCall>| answered_by(host, calls) && list_outcome(cfg@, input@, calls, 0) == Some(res_view(r)),
        list_outcome(cfg@, input@, Seq::empty(), 0) is Some ==> list_outcome(cfg@, input@, Seq::empty(), 0) == Some(res_view(r)),
{
    let mut t = Traced::new(host);
    let r = list_traced(&mut t, cfg, input);
    let trace = t.finish();
    assert(list_outcome(cfg@, input@, trace@, 0) == Some(res_view(r)));
    r
}


/// Document `k` of a listing answer is group `g`: its id, its chunk count
/// and the metadata kept for it.
pub open spec fn doc_matches_group(d: JsonV, g: DocGroupV) -> bool {
    &&& get(d, "doc_id"@) == Some(JsonV::Str(g.doc_id))
    &&& get(d, "chunk_count"@) == Some(JsonV::Number(decimal(g.chunk_count)))
    &&& get(d, "metadata"@) == Some(g.metadata)
}

proof fn lemma_doc_json_members(g: DocGroupV)
    ensures
        doc_matches_group(doc_json(g), g),
{
    reveal_strlit("doc_id");
    reveal_strlit("chunk_count");
    reveal_strlit("metadata");
    assert("doc_id"@.len() == 6 && "chunk_count"@.len() == 11 && "metadata"@.len() == 8);
    let m = seq![
        ("doc_id"@, JsonV::Str(g.doc_id)),
        ("chunk_count"@, JsonV::Number(decimal(g.chunk_count))),
        ("metadata"@, g.metadata),
    ];
    assert(m[0].0 != m[1].0 && m[0].0 != m[2].0 && m[1].0 != m[2].0);
    crate::json::lemma_entries_get_at(m, 0);
    crate::json::lemma_entries_get_at(m, 1);
    crate::json::lemma_entries_get_at(m, 2);
}

/// The answer to a listing holds, at position `k` of `documents`, group `k`
/// with its id, count and metadata, one entry per group, and carries
/// `next_page_offset` exactly when there is another page.
pub proof fn lemma_list_json_keeps_order(groups: Seq<DocGroupV>, next: Option<JsonV>)
    ensures
        array_member(list_json(groups, next), "documents"@) matches Some(ds) && ds.len() == groups.len()
            && forall|k: int| 0 <= k < groups.len() ==> doc_matches_group(#[trigger] ds[k], groups[k]),
        get(list_json(groups, next), "next_page_offset"@) == next,
{
    reveal_strlit("documents");
    reveal_strlit("next_page_offset");
    assert("documents"@.len() == 9 && "next_page_offset"@.len() == 16);
    let ds = groups.map_values(|g: DocGroupV| doc_json(g));
    let docs = ("documents"@, JsonV::Array(ds));
    match next {
        Some(v) => {
            let m = seq![docs, ("next_page_offset"@, v)];
            assert(m[0].0 != m[1].0);
            crate::json::lemma_entries_get_at(m, 0);
            crate::json::lemma_entries_get_at(m, 1);
        },
        None => {
            let m = seq![docs];
            crate::json::lemma_entries_get_at(m, 0);
            assert(m.drop_first() =~= Seq::<(Seq<char>, JsonV)>::empty());
            assert(entries_get(Seq::<(Seq<char>, JsonV)>::empty(), "next_page_offset"@) is None);
        },
    }
    assert forall|k: int| 0 <= k < groups.len() implies doc_matches_group(#[trigger] ds[k], groups[k]) by {
        lemma_doc_json_members(groups[k]);
    }
}

/// A successful listing answers with the documents of the page Qdrant sent
/// back, grouped by [`group_points`] and in that order: entry `k` of
/// `documents` is group `k` of the page's points.
pub proof fn lemma_list_answers_the_page_groups(cfg: ConfigV, inp: ListInputV, calls: Seq<HostCall>, out: JsonV)
    requires
        list_outcome(cfg, inp, calls, 0) == Some(Ok::<JsonV, ErrV>(out)),
    ensures
        last_reply_points(calls) matches Some(raw) && array_member(out, "documents"@) matches Some(ds)
            && ds.len() == group_points(raw.map_values(|p: JsonV| scroll_point_spec(p))).len()
            && forall|k: int| 0 <= k < ds.len()
                ==> doc_matches_group(#[trigger] ds[k], group_points(raw.map_values(|p: JsonV| scroll_point_spec(p)))[k]),
{
    let c = collection_of_spec(cfg, inp.tenant_overlay, inp.collection)->Ok_0;
    let key = secret_at(calls, 0, QDRANT_KEY_REF@)->Some_0->Ok_0;
    let resp = fetch_at(calls, 1, scroll_request_spec(cfg.qdrant_url, c, inp.limit, inp.offset, inp.filter, key))->Some_0->Ok_0;
    assert(calls.last() == calls[1]);
    let page = parse_scroll_spec(resp.status, resp.body)->Ok_0;
    let raw = last_reply_points(calls)->Some_0;
    assert(page.points == raw.map_values(|p: JsonV| scroll_point_spec(p)));
    assert(out == list_json(group_points(page.points), page.next_page_offset));
    lemma_list_json_keeps_order(group_points(page.points), page.next_page_offset);
}

/// `req` is a `POST` to the scroll path of collection `c` with the Qdrant key
/// whose body asks for a page of at most `limit` points from `offset`, under
/// `filter`, with payloads and without vectors.
pub open spec fn scrolls_page(req: HttpRequestV, base: Seq<char>, c: Seq<char>, key: Seq<char>, limit: u32, offset: Option<JsonV>, filter: Option<JsonV>) -> bool {
    exists|body: JsonV| {
        &&& req == #[trigger] request_spec("POST"@, collection_url(base, c) + "/points/scroll"@, key, body)
        &&& get(body, "limit"@) == Some(JsonV::Number(decimal(limit as nat)))
        &&& get(body, "offset"@) == offset
        &&& get(body, "filter"@) == filter
        &&& get(body, "with_payload"@) == Some(JsonV::Bool(true))
        &&& get(body, "with_vector"@) == Some(JsonV::Bool(false))
    }
}

proof fn lemma_with_opt_member_get(obj: JsonV, key: Seq<char>, value: Option<JsonV>, k: Seq<char>)
    requires
        obj is Object,
    ensures
        with_member(obj, key, value) is Object,
        get(with_member(obj, key, value), k) == if k == key && value is Some { value } else { get(obj, k) },
{
    if let Some(v) = value {
        crate::qdrant::lemma_with_member_get(obj, key, v, k);
    }
}

proof fn lemma_scroll_body_members(limit: u32, offset: Option<JsonV>, filter: Option<JsonV>)
    ensures
        ({
            let body = with_member(with_member(JsonV::Object(seq![
                ("limit"@, JsonV::Number(decimal(limit as nat))),
                ("with_payload"@, JsonV::Bool(true)),
                ("with_vector"@, JsonV::Bool(false)),
            ]), "offset"@, offset), "filter"@, filter);
            &&& get(body, "limit"@) == Some(JsonV::Number(decimal(limit as nat)))
            &&& get(body, "offset"@) == offset
            &&& get(body, "filter"@) == filter
            &&& get(body, "with_payload"@) == Some(JsonV::Bool(true))
            &&& get(body, "with_vector"@) == Some(JsonV::Bool(false))
        }),
{
    reveal_strlit("limit");
    reveal_strlit("with_payload");
    reveal_strlit("with_vector");
    reveal_strlit("offset");
    reveal_strlit("filter");
    assert("limit"@.len() == 5 && "with_payload"@.len() == 12 && "with_vector"@.len() == 11);
    assert("offset"@.len() == 6 && "filter"@.len() == 6 && "offset"@[0] == 'o' && "filter"@[0] == 'f');
    let m = seq![
        ("limit"@, JsonV::Number(decimal(limit as nat))),
        ("with_payload"@, JsonV::Bool(true)),
        ("with_vector"@, JsonV::Bool(false)),
    ];
    let o = JsonV::Object(m);
    assert(m[0].0 != m[1].0 && m[0].0 != m[2].0 && m[1].0 != m[2].0);
    crate::json::lemma_entries_get_at(m, 0);
    crate::json::lemma_entries_get_at(m, 1);
    crate::json::lemma_entries_get_at(m, 2);
    crate::json::lemma_entries_get_absent(m, "offset"@);
    crate::json::lemma_entries_get_absent(m, "filter"@);
    let o1 = with_member(o, "offset"@, offset);
    lemma_with_opt_member_get(o, "offset"@, offset, "limit"@);
    lemma_with_opt_member_get(o, "offset"@, offset, "with_payload"@);
    lemma_with_opt_member_get(o, "offset"@, offset, "with_vector"@);
    lemma_with_opt_member_get(o, "offset"@, offset, "offset"@);
    lemma_with_opt_member_get(o, "offset"@, offset, "filter"@);
    lemma_with_opt_member_get(o1, "filter"@, filter, "limit"@);
    lemma_with_opt_member_get(o1, "filter"@, filter, "with_payload"@);
    lemma_with_opt_member_get(o1, "filter"@, filter, "with_vector"@);
    lemma_with_opt_member_get(o1, "filter"@, filter, "offset"@);
    lemma_with_opt_member_get(o1, "filter"@, filter, "filter"@);
}

/// A listing asks, by its last call, the collection the call resolved to for
/// one page of at most `limit` points from the caller's offset, under the
/// caller's filter, payloads without vectors.
pub proof fn lemma_list_asks_for_the_requested_page(cfg: ConfigV, inp: ListInputV, calls: Seq<HostCall>, out: JsonV)
    requires
        list_outcome(cfg, inp, calls, 0) == Some(Ok::<JsonV, ErrV>(out)),
    ensures
        calls.len() == 2,
        secret_value_at(calls, 0) matches Some(key)
            && request_at(calls, 1) matches Some(req)
            && scrolls_page(req, cfg.qdrant_url, collection_of_spec(cfg, inp.tenant_overlay, inp.collection)->Ok_0, key,
                inp.limit, inp.offset, inp.filter),
{
    let c = collection_of_spec(cfg, inp.tenant_overlay, inp.collection)->Ok_0;
    let key = secret_at(calls, 0, QDRANT_KEY_REF@)->Some_0->Ok_0;
    assert(secret_value_at(calls, 0) == Some(key));
    let req = scroll_request_spec(cfg.qdrant_url, c, inp.limit, inp.offset, inp.filter, key);
    assert(request_at(calls, 1) == Some(req));
    lemma_scroll_body_members(inp.limit, inp.offset, inp.filter);
    assert(scrolls_page(req, cfg.qdrant_url, c, key, inp.limit, inp.offset, inp.filter));
}

// ===== the order of host calls =====

/// Where a call goes: `("secret", uri)` for a secret, `(method, url)` for a
/// request.
pub open spec fn call_target(c: HostCall) -> (Seq<char>, Seq<char>) {
    match c {
        HostCall::Secret { uri, .. } => ("secret"@, uri),
        HostCall::Fetch { req, .. } => (req.method, req.url),
    }
}

pub open spec fn targets(calls: Seq<HostCall>) -> Seq<(Seq<char>, Seq<char>)> {
    calls.map_values(|c: HostCall| call_target(c))
}

/// The calls of a run are the first ones of `order`, and all of it when the
/// run succeeded.
pub open spec fn follows(calls: Seq<HostCall>, order: Seq<(Seq<char>, Seq<char>)>, succeeded: bool) -> bool {
    &&& calls.len() <= order.len()
    &&& targets(calls) == order.take(calls.len() as int)
    &&& succeeded ==> calls.len() == order.len()
}

pub open spec fn embed_targets(cfg: ConfigV) -> Seq<(Seq<char>, Seq<char>)> {
    seq![("secret"@, EMBEDDING_KEY_REF@), ("POST"@, cfg.embedding.base_url + "/embeddings"@)]
}

pub open spec fn qdrant_key_target() -> (Seq<char>, Seq<char>) {
    ("secret"@, QDRANT_KEY_REF@)
}

/// The order of an ingest's calls into collection `c`: the embeddings key,
/// the embeddings request, the Qdrant key, the collection PUT, the delete of
/// the document's chunks, the write of the new ones.
pub open spec fn ingest_order(cfg: ConfigV, c: Seq<char>) -> Seq<(Seq<char>, Seq<char>)> {
    embed_targets(cfg) + seq![
        qdrant_key_target(),
        ("PUT"@, collection_url(cfg.qdrant_url, c)),
        ("POST"@, collection_url(cfg.qdrant_url, c) + "/points/delete?wait=true"@),
        ("PUT"@, collection_url(cfg.qdrant_url, c) + "/points?wait=true"@),
    ]
}

proof fn lemma_follows(calls: Seq<HostCall>, order: Seq<(Seq<char>, Seq<char>)>, succeeded: bool)
    requires
        calls.len() <= order.len(),
        forall|k: int| 0 <= k < calls.len() ==> call_target(#[trigger] calls[k]) == order[k],
        succeeded ==> calls.len() == order.len(),
    ensures
        follows(calls, order, succeeded),
{
    assert(targets(calls) =~= order.take(calls.len() as int));
}

/// What `secret_at` finding a call says of its target.
proof fn lemma_secret_target(calls: Seq<HostCall>, i: int, uri: Seq<char>)
    requires
        secret_at(calls, i, uri) is Some,
    ensures
        0 <= i < calls.len(),
        call_target(calls[i]) == ("secret"@, uri),
{
}

/// What `fetch_at` finding a call says of its target.
proof fn lemma_fetch_target(calls: Seq<HostCall>, i: int, req: HttpRequestV)
    requires
        fetch_at(calls, i, req) is Some,
    ensures
        0 <= i < calls.len(),
        call_target(calls[i]) == (req.method, req.url),
{
}

/// What `embed_at` finding its calls says of their targets.
proof fn lemma_embed_targets(cfg: ConfigV, texts: Seq<Seq<char>>, calls: Seq<HostCall>, i: int)
    requires
        embed_at(cfg, texts, calls, i) is Some,
    ensures
        ({
            let (r, n) = embed_at(cfg, texts, calls, i)->0;
            &&& 1 <= n <= 2
            &&& i + n <= calls.len()
            &&& r is Ok ==> n == 2
            &&& forall|k: int| 0 <= k < n ==> call_target(#[trigger] calls[i + k]) == embed_targets(cfg)[k]
        }),
{
    lemma_secret_target(calls, i, EMBEDDING_KEY_REF@);
    let key = secret_at(calls, i, EMBEDDING_KEY_REF@)->0;
    if let Ok(k) = key {
        lemma_fetch_target(calls, i + 1, embed_request_spec(cfg.embedding, texts, k));
        assert(call_target(calls[i + 1]) == embed_targets(cfg)[1]);
    }
    assert(call_target(calls[i + 0]) == embed_targets(cfg)[0]);
}

/// An ingest makes its calls in the order of [`ingest_order`], stopping at
/// the first failure: nothing is written to Qdrant unless the embeddings
/// succeeded, and the document's old chunks are deleted before its new ones
/// are written. A refused call makes none at all.
pub proof fn lemma_ingest_call_order(cfg: ConfigV, inp: IngestInputV, calls: Seq<HostCall>, r: Result<JsonV, ErrV>)
    requires
        ingest_outcome(cfg, inp, calls, 0) == Some(r),
    ensures
        !(inp.metadata is Object) ==> calls.len() == 0,
        inp.metadata is Object ==> match collection_of_spec(cfg, inp.tenant_overlay, inp.collection) {
            Ok(c) => follows(calls, ingest_order(cfg, c), r is Ok),
            Err(e) => calls.len() == 0 && r == Err::<JsonV, ErrV>(e),
        },
{
    if inp.metadata is Object {
        if let Ok(c) = collection_of_spec(cfg, inp.tenant_overlay, inp.collection) {
            let order = ingest_order(cfg, c);
            let chunks = chunk_text_spec(inp.text, cfg.chunk.max_chars, cfg.chunk.overlap_chars);
            if chunks.len() == 0 {
                lemma_follows(calls, order, r is Ok);
            } else {
                lemma_embed_targets(cfg, chunks, calls, 0);
                let (er, n) = embed_at(cfg, chunks, calls, 0)->0;
                assert forall|k: int| 0 <= k < n implies call_target(#[trigger] calls[k]) == order[k] by {
                    assert(calls[0 + k] == calls[k]);
                }
                if let Ok(vs) = er {
                    lemma_secret_target(calls, 2, QDRANT_KEY_REF@);
                    if let Ok(key) = secret_at(calls, 2, QDRANT_KEY_REF@)->0 {
                        lemma_fetch_target(calls, 3, ensure_collection_request_spec(cfg.qdrant_url, c, cfg.embedding.dimensions, DEFAULT_DISTANCE@, key));
                        if let Ok(_) = ensure_at(calls, 3, ensure_collection_request_spec(cfg.qdrant_url, c, cfg.embedding.dimensions, DEFAULT_DISTANCE@, key))->0 {
                            lemma_fetch_target(calls, 4, delete_request_spec(cfg.qdrant_url, c, DeleteSelectorV::DocId(inp.doc_id), key));
                            if let Ok(_) = ack_at(calls, 4, delete_request_spec(cfg.qdrant_url, c, DeleteSelectorV::DocId(inp.doc_id), key))->0 {
                                lemma_fetch_target(calls, 5, upsert_request_spec(cfg.qdrant_url, c, chunk_points(inp, chunks, vs), key));
                            }
                        }
                    }
                }
                lemma_follows(calls, order, r is Ok);
            }
        } else {
        }
    }
}


/// The order of a search's calls: the embeddings key and request when the
/// query is text, then the Qdrant key and the query.
pub open spec fn search_order(cfg: ConfigV, c: Seq<char>, embeds: bool) -> Seq<(Seq<char>, Seq<char>)> {
    (if embeds { embed_targets(cfg) } else { Seq::empty() }) + seq![
        qdrant_key_target(),
        ("POST"@, collection_url(cfg.qdrant_url, c) + "/points/query"@),
    ]
}

/// A search makes its calls in the order of [`search_order`], stopping at
/// the first failure; a caller vector costs no embeddings call, and a
/// refused call makes no call at all.
pub proof fn lemma_search_call_order(cfg: ConfigV, inp: SearchInputV, calls: Seq<HostCall>, r: Result<JsonV, ErrV>)
    requires
        search_outcome(cfg, inp, calls, 0) == Some(r),
    ensures
        match collection_of_spec(cfg, inp.tenant_overlay, inp.collection) {
            Ok(c) => follows(calls, search_order(cfg, c, inp.vector is None), r is Ok),
            Err(e) => calls.len() == 0 && r == Err::<JsonV, ErrV>(e),
        },
{
    if let Ok(c) = collection_of_spec(cfg, inp.tenant_overlay, inp.collection) {
        let embeds = inp.vector is None;
        let order = search_order(cfg, c, embeds);
        let i: int = if embeds { 2 } else { 0 };
        if embeds && inp.query is Some {
            let q = inp.query->0;
            lemma_embed_targets(cfg, seq![q], calls, 0);
            let (er, n) = embed_at(cfg, seq![q], calls, 0)->0;
            assert forall|k: int| 0 <= k < n implies call_target(#[trigger] calls[k]) == order[k] by {
                assert(calls[0 + k] == calls[k]);
            }
        }
        if secret_at(calls, i, QDRANT_KEY_REF@) is Some {
            lemma_secret_target(calls, i, QDRANT_KEY_REF@);
            if let Ok(key) = secret_at(calls, i, QDRANT_KEY_REF@)->0 {
                let pair = embed_at(cfg, seq![inp.query->0], calls, 0)->0;
                let v = if embeds { pair.0->Ok_0[0] } else { inp.vector->0 };
                if fetch_at(calls, i + 1, query_request_spec(cfg.qdrant_url, c, v, inp.top_k, inp.filter, key)) is Some {
                    lemma_fetch_target(calls, i + 1, query_request_spec(cfg.qdrant_url, c, v, inp.top_k, inp.filter, key));
                }
            }
        }
        lemma_follows(calls, order, r is Ok);
    }
}

/// The order of an upsert's calls: the embeddings key and request when the
/// point is given as text, then the Qdrant key, the collection PUT and the
/// write.
pub open spec fn upsert_order(cfg: ConfigV, c: Seq<char>, embeds: bool) -> Seq<(Seq<char>, Seq<char>)> {
    (if embeds { embed_targets(cfg) } else { Seq::empty() }) + seq![
        qdrant_key_target(),
        ("PUT"@, collection_url(cfg.qdrant_url, c)),
        ("PUT"@, collection_url(cfg.qdrant_url, c) + "/points?wait=true"@),
    ]
}

/// An upsert makes its calls in the order of [`upsert_order`], stopping at
/// the first failure; a refused call, or one with a non-object payload,
/// makes no call at all.
pub proof fn lemma_upsert_call_order(cfg: ConfigV, inp: UpsertInputV, calls: Seq<HostCall>, r: Result<JsonV, ErrV>)
    requires
        upsert_outcome(cfg, inp, calls, 0) == Some(r),
    ensures
        !(inp.payload is Object) ==> calls.len() == 0,
        inp.payload is Object ==> match collection_of_spec(cfg, inp.tenant_overlay, inp.collection) {
            Ok(c) => follows(calls, upsert_order(cfg, c, inp.vector is None), r is Ok),
            Err(e) => calls.len() == 0 && r == Err::<JsonV, ErrV>(e),
        },
{
    if inp.payload is Object {
        if let Ok(c) = collection_of_spec(cfg, inp.tenant_overlay, inp.collection) {
            let embeds = inp.vector is None;
            let order = upsert_order(cfg, c, embeds);
            let i: int = if embeds { 2 } else { 0 };
            if embeds && inp.text is Some {
                let t = inp.text->0;
                lemma_embed_targets(cfg, seq![t], calls, 0);
                let (er, n) = embed_at(cfg, seq![t], calls, 0)->0;
                assert forall|k: int| 0 <= k < n implies call_target(#[trigger] calls[k]) == order[k] by {
                    assert(calls[0 + k] == calls[k]);
                }
            }
            if secret_at(calls, i, QDRANT_KEY_REF@) is Some {
                lemma_secret_target(calls, i, QDRANT_KEY_REF@);
                if let Ok(key) = secret_at(calls, i, QDRANT_KEY_REF@)->0 {
                    let pair = embed_at(cfg, seq![inp.text->0], calls, 0)->0;
                    let v = if embeds { pair.0->Ok_0[0] } else { inp.vector->0 };
                    let ens = ensure_collection_request_spec(cfg.qdrant_url, c, cfg.embedding.dimensions, DEFAULT_DISTANCE@, key);
                    if fetch_at(calls, i + 1, ens) is Some {
                        lemma_fetch_target(calls, i + 1, ens);
                        if ensure_at(calls, i + 1, ens)->0 is Ok {
                            let up = upsert_request_spec(cfg.qdrant_url, c, seq![upsert_point(inp, v)], key);
                            if fetch_at(calls, i + 2, up) is Some {
                                lemma_fetch_target(calls, i + 2, up);
                            }
                        }
                    }
                }
            }
            lemma_follows(calls, order, r is Ok);
        }
    }
}

/// A delete, a collection ensure and a listing resolve the collection
/// before any host call, then read the Qdrant key and send one request to
/// that collection: `method` and `path` are that request's method and path
/// under the collection.
pub open spec fn keyed_order(cfg: ConfigV, c: Seq<char>, method: Seq<char>, path: Seq<char>) -> Seq<(Seq<char>, Seq<char>)> {
    seq![qdrant_key_target(), (method, collection_url(cfg.qdrant_url, c) + path)]
}

/// A delete makes no host call when it names neither ids nor a document or
/// when its collection is refused; otherwise it reads the Qdrant key, then
/// sends the delete to the resolved collection.
pub proof fn lemma_delete_call_order(cfg: ConfigV, inp: DeleteInputV, calls: Seq<HostCall>, r: Result<JsonV, ErrV>)
    requires
        delete_outcome(cfg, inp, calls, 0) == Some(r),
    ensures
        delete_selector_spec(inp) is None ==> calls.len() == 0,
        delete_selector_spec(inp) is Some ==> match collection_of_spec(cfg, inp.tenant_overlay, inp.collection) {
            Ok(c) => follows(calls, keyed_order(cfg, c, "POST"@, "/points/delete?wait=true"@), r is Ok),
            Err(e) => calls.len() == 0 && r == Err::<JsonV, ErrV>(e),
        },
{
    if let Some(sel) = delete_selector_spec(inp) {
        if let Ok(c) = collection_of_spec(cfg, inp.tenant_overlay, inp.collection) {
            if secret_at(calls, 0, QDRANT_KEY_REF@) is Some {
                lemma_secret_target(calls, 0, QDRANT_KEY_REF@);
                if let Ok(key) = secret_at(calls, 0, QDRANT_KEY_REF@)->0 {
                    let req = delete_request_spec(cfg.qdrant_url, c, sel, key);
                    if fetch_at(calls, 1, req) is Some {
                        lemma_fetch_target(calls, 1, req);
                    }
                }
            }
            lemma_follows(calls, keyed_order(cfg, c, "POST"@, "/points/delete?wait=true"@), r is Ok);
        }
    }
}

/// A collection ensure makes no host call when its collection is refused;
/// otherwise it reads the Qdrant key, then creates the resolved collection.
pub proof fn lemma_ensure_call_order(cfg: ConfigV, inp: EnsureInputV, calls: Seq<HostCall>, r: Result<JsonV, ErrV>)
    requires
        ensure_outcome(cfg, inp, calls, 0) == Some(r),
    ensures
        match collection_of_spec(cfg, inp.tenant_overlay, inp.collection) {
            Ok(c) => follows(calls, keyed_order(cfg, c, "PUT"@, Seq::empty()), r is Ok),
            Err(e) => calls.len() == 0 && r == Err::<JsonV, ErrV>(e),
        },
{
    if let Ok(c) = collection_of_spec(cfg, inp.tenant_overlay, inp.collection) {
        if secret_at(calls, 0, QDRANT_KEY_REF@) is Some {
            lemma_secret_target(calls, 0, QDRANT_KEY_REF@);
            if let Ok(key) = secret_at(calls, 0, QDRANT_KEY_REF@)->0 {
                let req = ensure_collection_request_spec(cfg.qdrant_url, c, ensure_dimensions(cfg, inp), inp.distance, key);
                if fetch_at(calls, 1, req) is Some {
                    lemma_fetch_target(calls, 1, req);
                    assert(collection_url(cfg.qdrant_url, c) + Seq::<char>::empty() =~= collection_url(cfg.qdrant_url, c));
                }
            }
        }
        lemma_follows(calls, keyed_order(cfg, c, "PUT"@, Seq::empty()), r is Ok);
    }
}

/// A listing makes no host call when its collection is refused; otherwise
/// it reads the Qdrant key, then fetches one scroll page of the resolved
/// collection.
pub proof fn lemma_list_call_order(cfg: ConfigV, inp: ListInputV, calls: Seq<HostCall>, r: Result<JsonV, ErrV>)
    requires
        list_outcome(cfg, inp, calls, 0) == Some(r),
    ensures
        match collection_of_spec(cfg, inp.tenant_overlay, inp.collection) {
            Ok(c) => follows(calls, keyed_order(cfg, c, "POST"@, "/points/scroll"@), r is Ok),
            Err(e) => calls.len() == 0 && r == Err::<JsonV, ErrV>(e),
        },
{
    if let Ok(c) = collection_of_spec(cfg, inp.tenant_overlay, inp.collection) {
        if secret_at(calls, 0, QDRANT_KEY_REF@) is Some {
            lemma_secret_target(calls, 0, QDRANT_KEY_REF@);
            if let Ok(key) = secret_at(calls, 0, QDRANT_KEY_REF@)->0 {
                let req = scroll_request_spec(cfg.qdrant_url, c, inp.limit, inp.offset, inp.filter, key);
                if fetch_at(calls, 1, req) is Some {
                    lemma_fetch_target(calls, 1, req);
                }
            }
        }
        lemma_follows(calls, keyed_order(cfg, c, "POST"@, "/points/scroll"@), r is Ok);
    }
}

} // verus!
