//! Configuration: what the library needs to reach Qdrant and an embeddings
//! API, and how it is assembled for each call.
//!
//! Two channels, in this order of precedence: the host's per-call tenant
//! overlay (`_tenant_overlay`), then an optional process-wide baseline handed
//! over once at initialisation. Every field of the overlay is optional; the
//! only exception to "overlay wins" is `qdrant_url`, see [`resolve`].
use vstd::prelude::*;

use crate::error::{ErrV, RagError};
use crate::fields::{
    opt_bool, opt_bool_spec, opt_string, opt_string_spec, opt_u32, opt_u32_spec, opt_usize,
    opt_usize_spec, present, type_msg, wrong_type, AN_OBJECT, NOT_AN_OBJECT,
};
use crate::json::{decode_json_text, json_decode_text, Json, JsonV};
use crate::text::{all_ws, cat, cat3, debug_str, debug_text, decimal, decimal_string, opt_ref_view, opt_view, str_eq, trim, trim_end_char, trim_end_char_str, trim_str};

verus! {

pub const DEFAULT_MAX_CHARS: usize = 1200;
pub const DEFAULT_OVERLAP_CHARS: usize = 150;
pub const DEFAULT_EMBEDDING_BASE_URL: &'static str = "https://api.openai.com/v1";
pub const DEFAULT_EMBEDDING_MODEL: &'static str = "text-embedding-3-small";
pub const DEFAULT_EMBEDDING_DIMENSIONS: u32 = 1536;

pub const NOT_CONFIGURED_HEAD: &'static str = "config: no `";
pub const NOT_CONFIGURED_TAIL: &'static str = "` is configured for this tenant. Open the admin console, go to Extensions \u{2192} RAG (Qdrant) \u{2192} Configuration, and set `qdrant_url` and `collection` \u{2014} either as the operator baseline or as this tenant's override \u{2014} then retry.";
pub const EMPTY_OVERLAY_URL: &'static str = "tenant overlay sets an empty qdrant_url; fix this tenant's extension configuration";
pub const URL_CONFLICT_1: &'static str = "tenant overlay sets qdrant_url ";
pub const URL_CONFLICT_2: &'static str = ", which differs from the ";
pub const URL_CONFLICT_3: &'static str = " this instance was initialised with. One instance serves one cluster: its Qdrant credential and network allow-list are instance-wide, so pointing a tenant at another cluster would send this instance's credential somewhere the operator never named. Isolate tenants by collection, or run one instance per cluster.";
pub const EMPTY_BASE_URL: &'static str = "config: embedding.base_url is empty";
pub const ZERO_DIMENSIONS: &'static str = "config: embedding.dimensions must be greater than zero";
pub const ZERO_MAX_CHARS: &'static str = "config: chunk.max_chars must be greater than zero";
pub const OVERLAP_1: &'static str = "config: chunk.overlap_chars (";
pub const OVERLAP_2: &'static str = ") must be less than chunk.max_chars (";
pub const OVERLAP_3: &'static str = ")";
pub const RELOAD_REFUSED: &'static str = "config: extension is already configured with different settings \u{2014} restart the extension to change them";

// ===== resolved configuration =====

#[derive(Debug, Clone, PartialEq, Eq)]
pub struct EmbeddingConfig {
    /// Base URL of an OpenAI-shaped embeddings API. `/embeddings` is appended.
    pub base_url: String,
    pub model: String,
    pub dimensions: u32,
}

#[derive(Debug, Clone, Copy, PartialEq, Eq)]
pub struct ChunkConfig {
    pub max_chars: usize,
    pub overlap_chars: usize,
}

#[derive(Debug, Clone, PartialEq, Eq)]
pub struct Config {
    pub qdrant_url: String,
    /// May be empty: the collection a call touches is decided per call, and
    /// an empty outcome is refused there.
    pub collection: String,
    pub embedding: EmbeddingConfig,
    pub chunk: ChunkConfig,
    /// Refuse any call the host did not stamp a tenant collection onto,
    /// instead of falling back to `collection` above.
    pub require_tenant_overlay: bool,
}

pub struct EmbeddingConfigV {
    pub base_url: Seq<char>,
    pub model: Seq<char>,
    pub dimensions: u32,
}

pub struct ConfigV {
    pub qdrant_url: Seq<char>,
    pub collection: Seq<char>,
    pub embedding: EmbeddingConfigV,
    pub chunk: ChunkConfig,
    pub require_tenant_overlay: bool,
}

impl View for EmbeddingConfig {
    type V = EmbeddingConfigV;

    open spec fn view(&self) -> EmbeddingConfigV {
        EmbeddingConfigV { base_url: self.base_url@, model: self.model@, dimensions: self.dimensions }
    }
}

impl View for Config {
    type V = ConfigV;

    open spec fn view(&self) -> ConfigV {
        ConfigV {
            qdrant_url: self.qdrant_url@,
            collection: self.collection@,
            embedding: self.embedding@,
            chunk: self.chunk,
            require_tenant_overlay: self.require_tenant_overlay,
        }
    }
}

pub open spec fn default_embedding() -> EmbeddingConfigV {
    EmbeddingConfigV {
        base_url: DEFAULT_EMBEDDING_BASE_URL@,
        model: DEFAULT_EMBEDDING_MODEL@,
        dimensions: DEFAULT_EMBEDDING_DIMENSIONS,
    }
}

pub open spec fn default_chunk() -> ChunkConfig {
    ChunkConfig { max_chars: DEFAULT_MAX_CHARS, overlap_chars: DEFAULT_OVERLAP_CHARS }
}

impl Default for EmbeddingConfig {
    /// The OpenAI defaults.
    fn default() -> (r: Self)
        ensures
            r@ == default_embedding(),
    {
        EmbeddingConfig {
            base_url: String::from_str(DEFAULT_EMBEDDING_BASE_URL),
            model: String::from_str(DEFAULT_EMBEDDING_MODEL),
            dimensions: DEFAULT_EMBEDDING_DIMENSIONS,
        }
    }
}

impl Default for ChunkConfig {
    fn default() -> (r: Self)
        ensures
            r == default_chunk(),
    {
        ChunkConfig { max_chars: DEFAULT_MAX_CHARS, overlap_chars: DEFAULT_OVERLAP_CHARS }
    }
}

impl EmbeddingConfig {
    /// A copy with the same view.
    pub fn duplicate(&self) -> (r: Self)
        ensures
            r@ == self@,
    {
        EmbeddingConfig { base_url: self.base_url.clone(), model: self.model.clone(), dimensions: self.dimensions }
    }
}

impl Config {
    /// A copy with the same view.
    pub fn duplicate(&self) -> (r: Self)
        ensures
            r@ == self@,
    {
        Config {
            qdrant_url: self.qdrant_url.clone(),
            collection: self.collection.clone(),
            embedding: self.embedding.duplicate(),
            chunk: self.chunk,
            require_tenant_overlay: self.require_tenant_overlay,
        }
    }

    /// Whether two configurations agree on every field.
    pub fn same_as(&self, other: &Config) -> (r: bool)
        ensures
            r == (self@ == other@),
    {
        str_eq(self.qdrant_url.as_str(), other.qdrant_url.as_str())
            && str_eq(self.collection.as_str(), other.collection.as_str())
            && str_eq(self.embedding.base_url.as_str(), other.embedding.base_url.as_str())
            && str_eq(self.embedding.model.as_str(), other.embedding.model.as_str())
            && self.embedding.dimensions == other.embedding.dimensions
            && self.chunk.max_chars == other.chunk.max_chars
            && self.chunk.overlap_chars == other.chunk.overlap_chars
            && self.require_tenant_overlay == other.require_tenant_overlay
    }
}

// ===== the wire shape =====

#[derive(Debug, Clone, Default, PartialEq, Eq)]
pub struct EmbeddingOverlay {
    pub base_url: Option<String>,
    pub model: Option<String>,
    pub dimensions: Option<u32>,
}

#[derive(Debug, Clone, Copy, Default, PartialEq, Eq)]
pub struct ChunkOverlay {
    pub max_chars: Option<usize>,
    pub overlap_chars: Option<usize>,
}

/// This extension's configuration as it arrives over either channel: per
/// call under the reserved argument `_tenant_overlay`, or as the body of the
/// initialisation call. Every field is optional.
#[derive(Debug, Clone, Default, PartialEq, Eq)]
pub struct ConfigOverlay {
    pub qdrant_url: Option<String>,
    /// The collection this tenant's data lives in. When present it is
    /// authoritative.
    pub collection: Option<String>,
    pub embedding: Option<EmbeddingOverlay>,
    pub chunk: Option<ChunkOverlay>,
    pub require_tenant_overlay: Option<bool>,
}

pub struct EmbeddingOverlayV {
    pub base_url: Option<Seq<char>>,
    pub model: Option<Seq<char>>,
    pub dimensions: Option<u32>,
}

pub struct ConfigOverlayV {
    pub qdrant_url: Option<Seq<char>>,
    pub collection: Option<Seq<char>>,
    pub embedding: Option<EmbeddingOverlayV>,
    pub chunk: Option<ChunkOverlay>,
    pub require_tenant_overlay: Option<bool>,
}

impl View for EmbeddingOverlay {
    type V = EmbeddingOverlayV;

    open spec fn view(&self) -> EmbeddingOverlayV {
        EmbeddingOverlayV {
            base_url: opt_view(self.base_url),
            model: opt_view(self.model),
            dimensions: self.dimensions,
        }
    }
}

impl View for ConfigOverlay {
    type V = ConfigOverlayV;

    open spec fn view(&self) -> ConfigOverlayV {
        ConfigOverlayV {
            qdrant_url: opt_view(self.qdrant_url),
            collection: opt_view(self.collection),
            embedding: match self.embedding {
                Some(e) => Some(e@),
                None => None,
            },
            chunk: self.chunk,
            require_tenant_overlay: self.require_tenant_overlay,
        }
    }
}

pub open spec fn base_view(base: Option<&Config>) -> Option<ConfigV> {
    match base {
        Some(b) => Some(b@),
        None => None,
    }
}

pub open spec fn overlay_view(overlay: Option<&ConfigOverlay>) -> Option<ConfigOverlayV> {
    match overlay {
        Some(o) => Some(o@),
        None => None,
    }
}

// ===== messages =====

/// The message an operator sees when a call arrives with `field` missing.
pub open spec fn not_configured_msg(field: Seq<char>) -> Seq<char> {
    NOT_CONFIGURED_HEAD@ + field + NOT_CONFIGURED_TAIL@
}

pub open spec fn url_conflict_msg(overlay_url: Seq<char>, init_url: Seq<char>) -> Seq<char> {
    URL_CONFLICT_1@ + debug_text(overlay_url) + URL_CONFLICT_2@ + debug_text(init_url) + URL_CONFLICT_3@
}

pub open spec fn overlap_msg(overlap: usize, max: usize) -> Seq<char> {
    OVERLAP_1@ + decimal(overlap as nat) + OVERLAP_2@ + decimal(max as nat) + OVERLAP_3@
}

/// The error an operator sees when a call arrives with nothing configured:
/// it names the console, the screen and the two fields to fill in.
pub fn not_configured(field: &str) -> (r: RagError)
    ensures
        r@ == ErrV::InvalidInput(not_configured_msg(field@)),
{
    RagError::InvalidInput(cat3(NOT_CONFIGURED_HEAD, field, NOT_CONFIGURED_TAIL))
}

// ===== resolution =====

/// A URL with surrounding whitespace and trailing slashes removed.
pub open spec fn trim_slashes_spec(url: Seq<char>) -> Seq<char> {
    trim_end_char(trim(url), '/')
}

/// Every URL is joined with a leading-slash path, so a trailing slash would
/// produce `//collections/...`; surrounding whitespace goes too, so a field
/// left as spaces normalises to empty and is caught by the emptiness checks.
pub fn trim_slashes(url: &str) -> (r: String)
    ensures
        r@ == trim_slashes_spec(url@),
{
    let t = trim_str(url);
    trim_end_char_str(t.as_str(), '/')
}

pub open spec fn resolve_qdrant_url_spec(base: Option<ConfigV>, from_overlay: Option<Seq<char>>) -> Result<Seq<char>, ErrV> {
    match from_overlay {
        Some(raw) => {
            let u = trim_slashes_spec(raw);
            if u.len() == 0 {
                Err(ErrV::InvalidInput(EMPTY_OVERLAY_URL@))
            } else {
                match base {
                    Some(b) => if u != b.qdrant_url {
                        Err(ErrV::InvalidInput(url_conflict_msg(u, b.qdrant_url)))
                    } else {
                        Ok(u)
                    },
                    None => Ok(u),
                }
            }
        },
        None => match base {
            Some(b) => Ok(b.qdrant_url),
            None => Err(ErrV::InvalidInput(not_configured_msg("qdrant_url"@))),
        },
    }
}

/// An overlay may supply the Qdrant URL but may not change one a baseline
/// already pinned; a blank one is refused rather than ignored.
fn resolve_qdrant_url(base: Option<&Config>, from_overlay: Option<&String>) -> (r: Result<String, RagError>)
    ensures
        match r {
            Ok(u) => resolve_qdrant_url_spec(base_view(base), opt_ref_view(from_overlay)) == Ok::<Seq<char>, ErrV>(u@),
            Err(e) => resolve_qdrant_url_spec(base_view(base), opt_ref_view(from_overlay)) == Err::<Seq<char>, ErrV>(e@),
        },
{
    match from_overlay {
        Some(raw) => {
            let u = trim_slashes(raw.as_str());
            if u.unicode_len() == 0 {
                return Err(RagError::InvalidInput(String::from_str(EMPTY_OVERLAY_URL)));
            }
            match base {
                Some(b) => {
                    if !str_eq(u.as_str(), b.qdrant_url.as_str()) {
                        let mut m = String::from_str(URL_CONFLICT_1);
                        m.append(debug_str(u.as_str()).as_str());
                        m.append(URL_CONFLICT_2);
                        m.append(debug_str(b.qdrant_url.as_str()).as_str());
                        m.append(URL_CONFLICT_3);
                        Err(RagError::InvalidInput(m))
                    } else {
                        Ok(u)
                    }
                },
                None => Ok(u),
            }
        },
        None => match base {
            Some(b) => Ok(b.qdrant_url.clone()),
            None => Err(not_configured("qdrant_url")),
        },
    }
}

/// Merge the baseline (if any) with this call's overlay (if any), field by
/// field with the overlay first, then validate the result.
pub open spec fn resolve_spec(base: Option<ConfigV>, overlay: Option<ConfigOverlayV>) -> Result<ConfigV, ErrV> {
    let ov_url = match overlay { Some(o) => o.qdrant_url, None => None };
    let ov_coll = match overlay { Some(o) => o.collection, None => None };
    let ov_emb = match overlay { Some(o) => o.embedding, None => None };
    let ov_chunk = match overlay { Some(o) => o.chunk, None => None };
    let ov_req = match overlay { Some(o) => o.require_tenant_overlay, None => None };
    match resolve_qdrant_url_spec(base, ov_url) {
        Err(e) => Err(e),
        Ok(qdrant_url) => {
            let collection = match ov_coll {
                Some(c) => c,
                None => match base { Some(b) => b.collection, None => Seq::empty() },
            };
            let be = match base { Some(b) => b.embedding, None => default_embedding() };
            let base_url = match ov_emb {
                Some(e) => match e.base_url { Some(u) => trim_slashes_spec(u), None => be.base_url },
                None => be.base_url,
            };
            let model = match ov_emb {
                Some(e) => match e.model { Some(m) => m, None => be.model },
                None => be.model,
            };
            let dimensions = match ov_emb {
                Some(e) => match e.dimensions { Some(d) => d, None => be.dimensions },
                None => be.dimensions,
            };
            let bc = match base { Some(b) => b.chunk, None => default_chunk() };
            let max_chars = match ov_chunk {
                Some(c) => match c.max_chars { Some(m) => m, None => bc.max_chars },
                None => bc.max_chars,
            };
            let overlap_chars = match ov_chunk {
                Some(c) => match c.overlap_chars { Some(m) => m, None => bc.overlap_chars },
                None => bc.overlap_chars,
            };
            let require = match ov_req {
                Some(r) => r,
                None => match base { Some(b) => b.require_tenant_overlay, None => false },
            };
            if base_url.len() == 0 {
                Err(ErrV::InvalidInput(EMPTY_BASE_URL@))
            } else if dimensions == 0 {
                Err(ErrV::InvalidInput(ZERO_DIMENSIONS@))
            } else if max_chars == 0 {
                Err(ErrV::InvalidInput(ZERO_MAX_CHARS@))
            } else if overlap_chars >= max_chars {
                Err(ErrV::InvalidInput(overlap_msg(overlap_chars, max_chars)))
            } else {
                Ok(ConfigV {
                    qdrant_url,
                    collection,
                    embedding: EmbeddingConfigV { base_url, model, dimensions },
                    chunk: ChunkConfig { max_chars, overlap_chars },
                    require_tenant_overlay: require,
                })
            }
        },
    }
}

/// Merge the baseline (if any) with this call's tenant overlay (if any),
/// then validate the result.
///
/// Precedence is overlay-first for every field, with one exception: an
/// overlay may not change a `qdrant_url` the baseline pinned, because one
/// instance holds one Qdrant credential under one network allow-list.
pub fn resolve(base: Option<&Config>, overlay: Option<&ConfigOverlay>) -> (r: Result<Config, RagError>)
    ensures
        match r {
            Ok(c) => resolve_spec(base_view(base), overlay_view(overlay)) == Ok::<ConfigV, ErrV>(c@),
            Err(e) => resolve_spec(base_view(base), overlay_view(overlay)) == Err::<ConfigV, ErrV>(e@),
        },
{
    let ov_url: Option<&String> = match overlay { Some(o) => o.qdrant_url.as_ref(), None => None };
    let qdrant_url = match resolve_qdrant_url(base, ov_url) {
        Ok(u) => u,
        Err(e) => return Err(e),
    };
    let collection = match overlay {
        Some(o) if o.collection.is_some() => o.collection.as_ref().unwrap().clone(),
        _ => match base { Some(b) => b.collection.clone(), None => String::new() },
    };
    let be = match base { Some(b) => b.embedding.duplicate(), None => EmbeddingConfig::default() };
    let ov_emb: Option<&EmbeddingOverlay> = match overlay { Some(o) => o.embedding.as_ref(), None => None };
    let base_url = match ov_emb {
        Some(e) => match &e.base_url { Some(u) => trim_slashes(u.as_str()), None => be.base_url.clone() },
        None => be.base_url.clone(),
    };
    let model = match ov_emb {
        Some(e) => match &e.model { Some(m) => m.clone(), None => be.model.clone() },
        None => be.model.clone(),
    };
    let dimensions = match ov_emb {
        Some(e) => match e.dimensions { Some(d) => d, None => be.dimensions },
        None => be.dimensions,
    };
    let bc = match base { Some(b) => b.chunk, None => ChunkConfig::default() };
    let ov_chunk: Option<ChunkOverlay> = match overlay { Some(o) => o.chunk, None => None };
    let max_chars = match ov_chunk {
        Some(c) => match c.max_chars { Some(m) => m, None => bc.max_chars },
        None => bc.max_chars,
    };
    let overlap_chars = match ov_chunk {
        Some(c) => match c.overlap_chars { Some(m) => m, None => bc.overlap_chars },
        None => bc.overlap_chars,
    };
    let require = match overlay {
        Some(o) if o.require_tenant_overlay.is_some() => o.require_tenant_overlay.unwrap(),
        _ => match base { Some(b) => b.require_tenant_overlay, None => false },
    };
    if base_url.unicode_len() == 0 {
        return Err(RagError::InvalidInput(String::from_str(EMPTY_BASE_URL)));
    }
    if dimensions == 0 {
        return Err(RagError::InvalidInput(String::from_str(ZERO_DIMENSIONS)));
    }
    if max_chars == 0 {
        return Err(RagError::InvalidInput(String::from_str(ZERO_MAX_CHARS)));
    }
    if overlap_chars >= max_chars {
        let mut m = String::from_str(OVERLAP_1);
        m.append(decimal_string(overlap_chars as u64).as_str());
        m.append(OVERLAP_2);
        m.append(decimal_string(max_chars as u64).as_str());
        m.append(OVERLAP_3);
        return Err(RagError::InvalidInput(m));
    }
    Ok(Config {
        qdrant_url,
        collection,
        embedding: EmbeddingConfig { base_url, model, dimensions },
        chunk: ChunkConfig { max_chars, overlap_chars },
        require_tenant_overlay: require,
    })
}


// ===== what resolution promises =====

/// Every configuration resolution accepts is usable: a Qdrant URL, an
/// embeddings URL, a non-zero width, and a chunk window with an overlap below
/// it (so chunking always makes progress).
pub proof fn lemma_resolved_config_is_usable(base: Option<ConfigV>, overlay: Option<ConfigOverlayV>)
    requires
        resolve_spec(base, overlay) is Ok,
        base is Some ==> base->0.qdrant_url.len() > 0,
    ensures
        ({
            let c = resolve_spec(base, overlay)->Ok_0;
            &&& c.qdrant_url.len() > 0
            &&& c.embedding.base_url.len() > 0
            &&& c.embedding.dimensions > 0
            &&& c.chunk.max_chars > 0
            &&& c.chunk.overlap_chars < c.chunk.max_chars
        }),
{
}

/// With no baseline and no Qdrant URL in the overlay there is nothing to
/// connect to: resolution refuses with the message that tells the operator
/// what to configure.
pub proof fn lemma_unconfigured_is_refused(overlay: Option<ConfigOverlayV>)
    requires
        overlay is None || overlay->0.qdrant_url is None,
    ensures
        resolve_spec(None, overlay) == Err::<ConfigV, ErrV>(ErrV::InvalidInput(not_configured_msg("qdrant_url"@))),
{
}

/// An overlay may not move a call to another cluster than the one the
/// baseline pinned.
pub proof fn lemma_overlay_cannot_change_pinned_url(b: ConfigV, o: ConfigOverlayV)
    requires
        o.qdrant_url is Some,
        trim_slashes_spec(o.qdrant_url->0) != b.qdrant_url,
    ensures
        resolve_spec(Some(b), Some(o)) is Err,
        resolve_spec(Some(b), Some(o))->Err_0 is InvalidInput,
{
}

/// Without a baseline the overlay alone is a whole configuration: its URL
/// (normalised) and collection are used and every field it leaves out takes
/// its default.
pub proof fn lemma_overlay_alone_configures(o: ConfigOverlayV)
    requires
        o.qdrant_url is Some,
        trim_slashes_spec(o.qdrant_url->0).len() > 0,
        o.embedding is None,
        o.chunk is None,
        o.require_tenant_overlay is None,
    ensures
        resolve_spec(None, Some(o)) == Ok::<ConfigV, ErrV>(ConfigV {
            qdrant_url: trim_slashes_spec(o.qdrant_url->0),
            collection: match o.collection { Some(c) => c, None => Seq::empty() },
            embedding: default_embedding(),
            chunk: default_chunk(),
            require_tenant_overlay: false,
        }),
{
    reveal_strlit("https://api.openai.com/v1");
}

/// A field the overlay sets wins over the baseline; a field it leaves out
/// keeps the baseline's value.
pub proof fn lemma_overlay_field_wins(b: ConfigV, o: ConfigOverlayV)
    requires
        resolve_spec(Some(b), Some(o)) is Ok,
    ensures
        ({
            let c = resolve_spec(Some(b), Some(o))->Ok_0;
            &&& c.collection == (match o.collection { Some(x) => x, None => b.collection })
            &&& c.require_tenant_overlay == (match o.require_tenant_overlay { Some(x) => x, None => b.require_tenant_overlay })
            &&& c.embedding.model == (match o.embedding {
                Some(e) => match e.model { Some(m) => m, None => b.embedding.model },
                None => b.embedding.model,
            })
            &&& c.embedding.dimensions == (match o.embedding {
                Some(e) => match e.dimensions { Some(d) => d, None => b.embedding.dimensions },
                None => b.embedding.dimensions,
            })
            &&& c.chunk.max_chars == (match o.chunk {
                Some(k) => match k.max_chars { Some(m) => m, None => b.chunk.max_chars },
                None => b.chunk.max_chars,
            })
            &&& c.qdrant_url == b.qdrant_url
        }),
{
}

// ===== the configuration document =====

pub const CONFIG_PREFIX: &'static str = "config: ";

/// The `embedding` member of a configuration document.
pub open spec fn embedding_overlay_spec(v: JsonV) -> Result<EmbeddingOverlayV, Seq<char>> {
    match opt_string_spec(v, "base_url"@) {
        Err(m) => Err(m),
        Ok(base_url) => match opt_string_spec(v, "model"@) {
            Err(m) => Err(m),
            Ok(model) => match opt_u32_spec(v, "dimensions"@) {
                Err(m) => Err(m),
                Ok(dimensions) => Ok(EmbeddingOverlayV { base_url, model, dimensions }),
            },
        },
    }
}

/// The `chunk` member of a configuration document.
pub open spec fn chunk_overlay_spec(v: JsonV) -> Result<ChunkOverlay, Seq<char>> {
    match opt_usize_spec(v, "max_chars"@) {
        Err(m) => Err(m),
        Ok(max_chars) => match opt_usize_spec(v, "overlap_chars"@) {
            Err(m) => Err(m),
            Ok(overlap_chars) => Ok(ChunkOverlay { max_chars, overlap_chars }),
        },
    }
}

pub open spec fn opt_embedding_spec(obj: JsonV) -> Result<Option<EmbeddingOverlayV>, Seq<char>> {
    match present(obj, "embedding"@) {
        None => Ok(None),
        Some(v) => if v is Object {
            match embedding_overlay_spec(v) {
                Ok(e) => Ok(Some(e)),
                Err(m) => Err(m),
            }
        } else {
            Err(type_msg("embedding"@, AN_OBJECT@))
        },
    }
}

pub open spec fn opt_chunk_spec(obj: JsonV) -> Result<Option<ChunkOverlay>, Seq<char>> {
    match present(obj, "chunk"@) {
        None => Ok(None),
        Some(v) => if v is Object {
            match chunk_overlay_spec(v) {
                Ok(c) => Ok(Some(c)),
                Err(m) => Err(m),
            }
        } else {
            Err(type_msg("chunk"@, AN_OBJECT@))
        },
    }
}

/// A configuration document (an object) read as an overlay: every member
/// optional, unknown members ignored, a member of the wrong type refused.
pub open spec fn overlay_spec(v: JsonV) -> Result<ConfigOverlayV, Seq<char>> {
    match opt_string_spec(v, "qdrant_url"@) {
        Err(m) => Err(m),
        Ok(qdrant_url) => match opt_string_spec(v, "collection"@) {
            Err(m) => Err(m),
            Ok(collection) => match opt_embedding_spec(v) {
                Err(m) => Err(m),
                Ok(embedding) => match opt_chunk_spec(v) {
                    Err(m) => Err(m),
                    Ok(chunk) => match opt_bool_spec(v, "require_tenant_overlay"@) {
                        Err(m) => Err(m),
                        Ok(require_tenant_overlay) => Ok(ConfigOverlayV { qdrant_url, collection, embedding, chunk, require_tenant_overlay }),
                    },
                },
            },
        },
    }
}

fn embedding_overlay_from(v: &Json) -> (r: Result<EmbeddingOverlay, String>)
    ensures
        match r {
            Ok(e) => embedding_overlay_spec(v@) == Ok::<EmbeddingOverlayV, Seq<char>>(e@),
            Err(m) => embedding_overlay_spec(v@) == Err::<EmbeddingOverlayV, Seq<char>>(m@),
        },
{
    let base_url = opt_string(v, "base_url")?;
    let model = opt_string(v, "model")?;
    let dimensions = opt_u32(v, "dimensions")?;
    Ok(EmbeddingOverlay { base_url, model, dimensions })
}

fn chunk_overlay_from(v: &Json) -> (r: Result<ChunkOverlay, String>)
    ensures
        match r {
            Ok(c) => chunk_overlay_spec(v@) == Ok::<ChunkOverlay, Seq<char>>(c),
            Err(m) => chunk_overlay_spec(v@) == Err::<ChunkOverlay, Seq<char>>(m@),
        },
{
    let max_chars = opt_usize(v, "max_chars")?;
    let overlap_chars = opt_usize(v, "overlap_chars")?;
    Ok(ChunkOverlay { max_chars, overlap_chars })
}

/// Read an overlay out of a configuration document. See [`overlay_spec`].
pub fn overlay_from(v: &Json) -> (r: Result<ConfigOverlay, String>)
    ensures
        match r {
            Ok(o) => overlay_spec(v@) == Ok::<ConfigOverlayV, Seq<char>>(o@),
            Err(m) => overlay_spec(v@) == Err::<ConfigOverlayV, Seq<char>>(m@),
        },
{
    let qdrant_url = opt_string(v, "qdrant_url")?;
    let collection = opt_string(v, "collection")?;
    let embedding = match v.get("embedding") {
        None | Some(Json::Null) => None,
        Some(e) => {
            if !e.is_object() {
                return Err(wrong_type("embedding", AN_OBJECT));
            }
            Some(embedding_overlay_from(e)?)
        },
    };
    let chunk = match v.get("chunk") {
        None | Some(Json::Null) => None,
        Some(c) => {
            if !c.is_object() {
                return Err(wrong_type("chunk", AN_OBJECT));
            }
            Some(chunk_overlay_from(c)?)
        },
    };
    let require_tenant_overlay = opt_bool(v, "require_tenant_overlay")?;
    Ok(ConfigOverlay { qdrant_url, collection, embedding, chunk, require_tenant_overlay })
}

/// A complete configuration document, validated by resolving it against no
/// other overlay: an unusable document fails here rather than on the first
/// call. A document without `collection` is allowed; each call refuses if
/// nothing names one.
pub open spec fn parse_config_spec(json: Seq<char>) -> Result<ConfigV, ErrV> {
    match json_decode_text(json) {
        Err(m) => Err(ErrV::InvalidInput(CONFIG_PREFIX@ + m)),
        Ok(doc) => if !(doc is Object) {
            Err(ErrV::InvalidInput(CONFIG_PREFIX@ + NOT_AN_OBJECT@))
        } else {
            match overlay_spec(doc) {
                Err(m) => Err(ErrV::InvalidInput(CONFIG_PREFIX@ + m)),
                Ok(o) => resolve_spec(None, Some(o)),
            }
        },
    }
}

/// Parse and validate the body of `lifecycle::init`. See
/// [`parse_config_spec`].
pub fn parse_config(json: &str) -> (r: Result<Config, RagError>)
    ensures
        match r {
            Ok(c) => parse_config_spec(json@) == Ok::<ConfigV, ErrV>(c@),
            Err(e) => parse_config_spec(json@) == Err::<ConfigV, ErrV>(e@),
        },
{
    let doc = match decode_json_text(json) {
        Ok(d) => d,
        Err(m) => return Err(RagError::InvalidInput(cat(CONFIG_PREFIX, m.as_str()))),
    };
    if !doc.is_object() {
        return Err(RagError::InvalidInput(cat(CONFIG_PREFIX, NOT_AN_OBJECT)));
    }
    let overlay = match overlay_from(&doc) {
        Ok(o) => o,
        Err(m) => return Err(RagError::InvalidInput(cat(CONFIG_PREFIX, m.as_str()))),
    };
    resolve(None, Some(&overlay))
}

// ===== the initialisation baseline =====

/// The baseline handed over at initialisation, with its re-initialisation
/// policy: storing the same configuration again is a harmless reload; storing
/// a different one is refused and the first one stays in effect.
pub struct ConfigStore {
    installed: Option<Config>,
}

impl ConfigStore {
    /// What this store holds.
    pub closed spec fn current(&self) -> Option<ConfigV> {
        match self.installed {
            Some(c) => Some(c@),
            None => None,
        }
    }

    /// An empty store.
    pub fn new() -> (r: Self)
        ensures
            r.current() is None,
    {
        ConfigStore { installed: None }
    }

    /// Install `cfg`, or accept it again if it is the one already installed.
    pub fn store(&mut self, cfg: Config) -> (r: Result<(), RagError>)
        ensures
            match old(self).current() {
                None => final(self).current() == Some(cfg@) && r is Ok,
                Some(existing) => {
                    &&& final(self).current() == Some(existing)
                    &&& existing == cfg@ ==> r is Ok
                    &&& existing != cfg@ ==> (r matches Err(e) && e@ == ErrV::InvalidInput(RELOAD_REFUSED@))
                },
            },
    {
        match &self.installed {
            Some(existing) => {
                if existing.same_as(&cfg) {
                    Ok(())
                } else {
                    Err(RagError::InvalidInput(String::from_str(RELOAD_REFUSED)))
                }
            },
            None => {
                self.installed = Some(cfg);
                Ok(())
            },
        }
    }

    /// The installed baseline, if any.
    pub fn installed(&self) -> (r: Option<&Config>)
        ensures
            match r {
                Some(c) => self.current() == Some(c@),
                None => self.current() is None,
            },
    {
        self.installed.as_ref()
    }
}

/// Store the parsed baseline. See [`ConfigStore::store`] for the re-init
/// policy.
pub fn store(baseline: &mut ConfigStore, cfg: Config) -> (r: Result<(), RagError>)
    ensures
        match old(baseline).current() {
            None => final(baseline).current() == Some(cfg@) && r is Ok,
            Some(existing) => {
                &&& final(baseline).current() == Some(existing)
                &&& existing == cfg@ ==> r is Ok
                &&& existing != cfg@ ==> (r matches Err(e) && e@ == ErrV::InvalidInput(RELOAD_REFUSED@))
            },
        },
{
    baseline.store(cfg)
}

/// The baseline, if one was ever stored. `None` is the normal case: the
/// configuration then arrives per call in the tenant overlay.
pub fn installed(baseline: &ConfigStore) -> (r: Option<&Config>)
    ensures
        match r {
            Some(c) => baseline.current() == Some(c@),
            None => baseline.current() is None,
        },
{
    baseline.installed()
}

} // verus!
