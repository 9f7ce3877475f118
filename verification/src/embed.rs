//! OpenAI-shaped embeddings client: builds a request, parses a response.
use vstd::prelude::*;

use crate::config::{EmbeddingConfig, EmbeddingConfigV};
use crate::error::{ErrV, RagError};
use crate::host::{headers_view, HttpRequest, HttpRequestV};
use crate::json::{
    array_of_strings, as_u64, decode_json, encode_json, get, json_decode, json_encode,
    json_seq_view, lemma_json_seq_view, object2, strings_json, Json, JsonV,
};
use crate::fields::{numbers_from, numbers_of};
use crate::text::{cat, decimal, decimal_string, lossy_text, strings_view, utf8_lossy};

verus! {

pub const KEY_REJECTED: &'static str = "embeddings API rejected the key (HTTP ";
pub const HTTP_STATUS: &'static str = "embeddings API returned HTTP ";
pub const NOT_JSON: &'static str = "embeddings response is not JSON: ";
pub const SHAPE: &'static str = "expected an object whose `data` is an array of {\"index\": unsigned integer, \"embedding\": array of numbers}";
pub const BAD_INDICES: &'static str = "embeddings API returned indices that are not exactly 0..";
pub const DIM_1: &'static str = "embedding at index ";
pub const DIM_2: &'static str = " has ";
pub const DIM_3: &'static str = " dimensions, collection expects ";

/// The body of an embeddings request: the model and every input, in order.
pub open spec fn embed_body(model: Seq<char>, inputs: Seq<Seq<char>>) -> JsonV {
    JsonV::Object(seq![("model"@, JsonV::Str(model)), ("input"@, JsonV::Array(strings_json(inputs)))])
}

pub open spec fn embed_request_spec(cfg: EmbeddingConfigV, inputs: Seq<Seq<char>>, api_key: Seq<char>) -> HttpRequestV {
    HttpRequestV {
        method: "POST"@,
        url: cfg.base_url + "/embeddings"@,
        headers: seq![("authorization"@, "Bearer "@ + api_key), ("content-type"@, "application/json"@)],
        body: Some(json_encode(embed_body(cfg.model, inputs))),
    }
}

/// `POST {base_url}/embeddings` for a batch of inputs, with bearer auth.
pub fn embed_request(cfg: &EmbeddingConfig, inputs: &Vec<String>, api_key: &str) -> (r: HttpRequest)
    ensures
        r@ == embed_request_spec(cfg@, strings_view(inputs@), api_key@),
{
    let body = object2("model", Json::Str(cfg.model.clone()), "input", array_of_strings(inputs));
    let headers = vec![
        (String::from_str("authorization"), cat("Bearer ", api_key)),
        (String::from_str("content-type"), String::from_str("application/json")),
    ];
    assert(headers_view(headers@) =~= seq![("authorization"@, "Bearer "@ + api_key@), ("content-type"@, "application/json"@)]);
    HttpRequest {
        method: String::from_str("POST"),
        url: cat(cfg.base_url.as_str(), "/embeddings"),
        headers,
        body: Some(encode_json(&body)),
    }
}

/// One `{"index": n, "embedding": [...]}` item; unknown members are ignored.
pub open spec fn item_of(v: JsonV) -> Option<(u64, Seq<Seq<char>>)> {
    match (get(v, "index"@), get(v, "embedding"@)) {
        (Some(ix), Some(JsonV::Array(e))) => match (as_u64(ix), numbers_of(e)) {
            (Some(i), Some(ns)) => Some((i, ns)),
            _ => None,
        },
        _ => None,
    }
}

/// The items of an embeddings response `{"data": [...]}`, when it has that
/// shape.
pub open spec fn embed_items(doc: JsonV) -> Option<Seq<(u64, Seq<Seq<char>>)>> {
    match get(doc, "data"@) {
        Some(JsonV::Array(a)) => if forall|k: int| 0 <= k < a.len() ==> (#[trigger] item_of(a[k])) is Some {
            Some(a.map_values(|x: JsonV| item_of(x)->0))
        } else {
            None
        },
        _ => None,
    }
}

/// The declared indices are exactly `0..n`: each below `n`, no two alike,
/// and every one of `0..n` present. Two items claiming one index would
/// otherwise pair one input's text with another's vector.
pub open spec fn indices_exact(items: Seq<(u64, Seq<Seq<char>>)>) -> bool {
    &&& forall|j: int| 0 <= j < items.len() ==> (#[trigger] items[j]).0 < items.len()
    &&& forall|j1: int, j2: int| 0 <= j1 < items.len() && 0 <= j2 < items.len() && j1 != j2
        ==> (#[trigger] items[j1]).0 != (#[trigger] items[j2]).0
    &&& forall|k: int| 0 <= k < items.len() ==> #[trigger] has_index(items, k)
}

pub open spec fn has_index(items: Seq<(u64, Seq<Seq<char>>)>, k: int) -> bool {
    exists|j: int| 0 <= j < items.len() && items[j].0 == k
}

/// The vector of the item that declares index `k`.
pub open spec fn vector_at(items: Seq<(u64, Seq<Seq<char>>)>, k: int) -> Seq<Seq<char>> {
    items[choose|j: int| 0 <= j < items.len() && items[j].0 == k].1
}

/// The vectors in the order of their declared indices.
pub open spec fn in_index_order(items: Seq<(u64, Seq<Seq<char>>)>) -> Seq<Seq<Seq<char>>> {
    Seq::new(items.len(), |k: int| vector_at(items, k))
}

/// The first position at or after `i` whose vector is not `expected` wide.
pub open spec fn first_bad_width(vs: Seq<Seq<Seq<char>>>, expected: nat, i: nat) -> Option<nat>
    decreases vs.len() - i,
{
    if i >= vs.len() {
        None
    } else if vs[i as int].len() != expected {
        Some(i)
    } else {
        first_bad_width(vs, expected, i + 1)
    }
}

pub open spec fn dim_msg(index: nat, got: nat, expected: nat) -> Seq<char> {
    DIM_1@ + decimal(index) + DIM_2@ + decimal(got) + DIM_3@ + decimal(expected)
}

/// The vectors of an embeddings response, ordered by the API's declared
/// `index`, or the error: 401/403 is `PermissionDenied`, any other non-2xx
/// or a body of the wrong shape `Internal`, indices other than exactly
/// `0..n` `Internal`, a vector of the wrong width `SchemaInvalid` (the first
/// in index order).
pub open spec fn parse_embed_spec(status: u16, body: Seq<u8>, expected_dim: u32) -> Result<Seq<Seq<Seq<char>>>, ErrV> {
    let text = utf8_lossy(body);
    if status == 401 || status == 403 {
        Err(ErrV::PermissionDenied(KEY_REJECTED@ + decimal(status as nat) + "): "@ + text))
    } else if !(200 <= status < 300) {
        Err(ErrV::Internal(HTTP_STATUS@ + decimal(status as nat) + ": "@ + text))
    } else {
        match json_decode(body) {
            Err(m) => Err(ErrV::Internal(NOT_JSON@ + m)),
            Ok(doc) => match embed_items(doc) {
                None => Err(ErrV::Internal(NOT_JSON@ + SHAPE@)),
                Some(items) => if !indices_exact(items) {
                    Err(ErrV::Internal(BAD_INDICES@ + decimal(items.len())))
                } else {
                    let vs = in_index_order(items);
                    match first_bad_width(vs, expected_dim as nat, 0) {
                        Some(k) => Err(ErrV::SchemaInvalid(dim_msg(k, vs[k as int].len(), expected_dim as nat))),
                        None => Ok(vs),
                    }
                },
            },
        }
    }
}

pub open spec fn vectors_view(v: Seq<Vec<String>>) -> Seq<Seq<Seq<char>>> {
    v.map_values(|x: Vec<String>| strings_view(x@))
}

/// A copy of a list of strings.
pub fn copy_strings(v: &Vec<String>) -> (r: Vec<String>)
    ensures
        strings_view(r@) == strings_view(v@),
{
    let mut out: Vec<String> = Vec::new();
    let mut i: usize = 0;
    while i < v.len()
        invariant
            i <= v.len(),
            strings_view(out@) =~= strings_view(v@).take(i as int),
        decreases v.len() - i,
    {
        let c = v[i].clone();
        let ghost prev = out@;
        out.push(c);
        assert(out@ =~= prev.push(c));
        assert(strings_view(v@).take(i + 1) =~= strings_view(v@).take(i as int).push(v@[i as int]@));
        i += 1;
    }
    assert(strings_view(v@).take(i as int) =~= strings_view(v@));
    out
}

fn item_from(v: &Json) -> (r: Option<(u64, Vec<String>)>)
    ensures
        match r {
            Some(it) => item_of(v@) == Some((it.0, strings_view(it.1@))),
            None => item_of(v@) is None,
        },
{
    let ix = match v.get("index") {
        Some(x) => x,
        None => return None,
    };
    let emb = match v.get("embedding") {
        Some(Json::Array(e)) => e,
        _ => return None,
    };
    let i = match ix.as_u64() {
        Some(i) => i,
        None => return None,
    };
    match numbers_from(emb) {
        Some(ns) => Some((i, ns)),
        None => None,
    }
}

pub open spec fn items_view(s: Seq<(u64, Vec<String>)>) -> Seq<(u64, Seq<Seq<char>>)> {
    s.map_values(|it: (u64, Vec<String>)| (it.0, strings_view(it.1@)))
}

fn items_from(doc: &Json) -> (r: Option<Vec<(u64, Vec<String>)>>)
    ensures
        match r {
            Some(items) => embed_items(doc@) == Some(items_view(items@)),
            None => embed_items(doc@) is None,
        },
{
    let data = match doc.get("data") {
        Some(Json::Array(a)) => a,
        _ => return None,
    };
    proof { lemma_json_seq_view(data@); }
    let ghost s = json_seq_view(data@);
    assert(get(doc@, "data"@) == Some(JsonV::Array(s)));
    let mut out: Vec<(u64, Vec<String>)> = Vec::new();
    let mut i: usize = 0;
    while i < data.len()
        invariant
            i <= data.len(),
            s == json_seq_view(data@),
            get(doc@, "data"@) == Some(JsonV::Array(s)),
            s.len() == data@.len(),
            forall|k: int| 0 <= k < data@.len() ==> #[trigger] s[k] == data@[k]@,
            forall|k: int| 0 <= k < i ==> (#[trigger] item_of(s[k])) is Some,
            items_view(out@) =~= s.take(i as int).map_values(|x: JsonV| item_of(x)->0),
        decreases data.len() - i,
    {
        match item_from(&data[i]) {
            Some(it) => {
                let ghost iv = (it.0, strings_view(it.1@));
                out.push(it);
                assert(s.take(i + 1).map_values(|x: JsonV| item_of(x)->0)
                    =~= s.take(i as int).map_values(|x: JsonV| item_of(x)->0).push(iv));
            },
            None => {
                assert(item_of(s[i as int]) is None);
                assert(get(doc@, "data"@) == Some(JsonV::Array(s)));
                assert(!(forall|k: int| 0 <= k < s.len() ==> (#[trigger] item_of(s[k])) is Some));
                return None;
            },
        }
        i += 1;
    }
    assert(s.take(i as int) =~= s);
    Some(out)
}

/// The vectors of `items` placed by their declared index, or `None` when the
/// indices are not exactly `0..n`.
fn order_by_index(items: &Vec<(u64, Vec<String>)>) -> (r: Option<Vec<Vec<String>>>)
    ensures
        match r {
            Some(vs) => indices_exact(items_view(items@)) && vectors_view(vs@) == in_index_order(items_view(items@)),
            None => !indices_exact(items_view(items@)),
        },
{
    let ghost it = items_view(items@);
    let n = items.len();
    let mut slots: Vec<Option<Vec<String>>> = Vec::new();
    let mut k: usize = 0;
    while k < n
        invariant
            k <= n,
            slots.len() == k,
            forall|q: int| 0 <= q < k ==> (#[trigger] slots@[q]) is None,
        decreases n - k,
    {
        slots.push(None);
        k += 1;
    }
    let mut i: usize = 0;
    while i < n
        invariant
            n == items.len(),
            it == items_view(items@),
            it.len() == n,
            i <= n,
            slots.len() == n,
            forall|j: int| 0 <= j < i ==> (#[trigger] it[j]).0 < n,
            forall|j1: int, j2: int| 0 <= j1 < i && 0 <= j2 < i && j1 != j2
                ==> (#[trigger] it[j1]).0 != (#[trigger] it[j2]).0,
            forall|q: int| 0 <= q < n ==> ((#[trigger] slots@[q]) is Some <==> exists|j: int| 0 <= j < i && it[j].0 == q),
            forall|j: int| 0 <= j < i ==> match #[trigger] slots@[it[j].0 as int] {
                Some(v) => strings_view(v@) == it[j].1,
                None => false,
            },
        decreases n - i,
    {
        let idx = items[i].0;
        assert(it[i as int].0 == idx);
        if idx >= n as u64 {
            return None;
        }
        let ix = idx as usize;
        if slots[ix].is_some() {
            proof {
                let j = choose|j: int| 0 <= j < i && it[j].0 == ix as int;
                assert(it[j].0 == it[i as int].0);
            }
            return None;
        }
        let copy = copy_strings(&items[i].1);
        slots.set(ix, Some(copy));
        proof {
            assert forall|q: int| 0 <= q < n implies ((#[trigger] slots@[q]) is Some <==> exists|j: int| 0 <= j < i + 1 && it[j].0 == q) by {
                if q == ix as int {
                    assert(it[i as int].0 == q);
                } else {
                    if exists|j: int| 0 <= j < i + 1 && it[j].0 == q {
                        let j = choose|j: int| 0 <= j < i + 1 && it[j].0 == q;
                        assert(j != i);
                    }
                }
            }
            assert forall|j: int| 0 <= j < i + 1 implies match #[trigger] slots@[it[j].0 as int] {
                Some(v) => strings_view(v@) == it[j].1,
                None => false,
            } by {
                if j < i {
                    assert(it[j].0 != it[i as int].0);
                }
            }
        }
        i += 1;
    }
    let mut out: Vec<Vec<String>> = Vec::new();
    let mut q: usize = 0;
    while q < n
        invariant
            n == items.len(),
            it == items_view(items@),
            it.len() == n,
            q <= n,
            slots.len() == n,
            forall|j: int| 0 <= j < n ==> (#[trigger] it[j]).0 < n,
            forall|j1: int, j2: int| 0 <= j1 < n && 0 <= j2 < n && j1 != j2
                ==> (#[trigger] it[j1]).0 != (#[trigger] it[j2]).0,
            forall|p: int| 0 <= p < n ==> ((#[trigger] slots@[p]) is Some <==> exists|j: int| 0 <= j < n && it[j].0 == p),
            forall|j: int| 0 <= j < n ==> match #[trigger] slots@[it[j].0 as int] {
                Some(v) => strings_view(v@) == it[j].1,
                None => false,
            },
            forall|p: int| 0 <= p < q ==> #[trigger] has_index(it, p),
            vectors_view(out@) =~= in_index_order(it).take(q as int),
        decreases n - q,
    {
        match &slots[q] {
            Some(v) => {
                let copy = copy_strings(v);
                proof {
                    let j = choose|j: int| 0 <= j < n && it[j].0 == q as int;
                    assert(has_index(it, q as int));
                    let c = choose|c: int| 0 <= c < it.len() && it[c].0 == q as int;
                    assert(c == j);
                    assert(vector_at(it, q as int) == it[j].1);
                }
                let ghost prev = out@;
                out.push(copy);
                proof {
                    assert(out@ =~= prev.push(copy));
                    assert(vectors_view(out@) =~= vectors_view(prev).push(strings_view(copy@)));
                    assert(in_index_order(it).take(q + 1) =~= in_index_order(it).take(q as int).push(vector_at(it, q as int)));
                }
            },
            None => {
                assert(!has_index(it, q as int));
                return None;
            },
        }
        q += 1;
    }
    assert(in_index_order(it).take(q as int) =~= in_index_order(it));
    Some(out)
}

/// The first vector, in order, that is not `expected` wide.
fn first_bad(vs: &Vec<Vec<String>>, expected: u32) -> (r: Option<usize>)
    ensures
        match r {
            Some(k) => k < vs.len() && first_bad_width(vectors_view(vs@), expected as nat, 0) == Some(k as nat),
            None => first_bad_width(vectors_view(vs@), expected as nat, 0) is None,
        },
{
    let ghost want = vectors_view(vs@);
    let mut k: usize = 0;
    while k < vs.len()
        invariant
            k <= vs.len(),
            want == vectors_view(vs@),
            first_bad_width(want, expected as nat, 0) == first_bad_width(want, expected as nat, k as nat),
        decreases vs.len() - k,
    {
        assert(want[k as int].len() == vs@[k as int].len());
        if vs[k].len() != expected as usize {
            return Some(k);
        }
        k += 1;
    }
    None
}

/// Parse an embeddings response. See [`parse_embed_spec`].
pub fn parse_embed_response(status: u16, body: &[u8], expected_dim: u32) -> (r: Result<Vec<Vec<String>>, RagError>)
    ensures
        match r {
            Ok(vs) => parse_embed_spec(status, body@, expected_dim) == Ok::<Seq<Seq<Seq<char>>>, ErrV>(vectors_view(vs@)),
            Err(e) => parse_embed_spec(status, body@, expected_dim) == Err::<Seq<Seq<Seq<char>>>, ErrV>(e@),
        },
{
    let text = lossy_text(body);
    if status == 401 || status == 403 {
        let mut m = String::from_str(KEY_REJECTED);
        m.append(decimal_string(status as u64).as_str());
        m.append("): ");
        m.append(text.as_str());
        return Err(RagError::PermissionDenied(m));
    }
    if !(200 <= status && status < 300) {
        let mut m = String::from_str(HTTP_STATUS);
        m.append(decimal_string(status as u64).as_str());
        m.append(": ");
        m.append(text.as_str());
        return Err(RagError::Internal(m));
    }
    let doc = match decode_json(body) {
        Ok(d) => d,
        Err(m) => return Err(RagError::Internal(cat(NOT_JSON, m.as_str()))),
    };
    let items = match items_from(&doc) {
        Some(items) => items,
        None => return Err(RagError::Internal(cat(NOT_JSON, SHAPE))),
    };
    let vs = match order_by_index(&items) {
        Some(vs) => vs,
        None => {
            assert(items_view(items@).len() == items.len());
            return Err(RagError::Internal(cat(BAD_INDICES, decimal_string(items.len() as u64).as_str())));
        },
    };
    match first_bad(&vs, expected_dim) {
        Some(k) => {
            let mut m = String::from_str(DIM_1);
            m.append(decimal_string(k as u64).as_str());
            m.append(DIM_2);
            m.append(decimal_string(vs[k].len() as u64).as_str());
            m.append(DIM_3);
            m.append(decimal_string(expected_dim as u64).as_str());
            assert(vectors_view(vs@)[k as int].len() == vs@[k as int].len());
            Err(RagError::SchemaInvalid(m))
        },
        None => Ok(vs),
    }
}


/// `req` asks the embeddings API at `base_url`, with model `model`, for the
/// embeddings of `inputs`, in that order.
pub open spec fn embeds_inputs(req: HttpRequestV, base_url: Seq<char>, model: Seq<char>, inputs: Seq<Seq<char>>) -> bool {
    exists|body: JsonV| {
        &&& req.method == "POST"@
        &&& req.url == base_url + "/embeddings"@
        &&& req.body == Some(#[trigger] json_encode(body))
        &&& get(body, "model"@) == Some(JsonV::Str(model))
        &&& get(body, "input"@) == Some(JsonV::Array(strings_json(inputs)))
    }
}

/// An embeddings request lists every input, in order, under the configured
/// model.
pub proof fn lemma_embed_request_lists_inputs(cfg: EmbeddingConfigV, inputs: Seq<Seq<char>>, api_key: Seq<char>)
    ensures
        embeds_inputs(embed_request_spec(cfg, inputs, api_key), cfg.base_url, cfg.model, inputs),
{
    reveal_strlit("model");
    reveal_strlit("input");
    assert("model"@.len() == 5 && "input"@.len() == 5 && "model"@[0] == 'm' && "input"@[0] == 'i');
    let m = seq![("model"@, JsonV::Str(cfg.model)), ("input"@, JsonV::Array(strings_json(inputs)))];
    assert(m[0].0 != m[1].0);
    crate::json::lemma_entries_get_at(m, 0);
    crate::json::lemma_entries_get_at(m, 1);
    let body = embed_body(cfg.model, inputs);
    assert(embed_request_spec(cfg, inputs, api_key).body == Some(json_encode(body)));
}

/// A parsed embeddings response holds one vector per item, and at position
/// `k` the vector of the item that declared index `k`, wherever that item
/// stood in `data`: input `k` gets its own embedding.
pub proof fn lemma_embeddings_in_declared_order(status: u16, body: Seq<u8>, expected_dim: u32, j: int)
    requires
        parse_embed_spec(status, body, expected_dim) is Ok,
        0 <= j,
        embed_items(json_decode(body)->Ok_0) matches Some(items) && j < items.len(),
    ensures
        ({
            let items = embed_items(json_decode(body)->Ok_0)->0;
            let vs = parse_embed_spec(status, body, expected_dim)->Ok_0;
            &&& vs.len() == items.len()
            &&& vs[items[j].0 as int] == items[j].1
        }),
{
    let items = embed_items(json_decode(body)->Ok_0)->0;
    let k = items[j].0 as int;
    assert(indices_exact(items));
    assert(0 <= k < items.len());
    let w = choose|w: int| 0 <= w < items.len() && items[w].0 == k;
    assert(0 <= w < items.len() && items[w].0 == k);
    if w != j {
        assert(items[w].0 != items[j].0);
    }
    assert(in_index_order(items)[k] == vector_at(items, k));
}

/// Two items claiming one index are refused as `Internal`, never silently
/// paired with the wrong input, however the rest of the response looks.
pub proof fn lemma_duplicate_index_is_refused(status: u16, body: Seq<u8>, expected_dim: u32, j1: int, j2: int)
    requires
        200 <= status < 300,
        json_decode(body) is Ok,
        embed_items(json_decode(body)->Ok_0) is Some,
        ({
            let items = embed_items(json_decode(body)->Ok_0)->0;
            &&& 0 <= j1 < items.len()
            &&& 0 <= j2 < items.len()
            &&& j1 != j2
            &&& items[j1].0 == items[j2].0
        }),
    ensures
        parse_embed_spec(status, body, expected_dim) is Err,
        parse_embed_spec(status, body, expected_dim)->Err_0 is Internal,
{
    let items = embed_items(json_decode(body)->Ok_0)->0;
    assert(!indices_exact(items)) by {
        assert(items[j1].0 == items[j2].0);
    }
}

} // verus!
