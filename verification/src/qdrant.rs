//! Qdrant REST request builders and response parsers.
use vstd::prelude::*;

use crate::error::{ErrV, RagError};
use crate::host::{HttpRequest, HttpRequestV, headers_view};
use crate::json::{
    array, array_of_numbers, array_of_strings, as_array, decode_json, encode_json, encode_json_text,
    entries_insert, get, insert_entry, json_decode, json_encode, json_seq_view, json_text,
    lemma_json_seq_view, numbers_json, object1, object2, object3, strings_json, Json, JsonV,
};
use crate::text::{
    cat, cat3, chars_of, contains, contains_chars, decimal, decimal_string, lossy_text,
    lower_ascii_chars, lower_ascii_seq, strings_view, utf8_lossy,
};

verus! {

/// One point to write: its id, its vector (each component the decimal text
/// of a JSON number) and its payload.
#[derive(Debug, PartialEq, Eq)]
pub struct Point {
    pub id: String,
    pub vector: Vec<String>,
    pub payload: Json,
}

pub struct PointV {
    pub id: Seq<char>,
    pub vector: Seq<Seq<char>>,
    pub payload: JsonV,
}

impl View for Point {
    type V = PointV;

    open spec fn view(&self) -> PointV {
        PointV { id: self.id@, vector: strings_view(self.vector@), payload: self.payload@ }
    }
}

pub open spec fn points_view(s: Seq<Point>) -> Seq<PointV> {
    s.map_values(|p: Point| p@)
}

/// One search hit: the point id, its score (a JSON number) and its payload.
#[derive(Debug, PartialEq, Eq)]
pub struct Hit {
    pub id: String,
    pub score: Json,
    pub payload: Json,
}

pub struct HitV {
    pub id: Seq<char>,
    pub score: JsonV,
    pub payload: JsonV,
}

impl View for Hit {
    type V = HitV;

    open spec fn view(&self) -> HitV {
        HitV { id: self.id@, score: self.score@, payload: self.payload@ }
    }
}

pub open spec fn hits_view(s: Seq<Hit>) -> Seq<HitV> {
    s.map_values(|h: Hit| h@)
}

/// One point of a Scroll API page.
#[derive(Debug, PartialEq, Eq)]
pub struct ScrollPoint {
    pub id: String,
    pub payload: Json,
}

pub struct ScrollPointV {
    pub id: Seq<char>,
    pub payload: JsonV,
}

impl View for ScrollPoint {
    type V = ScrollPointV;

    open spec fn view(&self) -> ScrollPointV {
        ScrollPointV { id: self.id@, payload: self.payload@ }
    }
}

pub open spec fn scroll_points_view(s: Seq<ScrollPoint>) -> Seq<ScrollPointV> {
    s.map_values(|p: ScrollPoint| p@)
}

/// One page of the Scroll API. `next_page_offset` is `None` once there is
/// nothing left to page through.
#[derive(Debug, PartialEq, Eq)]
pub struct ScrollPage {
    pub points: Vec<ScrollPoint>,
    pub next_page_offset: Option<Json>,
}

pub struct ScrollPageV {
    pub points: Seq<ScrollPointV>,
    pub next_page_offset: Option<JsonV>,
}

impl View for ScrollPage {
    type V = ScrollPageV;

    open spec fn view(&self) -> ScrollPageV {
        ScrollPageV {
            points: scroll_points_view(self.points@),
            next_page_offset: match self.next_page_offset {
                Some(j) => Some(j@),
                None => None,
            },
        }
    }
}

/// Which points a delete removes: these ids, or every chunk of a document.
#[derive(Debug, PartialEq, Eq)]
pub enum DeleteSelector {
    Ids(Vec<String>),
    DocId(String),
}

pub enum DeleteSelectorV {
    Ids(Seq<Seq<char>>),
    DocId(Seq<char>),
}

impl View for DeleteSelector {
    type V = DeleteSelectorV;

    open spec fn view(&self) -> DeleteSelectorV {
        match self {
            DeleteSelector::Ids(ids) => DeleteSelectorV::Ids(strings_view(ids@)),
            DeleteSelector::DocId(d) => DeleteSelectorV::DocId(d@),
        }
    }
}


// ===== point ids =====

/// The fixed namespace for chunk point ids (the RFC 4122 "X.500" namespace, a
/// constant nothing else here reuses). Changing it orphans every existing
/// point.
pub const CHUNK_NAMESPACE: [u8; 16] = [
    0x6bu8, 0xa7u8, 0xb8u8, 0x12u8, 0x9du8, 0xadu8, 0x11u8, 0xd1u8,
    0x80u8, 0xb4u8, 0x00u8, 0xc0u8, 0x4fu8, 0xd4u8, 0x30u8, 0xc8u8,
];

/// An ASCII hexadecimal digit, in either case.
pub open spec fn is_hex(c: char) -> bool {
    ('0' <= c <= '9') || ('a' <= c <= 'f') || ('A' <= c <= 'F')
}

/// The hyphenated UUID layout `8-4-4-4-12`: hyphens at 8, 13, 18 and 23,
/// hexadecimal digits everywhere else.
pub open spec fn is_hyphenated_uuid(s: Seq<char>) -> bool {
    &&& s.len() == 36
    &&& forall|i: int| 0 <= i < 36 ==> (if i == 8 || i == 13 || i == 18 || i == 23 {
        #[trigger] s[i] == '-'
    } else {
        is_hex(s[i])
    })
}

/// What `Uuid::parse_str` accepts: 32 hexadecimal digits; the hyphenated
/// form; the hyphenated form in braces; or `urn:uuid:` (in any ASCII case)
/// followed by the hyphenated form.
pub open spec fn uuid_text(s: Seq<char>) -> bool {
    ||| (s.len() == 32 && forall|i: int| 0 <= i < 32 ==> is_hex(#[trigger] s[i]))
    ||| is_hyphenated_uuid(s)
    ||| (s.len() == 38 && s[0] == '{' && s[37] == '}' && is_hyphenated_uuid(s.subrange(1, 37)))
    ||| (s.len() == 45 && lower_ascii_seq(s.take(9)) == "urn:uuid:"@ && is_hyphenated_uuid(s.skip(9)))
}

/// Whether `Uuid::parse_str` accepts `s`. The contract states the accepted
/// shapes, as the parser in the `uuid` crate checks them.
#[verifier::external_body]
pub(crate) fn uuid_parses(s: &str) -> (r: bool)
    ensures
        r == uuid_text(s@),
{
    uuid::Uuid::parse_str(s).is_ok()
}

/// The text of `Uuid::new_v5(namespace, name)`: a SHA-1 name-based UUID.
pub uninterp spec fn uuid_v5_text(namespace: Seq<u8>, name: Seq<char>) -> Seq<char>;

/// The canonical text `Uuid::to_string` prints: hyphenated, lowercase.
pub open spec fn is_lower_hyphenated_uuid(s: Seq<char>) -> bool {
    &&& is_hyphenated_uuid(s)
    &&& forall|i: int| 0 <= i < 36 ==> !('A' <= #[trigger] s[i] <= 'Z')
}

/// `Uuid::new_v5(&Uuid::from_bytes(*namespace), name.as_bytes()).to_string()`.
/// The contract names the result with `uuid_v5_text` and states only the
/// shape `to_string` always prints (hyphenated, lowercase hexadecimal); it
/// says nothing of which UUID comes out.
#[verifier::external_body]
fn uuid_v5(namespace: &[u8; 16], name: &str) -> (r: String)
    ensures
        r@ == uuid_v5_text(namespace@, name@),
        is_lower_hyphenated_uuid(r@),
{
    uuid::Uuid::new_v5(&uuid::Uuid::from_bytes(*namespace), name.as_bytes()).to_string()
}

/// The name a chunk's id is derived from: `{doc_id}:{chunk_index}`.
pub open spec fn chunk_name(doc_id: Seq<char>, chunk_index: nat) -> Seq<char> {
    doc_id + ":"@ + decimal(chunk_index)
}

/// Deterministic UUIDv5 point id for one chunk of one document; determinism
/// is what makes re-ingestion an overwrite instead of a duplicate. The id is
/// always in the hyphenated form Qdrant accepts as a point id.
pub fn chunk_point_id(doc_id: &str, chunk_index: usize) -> (r: String)
    ensures
        r@ == uuid_v5_text(CHUNK_NAMESPACE@, chunk_name(doc_id@, chunk_index as nat)),
        is_lower_hyphenated_uuid(r@),
        uuid_text(r@),
{
    let name = cat3(doc_id, ":", decimal_string(chunk_index as u64).as_str());
    let ns = CHUNK_NAMESPACE;
    uuid_v5(&ns, name.as_str())
}

// ===== request builders =====

pub open spec fn collection_url(base: Seq<char>, collection: Seq<char>) -> Seq<char> {
    base + "/collections/"@ + collection
}

/// A Qdrant request: the api-key header, a JSON content type, the body.
pub open spec fn request_spec(method: Seq<char>, url: Seq<char>, api_key: Seq<char>, body: JsonV) -> HttpRequestV {
    HttpRequestV {
        method,
        url,
        headers: seq![("api-key"@, api_key), ("content-type"@, "application/json"@)],
        body: Some(json_encode(body)),
    }
}

fn request(method: &str, url: String, api_key: &str, body: &Json) -> (r: HttpRequest)
    ensures
        r@ == request_spec(method@, url@, api_key@, body@),
{
    let headers = vec![
        (String::from_str("api-key"), api_key.to_owned()),
        (String::from_str("content-type"), String::from_str("application/json")),
    ];
    assert(headers_view(headers@) =~= seq![("api-key"@, api_key@), ("content-type"@, "application/json"@)]);
    HttpRequest { method: method.to_owned(), url, headers, body: Some(encode_json(body)) }
}

pub open spec fn ensure_body(dimensions: u32, distance: Seq<char>) -> JsonV {
    JsonV::Object(seq![("vectors"@, JsonV::Object(seq![
        ("size"@, JsonV::Number(decimal(dimensions as nat))),
        ("distance"@, JsonV::Str(distance)),
    ]))])
}

pub open spec fn ensure_collection_request_spec(base: Seq<char>, collection: Seq<char>, dimensions: u32, distance: Seq<char>, api_key: Seq<char>) -> HttpRequestV {
    request_spec("PUT"@, collection_url(base, collection), api_key, ensure_body(dimensions, distance))
}

/// `PUT {base}/collections/{collection}` with the vector width and metric.
pub fn ensure_collection_request(base: &str, collection: &str, dimensions: u32, distance: &str, api_key: &str) -> (r: HttpRequest)
    ensures
        r@ == ensure_collection_request_spec(base@, collection@, dimensions, distance@, api_key@),
{
    let body = object1("vectors", object2("size", Json::number(dimensions as u64), "distance", Json::string(distance)));
    request("PUT", cat3(base, "/collections/", collection), api_key, &body)
}

pub open spec fn point_json(p: PointV) -> JsonV {
    JsonV::Object(seq![
        ("id"@, JsonV::Str(p.id)),
        ("vector"@, JsonV::Array(numbers_json(p.vector))),
        ("payload"@, p.payload),
    ])
}

pub open spec fn upsert_request_spec(base: Seq<char>, collection: Seq<char>, points: Seq<PointV>, api_key: Seq<char>) -> HttpRequestV {
    request_spec(
        "PUT"@,
        collection_url(base, collection) + "/points?wait=true"@,
        api_key,
        JsonV::Object(seq![("points"@, JsonV::Array(points.map_values(|p: PointV| point_json(p))))]),
    )
}

/// `PUT .../points?wait=true`: `wait=true` because a search issued right
/// after an ingest would otherwise race the index and miss the new points.
pub fn upsert_request(base: &str, collection: &str, points: &Vec<Point>, api_key: &str) -> (r: HttpRequest)
    ensures
        r@ == upsert_request_spec(base@, collection@, points_view(points@), api_key@),
{
    let ghost want = points_view(points@).map_values(|p: PointV| point_json(p));
    let mut items: Vec<Json> = Vec::new();
    let mut i: usize = 0;
    while i < points.len()
        invariant
            i <= points.len(),
            want == points_view(points@).map_values(|p: PointV| point_json(p)),
            json_seq_view(items@) =~= want.take(i as int),
        decreases points.len() - i,
    {
        let p = &points[i];
        let item = object3(
            "id", Json::Str(p.id.clone()),
            "vector", array_of_numbers(&p.vector),
            "payload", p.payload.duplicate(),
        );
        let ghost prev = items@;
        items.push(item);
        assert(items@.drop_last() =~= prev);
        assert(json_seq_view(items@) == json_seq_view(prev).push(item@));
        assert(want.take(i + 1) =~= want.take(i as int).push(point_json(p@)));
        i += 1;
    }
    assert(want.take(i as int) =~= want);
    let body = object1("points", array(items));
    let url = cat(cat3(base, "/collections/", collection).as_str(), "/points?wait=true");
    request("PUT", url, api_key, &body)
}

pub open spec fn with_member(obj: JsonV, key: Seq<char>, value: Option<JsonV>) -> JsonV {
    match (obj, value) {
        (JsonV::Object(m), Some(v)) => JsonV::Object(entries_insert(m, key, v)),
        _ => obj,
    }
}

/// Setting a member of an object: that member reads back as the value set,
/// every other member reads as before.
pub proof fn lemma_with_member_get(obj: JsonV, key: Seq<char>, value: JsonV, k: Seq<char>)
    requires
        obj is Object,
    ensures
        with_member(obj, key, Some(value)) is Object,
        get(with_member(obj, key, Some(value)), k) == if k == key { Some(value) } else { get(obj, k) },
{
    crate::json::lemma_entries_get_insert(obj->Object_0, key, value, k);
}

pub(crate) fn add_member(obj: Json, key: &str, value: Option<&Json>) -> (r: Json)
    ensures
        r@ == with_member(obj@, key@, match value { Some(v) => Some(v@), None => None }),
{
    match (obj, value) {
        (Json::Object(m), Some(v)) => Json::Object(insert_entry(&m, key, v.duplicate())),
        (o, _) => o,
    }
}

pub open spec fn opt_json(o: Option<&Json>) -> Option<JsonV> {
    match o {
        Some(j) => Some(j@),
        None => None,
    }
}

pub open spec fn query_request_spec(base: Seq<char>, collection: Seq<char>, vector: Seq<Seq<char>>, top_k: u32, filter: Option<JsonV>, api_key: Seq<char>) -> HttpRequestV {
    request_spec(
        "POST"@,
        collection_url(base, collection) + "/points/query"@,
        api_key,
        with_member(JsonV::Object(seq![
            ("query"@, JsonV::Array(numbers_json(vector))),
            ("limit"@, JsonV::Number(decimal(top_k as nat))),
            ("with_payload"@, JsonV::Bool(true)),
        ]), "filter"@, filter),
    )
}

/// `POST .../points/query` (the Query API, not the legacy search path); a
/// filter is passed through verbatim.
pub fn query_request(base: &str, collection: &str, vector: &Vec<String>, top_k: u32, filter: Option<&Json>, api_key: &str) -> (r: HttpRequest)
    ensures
        r@ == query_request_spec(base@, collection@, strings_view(vector@), top_k, opt_json(filter), api_key@),
{
    let body = object3(
        "query", array_of_numbers(vector),
        "limit", Json::number(top_k as u64),
        "with_payload", Json::Bool(true),
    );
    let body = add_member(body, "filter", filter);
    let url = cat(cat3(base, "/collections/", collection).as_str(), "/points/query");
    request("POST", url, api_key, &body)
}

pub open spec fn scroll_request_spec(base: Seq<char>, collection: Seq<char>, limit: u32, offset: Option<JsonV>, filter: Option<JsonV>, api_key: Seq<char>) -> HttpRequestV {
    request_spec(
        "POST"@,
        collection_url(base, collection) + "/points/scroll"@,
        api_key,
        with_member(with_member(JsonV::Object(seq![
            ("limit"@, JsonV::Number(decimal(limit as nat))),
            ("with_payload"@, JsonV::Bool(true)),
            ("with_vector"@, JsonV::Bool(false)),
        ]), "offset"@, offset), "filter"@, filter),
    )
}

/// `POST .../points/scroll`, asking for payloads but not vectors: listing is
/// for enumeration, the vector would only inflate the response.
pub fn scroll_request(base: &str, collection: &str, limit: u32, offset: Option<&Json>, filter: Option<&Json>, api_key: &str) -> (r: HttpRequest)
    ensures
        r@ == scroll_request_spec(base@, collection@, limit, opt_json(offset), opt_json(filter), api_key@),
{
    let body = object3(
        "limit", Json::number(limit as u64),
        "with_payload", Json::Bool(true),
        "with_vector", Json::Bool(false),
    );
    let body = add_member(body, "offset", offset);
    let body = add_member(body, "filter", filter);
    let url = cat(cat3(base, "/collections/", collection).as_str(), "/points/scroll");
    request("POST", url, api_key, &body)
}

pub open spec fn delete_body(selector: DeleteSelectorV) -> JsonV {
    match selector {
        DeleteSelectorV::Ids(ids) => JsonV::Object(seq![("points"@, JsonV::Array(strings_json(ids)))]),
        DeleteSelectorV::DocId(d) => JsonV::Object(seq![("filter"@, JsonV::Object(seq![
            ("must"@, JsonV::Array(seq![JsonV::Object(seq![
                ("key"@, JsonV::Str("doc_id"@)),
                ("match"@, JsonV::Object(seq![("value"@, JsonV::Str(d))])),
            ])])),
        ]))]),
    }
}

pub open spec fn delete_request_spec(base: Seq<char>, collection: Seq<char>, selector: DeleteSelectorV, api_key: Seq<char>) -> HttpRequestV {
    request_spec("POST"@, collection_url(base, collection) + "/points/delete?wait=true"@, api_key, delete_body(selector))
}

/// `POST .../points/delete?wait=true`, by explicit ids or by a `doc_id`
/// payload filter.
pub fn delete_request(base: &str, collection: &str, selector: &DeleteSelector, api_key: &str) -> (r: HttpRequest)
    ensures
        r@ == delete_request_spec(base@, collection@, selector@, api_key@),
{
    let body = match selector {
        DeleteSelector::Ids(ids) => object1("points", array_of_strings(ids)),
        DeleteSelector::DocId(doc_id) => {
            let cond = object2("key", Json::string("doc_id"), "match", object1("value", Json::string(doc_id.as_str())));
            let must = vec![cond];
            proof { crate::json::lemma_json_seq_view(must@); }
            assert(json_seq_view(must@) =~= seq![must@[0]@]);
            object1("filter", object1("must", array(must)))
        },
    };
    let url = cat(cat3(base, "/collections/", collection).as_str(), "/points/delete?wait=true");
    request("POST", url, api_key, &body)
}


// ===== response parsers =====

pub const KEY_REJECTED: &'static str = "Qdrant rejected the api-key (HTTP ";
pub const NOT_FOUND_404: &'static str = "Qdrant returned 404 \u{2014} collection or point missing: ";
pub const HTTP_STATUS: &'static str = "Qdrant returned HTTP ";
pub const NOT_JSON: &'static str = "Qdrant response is not JSON: ";
pub const NO_POINTS: &'static str = "Qdrant response has no result.points";
pub const NO_RESULT: &'static str = "Qdrant response has no result";

/// A Qdrant HTTP status mapped onto the error taxonomy: nothing for a 2xx,
/// otherwise the error carrying the body as (lossily decoded) text.
pub open spec fn status_error_spec(status: u16, body: Seq<u8>) -> Option<ErrV> {
    let text = utf8_lossy(body);
    if 200 <= status <= 299 {
        None
    } else if status == 401 || status == 403 {
        Some(ErrV::PermissionDenied(KEY_REJECTED@ + decimal(status as nat) + "): "@ + text))
    } else if status == 404 {
        Some(ErrV::NotFound(NOT_FOUND_404@ + text))
    } else {
        Some(ErrV::Internal(HTTP_STATUS@ + decimal(status as nat) + ": "@ + text))
    }
}

fn status_error(status: u16, body: &[u8]) -> (r: Option<RagError>)
    ensures
        match r {
            Some(e) => status_error_spec(status, body@) == Some(e@),
            None => status_error_spec(status, body@) is None,
        },
{
    let text = lossy_text(body);
    if 200 <= status && status <= 299 {
        None
    } else if status == 401 || status == 403 {
        let mut m = String::from_str(KEY_REJECTED);
        m.append(decimal_string(status as u64).as_str());
        m.append("): ");
        m.append(text.as_str());
        Some(RagError::PermissionDenied(m))
    } else if status == 404 {
        Some(RagError::NotFound(cat(NOT_FOUND_404, text.as_str())))
    } else {
        let mut m = String::from_str(HTTP_STATUS);
        m.append(decimal_string(status as u64).as_str());
        m.append(": ");
        m.append(text.as_str());
        Some(RagError::Internal(m))
    }
}

/// A point's id as a string: a string id verbatim, any other id (Qdrant also
/// uses unsigned integers) as its JSON text, no id as the empty string.
pub open spec fn point_id_spec(p: JsonV) -> Seq<char> {
    match get(p, "id"@) {
        Some(JsonV::Str(s)) => s,
        Some(other) => json_text(other),
        None => Seq::empty(),
    }
}

/// A point's payload, `null` when it has none.
pub open spec fn payload_of(p: JsonV) -> JsonV {
    match get(p, "payload"@) {
        Some(v) => v,
        None => JsonV::Null,
    }
}

/// A hit's score: the number Qdrant sent, zero when it sent none.
pub open spec fn score_of(p: JsonV) -> JsonV {
    match get(p, "score"@) {
        Some(JsonV::Number(t)) => JsonV::Number(t),
        _ => JsonV::Number("0.0"@),
    }
}

pub open spec fn hit_spec(p: JsonV) -> HitV {
    HitV { id: point_id_spec(p), score: score_of(p), payload: payload_of(p) }
}

pub open spec fn scroll_point_spec(p: JsonV) -> ScrollPointV {
    ScrollPointV { id: point_id_spec(p), payload: payload_of(p) }
}

/// `result.points` of a Qdrant envelope, when it is an array.
pub open spec fn result_points(result: JsonV) -> Option<Seq<JsonV>> {
    match get(result, "points"@) {
        Some(v) => as_array(v),
        None => None,
    }
}

/// Parse the Query API envelope `{"result":{"points":[...]}}`.
pub open spec fn parse_hits_spec(status: u16, body: Seq<u8>) -> Result<Seq<HitV>, ErrV> {
    match status_error_spec(status, body) {
        Some(e) => Err(e),
        None => match json_decode(body) {
            Err(m) => Err(ErrV::Internal(NOT_JSON@ + m)),
            Ok(doc) => match get(doc, "result"@) {
                Some(result) => match result_points(result) {
                    Some(ps) => Ok(ps.map_values(|p: JsonV| hit_spec(p))),
                    None => Err(ErrV::Internal(NO_POINTS@)),
                },
                None => Err(ErrV::Internal(NO_POINTS@)),
            },
        },
    }
}

/// A `next_page_offset` that is missing or `null` both mean "no more pages".
pub open spec fn next_offset_spec(result: JsonV) -> Option<JsonV> {
    match get(result, "next_page_offset"@) {
        Some(JsonV::Null) => None,
        Some(v) => Some(v),
        None => None,
    }
}

/// Parse the Scroll API envelope
/// `{"result":{"points":[...],"next_page_offset":...}}`.
pub open spec fn parse_scroll_spec(status: u16, body: Seq<u8>) -> Result<ScrollPageV, ErrV> {
    match status_error_spec(status, body) {
        Some(e) => Err(e),
        None => match json_decode(body) {
            Err(m) => Err(ErrV::Internal(NOT_JSON@ + m)),
            Ok(doc) => match get(doc, "result"@) {
                None => Err(ErrV::Internal(NO_RESULT@)),
                Some(result) => match result_points(result) {
                    None => Err(ErrV::Internal(NO_POINTS@)),
                    Some(ps) => Ok(ScrollPageV {
                        points: ps.map_values(|p: JsonV| scroll_point_spec(p)),
                        next_page_offset: next_offset_spec(result),
                    }),
                },
            },
        },
    }
}

fn point_id(p: &Json) -> (r: String)
    ensures
        r@ == point_id_spec(p@),
{
    match p.get("id") {
        Some(Json::Str(s)) => s.clone(),
        Some(other) => encode_json_text(other),
        None => String::new(),
    }
}

fn payload_copy(p: &Json) -> (r: Json)
    ensures
        r@ == payload_of(p@),
{
    match p.get("payload") {
        Some(v) => v.duplicate(),
        None => Json::Null,
    }
}

fn hit_of(p: &Json) -> (r: Hit)
    ensures
        r@ == hit_spec(p@),
{
    let score = match p.get("score") {
        Some(Json::Number(t)) => Json::Number(t.clone()),
        _ => Json::Number(String::from_str("0.0")),
    };
    Hit { id: point_id(p), score, payload: payload_copy(p) }
}

fn result_points_of(result: &Json) -> (r: Option<&Vec<Json>>)
    ensures
        match r {
            Some(a) => result_points(result@) == Some(json_seq_view(a@)),
            None => result_points(result@) is None,
        },
{
    match result.get("points") {
        Some(v) => v.as_array(),
        None => None,
    }
}

/// Parse the Query API envelope. See [`parse_hits_spec`].
pub fn parse_hits(status: u16, body: &[u8]) -> (r: Result<Vec<Hit>, RagError>)
    ensures
        match r {
            Ok(hits) => parse_hits_spec(status, body@) == Ok::<Seq<HitV>, ErrV>(hits_view(hits@)),
            Err(e) => parse_hits_spec(status, body@) == Err::<Seq<HitV>, ErrV>(e@),
        },
{
    if let Some(e) = status_error(status, body) {
        return Err(e);
    }
    let doc = match decode_json(body) {
        Ok(d) => d,
        Err(m) => return Err(RagError::Internal(cat(NOT_JSON, m.as_str()))),
    };
    let result = match doc.get("result") {
        Some(r) => r,
        None => return Err(RagError::Internal(String::from_str(NO_POINTS))),
    };
    let arr = match result_points_of(result) {
        Some(a) => a,
        None => return Err(RagError::Internal(String::from_str(NO_POINTS))),
    };
    proof { lemma_json_seq_view(arr@); }
    let ghost want = json_seq_view(arr@).map_values(|p: JsonV| hit_spec(p));
    let mut out: Vec<Hit> = Vec::new();
    let mut i: usize = 0;
    while i < arr.len()
        invariant
            i <= arr.len(),
            json_seq_view(arr@).len() == arr@.len(),
            forall|k: int| 0 <= k < arr@.len() ==> #[trigger] json_seq_view(arr@)[k] == arr@[k]@,
            want == json_seq_view(arr@).map_values(|p: JsonV| hit_spec(p)),
            hits_view(out@) =~= want.take(i as int),
        decreases arr.len() - i,
    {
        let h = hit_of(&arr[i]);
        out.push(h);
        assert(want.take(i + 1) =~= want.take(i as int).push(hit_spec(arr@[i as int]@)));
        i += 1;
    }
    assert(want.take(i as int) =~= want);
    Ok(out)
}

/// Parse the Scroll API envelope. See [`parse_scroll_spec`].
pub fn parse_scroll(status: u16, body: &[u8]) -> (r: Result<ScrollPage, RagError>)
    ensures
        match r {
            Ok(page) => parse_scroll_spec(status, body@) == Ok::<ScrollPageV, ErrV>(page@),
            Err(e) => parse_scroll_spec(status, body@) == Err::<ScrollPageV, ErrV>(e@),
        },
{
    if let Some(e) = status_error(status, body) {
        return Err(e);
    }
    let doc = match decode_json(body) {
        Ok(d) => d,
        Err(m) => return Err(RagError::Internal(cat(NOT_JSON, m.as_str()))),
    };
    let result = match doc.get("result") {
        Some(r) => r,
        None => return Err(RagError::Internal(String::from_str(NO_RESULT))),
    };
    let arr = match result_points_of(result) {
        Some(a) => a,
        None => return Err(RagError::Internal(String::from_str(NO_POINTS))),
    };
    proof { lemma_json_seq_view(arr@); }
    let ghost want = json_seq_view(arr@).map_values(|p: JsonV| scroll_point_spec(p));
    let mut points: Vec<ScrollPoint> = Vec::new();
    let mut i: usize = 0;
    while i < arr.len()
        invariant
            i <= arr.len(),
            json_seq_view(arr@).len() == arr@.len(),
            forall|k: int| 0 <= k < arr@.len() ==> #[trigger] json_seq_view(arr@)[k] == arr@[k]@,
            want == json_seq_view(arr@).map_values(|p: JsonV| scroll_point_spec(p)),
            scroll_points_view(points@) =~= want.take(i as int),
        decreases arr.len() - i,
    {
        let p = &arr[i];
        points.push(ScrollPoint { id: point_id(p), payload: payload_copy(p) });
        assert(want.take(i + 1) =~= want.take(i as int).push(scroll_point_spec(arr@[i as int]@)));
        i += 1;
    }
    assert(want.take(i as int) =~= want);
    let next_page_offset = match result.get("next_page_offset") {
        Some(v) => if v.is_null() { None } else { Some(v.duplicate()) },
        None => None,
    };
    Ok(ScrollPage { points, next_page_offset })
}

/// Any 2xx acknowledges a write; see [`status_error_spec`] for the rest.
pub fn parse_ack(status: u16, body: &[u8]) -> (r: Result<(), RagError>)
    ensures
        match r {
            Ok(_) => status_error_spec(status, body@) is None,
            Err(e) => status_error_spec(status, body@) == Some(e@),
        },
{
    match status_error(status, body) {
        Some(e) => Err(e),
        None => Ok(()),
    }
}

/// Like [`parse_ack`], except that a 4xx other than 401/403 whose body
/// mentions "already exists" (in any ASCII case) is success: ensure runs on
/// every ingest and upsert, so the collection existing is the normal case.
/// The auth mapping runs first, so a 401/403 is never read as success.
pub open spec fn ensure_ack_spec(status: u16, body: Seq<u8>) -> Result<(), ErrV> {
    if status != 401 && status != 403 && 400 <= status < 500
        && contains(lower_ascii_seq(utf8_lossy(body)), "already exists"@) {
        Ok(())
    } else {
        match status_error_spec(status, body) {
            Some(e) => Err(e),
            None => Ok(()),
        }
    }
}

/// See [`ensure_ack_spec`].
pub fn parse_ensure_ack(status: u16, body: &[u8]) -> (r: Result<(), RagError>)
    ensures
        match r {
            Ok(_) => ensure_ack_spec(status, body@) is Ok,
            Err(e) => ensure_ack_spec(status, body@) == Err::<(), ErrV>(e@),
        },
{
    if status == 401 || status == 403 {
        return parse_ack(status, body);
    }
    let text = lossy_text(body);
    let lower = lower_ascii_chars(&chars_of(text.as_str()));
    let phrase = chars_of("already exists");
    if 400 <= status && status < 500 && contains_chars(&lower, &phrase) {
        return Ok(());
    }
    parse_ack(status, body)
}


/// An auth failure is never read as "already exists", whatever its body
/// says; neither is a server error. Only a 4xx can be that success.
pub proof fn lemma_ensure_ack_auth_first(status: u16, body: Seq<u8>)
    ensures
        (status == 401 || status == 403) ==> ensure_ack_spec(status, body) is Err
            && ensure_ack_spec(status, body)->Err_0 is PermissionDenied,
        (500 <= status) ==> ensure_ack_spec(status, body) is Err,
        ensure_ack_spec(status, body) is Ok ==> 200 <= status < 500,
{
}

} // verus!
