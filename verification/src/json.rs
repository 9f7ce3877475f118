//! A JSON document model the library can reason about, and the two trusted
//! conversions to and from bytes, which go through `serde_json`.
use vstd::prelude::*;

verus! {

/// The mathematical view of a JSON value.
pub enum JsonV {
    Null,
    Bool(bool),
    /// A number, held as the decimal text `serde_json` prints for it.
    Number(Seq<char>),
    Str(Seq<char>),
    Array(Seq<JsonV>),
    Object(Seq<(Seq<char>, JsonV)>),
}

/// A JSON value. Numbers are carried as their decimal text.
#[derive(Debug, PartialEq, Eq)]
pub enum Json {
    Null,
    Bool(bool),
    Number(String),
    Str(String),
    Array(Vec<Json>),
    Object(Vec<(String, Json)>),
}

pub open spec fn json_view(j: Json) -> JsonV
    decreases j,
{
    match j {
        Json::Null => JsonV::Null,
        Json::Bool(b) => JsonV::Bool(b),
        Json::Number(n) => JsonV::Number(n@),
        Json::Str(s) => JsonV::Str(s@),
        Json::Array(a) => JsonV::Array(json_seq_view(a@)),
        Json::Object(m) => JsonV::Object(json_entries_view(m@)),
    }
}

pub open spec fn json_seq_view(s: Seq<Json>) -> Seq<JsonV>
    decreases s,
{
    if s.len() == 0 {
        Seq::empty()
    } else {
        json_seq_view(s.drop_last()).push(json_view(s.last()))
    }
}

pub open spec fn json_entries_view(s: Seq<(String, Json)>) -> Seq<(Seq<char>, JsonV)>
    decreases s,
{
    if s.len() == 0 {
        Seq::empty()
    } else {
        json_entries_view(s.drop_last()).push((s.last().0@, json_view(s.last().1)))
    }
}

impl View for Json {
    type V = JsonV;

    open spec fn view(&self) -> JsonV {
        json_view(*self)
    }
}


pub proof fn lemma_json_seq_view(s: Seq<Json>)
    ensures
        json_seq_view(s).len() == s.len(),
        forall|i: int| 0 <= i < s.len() ==> #[trigger] json_seq_view(s)[i] == json_view(s[i]),
    decreases s.len(),
{
    if s.len() > 0 {
        lemma_json_seq_view(s.drop_last());
    }
}

pub proof fn lemma_json_entries_view(s: Seq<(String, Json)>)
    ensures
        json_entries_view(s).len() == s.len(),
        forall|i: int| 0 <= i < s.len() ==> #[trigger] json_entries_view(s)[i] == (s[i].0@, json_view(s[i].1)),
    decreases s.len(),
{
    if s.len() > 0 {
        lemma_json_entries_view(s.drop_last());
    }
}

/// The value `key` maps to in an object's entries: the first entry with that
/// key (a decoded object never holds a key twice).
pub open spec fn entries_get(m: Seq<(Seq<char>, JsonV)>, key: Seq<char>) -> Option<JsonV>
    decreases m.len(),
{
    if m.len() == 0 {
        None
    } else if m[0].0 == key {
        Some(m[0].1)
    } else {
        entries_get(m.drop_first(), key)
    }
}

/// `Value::get(key)`: the member `key` of an object, nothing for any other
/// value.
pub open spec fn get(v: JsonV, key: Seq<char>) -> Option<JsonV> {
    match v {
        JsonV::Object(m) => entries_get(m, key),
        _ => None,
    }
}

/// An object's entries without `key`.
pub open spec fn entries_remove(m: Seq<(Seq<char>, JsonV)>, key: Seq<char>) -> Seq<(Seq<char>, JsonV)>
    decreases m.len(),
{
    if m.len() == 0 {
        m
    } else {
        let sub = entries_remove(m.drop_last(), key);
        if m.last().0 != key {
            sub.push(m.last())
        } else {
            sub
        }
    }
}

/// An object's entries with `key` set to `value`, replacing any earlier one.
pub open spec fn entries_insert(m: Seq<(Seq<char>, JsonV)>, key: Seq<char>, value: JsonV) -> Seq<(Seq<char>, JsonV)> {
    entries_remove(m, key).push((key, value))
}

/// A non-empty run of ASCII digits.
pub open spec fn is_digits(s: Seq<char>) -> bool {
    s.len() > 0 && forall|i: int| 0 <= i < s.len() ==> '0' <= #[trigger] s[i] <= '9'
}

/// The value of a run of ASCII digits.
pub open spec fn digits_value(s: Seq<char>) -> nat
    decreases s.len(),
{
    if s.len() == 0 {
        0
    } else {
        digits_value(s.drop_last()) * 10 + ((s.last() as u32) - ('0' as u32)) as nat
    }
}

/// `Value::as_u64`: a number `serde_json` holds as a non-negative integer
/// prints as a plain run of digits; a negative one starts with `-`, a float
/// holds a `.` or an exponent.
pub open spec fn as_u64(v: JsonV) -> Option<u64> {
    match v {
        JsonV::Number(t) => if is_digits(t) && digits_value(t) <= u64::MAX { Some(digits_value(t) as u64) } else { None },
        _ => None,
    }
}

/// `Value::as_str`.
pub open spec fn as_str(v: JsonV) -> Option<Seq<char>> {
    match v {
        JsonV::Str(s) => Some(s),
        _ => None,
    }
}

/// `Value::as_array`.
pub open spec fn as_array(v: JsonV) -> Option<Seq<JsonV>> {
    match v {
        JsonV::Array(a) => Some(a),
        _ => None,
    }
}

pub open spec fn opt_json_view(o: Option<&Json>) -> Option<JsonV> {
    match o {
        Some(j) => Some(j@),
        None => None,
    }
}

/// The value of `s` as a run of ASCII digits, if it is one and fits in 64
/// bits.
pub fn parse_digits(s: &str) -> (r: Option<u64>)
    ensures
        r == (if is_digits(s@) && digits_value(s@) <= u64::MAX { Some(digits_value(s@) as u64) } else { None::<u64> }),
{
    let cs = crate::text::chars_of(s);
    if cs.len() == 0 {
        return None;
    }
    let mut v: u64 = 0;
    let mut i: usize = 0;
    while i < cs.len()
        invariant
            cs@ == s@,
            i <= cs.len(),
            cs.len() > 0,
            forall|k: int| 0 <= k < i ==> '0' <= #[trigger] s@[k] <= '9',
            v as nat == digits_value(s@.take(i as int)),
        decreases cs.len() - i,
    {
        let c = cs[i];
        if c < '0' || c > '9' {
            assert(!is_digits(s@));
            return None;
        }
        let d = (c as u32 - '0' as u32) as u64;
        assert(s@.take(i + 1).drop_last() =~= s@.take(i as int));
        if v > (u64::MAX - d) / 10 {
            proof {
                assert(digits_value(s@.take(i + 1)) == v * 10 + d);
                assert(v * 10 + d > u64::MAX) by (nonlinear_arith)
                    requires v > (u64::MAX - d) / 10, d <= 9;
                lemma_digits_prefix_le(s@, i + 1);
                assert(s@.take(s@.len() as int) =~= s@);
            }
            return None;
        }
        assert(v * 10 + d <= u64::MAX) by (nonlinear_arith)
            requires v <= (u64::MAX - d) / 10, d <= 9;
        v = v * 10 + d;
        i += 1;
    }
    assert(s@.take(i as int) =~= s@);
    Some(v)
}

proof fn lemma_digits_prefix_le(s: Seq<char>, k: int)
    requires
        0 <= k <= s.len(),
        forall|i: int| 0 <= i < k ==> '0' <= #[trigger] s[i] <= '9',
    ensures
        is_digits(s) ==> digits_value(s.take(k)) <= digits_value(s),
    decreases s.len() - k,
{
    if k < s.len() && is_digits(s) {
        lemma_digits_prefix_le(s, k + 1);
        assert(s.take(k + 1).drop_last() =~= s.take(k));
        assert(digits_value(s.take(k + 1)) == digits_value(s.take(k)) * 10 + ((s[k] as u32) - ('0' as u32)) as nat);
    } else if k == s.len() {
        assert(s.take(k) =~= s);
    }
}

impl Json {
    /// A deep copy.
    pub fn duplicate(&self) -> (r: Json)
        ensures
            r@ == self@,
        decreases self,
    {
        match self {
            Json::Null => Json::Null,
            Json::Bool(b) => Json::Bool(*b),
            Json::Number(n) => Json::Number(n.clone()),
            Json::Str(s) => Json::Str(s.clone()),
            Json::Array(a) => {
                let mut out: Vec<Json> = Vec::new();
                let mut i: usize = 0;
                while i < a.len()
                    invariant
                        i <= a.len(),
                        json_seq_view(out@) == json_seq_view(a@.take(i as int)),
                        *self == Json::Array(*a),
                    decreases a.len() - i,
                {
                    proof {
                        assert(decreases_to!(*self => self->Array_0));
                        assert(decreases_to!(*a => a@));
                        assert(decreases_to!(a@ => a@[i as int]));
                        assert(decreases_to!(*self => a@[i as int]));
                    }
                    let c = a[i].duplicate();
                    proof {
                        assert(a@.take(i + 1).drop_last() =~= a@.take(i as int));
                    }
                    let ghost prev = out@;
                    out.push(c);
                    proof {
                        assert(out@.drop_last() =~= prev);
                    }
                    i += 1;
                }
                assert(a@.take(i as int) =~= a@);
                Json::Array(out)
            },
            Json::Object(m) => {
                let mut out: Vec<(String, Json)> = Vec::new();
                let mut i: usize = 0;
                while i < m.len()
                    invariant
                        i <= m.len(),
                        json_entries_view(out@) == json_entries_view(m@.take(i as int)),
                        *self == Json::Object(*m),
                    decreases m.len() - i,
                {
                    proof {
                        assert(decreases_to!(*self => self->Object_0));
                        assert(decreases_to!(*m => m@));
                        assert(decreases_to!(m@ => m@[i as int]));
                        assert(decreases_to!(m@[i as int] => m@[i as int].1));
                        assert(decreases_to!(*self => m@[i as int].1));
                    }
                    let k = m[i].0.clone();
                    let c = m[i].1.duplicate();
                    proof {
                        assert(m@.take(i + 1).drop_last() =~= m@.take(i as int));
                    }
                    let ghost prev = out@;
                    out.push((k, c));
                    proof {
                        assert(out@.drop_last() =~= prev);
                    }
                    i += 1;
                }
                assert(m@.take(i as int) =~= m@);
                Json::Object(out)
            },
        }
    }
}

pub open spec fn opt_string_view(o: Option<&String>) -> Option<Seq<char>> {
    match o {
        Some(s) => Some(s@),
        None => None,
    }
}

/// Looking up the key of entry `i`, when no earlier entry carries it, gives
/// that entry's value.
pub proof fn lemma_entries_get_at(m: Seq<(Seq<char>, JsonV)>, i: int)
    requires
        0 <= i < m.len(),
        forall|j: int| 0 <= j < i ==> (#[trigger] m[j]).0 != m[i].0,
    ensures
        entries_get(m, m[i].0) == Some(m[i].1),
    decreases i,
{
    if i > 0 {
        let t = m.drop_first();
        assert(t[i - 1] == m[i]);
        assert forall|j: int| 0 <= j < i - 1 implies (#[trigger] t[j]).0 != t[i - 1].0 by {
            assert(t[j] == m[j + 1]);
        }
        lemma_entries_get_at(t, i - 1);
    }
}

/// A key that no entry carries is not found.
pub proof fn lemma_entries_get_absent(m: Seq<(Seq<char>, JsonV)>, key: Seq<char>)
    requires
        forall|j: int| 0 <= j < m.len() ==> (#[trigger] m[j]).0 != key,
    ensures
        entries_get(m, key) is None,
    decreases m.len(),
{
    if m.len() > 0 {
        let t = m.drop_first();
        assert forall|j: int| 0 <= j < t.len() implies (#[trigger] t[j]).0 != key by {
            assert(t[j] == m[j + 1]);
        }
        lemma_entries_get_absent(t, key);
    }
}

/// An entry appended at the end is found only when no earlier entry carries
/// its key.
pub proof fn lemma_entries_get_push(s: Seq<(Seq<char>, JsonV)>, x: (Seq<char>, JsonV), k: Seq<char>)
    ensures
        entries_get(s.push(x), k) == match entries_get(s, k) {
            Some(v) => Some(v),
            None => if x.0 == k { Some(x.1) } else { None },
        },
    decreases s.len(),
{
    if s.len() > 0 {
        assert(s.push(x)[0] == s[0]);
        assert(s.push(x).drop_first() =~= s.drop_first().push(x));
        lemma_entries_get_push(s.drop_first(), x, k);
    } else {
        assert(s.push(x)[0] == x);
        assert(s.push(x).drop_first() =~= Seq::<(Seq<char>, JsonV)>::empty());
        assert(entries_get(Seq::<(Seq<char>, JsonV)>::empty(), k) is None);
    }
}

/// After removing `key`, looking `key` up finds nothing and every other key
/// finds what it found before.
pub proof fn lemma_entries_get_remove(m: Seq<(Seq<char>, JsonV)>, key: Seq<char>, k: Seq<char>)
    ensures
        entries_get(entries_remove(m, key), k) == if k == key { None } else { entries_get(m, k) },
    decreases m.len(),
{
    if m.len() > 0 {
        let sub = entries_remove(m.drop_last(), key);
        lemma_entries_get_remove(m.drop_last(), key, k);
        assert(m =~= m.drop_last().push(m.last()));
        lemma_entries_get_push(m.drop_last(), m.last(), k);
        if m.last().0 != key {
            lemma_entries_get_push(sub, m.last(), k);
        }
    }
}

/// After setting `key` to `value`, looking `key` up gives `value` and every
/// other key finds what it found before.
pub proof fn lemma_entries_get_insert(m: Seq<(Seq<char>, JsonV)>, key: Seq<char>, value: JsonV, k: Seq<char>)
    ensures
        entries_get(entries_insert(m, key, value), k) == if k == key { Some(value) } else { entries_get(m, k) },
{
    lemma_entries_get_remove(m, key, k);
    lemma_entries_get_push(entries_remove(m, key), (key, value), k);
}

proof fn lemma_entries_get_skip(m: Seq<(Seq<char>, JsonV)>, key: Seq<char>, i: int)
    requires
        0 <= i < m.len(),
        m[i].0 != key,
    ensures
        entries_get(m.skip(i), key) == entries_get(m.skip(i + 1), key),
{
    assert(m.skip(i).drop_first() =~= m.skip(i + 1));
}

/// The entries of an object without `key`.
pub fn remove_entry(m: &Vec<(String, Json)>, key: &str) -> (r: Vec<(String, Json)>)
    ensures
        json_entries_view(r@) == entries_remove(json_entries_view(m@), key@),
{
    let mut out: Vec<(String, Json)> = Vec::new();
    let mut i: usize = 0;
    proof { lemma_json_entries_view(m@); }
    while i < m.len()
        invariant
            i <= m.len(),
            json_entries_view(m@).len() == m@.len(),
            forall|k: int| 0 <= k < m@.len() ==> #[trigger] json_entries_view(m@)[k] == (m@[k].0@, json_view(m@[k].1)),
            json_entries_view(out@) == entries_remove(json_entries_view(m@).take(i as int), key@),
        decreases m.len() - i,
    {
        let ghost e = json_entries_view(m@);
        assert(e.take(i + 1).drop_last() =~= e.take(i as int));
        assert(e.take(i + 1).last() == e[i as int]);
        if !crate::text::str_eq(m[i].0.as_str(), key) {
            let k = m[i].0.clone();
            let v = m[i].1.duplicate();
            let ghost prev = out@;
            out.push((k, v));
            assert(out@.drop_last() =~= prev);
        }
        i += 1;
    }
    assert(json_entries_view(m@).take(i as int) =~= json_entries_view(m@));
    out
}

/// The entries of an object with `key` set to `value`.
pub fn insert_entry(m: &Vec<(String, Json)>, key: &str, value: Json) -> (r: Vec<(String, Json)>)
    ensures
        json_entries_view(r@) == entries_insert(json_entries_view(m@), key@, value@),
{
    let mut out = remove_entry(m, key);
    let ghost prev = out@;
    out.push((key.to_owned(), value));
    assert(out@.drop_last() =~= prev);
    out
}

impl Json {
    /// `Value::get(key)`.
    pub fn get(&self, key: &str) -> (r: Option<&Json>)
        ensures
            opt_json_view(r) == get(self@, key@),
    {
        match self {
            Json::Object(m) => {
                proof { lemma_json_entries_view(m@); }
                let ghost e = json_entries_view(m@);
                assert(e.skip(0) =~= e);
                let mut i: usize = 0;
                while i < m.len()
                    invariant
                        i <= m.len(),
                        e == json_entries_view(m@),
                        e.len() == m@.len(),
                        forall|k: int| 0 <= k < m@.len() ==> #[trigger] e[k] == (m@[k].0@, json_view(m@[k].1)),
                        entries_get(e, key@) == entries_get(e.skip(i as int), key@),
                        *self == Json::Object(*m),
                    decreases m.len() - i,
                {
                    if crate::text::str_eq(m[i].0.as_str(), key) {
                        assert(e.skip(i as int)[0] == e[i as int]);
                        assert(e[i as int].0 == key@);
                        assert(entries_get(e.skip(i as int), key@) == Some(e[i as int].1));
                        assert(self@ == JsonV::Object(e));
                        return Some(&m[i].1);
                    }
                    proof { lemma_entries_get_skip(e, key@, i as int); }
                    i += 1;
                }
                assert(e.skip(i as int).len() == 0);
                None
            },
            _ => None,
        }
    }

    /// `Value::as_str`.
    pub fn as_str(&self) -> (r: Option<&String>)
        ensures
            opt_string_view(r) == as_str(self@),
    {
        match self {
            Json::Str(s) => Some(s),
            _ => None,
        }
    }

    /// `Value::as_u64`.
    pub fn as_u64(&self) -> (r: Option<u64>)
        ensures
            r == as_u64(self@),
    {
        match self {
            Json::Number(t) => parse_digits(t.as_str()),
            _ => None,
        }
    }

    /// `Value::as_array`.
    pub fn as_array(&self) -> (r: Option<&Vec<Json>>)
        ensures
            match r {
                Some(a) => as_array(self@) == Some(json_seq_view(a@)),
                None => as_array(self@) is None,
            },
    {
        match self {
            Json::Array(a) => Some(a),
            _ => None,
        }
    }

    /// `Value::is_null`.
    pub fn is_null(&self) -> (r: bool)
        ensures
            r == (self@ is Null),
    {
        match self {
            Json::Null => true,
            _ => false,
        }
    }

    /// `Value::is_object`.
    pub fn is_object(&self) -> (r: bool)
        ensures
            r == (self@ is Object),
    {
        match self {
            Json::Object(_) => true,
            _ => false,
        }
    }

    /// A JSON string.
    pub fn string(s: &str) -> (r: Json)
        ensures
            r@ == JsonV::Str(s@),
    {
        Json::Str(s.to_owned())
    }

    /// A JSON number from an unsigned integer.
    pub fn number(n: u64) -> (r: Json)
        ensures
            r@ == JsonV::Number(crate::text::decimal(n as nat)),
    {
        Json::Number(crate::text::decimal_string(n))
    }
}

/// JSON strings for each of `xs`.
pub open spec fn strings_json(xs: Seq<Seq<char>>) -> Seq<JsonV> {
    xs.map_values(|x: Seq<char>| JsonV::Str(x))
}

/// JSON numbers for each of the decimal texts `xs`.
pub open spec fn numbers_json(xs: Seq<Seq<char>>) -> Seq<JsonV> {
    xs.map_values(|x: Seq<char>| JsonV::Number(x))
}

/// An object with one member.
pub fn object1(k1: &str, v1: Json) -> (r: Json)
    ensures
        r@ == JsonV::Object(seq![(k1@, v1@)]),
{
    let m = vec![(k1.to_owned(), v1)];
    proof { lemma_json_entries_view(m@); }
    assert(json_entries_view(m@) =~= seq![(k1@, m@[0].1@)]);
    Json::Object(m)
}

/// An object with two members.
pub fn object2(k1: &str, v1: Json, k2: &str, v2: Json) -> (r: Json)
    ensures
        r@ == JsonV::Object(seq![(k1@, v1@), (k2@, v2@)]),
{
    let m = vec![(k1.to_owned(), v1), (k2.to_owned(), v2)];
    proof { lemma_json_entries_view(m@); }
    assert(json_entries_view(m@) =~= seq![(k1@, m@[0].1@), (k2@, m@[1].1@)]);
    Json::Object(m)
}

/// An object with three members.
pub fn object3(k1: &str, v1: Json, k2: &str, v2: Json, k3: &str, v3: Json) -> (r: Json)
    ensures
        r@ == JsonV::Object(seq![(k1@, v1@), (k2@, v2@), (k3@, v3@)]),
{
    let m = vec![(k1.to_owned(), v1), (k2.to_owned(), v2), (k3.to_owned(), v3)];
    proof { lemma_json_entries_view(m@); }
    assert(json_entries_view(m@) =~= seq![(k1@, m@[0].1@), (k2@, m@[1].1@), (k3@, m@[2].1@)]);
    Json::Object(m)
}

/// An object with four members.
pub fn object4(k1: &str, v1: Json, k2: &str, v2: Json, k3: &str, v3: Json, k4: &str, v4: Json) -> (r: Json)
    ensures
        r@ == JsonV::Object(seq![(k1@, v1@), (k2@, v2@), (k3@, v3@), (k4@, v4@)]),
{
    let m = vec![(k1.to_owned(), v1), (k2.to_owned(), v2), (k3.to_owned(), v3), (k4.to_owned(), v4)];
    proof { lemma_json_entries_view(m@); }
    assert(json_entries_view(m@) =~= seq![(k1@, m@[0].1@), (k2@, m@[1].1@), (k3@, m@[2].1@), (k4@, m@[3].1@)]);
    Json::Object(m)
}

/// An array holding `items`.
pub fn array(items: Vec<Json>) -> (r: Json)
    ensures
        r@ == JsonV::Array(json_seq_view(items@)),
{
    Json::Array(items)
}

/// An array of JSON strings.
pub fn array_of_strings(xs: &Vec<String>) -> (r: Json)
    ensures
        r@ == JsonV::Array(strings_json(crate::text::strings_view(xs@))),
{
    let mut out: Vec<Json> = Vec::new();
    let mut i: usize = 0;
    while i < xs.len()
        invariant
            i <= xs.len(),
            json_seq_view(out@) =~= strings_json(crate::text::strings_view(xs@)).take(i as int),
        decreases xs.len() - i,
    {
        let ghost prev = out@;
        out.push(Json::Str(xs[i].clone()));
        assert(out@.drop_last() =~= prev);
        assert(json_seq_view(out@) == json_seq_view(prev).push(json_view(out@.last())));
        assert(strings_json(crate::text::strings_view(xs@)).take(i + 1) =~= strings_json(crate::text::strings_view(xs@)).take(i as int).push(JsonV::Str(xs@[i as int]@)));
        i += 1;
    }
    assert(strings_json(crate::text::strings_view(xs@)).take(i as int) =~= strings_json(crate::text::strings_view(xs@)));
    Json::Array(out)
}

/// An array of JSON numbers, from their decimal texts.
pub fn array_of_numbers(xs: &Vec<String>) -> (r: Json)
    ensures
        r@ == JsonV::Array(numbers_json(crate::text::strings_view(xs@))),
{
    let mut out: Vec<Json> = Vec::new();
    let mut i: usize = 0;
    while i < xs.len()
        invariant
            i <= xs.len(),
            json_seq_view(out@) =~= numbers_json(crate::text::strings_view(xs@)).take(i as int),
        decreases xs.len() - i,
    {
        let ghost prev = out@;
        out.push(Json::Number(xs[i].clone()));
        assert(out@.drop_last() =~= prev);
        assert(json_seq_view(out@) == json_seq_view(prev).push(json_view(out@.last())));
        assert(numbers_json(crate::text::strings_view(xs@)).take(i + 1) =~= numbers_json(crate::text::strings_view(xs@)).take(i as int).push(JsonV::Number(xs@[i as int]@)));
        i += 1;
    }
    assert(numbers_json(crate::text::strings_view(xs@)).take(i as int) =~= numbers_json(crate::text::strings_view(xs@)));
    Json::Array(out)
}

#[verifier::external_type_specification]
#[verifier::external_body]
pub struct ExValue(serde_json::Value);

/// What `serde_json::from_slice::<serde_json::Value>` makes of `bytes`, taken
/// into this library's model: the document, or the text of the error.
pub uninterp spec fn json_decode(bytes: Seq<u8>) -> Result<JsonV, Seq<char>>;

/// The bytes `serde_json::to_vec` writes for `value`.
pub uninterp spec fn json_encode(value: JsonV) -> Seq<u8>;

impl Json {
    /// Converts a `serde_json::Value` into this model, one node for one node;
    /// a number keeps the text `serde_json` prints for it.
    #[verifier::external_body]
    fn from_value(v: serde_json::Value) -> Json {
        match v {
            serde_json::Value::Null => Json::Null,
            serde_json::Value::Bool(b) => Json::Bool(b),
            serde_json::Value::Number(n) => Json::Number(n.to_string()),
            serde_json::Value::String(s) => Json::Str(s),
            serde_json::Value::Array(a) => Json::Array(a.into_iter().map(Json::from_value).collect()),
            serde_json::Value::Object(m) => Json::Object(m.into_iter().map(|(k, v)| (k, Json::from_value(v))).collect()),
        }
    }

    /// Converts this model back into a `serde_json::Value`, one node for one
    /// node; a number is read back from its text.
    #[verifier::external_body]
    fn to_value(&self) -> serde_json::Value {
        match self {
            Json::Null => serde_json::Value::Null,
            Json::Bool(b) => serde_json::Value::Bool(*b),
            Json::Number(n) => n.parse::<serde_json::Number>().map_or(serde_json::Value::Null, serde_json::Value::Number),
            Json::Str(s) => serde_json::Value::String(s.clone()),
            Json::Array(a) => serde_json::Value::Array(a.iter().map(Json::to_value).collect()),
            Json::Object(m) => serde_json::Value::Object(m.iter().map(|(k, v)| (k.clone(), v.to_value())).collect()),
        }
    }
}

/// `serde_json::from_slice` into a `serde_json::Value`: the parsed document,
/// or the error's text. The contract claims only that the outcome is the one
/// `json_decode` names for these bytes.
#[verifier::external_body]
pub(crate) fn decode_json(bytes: &[u8]) -> (r: Result<Json, String>)
    ensures
        match r {
            Ok(j) => json_decode(bytes@) == Ok::<JsonV, Seq<char>>(j@),
            Err(e) => json_decode(bytes@) == Err::<JsonV, Seq<char>>(e@),
        },
{
    serde_json::from_slice::<serde_json::Value>(bytes).map(Json::from_value).map_err(|e| e.to_string())
}

/// What `serde_json::from_str::<serde_json::Value>` makes of `text`, taken
/// into this library's model: the document, or the text of the error.
pub uninterp spec fn json_decode_text(text: Seq<char>) -> Result<JsonV, Seq<char>>;

/// `serde_json::from_str` into a `serde_json::Value`: the parsed document, or
/// the error's text. The contract claims only that the outcome is the one
/// `json_decode_text` names for this text.
#[verifier::external_body]
pub(crate) fn decode_json_text(text: &str) -> (r: Result<Json, String>)
    ensures
        match r {
            Ok(j) => json_decode_text(text@) == Ok::<JsonV, Seq<char>>(j@),
            Err(e) => json_decode_text(text@) == Err::<JsonV, Seq<char>>(e@),
        },
{
    serde_json::from_str::<serde_json::Value>(text).map(Json::from_value).map_err(|e| e.to_string())
}

/// The text `serde_json::to_string` writes for `value` (the `Display` of a
/// `serde_json::Value`).
pub uninterp spec fn json_text(value: JsonV) -> Seq<char>;

/// `serde_json::to_string` of the document: the contract claims only that
/// the text is the one `json_text` names for its view.
#[verifier::external_body]
pub(crate) fn encode_json_text(value: &Json) -> (r: String)
    ensures
        r@ == json_text(value@),
{
    serde_json::to_string(&value.to_value()).unwrap_or_default()
}

/// `serde_json::to_vec` of the document: the contract claims only that the
/// bytes are the ones `json_encode` names for its view.
#[verifier::external_body]
pub(crate) fn encode_json(value: &Json) -> (r: Vec<u8>)
    ensures
        r@ == json_encode(value@),
{
    serde_json::to_vec(&value.to_value()).unwrap_or_default()
}

} // verus!
