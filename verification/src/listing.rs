//! Grouping one Scroll API page by document: every point is counted under
//! its `doc_id`, and the metadata of the point with the lowest chunk rank
//! survives, whatever order the page came back in.
use vstd::prelude::*;

use crate::json::{as_str, as_u64, entries_remove, get, json_entries_view, remove_entry, Json, JsonV};
use crate::qdrant::{scroll_points_view, ScrollPoint, ScrollPointV};
use crate::text::{chars_of, str_eq};

verus! {

/// A point's rank within its document, ascending: points with a
/// `chunk_index` before points without one, then by `chunk_index`, then by
/// point id.
pub struct RankV {
    pub missing: bool,
    pub index: u64,
    pub id: Seq<char>,
}

#[derive(Debug)]
pub struct ChunkRank {
    pub missing: bool,
    pub index: u64,
    pub id: String,
}

impl View for ChunkRank {
    type V = RankV;

    open spec fn view(&self) -> RankV {
        RankV { missing: self.missing, index: self.index, id: self.id@ }
    }
}

/// `a` sorts before `b`, character by character (the order of `String`'s
/// `Ord`: UTF-8 byte order is code point order).
pub open spec fn seq_lt(a: Seq<char>, b: Seq<char>) -> bool
    decreases a.len(),
{
    if a.len() == 0 {
        b.len() > 0
    } else if b.len() == 0 {
        false
    } else if a[0] < b[0] {
        true
    } else if a[0] > b[0] {
        false
    } else {
        seq_lt(a.drop_first(), b.drop_first())
    }
}

/// The tuple order of `(missing, index, id)`.
pub open spec fn rank_lt(a: RankV, b: RankV) -> bool {
    ||| (!a.missing && b.missing)
    ||| (a.missing == b.missing && a.index < b.index)
    ||| (a.missing == b.missing && a.index == b.index && seq_lt(a.id, b.id))
}

/// The `chunk_index` a payload carries, if it is a non-negative integer.
pub open spec fn chunk_index_of(payload: JsonV) -> Option<u64> {
    match get(payload, "chunk_index"@) {
        Some(v) => as_u64(v),
        None => None,
    }
}

pub open spec fn chunk_rank_spec(p: ScrollPointV) -> RankV {
    let ci = chunk_index_of(p.payload);
    RankV {
        missing: ci is None,
        index: match ci { Some(i) => i, None => 0 },
        id: p.id,
    }
}

/// The document a point belongs to: its payload's `doc_id` string, or, when
/// it has none, its own point id, so it still shows up as a one-chunk entry.
pub open spec fn doc_key(p: ScrollPointV) -> Seq<char> {
    match get(p.payload, "doc_id"@) {
        Some(v) => match as_str(v) {
            Some(s) => s,
            None => p.id,
        },
        None => p.id,
    }
}

/// A payload without the chunk bookkeeping `rag_ingest` writes (`doc_id`,
/// `chunk_index`, `text`); a non-object payload unchanged.
pub open spec fn strip_chunk_fields_spec(payload: JsonV) -> JsonV {
    match payload {
        JsonV::Object(m) => JsonV::Object(
            entries_remove(entries_remove(entries_remove(m, "doc_id"@), "chunk_index"@), "text"@),
        ),
        _ => payload,
    }
}

/// One document of a page: its id, how many of its points the page held, the
/// best rank seen and the metadata of the point that holds it.
pub struct DocGroupV {
    pub doc_id: Seq<char>,
    pub chunk_count: nat,
    pub rank: RankV,
    pub metadata: JsonV,
}

#[derive(Debug)]
pub struct DocGroup {
    pub doc_id: String,
    pub chunk_count: u64,
    pub best_rank: ChunkRank,
    pub metadata: Json,
}

impl View for DocGroup {
    type V = DocGroupV;

    open spec fn view(&self) -> DocGroupV {
        DocGroupV {
            doc_id: self.doc_id@,
            chunk_count: self.chunk_count as nat,
            rank: self.best_rank@,
            metadata: self.metadata@,
        }
    }
}

pub open spec fn groups_view(s: Seq<DocGroup>) -> Seq<DocGroupV> {
    s.map_values(|g: DocGroup| g@)
}

/// The first group for document `k`.
pub open spec fn find_group(gs: Seq<DocGroupV>, k: Seq<char>) -> Option<int>
    decreases gs.len(),
{
    if gs.len() == 0 {
        None
    } else if gs[0].doc_id == k {
        Some(0)
    } else {
        match find_group(gs.drop_first(), k) {
            Some(i) => Some(i + 1),
            None => None,
        }
    }
}

/// The groups after one more point.
pub open spec fn add_point(gs: Seq<DocGroupV>, p: ScrollPointV) -> Seq<DocGroupV> {
    let k = doc_key(p);
    let r = chunk_rank_spec(p);
    match find_group(gs, k) {
        Some(i) => gs.update(i, DocGroupV {
            doc_id: gs[i].doc_id,
            chunk_count: gs[i].chunk_count + 1,
            rank: if rank_lt(r, gs[i].rank) { r } else { gs[i].rank },
            metadata: if rank_lt(r, gs[i].rank) { strip_chunk_fields_spec(p.payload) } else { gs[i].metadata },
        }),
        None => gs.push(DocGroupV { doc_id: k, chunk_count: 1, rank: r, metadata: strip_chunk_fields_spec(p.payload) }),
    }
}

/// A page's points grouped by document, in order of first appearance.
pub open spec fn group_points(ps: Seq<ScrollPointV>) -> Seq<DocGroupV>
    decreases ps.len(),
{
    if ps.len() == 0 {
        Seq::empty()
    } else {
        add_point(group_points(ps.drop_last()), ps.last())
    }
}

/// Whether `a` sorts before `b`.
pub fn str_lt(a: &str, b: &str) -> (r: bool)
    ensures
        r == seq_lt(a@, b@),
{
    let x = chars_of(a);
    let y = chars_of(b);
    let mut i: usize = 0;
    assert(a@.skip(0) =~= a@);
    assert(b@.skip(0) =~= b@);
    while i < x.len() && i < y.len() && x[i] == y[i]
        invariant
            x@ == a@,
            y@ == b@,
            i <= x.len(),
            i <= y.len(),
            seq_lt(a@, b@) == seq_lt(a@.skip(i as int), b@.skip(i as int)),
        decreases x.len() - i,
    {
        assert(a@.skip(i as int).drop_first() =~= a@.skip(i + 1));
        assert(b@.skip(i as int).drop_first() =~= b@.skip(i + 1));
        i += 1;
    }
    assert(a@.skip(i as int).len() == x.len() - i);
    assert(b@.skip(i as int).len() == y.len() - i);
    if i == x.len() {
        i < y.len()
    } else if i == y.len() {
        false
    } else {
        assert(a@.skip(i as int)[0] == a@[i as int]);
        assert(b@.skip(i as int)[0] == b@[i as int]);
        assert(x[i as int] != y[i as int]);
        assert(seq_lt(a@.skip(i as int), b@.skip(i as int)) == (x[i as int] < y[i as int]));
        x[i] < y[i]
    }
}

/// Whether rank `a` sorts before rank `b`.
pub fn rank_less(a: &ChunkRank, b: &ChunkRank) -> (r: bool)
    ensures
        r == rank_lt(a@, b@),
{
    (!a.missing && b.missing)
        || (a.missing == b.missing && a.index < b.index)
        || (a.missing == b.missing && a.index == b.index && str_lt(a.id.as_str(), b.id.as_str()))
}

/// A point's rank within its document.
pub fn chunk_rank(p: &ScrollPoint) -> (r: ChunkRank)
    ensures
        r@ == chunk_rank_spec(p@),
{
    let ci: Option<u64> = match p.payload.get("chunk_index") {
        Some(v) => v.as_u64(),
        None => None,
    };
    ChunkRank {
        missing: ci.is_none(),
        index: match ci { Some(i) => i, None => 0 },
        id: p.id.clone(),
    }
}

/// The document a point belongs to.
pub fn doc_key_of(p: &ScrollPoint) -> (r: String)
    ensures
        r@ == doc_key(p@),
{
    match p.payload.get("doc_id") {
        Some(v) => match v.as_str() {
            Some(s) => s.clone(),
            None => p.id.clone(),
        },
        None => p.id.clone(),
    }
}

/// A payload without the chunk bookkeeping fields. Stripping them recovers
/// the metadata a caller passed to `rag_ingest`.
pub fn strip_chunk_fields(payload: &Json) -> (r: Json)
    ensures
        r@ == strip_chunk_fields_spec(payload@),
{
    match payload {
        Json::Object(m) => {
            let a = remove_entry(m, "doc_id");
            let b = remove_entry(&a, "chunk_index");
            let c = remove_entry(&b, "text");
            Json::Object(c)
        },
        _ => payload.duplicate(),
    }
}

fn find_group_exec(gs: &Vec<DocGroup>, k: &str) -> (r: Option<usize>)
    ensures
        match r {
            Some(i) => find_group(groups_view(gs@), k@) == Some(i as int) && i < gs.len(),
            None => find_group(groups_view(gs@), k@) is None,
        },
{
    let ghost g = groups_view(gs@);
    let mut i: usize = 0;
    assert(g.skip(0) =~= g);
    while i < gs.len()
        invariant
            i <= gs.len(),
            g == groups_view(gs@),
            forall|q: int| 0 <= q < i ==> #[trigger] g[q].doc_id != k@,
            find_group(g, k@) == (match find_group(g.skip(i as int), k@) { Some(j) => Some(j + i), None => None }),
        decreases gs.len() - i,
    {
        if str_eq(gs[i].doc_id.as_str(), k) {
            assert(g.skip(i as int)[0] == g[i as int]);
            return Some(i);
        }
        assert(g.skip(i as int).drop_first() =~= g.skip(i + 1));
        i += 1;
    }
    None
}

/// Group one page's points by document. See [`group_points`].
pub fn group_page(points: &Vec<ScrollPoint>) -> (r: Vec<DocGroup>)
    ensures
        groups_view(r@) == group_points(scroll_points_view(points@)),
{
    let ghost ps = scroll_points_view(points@);
    let mut groups: Vec<DocGroup> = Vec::new();
    let mut n: usize = 0;
    assert(groups_view(groups@) =~= group_points(ps.take(0)));
    while n < points.len()
        invariant
            n <= points.len(),
            ps == scroll_points_view(points@),
            groups_view(groups@) == group_points(ps.take(n as int)),
            forall|q: int| 0 <= q < groups@.len() ==> #[trigger] groups@[q].chunk_count <= n,
        decreases points.len() - n,
    {
        let p = &points[n];
        assert(ps.take(n + 1).drop_last() =~= ps.take(n as int));
        assert(ps.take(n + 1).last() == p@);
        let key = doc_key_of(p);
        let rank = chunk_rank(p);
        let ghost before = groups_view(groups@);
        match find_group_exec(&groups, key.as_str()) {
            Some(i) => {
                let better = rank_less(&rank, &groups[i].best_rank);
                let old_group = groups.remove(i);
                let metadata = if better { strip_chunk_fields(&p.payload) } else { old_group.metadata };
                let best_rank = if better { rank } else { old_group.best_rank };
                let updated = DocGroup {
                    doc_id: old_group.doc_id,
                    chunk_count: old_group.chunk_count + 1,
                    best_rank,
                    metadata,
                };
                groups.insert(i, updated);
                assert(groups_view(groups@) =~= add_point(before, p@));
            },
            None => {
                let g = DocGroup { doc_id: key, chunk_count: 1, best_rank: rank, metadata: strip_chunk_fields(&p.payload) };
                groups.push(g);
                assert(groups_view(groups@) =~= add_point(before, p@));
            },
        }
        n += 1;
    }
    assert(ps.take(n as int) =~= ps);
    groups
}


/// How many of `ps` belong to document `k`.
pub open spec fn count_key(ps: Seq<ScrollPointV>, k: Seq<char>) -> nat
    decreases ps.len(),
{
    if ps.len() == 0 {
        0
    } else {
        count_key(ps.drop_last(), k) + if doc_key(ps.last()) == k { 1nat } else { 0nat }
    }
}

proof fn lemma_find_group(gs: Seq<DocGroupV>, k: Seq<char>)
    ensures
        match find_group(gs, k) {
            Some(i) => 0 <= i < gs.len() && gs[i].doc_id == k,
            None => forall|q: int| 0 <= q < gs.len() ==> #[trigger] gs[q].doc_id != k,
        },
    decreases gs.len(),
{
    if gs.len() > 0 && gs[0].doc_id != k {
        lemma_find_group(gs.drop_first(), k);
        match find_group(gs.drop_first(), k) {
            Some(i) => {},
            None => {
                assert forall|q: int| 0 <= q < gs.len() implies #[trigger] gs[q].doc_id != k by {
                    if q > 0 {
                        assert(gs[q] == gs.drop_first()[q - 1]);
                    }
                }
            },
        }
    }
}

proof fn lemma_seq_lt_trans(a: Seq<char>, b: Seq<char>, c: Seq<char>)
    requires
        seq_lt(a, b),
        seq_lt(b, c),
    ensures
        seq_lt(a, c),
    decreases a.len(),
{
    if a.len() > 0 && b.len() > 0 && c.len() > 0 && a[0] == b[0] && b[0] == c[0] {
        lemma_seq_lt_trans(a.drop_first(), b.drop_first(), c.drop_first());
    }
}

proof fn lemma_rank_lt_trans(a: RankV, b: RankV, c: RankV)
    requires
        rank_lt(a, b),
        rank_lt(b, c),
    ensures
        rank_lt(a, c),
{
    if a.missing == b.missing && b.missing == c.missing && a.index == b.index && b.index == c.index {
        lemma_seq_lt_trans(a.id, b.id, c.id);
    }
}

/// What grouping a page guarantees, for every page: one entry per
/// document, no document twice, every point's document listed; each entry
/// counts exactly the page's points of that document; and each entry keeps
/// the rank and the stripped metadata of one of those points, one that no
/// other point of the document outranks, whatever order the page came in.
pub proof fn lemma_page_grouping(ps: Seq<ScrollPointV>)
    ensures
        ({
            let gs = group_points(ps);
            &&& forall|i: int, j: int| 0 <= i < j < gs.len() ==> #[trigger] gs[i].doc_id != #[trigger] gs[j].doc_id
            &&& forall|j: int| 0 <= j < ps.len() ==> #[trigger] find_group(gs, doc_key(ps[j])) is Some
            &&& forall|i: int| 0 <= i < gs.len() ==> #[trigger] gs[i].chunk_count == count_key(ps, gs[i].doc_id) && gs[i].chunk_count >= 1
            &&& forall|i: int| 0 <= i < gs.len() ==> exists|j: int| 0 <= j < ps.len()
                && doc_key(ps[j]) == #[trigger] gs[i].doc_id
                && chunk_rank_spec(ps[j]) == gs[i].rank
                && strip_chunk_fields_spec(ps[j].payload) == gs[i].metadata
            &&& forall|i: int, j: int| 0 <= i < gs.len() && 0 <= j < ps.len() && doc_key(ps[j]) == #[trigger] gs[i].doc_id
                ==> !rank_lt(chunk_rank_spec(#[trigger] ps[j]), gs[i].rank)
        }),
    decreases ps.len(),
{
    if ps.len() == 0 {
        return;
    }
    let prev = ps.drop_last();
    let p = ps.last();
    let last = ps.len() - 1;
    lemma_page_grouping(prev);
    let g0 = group_points(prev);
    let gs = group_points(ps);
    let k = doc_key(p);
    let r = chunk_rank_spec(p);
    assert(gs == add_point(g0, p));
    assert forall|j: int| 0 <= j < prev.len() implies #[trigger] ps[j] == prev[j] by {}
    lemma_find_group(g0, k);
    match find_group(g0, k) {
        Some(i0) => {
            assert(gs.len() == g0.len());
            assert forall|i: int| 0 <= i < gs.len() implies #[trigger] gs[i].doc_id == g0[i].doc_id by {}
            assert forall|i: int, j: int| 0 <= i < j < gs.len() implies #[trigger] gs[i].doc_id != #[trigger] gs[j].doc_id by {
                assert(g0[i].doc_id != g0[j].doc_id);
            }
            assert forall|j: int| 0 <= j < ps.len() implies #[trigger] find_group(gs, doc_key(ps[j])) is Some by {
                lemma_find_group(gs, doc_key(ps[j]));
                if j < last {
                    assert(ps[j] == prev[j]);
                    assert(find_group(g0, doc_key(prev[j])) is Some);
                    lemma_find_group(g0, doc_key(prev[j]));
                    let q = find_group(g0, doc_key(prev[j]))->0;
                    assert(gs[q].doc_id == doc_key(ps[j]));
                } else {
                    assert(gs[i0].doc_id == doc_key(ps[j]));
                }
            }
            assert forall|i: int| 0 <= i < gs.len() implies #[trigger] gs[i].chunk_count == count_key(ps, gs[i].doc_id) && gs[i].chunk_count >= 1 by {
                assert(g0[i].chunk_count == count_key(prev, g0[i].doc_id));
                assert(count_key(ps, gs[i].doc_id) == count_key(prev, gs[i].doc_id) + if k == gs[i].doc_id { 1nat } else { 0nat });
                if i == i0 {
                } else {
                    assert(g0[i].doc_id != g0[i0].doc_id);
                }
            }
            assert forall|i: int| 0 <= i < gs.len() implies exists|j: int| 0 <= j < ps.len()
                && doc_key(ps[j]) == #[trigger] gs[i].doc_id
                && chunk_rank_spec(ps[j]) == gs[i].rank
                && strip_chunk_fields_spec(ps[j].payload) == gs[i].metadata by {
                if i == i0 && rank_lt(r, g0[i0].rank) {
                    assert(doc_key(ps[last]) == gs[i].doc_id);
                } else {
                    let j = choose|j: int| 0 <= j < prev.len()
                        && doc_key(prev[j]) == #[trigger] g0[i].doc_id
                        && chunk_rank_spec(prev[j]) == g0[i].rank
                        && strip_chunk_fields_spec(prev[j].payload) == g0[i].metadata;
                    assert(ps[j] == prev[j]);
                    assert(doc_key(ps[j]) == gs[i].doc_id);
                }
            }
            assert forall|i: int, j: int| 0 <= i < gs.len() && 0 <= j < ps.len() && doc_key(ps[j]) == #[trigger] gs[i].doc_id
                implies !rank_lt(chunk_rank_spec(#[trigger] ps[j]), gs[i].rank) by {
                if j < last {
                    assert(ps[j] == prev[j]);
                    assert(doc_key(prev[j]) == g0[i].doc_id);
                    assert(!rank_lt(chunk_rank_spec(prev[j]), g0[i].rank));
                    if i == i0 && rank_lt(r, g0[i0].rank) {
                        if rank_lt(chunk_rank_spec(ps[j]), r) {
                            lemma_rank_lt_trans(chunk_rank_spec(ps[j]), r, g0[i0].rank);
                        }
                    }
                } else {
                    assert(i == i0) by {
                        if i != i0 {
                            assert(g0[i].doc_id != g0[i0].doc_id);
                        }
                    }
                    if rank_lt(r, g0[i0].rank) {
                        assert(gs[i].rank == r);
                        if rank_lt(r, r) {
                            lemma_rank_lt_irrefl(r);
                        }
                    }
                }
            }
        },
        None => {
            assert(gs == g0.push(DocGroupV { doc_id: k, chunk_count: 1, rank: r, metadata: strip_chunk_fields_spec(p.payload) }));
            assert forall|i: int, j: int| 0 <= i < j < gs.len() implies #[trigger] gs[i].doc_id != #[trigger] gs[j].doc_id by {
                if j < g0.len() {
                    assert(g0[i].doc_id != g0[j].doc_id);
                } else {
                    assert(g0[i].doc_id != k);
                }
            }
            assert forall|j: int| 0 <= j < ps.len() implies #[trigger] find_group(gs, doc_key(ps[j])) is Some by {
                lemma_find_group(gs, doc_key(ps[j]));
                if j < last {
                    assert(ps[j] == prev[j]);
                    assert(find_group(g0, doc_key(prev[j])) is Some);
                    lemma_find_group(g0, doc_key(prev[j]));
                    let q = find_group(g0, doc_key(prev[j]))->0;
                    assert(gs[q].doc_id == doc_key(ps[j]));
                } else {
                    assert(gs[g0.len() as int].doc_id == doc_key(ps[j]));
                }
            }
            assert forall|i: int| 0 <= i < gs.len() implies #[trigger] gs[i].chunk_count == count_key(ps, gs[i].doc_id) && gs[i].chunk_count >= 1 by {
                assert(count_key(ps, gs[i].doc_id) == count_key(prev, gs[i].doc_id) + if k == gs[i].doc_id { 1nat } else { 0nat });
                if i < g0.len() {
                    assert(g0[i].chunk_count == count_key(prev, g0[i].doc_id));
                    assert(g0[i].doc_id != k);
                } else {
                    lemma_count_key_absent(prev, k, g0);
                }
            }
            assert forall|i: int| 0 <= i < gs.len() implies exists|j: int| 0 <= j < ps.len()
                && doc_key(ps[j]) == #[trigger] gs[i].doc_id
                && chunk_rank_spec(ps[j]) == gs[i].rank
                && strip_chunk_fields_spec(ps[j].payload) == gs[i].metadata by {
                if i == g0.len() {
                    assert(doc_key(ps[last]) == gs[i].doc_id);
                } else {
                    let j = choose|j: int| 0 <= j < prev.len()
                        && doc_key(prev[j]) == #[trigger] g0[i].doc_id
                        && chunk_rank_spec(prev[j]) == g0[i].rank
                        && strip_chunk_fields_spec(prev[j].payload) == g0[i].metadata;
                    assert(ps[j] == prev[j]);
                    assert(doc_key(ps[j]) == gs[i].doc_id);
                }
            }
            assert forall|i: int, j: int| 0 <= i < gs.len() && 0 <= j < ps.len() && doc_key(ps[j]) == #[trigger] gs[i].doc_id
                implies !rank_lt(chunk_rank_spec(#[trigger] ps[j]), gs[i].rank) by {
                if j < last {
                    assert(ps[j] == prev[j]);
                    if i == g0.len() {
                        assert(find_group(g0, doc_key(prev[j])) is Some);
                        lemma_find_group(g0, doc_key(prev[j]));
                        let q = find_group(g0, doc_key(prev[j]))->0;
                        assert(g0[q].doc_id == k);
                    } else {
                        assert(g0[i] == gs[i]);
                    }
                } else {
                    if i < g0.len() {
                        assert(g0[i].doc_id != k);
                    } else {
                        lemma_rank_lt_irrefl(r);
                    }
                }
            }
        },
    }
}

/// The metadata a listing keeps for a document is that of the document's
/// lowest-ranked point (lowest `chunk_index`, points without one last, ties
/// broken by point id), wherever that point stood in the page: the scroll
/// order does not decide it.
pub proof fn lemma_listing_keeps_the_lowest_ranked(ps: Seq<ScrollPointV>, i: int, j: int)
    requires
        0 <= i < group_points(ps).len(),
        0 <= j < ps.len(),
        doc_key(ps[j]) == group_points(ps)[i].doc_id,
        forall|q: int| 0 <= q < ps.len() && q != j && doc_key(ps[q]) == doc_key(ps[j])
            ==> rank_lt(chunk_rank_spec(ps[j]), #[trigger] chunk_rank_spec(ps[q])),
    ensures
        group_points(ps)[i].metadata == strip_chunk_fields_spec(ps[j].payload),
        group_points(ps)[i].rank == chunk_rank_spec(ps[j]),
{
    lemma_page_grouping(ps);
    let gs = group_points(ps);
    let w = choose|w: int| 0 <= w < ps.len()
        && doc_key(ps[w]) == #[trigger] gs[i].doc_id
        && chunk_rank_spec(ps[w]) == gs[i].rank
        && strip_chunk_fields_spec(ps[w].payload) == gs[i].metadata;
    if w != j {
        assert(rank_lt(chunk_rank_spec(ps[j]), chunk_rank_spec(ps[w])));
        assert(!rank_lt(chunk_rank_spec(ps[j]), gs[i].rank));
    }
}

/// A point that carries a `chunk_index` outranks one that carries none, and
/// of two points that both carry one, the smaller `chunk_index` outranks the
/// larger, whatever their point ids.
pub proof fn lemma_lower_chunk_index_outranks(p: ScrollPointV, q: ScrollPointV)
    ensures
        chunk_index_of(p.payload) is Some && chunk_index_of(q.payload) is None
            ==> rank_lt(chunk_rank_spec(p), chunk_rank_spec(q)),
        (chunk_index_of(p.payload) matches Some(a) && chunk_index_of(q.payload) matches Some(b) && a < b)
            ==> rank_lt(chunk_rank_spec(p), chunk_rank_spec(q)),
{
}

/// The metadata a listing keeps for a document is that of its point with the
/// smallest `chunk_index`, wherever that point stood in the page and whatever
/// the point ids: every other point of the document carries a larger
/// `chunk_index` or none.
pub proof fn lemma_listing_keeps_lowest_chunk_index(ps: Seq<ScrollPointV>, i: int, j: int)
    requires
        0 <= i < group_points(ps).len(),
        0 <= j < ps.len(),
        doc_key(ps[j]) == group_points(ps)[i].doc_id,
        chunk_index_of(ps[j].payload) is Some,
        forall|q: int| 0 <= q < ps.len() && q != j && doc_key(ps[q]) == doc_key(ps[j])
            ==> (chunk_index_of((#[trigger] ps[q]).payload) is None
                || chunk_index_of(ps[j].payload)->0 < chunk_index_of(ps[q].payload)->0),
    ensures
        group_points(ps)[i].metadata == strip_chunk_fields_spec(ps[j].payload),
{
    assert forall|q: int| 0 <= q < ps.len() && q != j && doc_key(ps[q]) == doc_key(ps[j])
        implies rank_lt(chunk_rank_spec(ps[j]), #[trigger] chunk_rank_spec(ps[q])) by {
        lemma_lower_chunk_index_outranks(ps[j], ps[q]);
    }
    lemma_listing_keeps_the_lowest_ranked(ps, i, j);
}

/// Keys in order of first appearance, each once.
pub open spec fn first_seen(ks: Seq<Seq<char>>) -> Seq<Seq<char>>
    decreases ks.len(),
{
    if ks.len() == 0 {
        Seq::empty()
    } else {
        let prev = first_seen(ks.drop_last());
        if prev.contains(ks.last()) { prev } else { prev.push(ks.last()) }
    }
}

/// The total of the groups' chunk counts.
pub open spec fn total_count(gs: Seq<DocGroupV>) -> nat
    decreases gs.len(),
{
    if gs.len() == 0 { 0 } else { total_count(gs.drop_last()) + gs.last().chunk_count }
}

proof fn lemma_total_count_update(gs: Seq<DocGroupV>, i: int, g: DocGroupV)
    requires
        0 <= i < gs.len(),
    ensures
        total_count(gs.update(i, g)) + gs[i].chunk_count == total_count(gs) + g.chunk_count,
    decreases gs.len(),
{
    let u = gs.update(i, g);
    if i == gs.len() - 1 {
        assert(u.drop_last() =~= gs.drop_last());
    } else {
        lemma_total_count_update(gs.drop_last(), i, g);
        assert(u.drop_last() =~= gs.drop_last().update(i, g));
    }
}

/// The documents of a listing come in the order in which the page first
/// shows them, each once, and their chunk counts add up to the page's
/// number of points: every point is counted exactly once.
pub proof fn lemma_groups_in_first_appearance_order(ps: Seq<ScrollPointV>)
    ensures
        group_points(ps).map_values(|g: DocGroupV| g.doc_id) == first_seen(ps.map_values(|p: ScrollPointV| doc_key(p))),
        total_count(group_points(ps)) == ps.len(),
    decreases ps.len(),
{
    if ps.len() > 0 {
        let prev = ps.drop_last();
        lemma_groups_in_first_appearance_order(prev);
        let g0 = group_points(prev);
        let gs = group_points(ps);
        let k = doc_key(ps.last());
        let ks = ps.map_values(|p: ScrollPointV| doc_key(p));
        let ids0 = g0.map_values(|g: DocGroupV| g.doc_id);
        assert(ks.drop_last() =~= prev.map_values(|p: ScrollPointV| doc_key(p)));
        assert(ks.last() == k);
        assert(ids0 == first_seen(ks.drop_last()));
        lemma_find_group(g0, k);
        match find_group(g0, k) {
            Some(i) => {
                assert(ids0[i] == k);
                assert(ids0.contains(k));
                assert(gs.map_values(|g: DocGroupV| g.doc_id) =~= ids0);
                lemma_total_count_update(g0, i, gs[i]);
                assert(gs == g0.update(i, gs[i]));
            },
            None => {
                assert(!ids0.contains(k)) by {
                    if ids0.contains(k) {
                        let q = choose|q: int| 0 <= q < ids0.len() && ids0[q] == k;
                        assert(g0[q].doc_id != k);
                    }
                }
                assert(gs.map_values(|g: DocGroupV| g.doc_id) =~= ids0.push(k));
                assert(gs.drop_last() =~= g0);
            },
        }
    }
}

proof fn lemma_seq_lt_irrefl(a: Seq<char>)
    ensures
        !seq_lt(a, a),
    decreases a.len(),
{
    if a.len() > 0 {
        lemma_seq_lt_irrefl(a.drop_first());
    }
}

proof fn lemma_rank_lt_irrefl(a: RankV)
    ensures
        !rank_lt(a, a),
{
    lemma_seq_lt_irrefl(a.id);
}

proof fn lemma_count_key_absent(ps: Seq<ScrollPointV>, k: Seq<char>, gs: Seq<DocGroupV>)
    requires
        forall|j: int| 0 <= j < ps.len() ==> #[trigger] find_group(gs, doc_key(ps[j])) is Some,
        forall|q: int| 0 <= q < gs.len() ==> #[trigger] gs[q].doc_id != k,
    ensures
        count_key(ps, k) == 0,
    decreases ps.len(),
{
    if ps.len() > 0 {
        let prev = ps.drop_last();
        assert forall|j: int| 0 <= j < prev.len() implies #[trigger] find_group(gs, doc_key(prev[j])) is Some by {
            assert(prev[j] == ps[j]);
        }
        lemma_count_key_absent(prev, k, gs);
        let last = ps.len() - 1;
        assert(find_group(gs, doc_key(ps[last])) is Some);
        lemma_find_group(gs, doc_key(ps[last]));
    }
}

} // verus!
