//! Ranking what keyword search and vector search found.
//!
//! A hit is known by the hash of its text. Scores are double-precision numbers,
//! which stand as their bits (IEEE 754).

use super::laws::{is_found, law_points_keep_their_scores};
use crate::sorted::{lemma_filter_insert, lemma_insert_multiset};
use crate::text::same_text;
use std::collections::HashMap;
use vstd::prelude::*;
use vstd::string::*;

verus! {

broadcast use vstd::std_specs::hash::group_hash_axioms;

/// A hit of a keyword search.
#[derive(Debug, Clone)]
pub struct KwSearchHit {
    pub title: String,
    pub content: String,
    /// The score, as its bits.
    pub score: u64,
}

/// Which search a point comes from.
#[derive(Debug, Clone, Copy, PartialEq, Eq, Structural)]
pub enum DataFrom {
    KeywordSearch,
    VectorSearch,
}

/// A retrieved text with its score.
#[derive(Debug, Clone)]
pub struct RagScoredPoint {
    pub source: String,
    /// The score, as its bits.
    pub score: u64,
    pub from: DataFrom,
}

// ---------------------------------------------------------------------------
// Hashes
// ---------------------------------------------------------------------------

/// What a `DefaultHasher` made by `new` gives for the text `s`.
pub uninterp spec fn text_hash(s: Seq<char>) -> u64;

/// `std::hash::Hash` for `str` with a `std::collections::hash_map::DefaultHasher` made
/// by `new`, of which all give the same: within one release of the standard library, a
/// hash that depends on the text alone.
#[verifier::external_body]
pub(crate) fn hash_of(s: &str) -> (r: u64)
    ensures
        r == text_hash(s@),
{
    let mut hasher = std::collections::hash_map::DefaultHasher::new();
    std::hash::Hash::hash(s, &mut hasher);
    std::hash::Hasher::finish(&hasher)
}

/// The hash by which a text is known.
pub fn calculate_hash(s: &str) -> (r: u64)
    ensures
        r == text_hash(s@),
{
    hash_of(s)
}

/// The texts by their hashes; of two with the same hash, the later one.
pub open spec fn by_hash(s: Seq<String>) -> Map<u64, String>
    decreases s.len(),
{
    if s.len() == 0 {
        Map::empty()
    } else {
        by_hash(s.drop_last()).insert(text_hash(s.last()@), s.last())
    }
}

/// The texts by their hashes; of two with the same hash, the later one.
pub fn index_texts(sources: &Vec<String>) -> (r: HashMap<u64, String>)
    ensures
        r@ == by_hash(sources@),
{
    let mut r: HashMap<u64, String> = HashMap::new();
    let mut i: usize = 0;
    assert(r@ =~= by_hash(sources@.take(0)));
    while i < sources.len()
        invariant
            i <= sources@.len(),
            r@ == by_hash(sources@.take(i as int)),
        decreases sources@.len() - i,
    {
        assert(sources@.take(i + 1).drop_last() =~= sources@.take(i as int));
        let hash: u64 = calculate_hash(sources[i].as_str());
        r.insert(hash, sources[i].clone());
        i = i + 1;
    }
    assert(sources@.take(sources@.len() as int) =~= sources@);
    r
}

// ---------------------------------------------------------------------------
// Scores
// ---------------------------------------------------------------------------

/// The bits of a number (and not of NaN).
pub open spec fn is_number(bits: u64) -> bool {
    bits <= 0x7ff0_0000_0000_0000 || 0x8000_0000_0000_0000 <= bits <= 0xfff0_0000_0000_0000
}

/// An integer that orders bits as the numbers that they stand for are ordered: those
/// without the sign bit by themselves, those with it the other way round.
pub open spec fn order_of(bits: u64) -> int {
    if bits < 0x8000_0000_0000_0000 {
        bits as int
    } else {
        0x8000_0000_0000_0000 - bits
    }
}

/// Whether the number of `a` is less than that of `b`.
pub fn is_lower(a: u64, b: u64) -> (r: bool)
    ensures
        r == (order_of(a) < order_of(b)),
{
    if a < 0x8000_0000_0000_0000 {
        b < 0x8000_0000_0000_0000 && a < b
    } else if b < 0x8000_0000_0000_0000 {
        a > 0x8000_0000_0000_0000 || b > 0
    } else {
        a > b
    }
}

/// From high scores to low ones.
pub open spec fn is_ranked(s: Seq<(u64, u64)>) -> bool {
    forall|i: int, j: int| 0 <= i < j < s.len() ==> order_of((#[trigger] s[i]).1) >= order_of((#[trigger] s[j]).1)
}

/// The property of having a score that is ordered as `o`.
pub open spec fn is_scored(o: int) -> spec_fn((u64, u64)) -> bool {
    |e: (u64, u64)| order_of(e.1) == o
}

/// The hits whose score is ordered as `o`, in order.
pub open spec fn with_score(s: Seq<(u64, u64)>, o: int) -> Seq<(u64, u64)> {
    s.filter(is_scored(o))
}

/// The hits from high scores to low ones; hits with the same score keep their order.
pub fn rank(fused: &Vec<(u64, u64)>) -> (r: Vec<(u64, u64)>)
    requires
        forall|i: int| 0 <= i < fused@.len() ==> is_number((#[trigger] fused@[i]).1),
    ensures
        r@.to_multiset() == fused@.to_multiset(),
        is_ranked(r@),
        r@.len() == fused@.len(),
        forall|o: int| #[trigger] with_score(r@, o) == with_score(fused@, o),
{
    let mut r: Vec<(u64, u64)> = Vec::new();
    let mut i: usize = 0;
    assert(r@ =~= fused@.take(0));
    while i < fused.len()
        invariant
            i <= fused@.len(),
            r@.len() == i,
            r@.to_multiset() == fused@.take(i as int).to_multiset(),
            is_ranked(r@),
            forall|o: int| #[trigger] with_score(r@, o) == with_score(fused@.take(i as int), o),
        decreases fused@.len() - i,
    {
        let x = fused[i];
        let mut k: usize = 0;
        while k < r.len() && !is_lower(r[k].1, x.1)
            invariant
                k <= r@.len(),
                forall|j: int| 0 <= j < k ==> order_of((#[trigger] r@[j]).1) >= order_of(x.1),
            decreases r@.len() - k,
        {
            k = k + 1;
        }
        let ghost before = r@;
        proof {
            lemma_insert_multiset(before, k as int, x);
            let t = fused@.take(i as int);
            assert(fused@.take(i + 1) =~= t.push(x));
            t.to_multiset_ensures();
            let after = before.insert(k as int, x);
            assert forall|j: int| k <= j < before.len() implies order_of((#[trigger] before[j]).1)
                != order_of(x.1) by {
                if j > k {
                    assert(order_of(before[k as int].1) >= order_of(before[j].1));
                }
            }
            assert forall|o: int| #[trigger] with_score(after, o) == with_score(t.push(x), o) by {
                lemma_filter_insert(before, k as int, x, is_scored(o));
                lemma_filter_insert(t, t.len() as int, x, is_scored(o));
                assert(t.insert(t.len() as int, x) =~= t.push(x));
                assert(with_score(before, o) == with_score(t, o));
            }
            assert forall|a: int, b: int| 0 <= a < b < after.len() implies order_of(
                (#[trigger] after[a]).1,
            ) >= order_of((#[trigger] after[b]).1) by {
                let a0 = if a < k { a } else { a - 1 };
                let b0 = if b < k { b } else { b - 1 };
                if a == k {
                    if k < before.len() && b0 > k {
                        assert(order_of(before[k as int].1) >= order_of(before[b0].1));
                    }
                } else if b == k {
                    assert(order_of(before[a0].1) >= order_of(x.1));
                } else {
                    assert(order_of(before[a0].1) >= order_of(before[b0].1));
                }
            }
        }
        r.insert(k, x);
        i = i + 1;
    }
    assert(fused@.take(fused@.len() as int) =~= fused@);
    r
}

/// The hashes that are to be ranked: those of one search, then those of the other that
/// are not among them.
pub fn fused_ids(kw: &Vec<u64>, vectors: &Vec<u64>) -> (r: Vec<u64>)
    ensures
        forall|x: u64| #[trigger] r@.contains(x) <==> kw@.contains(x) || vectors@.contains(x),
        r@.no_duplicates(),
{
    let mut r: Vec<u64> = Vec::new();
    add_ids(&mut r, kw);
    add_ids(&mut r, vectors);
    r
}

fn add_ids(r: &mut Vec<u64>, ids: &Vec<u64>)
    requires
        old(r)@.no_duplicates(),
    ensures
        final(r)@.no_duplicates(),
        forall|x: u64| #[trigger] final(r)@.contains(x) <==> old(r)@.contains(x) || ids@.contains(x),
{
    let ghost before = r@;
    let mut i: usize = 0;
    while i < ids.len()
        invariant
            i <= ids@.len(),
            r@.no_duplicates(),
            forall|x: u64| #[trigger]
                r@.contains(x) <==> before.contains(x) || ids@.take(i as int).contains(x),
        decreases ids@.len() - i,
    {
        let id: u64 = ids[i];
        let ghost now = r@;
        if !has_hash(r, id) {
            r.push(id);
        }
        proof {
            let t = ids@.take(i as int);
            let u = ids@.take(i + 1);
            assert(u =~= t.push(id));
            assert forall|x: u64| #[trigger] r@.contains(x) <==> before.contains(x) || u.contains(x) by {
                if u.contains(x) && x != id {
                    let k = choose|k: int| 0 <= k < u.len() && u[k] == x;
                    assert(t[k] == x);
                }
                if t.contains(x) {
                    let k = choose|k: int| 0 <= k < t.len() && t[k] == x;
                    assert(u[k] == x);
                }
                assert(u[i as int] == id);
                if r@.contains(x) && x != id {
                    let k = choose|k: int| 0 <= k < r@.len() && r@[k] == x;
                    assert(k < now.len());
                    assert(now[k] == x);
                    assert(now.contains(x));
                }
                if now.contains(x) {
                    let k = choose|k: int| 0 <= k < now.len() && now[k] == x;
                    assert(r@[k] == x);
                }
                if !now.contains(id) {
                    assert(r@[now.len() as int] == id);
                }
            }
        }
        i = i + 1;
    }
    assert(ids@.take(ids@.len() as int) =~= ids@);
}

fn has_hash(v: &Vec<u64>, x: u64) -> (r: bool)
    ensures
        r == v@.contains(x),
{
    let mut i: usize = 0;
    while i < v.len()
        invariant
            i <= v@.len(),
            forall|j: int| 0 <= j < i ==> v@[j] != x,
        decreases v@.len() - i,
    {
        if v[i] == x {
            assert(v@[i as int] == x);
            return true;
        }
        i = i + 1;
    }
    false
}

// ---------------------------------------------------------------------------
// Points and context
// ---------------------------------------------------------------------------

/// What is told of a ranked hash: the text of the keyword hit, or else of the vector hit.
pub open spec fn point_of(entry: (u64, u64), kw: Map<u64, String>, vectors: Map<u64, String>) -> Option<
    (Seq<char>, u64, DataFrom),
> {
    if kw.dom().contains(entry.0) {
        Some((kw[entry.0]@, entry.1, DataFrom::KeywordSearch))
    } else if vectors.dom().contains(entry.0) {
        Some((vectors[entry.0]@, entry.1, DataFrom::VectorSearch))
    } else {
        None
    }
}

/// What is told of ranked hashes.
pub open spec fn points_of(
    ranking: Seq<(u64, u64)>,
    kw: Map<u64, String>,
    vectors: Map<u64, String>,
) -> Seq<(Seq<char>, u64, DataFrom)>
    decreases ranking.len(),
{
    if ranking.len() == 0 {
        Seq::empty()
    } else {
        let before = points_of(ranking.drop_last(), kw, vectors);
        match point_of(ranking.last(), kw, vectors) {
            Some(p) => before.push(p),
            None => before,
        }
    }
}

/// The texts, scores and origins of points.
pub open spec fn told(s: Seq<RagScoredPoint>) -> Seq<(Seq<char>, u64, DataFrom)> {
    s.map_values(|p: RagScoredPoint| (p.source@, p.score, p.from))
}

/// The points of ranked hashes.
pub fn retrieve(
    ranking: &Vec<(u64, u64)>,
    kw: &HashMap<u64, String>,
    vectors: &HashMap<u64, String>,
) -> (r: Vec<RagScoredPoint>)
    ensures
        told(r@) == points_of(ranking@, kw@, vectors@),
{
    let mut r: Vec<RagScoredPoint> = Vec::new();
    let mut i: usize = 0;
    assert(told(r@) =~= points_of(ranking@.take(0), kw@, vectors@));
    while i < ranking.len()
        invariant
            i <= ranking@.len(),
            told(r@) == points_of(ranking@.take(i as int), kw@, vectors@),
        decreases ranking@.len() - i,
    {
        assert(ranking@.take(i + 1).drop_last() =~= ranking@.take(i as int));
        assert(ranking@.take(i + 1).last() == ranking@[i as int]);
        let ghost before = r@;
        let (hash, score) = ranking[i];
        if let Some(text) = kw.get(&hash) {
            r.push(
                RagScoredPoint { source: text.clone(), score, from: DataFrom::KeywordSearch },
            );
            assert(told(r@) =~= told(before).push((text@, score, DataFrom::KeywordSearch)));
        } else if let Some(text) = vectors.get(&hash) {
            r.push(RagScoredPoint { source: text.clone(), score, from: DataFrom::VectorSearch });
            assert(told(r@) =~= told(before).push((text@, score, DataFrom::VectorSearch)));
        }
        i = i + 1;
    }
    assert(ranking@.take(ranking@.len() as int) =~= ranking@);
    r
}

/// Sources one after the other, each with an empty line behind it.
pub open spec fn sources_text(s: Seq<RagScoredPoint>) -> Seq<char>
    decreases s.len(),
{
    if s.len() == 0 {
        Seq::empty()
    } else {
        sources_text(s.drop_last()) + s.last().source@ + "\n\n"@
    }
}

/// The context that an answer rests on: the sources of the points, or word that there
/// are none where nothing was found at all (`None`).
pub fn context_text(points: &Option<Vec<RagScoredPoint>>) -> (r: String)
    ensures
        r@ == match *points {
            Some(v) => sources_text(v@),
            None => "No context retrieved"@,
        },
{
    match points {
        None => "No context retrieved".to_owned(),
        Some(v) => {
            let mut r = String::new();
            let mut i: usize = 0;
            assert(r@ =~= sources_text(v@.take(0)));
            while i < v.len()
                invariant
                    i <= v@.len(),
                    r@ == sources_text(v@.take(i as int)),
                decreases v@.len() - i,
            {
                assert(v@.take(i + 1).drop_last() =~= v@.take(i as int));
                r.append(v[i].source.as_str());
                r.append("\n\n");
                i = i + 1;
            }
            assert(v@.take(v@.len() as int) =~= v@);
            r
        },
    }
}

/// `r` is what the fused scores of the hits give.
pub open spec fn is_reranked(
    fused: Seq<(u64, u64)>,
    kw: Seq<String>,
    vectors: Seq<String>,
    r: Option<Vec<RagScoredPoint>>,
) -> bool {
    match r {
        None => fused.len() == 0,
        Some(v) => fused.len() > 0 && exists|ranking: Seq<(u64, u64)>| #[trigger]
            is_ranked(ranking) && ranking.to_multiset() == fused.to_multiset() && told(v@)
                == points_of(ranking, by_hash(kw), by_hash(vectors)),
    }
}

/// The points of two searches from high fused scores to low ones: `fused` holds the
/// hashes of the texts with their scores. Nothing (`None`) where it is empty.
pub fn rerank(fused: &Vec<(u64, u64)>, kw_texts: &Vec<String>, vector_texts: &Vec<String>) -> (r: Option<
    Vec<RagScoredPoint>,
>)
    requires
        forall|i: int| 0 <= i < fused@.len() ==> is_number((#[trigger] fused@[i]).1),
    ensures
        is_reranked(fused@, kw_texts@, vector_texts@, r),
{
    if fused.len() == 0 {
        return None;
    }
    let kw = index_texts(kw_texts);
    let vectors = index_texts(vector_texts);
    let ranking = rank(fused);
    let r = retrieve(&ranking, &kw, &vectors);
    assert(is_ranked(ranking@));
    Some(r)
}

// ---------------------------------------------------------------------------
// Duplicates
// ---------------------------------------------------------------------------

/// One of `s` has the source `t`.
pub open spec fn has_source(s: Seq<RagScoredPoint>, t: Seq<char>) -> bool {
    exists|i: int| 0 <= i < s.len() && (#[trigger] s[i]).source@ == t
}

/// The points without those whose source stands in an earlier one.
pub open spec fn first_of_each(s: Seq<RagScoredPoint>) -> Seq<RagScoredPoint>
    decreases s.len(),
{
    if s.len() == 0 {
        Seq::empty()
    } else {
        let before = first_of_each(s.drop_last());
        if has_source(s.drop_last(), s.last().source@) {
            before
        } else {
            before.push(s.last())
        }
    }
}

fn source_seen(v: &Vec<RagScoredPoint>, n: usize, t: &str) -> (r: bool)
    requires
        n <= v@.len(),
    ensures
        r == has_source(v@.take(n as int), t@),
{
    let mut i: usize = 0;
    while i < n
        invariant
            i <= n <= v@.len(),
            forall|j: int| 0 <= j < i ==> (#[trigger] v@[j]).source@ != t@,
        decreases n - i,
    {
        if same_text(v[i].source.as_str(), t) {
            assert(v@.take(n as int)[i as int].source@ == t@);
            return true;
        }
        i = i + 1;
    }
    assert forall|j: int| 0 <= j < n implies (#[trigger] v@.take(n as int)[j]).source@ != t@ by {
        assert(v@[j].source@ != t@);
    }
    false
}

/// The same point again.
fn copy_point(p: &RagScoredPoint) -> (r: RagScoredPoint)
    ensures
        r == *p,
{
    RagScoredPoint { source: p.source.clone(), score: p.score, from: p.from }
}

/// Removes the points whose source stands in an earlier one. Nothing is left (`None`)
/// where there were no points.
pub fn remove_duplicates(points: &Vec<RagScoredPoint>) -> (r: Option<Vec<RagScoredPoint>>)
    ensures
        match r {
            Some(v) => points@.len() > 0 && v@ == first_of_each(points@) && v@.len() > 0,
            None => points@.len() == 0,
        },
{
    let mut v: Vec<RagScoredPoint> = Vec::new();
    let mut i: usize = 0;
    assert(v@ =~= first_of_each(points@.take(0)));
    while i < points.len()
        invariant
            i <= points@.len(),
            v@ == first_of_each(points@.take(i as int)),
            i > 0 ==> v@.len() > 0,
        decreases points@.len() - i,
    {
        assert(points@.take(i + 1).drop_last() =~= points@.take(i as int));
        if !source_seen(points, i, points[i].source.as_str()) {
            v.push(copy_point(&points[i]));
        }
        i = i + 1;
    }
    assert(points@.take(points@.len() as int) =~= points@);
    if v.len() == 0 {
        None
    } else {
        Some(v)
    }
}

/// A point that a vector search found: its source in JSON, and as a text where it is one.
#[derive(Debug, Clone)]
pub struct FoundPoint {
    pub source_json: String,
    pub source: Option<String>,
    /// The score, as its bits.
    pub score: u64,
}

/// One of `s` has the source `t`, in JSON.
pub open spec fn has_json(s: Seq<FoundPoint>, t: Seq<char>) -> bool {
    exists|i: int| 0 <= i < s.len() && (#[trigger] s[i]).source_json@ == t
}

/// What is told of found points: of those with the same source the first, and of
/// these the ones whose source is a text.
pub open spec fn unique_told(s: Seq<FoundPoint>) -> Seq<(Seq<char>, u64, DataFrom)>
    decreases s.len(),
{
    if s.len() == 0 {
        Seq::empty()
    } else {
        let before = unique_told(s.drop_last());
        match s.last().source {
            Some(t) if !has_json(s.drop_last(), s.last().source_json@) => before.push(
                (t@, s.last().score, DataFrom::VectorSearch),
            ),
            _ => before,
        }
    }
}

fn json_seen(v: &Vec<FoundPoint>, n: usize, t: &str) -> (r: bool)
    requires
        n <= v@.len(),
    ensures
        r == has_json(v@.take(n as int), t@),
{
    let mut i: usize = 0;
    while i < n
        invariant
            i <= n <= v@.len(),
            forall|j: int| 0 <= j < i ==> (#[trigger] v@[j]).source_json@ != t@,
        decreases n - i,
    {
        if same_text(v[i].source_json.as_str(), t) {
            assert(v@.take(n as int)[i as int].source_json@ == t@);
            return true;
        }
        i = i + 1;
    }
    assert forall|j: int| 0 <= j < n implies (#[trigger] v@.take(n as int)[j]).source_json@
        != t@ by {
        assert(v@[j].source_json@ != t@);
    }
    false
}

/// The points of a vector search, each source once.
pub fn unique_points(found: &Vec<FoundPoint>) -> (r: Vec<RagScoredPoint>)
    ensures
        told(r@) == unique_told(found@),
        forall|i: int|
            0 <= i < r@.len() ==> is_found(found@, #[trigger] r@[i]),
{
    let mut r: Vec<RagScoredPoint> = Vec::new();
    let mut i: usize = 0;
    assert(told(r@) =~= unique_told(found@.take(0)));
    while i < found.len()
        invariant
            i <= found@.len(),
            told(r@) == unique_told(found@.take(i as int)),
        decreases found@.len() - i,
    {
        assert(found@.take(i + 1).drop_last() =~= found@.take(i as int));
        assert(found@.take(i + 1).last() == found@[i as int]);
        let ghost before = r@;
        if !json_seen(found, i, found[i].source_json.as_str()) {
            if let Some(t) = &found[i].source {
                r.push(
                    RagScoredPoint {
                        source: t.clone(),
                        score: found[i].score,
                        from: DataFrom::VectorSearch,
                    },
                );
                assert(told(r@) =~= told(before).push(
                    (t@, found@[i as int].score, DataFrom::VectorSearch),
                ));
            }
        }
        i = i + 1;
    }
    assert(found@.take(found@.len() as int) =~= found@);
    assert forall|i: int| 0 <= i < r@.len() implies is_found(found@, #[trigger] r@[i]) by {
        let j = law_points_keep_their_scores(found@, r@, i);
    }
    r
}

// ---------------------------------------------------------------------------
// Laws
// ---------------------------------------------------------------------------

proof fn lemma_first_of_each(s: Seq<RagScoredPoint>)
    ensures
        forall|t: Seq<char>| #![trigger has_source(s, t)]
            has_source(first_of_each(s), t) == has_source(s, t),
        forall|i: int, j: int|
            0 <= i < j < first_of_each(s).len() ==> (#[trigger] first_of_each(s)[i]).source@ != (
            #[trigger] first_of_each(s)[j]).source@,
    decreases s.len(),
{
    if s.len() > 0 {
        let t = s.drop_last();
        let f = first_of_each(t);
        let g = first_of_each(s);
        lemma_first_of_each(t);
        assert(has_source(f, s.last().source@) == has_source(t, s.last().source@));
        assert forall|x: Seq<char>| #![trigger has_source(s, x)] has_source(g, x) == has_source(s, x) by {
            assert(has_source(f, x) == has_source(t, x));
            if has_source(t, x) {
                let i = choose|i: int| 0 <= i < t.len() && (#[trigger] t[i]).source@ == x;
                assert(s[i].source@ == x);
                let k = choose|k: int| 0 <= k < f.len() && (#[trigger] f[k]).source@ == x;
                assert(g[k].source@ == x);
            } else if s.last().source@ == x {
                assert(s[s.len() - 1].source@ == x);
                assert(g[g.len() - 1].source@ == x);
            } else {
                if has_source(s, x) {
                    let i = choose|i: int| 0 <= i < s.len() && (#[trigger] s[i]).source@ == x;
                    assert(t[i].source@ == x);
                }
                if has_source(g, x) {
                    let k = choose|k: int| 0 <= k < g.len() && (#[trigger] g[k]).source@ == x;
                    if k < f.len() {
                        assert(f[k].source@ == x);
                    }
                }
            }
        }
        assert forall|i: int, j: int| 0 <= i < j < g.len() implies (#[trigger] g[i]).source@ != (
        #[trigger] g[j]).source@ by {
            if j < f.len() {
                assert(f[i].source@ != f[j].source@);
            } else {
                assert(!has_source(f, s.last().source@));
                assert(f[i].source@ != s.last().source@);
            }
        }
    }
}

/// Removing duplicates loses no source and leaves none twice.
pub proof fn law_sources_once(s: Seq<RagScoredPoint>, t: Seq<char>)
    ensures
        has_source(first_of_each(s), t) == has_source(s, t),
        forall|i: int, j: int|
            0 <= i < j < first_of_each(s).len() ==> (#[trigger] first_of_each(s)[i]).source@ != (
            #[trigger] first_of_each(s)[j]).source@,
{
    lemma_first_of_each(s);
    assert(has_source(s, t) == has_source(s, t));
}

/// A hit that both searches found is told once for each time it is ranked, as a
/// keyword hit.
pub proof fn law_keyword_hit_preferred(entry: (u64, u64), kw: Map<u64, String>, vectors: Map<u64, String>)
    requires
        kw.dom().contains(entry.0),
    ensures
        point_of(entry, kw, vectors) == Some((kw[entry.0]@, entry.1, DataFrom::KeywordSearch)),
{
}

/// The texts of a search are known by their hashes.
pub proof fn law_hits_indexed(s: Seq<String>, i: int)
    requires
        0 <= i < s.len(),
    ensures
        by_hash(s).dom().contains(text_hash(s[i]@)),
    decreases s.len(),
{
    if i < s.len() - 1 {
        law_hits_indexed(s.drop_last(), i);
        assert(s.drop_last()[i] == s[i]);
    }
}

/// Every ranked hash that a search found is told, in the order of the ranking.
pub proof fn law_all_ranked_told(ranking: Seq<(u64, u64)>, kw: Map<u64, String>, vectors: Map<u64, String>)
    requires
        forall|i: int|
            0 <= i < ranking.len() ==> kw.dom().contains((#[trigger] ranking[i]).0)
                || vectors.dom().contains(ranking[i].0),
    ensures
        points_of(ranking, kw, vectors).len() == ranking.len(),
        forall|i: int|
            0 <= i < ranking.len() ==> Some(#[trigger] points_of(ranking, kw, vectors)[i])
                == point_of(ranking[i], kw, vectors),
    decreases ranking.len(),
{
    if ranking.len() > 0 {
        let t = ranking.drop_last();
        assert forall|i: int| 0 <= i < t.len() implies kw.dom().contains((#[trigger] t[i]).0)
            || vectors.dom().contains(t[i].0) by {
            assert(t[i] == ranking[i]);
        }
        law_all_ranked_told(t, kw, vectors);
        assert(ranking[ranking.len() - 1] == ranking.last());
    }
}

} // verus!
