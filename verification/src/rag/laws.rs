//! What holds of retrieval as a whole: the points that searches find, and the texts that
//! reach the model.

use super::chunks::{kind_of, DocumentKind};
use super::rerank::{
    by_hash, first_of_each, has_json, has_source, is_ranked, is_reranked, order_of, point_of,
    points_of, sources_text, text_hash, told, unique_told, DataFrom, FoundPoint, RagScoredPoint,
};
use crate::text::{has_text, lemma_has_end, lemma_has_start, lemma_text_in_text};
use vstd::prelude::*;

verus! {

// ---------------------------------------------------------------------------
// Points of a vector search
// ---------------------------------------------------------------------------

/// No point in front of the one at `j` has its source, in JSON.
pub open spec fn is_first_found(found: Seq<FoundPoint>, j: int) -> bool {
    forall|k: int| 0 <= k < j ==> (#[trigger] found[k]).source_json@ != found[j].source_json@
}

/// `p` is the found point at `j`: its text and its score, as a hit of a vector search.
pub open spec fn is_point_at(found: Seq<FoundPoint>, j: int, p: RagScoredPoint) -> bool {
    &&& found[j].source matches Some(t) && p.source@ == t@
    &&& p.score == found[j].score
    &&& p.from == DataFrom::VectorSearch
}

/// `p` is one of the found points, and the first with its source.
pub open spec fn is_found(found: Seq<FoundPoint>, p: RagScoredPoint) -> bool {
    exists|j: int|
        0 <= j < found.len() && #[trigger] is_point_at(found, j, p) && is_first_found(found, j)
}

/// Every point that is returned is a found one with its score, and the first with its
/// source.
pub proof fn law_points_keep_their_scores(found: Seq<FoundPoint>, r: Seq<RagScoredPoint>, i: int) -> (j: int)
    requires
        told(r) == unique_told(found),
        0 <= i < r.len(),
    ensures
        0 <= j < found.len(),
        is_point_at(found, j, r[i]),
        is_first_found(found, j),
{
    let j = lemma_told_at(found, i);
    assert(told(r)[i] == (r[i].source@, r[i].score, r[i].from));
    j
}

/// The place of what is told at `i`.
pub open spec fn place_of(found: Seq<FoundPoint>, i: int) -> int
    decreases found.len(),
{
    if found.len() == 0 {
        0
    } else if i < unique_told(found.drop_last()).len() {
        place_of(found.drop_last(), i)
    } else {
        found.len() - 1
    }
}

proof fn lemma_told_at(found: Seq<FoundPoint>, i: int) -> (j: int)
    requires
        0 <= i < unique_told(found).len(),
    ensures
        j == place_of(found, i),
        0 <= j < found.len(),
        found[j].source matches Some(t) && unique_told(found)[i].0 == t@,
        unique_told(found)[i].1 == found[j].score,
        unique_told(found)[i].2 == DataFrom::VectorSearch,
        is_first_found(found, j),
    decreases found.len(),
{
    let before = found.drop_last();
    if i < unique_told(before).len() {
        let j = lemma_told_at(before, i);
        assert(found[j] == before[j]);
        assert forall|k: int| 0 <= k < j implies (#[trigger] found[k]).source_json@
            != found[j].source_json@ by {
            assert(before[k] == found[k]);
        }
        j
    } else {
        let j = found.len() - 1;
        assert forall|k: int| 0 <= k < j implies (#[trigger] found[k]).source_json@
            != found[j].source_json@ by {
            assert(before[k] == found[k]);
        }
        j
    }
}

/// Every found point whose source is a text, and the first with it, is returned with its
/// score.
pub proof fn law_no_point_is_lost(found: Seq<FoundPoint>, r: Seq<RagScoredPoint>, j: int) -> (i: int)
    requires
        told(r) == unique_told(found),
        0 <= j < found.len(),
        found[j].source is Some,
        is_first_found(found, j),
    ensures
        0 <= i < r.len(),
        is_point_at(found, j, r[i]),
{
    let i = lemma_found_is_told(found, j);
    assert(told(r).len() == r.len());
    assert(told(r)[i] == (r[i].source@, r[i].score, r[i].from));
    i
}

proof fn lemma_found_is_told(found: Seq<FoundPoint>, j: int) -> (i: int)
    requires
        0 <= j < found.len(),
        found[j].source is Some,
        is_first_found(found, j),
    ensures
        0 <= i < unique_told(found).len(),
        place_of(found, i) == j,
        unique_told(found)[i] == (found[j].source->0@, found[j].score, DataFrom::VectorSearch),
    decreases found.len(),
{
    let before = found.drop_last();
    if j < before.len() {
        assert(before[j] == found[j]);
        assert forall|k: int| 0 <= k < j implies (#[trigger] before[k]).source_json@
            != before[j].source_json@ by {
            assert(before[k] == found[k]);
        }
        lemma_found_is_told(before, j)
    } else {
        if has_json(before, found[j].source_json@) {
            let k = choose|k: int|
                0 <= k < before.len() && (#[trigger] before[k]).source_json@
                    == found[j].source_json@;
            assert(found[k] == before[k]);
        }
        unique_told(before).len() as int
    }
}

/// The points come back in the order in which they were found.
pub proof fn law_points_keep_their_order(found: Seq<FoundPoint>, i: int, k: int)
    requires
        0 <= i < k < unique_told(found).len(),
    ensures
        place_of(found, i) < place_of(found, k),
    decreases found.len(),
{
    let before = found.drop_last();
    if k < unique_told(before).len() {
        law_points_keep_their_order(before, i, k);
    } else {
        assert(unique_told(found).len() <= unique_told(before).len() + 1);
        let j = lemma_told_at(before, i);
    }
}

/// Scores make a difference: two lists of found points that differ in the score of one
/// that is told give different points.
pub proof fn law_scores_make_a_difference(
    a: Seq<FoundPoint>,
    b: Seq<FoundPoint>,
    j: int,
    ra: Seq<RagScoredPoint>,
    rb: Seq<RagScoredPoint>,
)
    requires
        a.len() == b.len(),
        forall|k: int|
            0 <= k < a.len() ==> (#[trigger] a[k]).source == b[k].source && a[k].source_json
                == b[k].source_json,
        0 <= j < a.len(),
        a[j].source is Some,
        is_first_found(a, j),
        a[j].score != b[j].score,
        told(ra) == unique_told(a),
        told(rb) == unique_told(b),
    ensures
        ra.len() == rb.len(),
        exists|i: int| 0 <= i < ra.len() && (#[trigger] ra[i]).score != rb[i].score,
{
    lemma_same_places(a, b);
    assert(told(ra).len() == ra.len() && told(rb).len() == rb.len());
    let i = lemma_found_is_told(a, j);
    let k = lemma_told_at(b, i);
    assert(told(ra)[i] == (ra[i].source@, ra[i].score, ra[i].from));
    assert(told(rb)[i] == (rb[i].source@, rb[i].score, rb[i].from));
    assert(ra[i].score != rb[i].score);
}

proof fn lemma_same_places(a: Seq<FoundPoint>, b: Seq<FoundPoint>)
    requires
        a.len() == b.len(),
        forall|k: int|
            0 <= k < a.len() ==> (#[trigger] a[k]).source == b[k].source && a[k].source_json
                == b[k].source_json,
    ensures
        unique_told(a).len() == unique_told(b).len(),
        forall|i: int| 0 <= i < unique_told(a).len() ==> #[trigger] place_of(a, i) == place_of(b, i),
    decreases a.len(),
{
    if a.len() > 0 {
        let (x, y) = (a.drop_last(), b.drop_last());
        assert forall|k: int| 0 <= k < x.len() implies (#[trigger] x[k]).source == y[k].source
            && x[k].source_json == y[k].source_json by {
            assert(a[k] == x[k] && b[k] == y[k]);
        }
        lemma_same_places(x, y);
        assert(a[a.len() - 1] == a.last());
        let t = a.last().source_json@;
        if has_json(x, t) {
            let k = choose|k: int| 0 <= k < x.len() && (#[trigger] x[k]).source_json@ == t;
            assert(y[k].source_json@ == t);
        }
        if has_json(y, t) {
            let k = choose|k: int| 0 <= k < y.len() && (#[trigger] y[k]).source_json@ == t;
            assert(x[k].source_json@ == t);
        }
        assert forall|i: int| 0 <= i < unique_told(a).len() implies #[trigger] place_of(a, i)
            == place_of(b, i) by {
            if i < unique_told(x).len() {
                assert(place_of(x, i) == place_of(y, i));
            }
        }
    }
}

// ---------------------------------------------------------------------------
// Points of two searches
// ---------------------------------------------------------------------------

/// `p` is the hit `e`: its score, and the text that it is known for, from the keyword
/// search where that found it.
pub open spec fn is_hit_of(
    e: (u64, u64),
    kw: Seq<String>,
    vectors: Seq<String>,
    p: (Seq<char>, u64, DataFrom),
) -> bool {
    &&& p.1 == e.1
    &&& text_hash(p.0) == e.0
    &&& match p.2 {
        DataFrom::KeywordSearch => exists|i: int| 0 <= i < kw.len() && (#[trigger] kw[i])@ == p.0,
        DataFrom::VectorSearch => (exists|i: int|
            0 <= i < vectors.len() && (#[trigger] vectors[i])@ == p.0) && forall|i: int|
            0 <= i < kw.len() ==> text_hash((#[trigger] kw[i])@) != e.0,
    }
}

proof fn lemma_indexed(s: Seq<String>, h: u64)
    ensures
        by_hash(s).dom().contains(h) <==> exists|i: int|
            0 <= i < s.len() && text_hash((#[trigger] s[i])@) == h,
        by_hash(s).dom().contains(h) ==> text_hash(by_hash(s)[h]@) == h && exists|i: int|
            0 <= i < s.len() && #[trigger] s[i] == by_hash(s)[h],
    decreases s.len(),
{
    if s.len() > 0 {
        let t = s.drop_last();
        lemma_indexed(t, h);
        let n = s.len() - 1;
        assert(s[n] == s.last());
        if by_hash(t).dom().contains(h) {
            let i = choose|i: int| 0 <= i < t.len() && #[trigger] t[i] == by_hash(t)[h];
            assert(s[i] == t[i]);
        }
        if exists|i: int| 0 <= i < s.len() && text_hash((#[trigger] s[i])@) == h {
            let i = choose|i: int| 0 <= i < s.len() && text_hash((#[trigger] s[i])@) == h;
            if i < n {
                assert(t[i] == s[i]);
            }
        }
    }
}

proof fn lemma_hit(e: (u64, u64), kw: Seq<String>, vectors: Seq<String>)
    ensures
        match point_of(e, by_hash(kw), by_hash(vectors)) {
            Some(p) => is_hit_of(e, kw, vectors, p),
            None => (forall|i: int| 0 <= i < kw.len() ==> text_hash((#[trigger] kw[i])@) != e.0)
                && forall|i: int|
                0 <= i < vectors.len() ==> text_hash((#[trigger] vectors[i])@) != e.0,
        },
{
    lemma_indexed(kw, e.0);
    lemma_indexed(vectors, e.0);
    if by_hash(kw).dom().contains(e.0) {
        let i = choose|i: int| 0 <= i < kw.len() && #[trigger] kw[i] == by_hash(kw)[e.0];
        assert(kw[i]@ == by_hash(kw)[e.0]@);
    } else if by_hash(vectors).dom().contains(e.0) {
        let i = choose|i: int|
            0 <= i < vectors.len() && #[trigger] vectors[i] == by_hash(vectors)[e.0];
        assert(vectors[i]@ == by_hash(vectors)[e.0]@);
    }
}

/// The place in the ranking of the point at `i`.
pub open spec fn rank_of(
    ranking: Seq<(u64, u64)>,
    kw: Seq<String>,
    vectors: Seq<String>,
    i: int,
) -> int
    decreases ranking.len(),
{
    if ranking.len() == 0 {
        0
    } else if i < points_of(ranking.drop_last(), by_hash(kw), by_hash(vectors)).len() {
        rank_of(ranking.drop_last(), kw, vectors, i)
    } else {
        ranking.len() - 1
    }
}

proof fn lemma_points(ranking: Seq<(u64, u64)>, kw: Seq<String>, vectors: Seq<String>, i: int)
    requires
        0 <= i < points_of(ranking, by_hash(kw), by_hash(vectors)).len(),
    ensures
        0 <= rank_of(ranking, kw, vectors, i) < ranking.len(),
        is_hit_of(
            ranking[rank_of(ranking, kw, vectors, i)],
            kw,
            vectors,
            points_of(ranking, by_hash(kw), by_hash(vectors))[i],
        ),
    decreases ranking.len(),
{
    let t = ranking.drop_last();
    lemma_hit(ranking.last(), kw, vectors);
    if i < points_of(t, by_hash(kw), by_hash(vectors)).len() {
        lemma_points(t, kw, vectors, i);
        assert(t[rank_of(t, kw, vectors, i)] == ranking[rank_of(t, kw, vectors, i)]);
    }
}

proof fn lemma_ranks_rise(
    ranking: Seq<(u64, u64)>,
    kw: Seq<String>,
    vectors: Seq<String>,
    i: int,
    j: int,
)
    requires
        0 <= i < j < points_of(ranking, by_hash(kw), by_hash(vectors)).len(),
    ensures
        rank_of(ranking, kw, vectors, i) < rank_of(ranking, kw, vectors, j),
    decreases ranking.len(),
{
    let t = ranking.drop_last();
    if j < points_of(t, by_hash(kw), by_hash(vectors)).len() {
        lemma_ranks_rise(t, kw, vectors, i, j);
    } else {
        lemma_points(t, kw, vectors, i);
    }
}

/// No point has a higher score than one in front of it.
pub proof fn law_points_from_high_to_low(
    fused: Seq<(u64, u64)>,
    kw: Seq<String>,
    vectors: Seq<String>,
    v: Vec<RagScoredPoint>,
    i: int,
    j: int,
)
    requires
        is_reranked(fused, kw, vectors, Some(v)),
        0 <= i < j < v@.len(),
    ensures
        order_of(v@[i].score) >= order_of(v@[j].score),
{
    let ranking = ranking_of(fused, kw, vectors, v);
    assert(told(v@).len() == v@.len());
    lemma_points(ranking, kw, vectors, i);
    lemma_points(ranking, kw, vectors, j);
    lemma_ranks_rise(ranking, kw, vectors, i, j);
    let a = rank_of(ranking, kw, vectors, i);
    let b = rank_of(ranking, kw, vectors, j);
    assert(order_of(ranking[a].1) >= order_of(ranking[b].1));
    assert(told(v@)[i].1 == v@[i].score);
    assert(told(v@)[j].1 == v@[j].score);
}

/// A ranking that gives the points.
pub open spec fn ranking_of(
    fused: Seq<(u64, u64)>,
    kw: Seq<String>,
    vectors: Seq<String>,
    v: Vec<RagScoredPoint>,
) -> Seq<(u64, u64)> {
    choose|ranking: Seq<(u64, u64)>| #[trigger]
        is_ranked(ranking) && ranking.to_multiset() == fused.to_multiset() && told(v@)
            == points_of(ranking, by_hash(kw), by_hash(vectors))
}

/// Every point is one of the fused hits with its fused score and a text that has its hash,
/// from the keyword search where that found it.
pub proof fn law_points_are_fused_hits(
    fused: Seq<(u64, u64)>,
    kw: Seq<String>,
    vectors: Seq<String>,
    v: Vec<RagScoredPoint>,
    i: int,
)
    requires
        is_reranked(fused, kw, vectors, Some(v)),
        0 <= i < v@.len(),
    ensures
        exists|k: int|
            0 <= k < fused.len() && is_hit_of(
                #[trigger] fused[k],
                kw,
                vectors,
                (v@[i].source@, v@[i].score, v@[i].from),
            ),
{
    broadcast use vstd::seq_lib::group_to_multiset_ensures;

    let ranking = ranking_of(fused, kw, vectors, v);
    assert(told(v@).len() == v@.len());
    assert(told(v@)[i] == (v@[i].source@, v@[i].score, v@[i].from));
    lemma_points(ranking, kw, vectors, i);
    let e = ranking[rank_of(ranking, kw, vectors, i)];
    assert(ranking.contains(e));
    assert(ranking.to_multiset().count(e) > 0);
    assert(fused.contains(e));
    let k = choose|k: int| 0 <= k < fused.len() && fused[k] == e;
    assert(is_hit_of(fused[k], kw, vectors, (v@[i].source@, v@[i].score, v@[i].from)));
}

proof fn lemma_ranked_is_told(ranking: Seq<(u64, u64)>, kw: Seq<String>, vectors: Seq<String>, k: int) -> (i:
    int)
    requires
        0 <= k < ranking.len(),
        point_of(ranking[k], by_hash(kw), by_hash(vectors)) is Some,
    ensures
        0 <= i < points_of(ranking, by_hash(kw), by_hash(vectors)).len(),
        Some(points_of(ranking, by_hash(kw), by_hash(vectors))[i]) == point_of(
            ranking[k],
            by_hash(kw),
            by_hash(vectors),
        ),
    decreases ranking.len(),
{
    let t = ranking.drop_last();
    if k < t.len() {
        assert(t[k] == ranking[k]);
        lemma_ranked_is_told(t, kw, vectors, k)
    } else {
        points_of(t, by_hash(kw), by_hash(vectors)).len() as int
    }
}

/// No fused hit is lost: for each whose hash a text of one of the searches has, there is
/// a point with its score and such a text.
pub proof fn law_no_hit_is_lost(
    fused: Seq<(u64, u64)>,
    kw: Seq<String>,
    vectors: Seq<String>,
    v: Vec<RagScoredPoint>,
    k: int,
)
    requires
        is_reranked(fused, kw, vectors, Some(v)),
        0 <= k < fused.len(),
        (exists|i: int| 0 <= i < kw.len() && text_hash((#[trigger] kw[i])@) == fused[k].0) || (
        exists|i: int| 0 <= i < vectors.len() && text_hash((#[trigger] vectors[i])@) == fused[k].0),
    ensures
        exists|i: int|
            0 <= i < v@.len() && (#[trigger] v@[i]).score == fused[k].1 && text_hash(v@[i].source@)
                == fused[k].0,
{
    broadcast use vstd::seq_lib::group_to_multiset_ensures;

    let e = fused[k];
    let ranking = ranking_of(fused, kw, vectors, v);
    assert(fused.contains(e));
    assert(fused.to_multiset().count(e) > 0);
    assert(ranking.contains(e));
    let a = choose|a: int| 0 <= a < ranking.len() && ranking[a] == e;
    lemma_hit(e, kw, vectors);
    let i = lemma_ranked_is_told(ranking, kw, vectors, a);
    assert(told(v@).len() == v@.len());
    assert(told(v@)[i] == (v@[i].source@, v@[i].score, v@[i].from));
    assert(v@[i].score == fused[k].1);
}

/// The bits of numbers above zero are ordered as they are, those of numbers below zero the
/// other way round, and every number below zero comes before every number above it; plus
/// and minus zero are equal.
pub proof fn law_scores_ordered_as_numbers(a: u64, b: u64)
    ensures
        a < 0x8000_0000_0000_0000 && b < 0x8000_0000_0000_0000 ==> (order_of(a) < order_of(b)
            <==> a < b),
        a > 0x8000_0000_0000_0000 && b > 0x8000_0000_0000_0000 ==> (order_of(a) < order_of(b)
            <==> a > b),
        a > 0x8000_0000_0000_0000 && b < 0x8000_0000_0000_0000 ==> order_of(a) < order_of(b),
        order_of(0) == order_of(0x8000_0000_0000_0000),
{
}

// ---------------------------------------------------------------------------
// What the model gets of the points
// ---------------------------------------------------------------------------

/// The source of every point stands in the text that an answer rests on, with an empty
/// line behind it.
pub proof fn law_every_source_is_told(s: Seq<RagScoredPoint>, i: int)
    requires
        0 <= i < s.len(),
    ensures
        has_text(sources_text(s), s[i].source@ + "\n\n"@),
    decreases s.len(),
{
    let t = s.drop_last();
    let p = s[i].source@ + "\n\n"@;
    assert(sources_text(s) =~= sources_text(t) + (s.last().source@ + "\n\n"@));
    if i < t.len() {
        law_every_source_is_told(t, i);
        assert(t[i] == s[i]);
        lemma_has_start(sources_text(t), s.last().source@ + "\n\n"@);
        lemma_text_in_text(sources_text(s), sources_text(t), p);
    } else {
        lemma_has_end(sources_text(t), p);
    }
}

/// Points put behind others are told behind them; without points nothing is told.
pub proof fn law_sources_in_order(a: Seq<RagScoredPoint>, b: Seq<RagScoredPoint>)
    ensures
        sources_text(a + b) == sources_text(a) + sources_text(b),
        sources_text(Seq::<RagScoredPoint>::empty()) == Seq::<char>::empty(),
    decreases b.len(),
{
    if b.len() == 0 {
        assert(a + b =~= a);
        assert(sources_text(a) + sources_text(b) =~= sources_text(a));
    } else {
        assert((a + b).drop_last() =~= a + b.drop_last());
        law_sources_in_order(a, b.drop_last());
        assert(sources_text(a + b) =~= sources_text(a) + sources_text(b));
    }
}

/// Of points with the same source the first one stays, as it is: its score and where it
/// comes from.
pub proof fn law_first_point_stays(s: Seq<RagScoredPoint>, i: int)
    requires
        0 <= i < s.len(),
        forall|k: int| 0 <= k < i ==> (#[trigger] s[k]).source@ != s[i].source@,
    ensures
        first_of_each(s).contains(s[i]),
    decreases s.len(),
{
    let t = s.drop_last();
    if i < t.len() {
        assert(t[i] == s[i]);
        assert forall|k: int| 0 <= k < i implies (#[trigger] t[k]).source@ != t[i].source@ by {
            assert(t[k] == s[k]);
        }
        law_first_point_stays(t, i);
        let f = first_of_each(t);
        let k = choose|k: int| 0 <= k < f.len() && f[k] == s[i];
        assert(first_of_each(s)[k] == s[i]);
    } else {
        if has_source(t, s.last().source@) {
            let k = choose|k: int| 0 <= k < t.len() && (#[trigger] t[k]).source@
                == s.last().source@;
            assert(s[k] == t[k]);
        }
        assert(first_of_each(s).last() == s[i]);
    }
}

/// Documents are cut by their extension: plain text and markdown, and no others.
pub proof fn law_documents_that_are_cut(e: Seq<char>)
    ensures
        kind_of("txt"@) == Some(DocumentKind::Plain),
        kind_of("md"@) == Some(DocumentKind::Markdown),
        e != "txt"@ && e != "md"@ ==> kind_of(e) is None,
{
    reveal_strlit("txt");
    reveal_strlit("md");
    assert("txt"@.len() != "md"@.len());
}

/// A point alone is told as its source and an empty line, and nothing else.
pub proof fn law_one_source_is_told(p: RagScoredPoint)
    ensures
        sources_text(seq![p]) == p.source@ + "\n\n"@,
{
    reveal_with_fuel(sources_text, 2);
    assert(seq![p].drop_last() =~= Seq::<RagScoredPoint>::empty());
    assert(sources_text(seq![p]) =~= p.source@ + "\n\n"@);
}

} // verus!
