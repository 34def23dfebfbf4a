//! The ranking of candidates by their scores.

use vstd::prelude::*;
use crate::ratio::{
    fraction_ge, fraction_gt, lemma_fraction_chain, lemma_fraction_order, ratios_view, Fraction,
    Ratio,
};

verus! {

/// The indices that `picks` stand for.
pub open spec fn indices_view(picks: Seq<usize>) -> Seq<int> {
    picks.map_values(|pick: usize| pick as int)
}

/// Whether the candidate `i` is ranked before the candidate `j`: it scores
/// higher, or it scores the same and stands before `j` among the candidates.
pub open spec fn comes_before(scores: Seq<Fraction>, i: int, j: int) -> bool {
    fraction_gt(scores[i], scores[j]) || (fraction_ge(scores[i], scores[j]) && i < j)
}

/// Whether `picks` lists the candidates in the order of their rank.
pub open spec fn is_ranked(picks: Seq<int>, scores: Seq<Fraction>) -> bool {
    forall|j: int, k: int|
        0 <= j < k < picks.len() ==> comes_before(scores, #[trigger] picks[j], #[trigger] picks[k])
}

/// Whether `picks` is the ranking of the candidates with the scores `scores`:
/// it names, by their indices, the candidates that score at least
/// `threshold`, each once, the best first, and those of equal score in the
/// order in which they stand among the candidates.
pub open spec fn is_ranking(picks: Seq<int>, scores: Seq<Fraction>, threshold: Fraction) -> bool {
    &&& forall|k: int|
        0 <= k < picks.len() ==> 0 <= #[trigger] picks[k] < scores.len() && fraction_ge(
            scores[picks[k]],
            threshold,
        )
    &&& forall|i: int|
        0 <= i < scores.len() && fraction_ge(#[trigger] scores[i], threshold) ==> picks.contains(i)
    &&& is_ranked(picks, scores)
}

/// The ranking of the candidates with the scores `scores`.
pub open spec fn ranking(scores: Seq<Fraction>, threshold: Fraction) -> Seq<int> {
    choose|picks: Seq<int>| is_ranking(picks, scores, threshold)
}

/// Two ranked lists of the same candidates are the same list.
pub proof fn lemma_ranked_unique(p: Seq<int>, q: Seq<int>, scores: Seq<Fraction>)
    requires
        is_ranked(p, scores),
        is_ranked(q, scores),
        forall|i: int| p.contains(i) <==> q.contains(i),
    ensures
        p == q,
    decreases p.len(),
{
    if p.len() == 0 {
        if q.len() > 0 {
            assert(q.contains(q[0]));
        }
    } else {
        assert(p.contains(p[0]));
        assert(q.contains(q[0]));
        let p_rest = p.drop_first();
        let q_rest = q.drop_first();
        assert forall|i: int| p_rest.contains(i) <==> q_rest.contains(i) by {
            if p_rest.contains(i) {
                assert(p.contains(i));
                let to = choose|to: int| 0 <= to < q.len() && q[to] == i;
                assert(q_rest[to - 1] == i);
            }
            if q_rest.contains(i) {
                assert(q.contains(i));
                let to = choose|to: int| 0 <= to < p.len() && p[to] == i;
                assert(p_rest[to - 1] == i);
            }
        }
        lemma_ranked_unique(p_rest, q_rest, scores);
        assert(p =~= seq![p[0]] + p_rest);
    }
}

/// There is one ranking only: whatever meets `is_ranking` is `ranking`.
pub proof fn lemma_ranking_unique(picks: Seq<int>, scores: Seq<Fraction>, threshold: Fraction)
    requires
        is_ranking(picks, scores, threshold),
    ensures
        picks == ranking(scores, threshold),
{
    let other = ranking(scores, threshold);
    lemma_ranked_unique(picks, other, scores);
}

/// No candidate of a ranking scores below the threshold, and none scores
/// below a candidate that follows it.
pub proof fn lemma_ranking_descends(picks: Seq<int>, scores: Seq<Fraction>, threshold: Fraction)
    requires
        is_ranking(picks, scores, threshold),
    ensures
        forall|k: int| 0 <= k < picks.len() ==> fraction_ge(scores[#[trigger] picks[k]], threshold),
        forall|j: int, k: int|
            0 <= j < k < picks.len() ==> fraction_ge(
                scores[#[trigger] picks[j]],
                scores[#[trigger] picks[k]],
            ),
{
}

/// Where no two candidates of a ranking score the same, each scores more
/// than those that follow it.
pub proof fn lemma_ranking_strictly_descends(
    picks: Seq<int>,
    scores: Seq<Fraction>,
    threshold: Fraction,
)
    requires
        is_ranking(picks, scores, threshold),
        forall|j: int, k: int|
            0 <= j < k < picks.len() ==> !(fraction_ge(
                scores[#[trigger] picks[j]],
                scores[#[trigger] picks[k]],
            ) && fraction_ge(scores[picks[k]], scores[picks[j]])),
    ensures
        forall|j: int, k: int|
            0 <= j < k < picks.len() ==> fraction_gt(
                scores[#[trigger] picks[j]],
                scores[#[trigger] picks[k]],
            ),
{
}

/// The first candidate of a ranking is the best of all: no candidate scores
/// more, and none that scores the same stands before it.
pub proof fn lemma_ranking_top(picks: Seq<int>, scores: Seq<Fraction>, threshold: Fraction, i: int)
    requires
        is_ranking(picks, scores, threshold),
        picks.len() > 0,
        forall|k: int| 0 <= k < scores.len() ==> (#[trigger] scores[k]).denominator > 0,
        threshold.denominator > 0,
        0 <= i < scores.len(),
    ensures
        !comes_before(scores, i, picks[0]),
{
    let top = picks[0];
    if comes_before(scores, i, top) {
        if fraction_gt(scores[i], scores[top]) {
            lemma_fraction_order(scores[i], scores[top], threshold);
        } else {
            lemma_fraction_chain(scores[i], scores[top], threshold);
        }
    }
}

/// A ranking of the first `i` candidates is one of the first `i + 1` where
/// the candidate `i` scores below the threshold.
pub proof fn lemma_rank_skip(picks: Seq<int>, scores: Seq<Fraction>, threshold: Fraction, i: int)
    requires
        0 <= i < scores.len(),
        is_ranking(picks, scores.take(i), threshold),
        !fraction_ge(scores[i], threshold),
    ensures
        is_ranking(picks, scores.take(i + 1), threshold),
{
}

/// A ranking of the first `i` candidates with the candidate `i` put in at
/// `at` is a ranking of the first `i + 1`, where the candidate meets the
/// threshold, scores no more than those before `at`, and more than the one at `at`.
pub proof fn lemma_rank_insert(
    picks: Seq<int>,
    scores: Seq<Fraction>,
    threshold: Fraction,
    i: int,
    at: int,
)
    requires
        0 <= i < scores.len(),
        forall|k: int| 0 <= k < scores.len() ==> (#[trigger] scores[k]).denominator > 0,
        is_ranking(picks, scores.take(i), threshold),
        fraction_ge(scores[i], threshold),
        0 <= at <= picks.len(),
        forall|k: int| 0 <= k < at ==> fraction_ge(scores[#[trigger] picks[k]], scores[i]),
        at < picks.len() ==> fraction_gt(scores[i], scores[picks[at]]),
    ensures
        is_ranking(picks.insert(at, i), scores.take(i + 1), threshold),
{
    let after = scores.take(i + 1);
    let longer = picks.insert(at, i);
    assert forall|k: int| at <= k < picks.len() implies fraction_gt(
        scores[i],
        scores[#[trigger] picks[k]],
    ) by {
        if k > at {
            lemma_fraction_order(scores[i], scores[picks[at]], scores[picks[k]]);
        }
    }
    assert forall|c: int|
        0 <= c < after.len() && fraction_ge(#[trigger] after[c], threshold) implies longer.contains(
        c,
    ) by {
        if c < i {
            let was = choose|was: int| 0 <= was < picks.len() && picks[was] == c;
            if was < at {
                assert(longer[was] == c);
            } else {
                assert(longer[was + 1] == c);
            }
        } else {
            assert(longer[at] == c);
        }
    }
}

/// Where the candidate `i` belongs among `picks`, at `from` or behind it: at
/// the first candidate that does not score at least as much.
pub open spec fn place_of(picks: Seq<int>, scores: Seq<Fraction>, i: int, from: int) -> int
    decreases picks.len() - from,
{
    if from < 0 || from >= picks.len() || !fraction_ge(scores[picks[from]], scores[i]) {
        from
    } else {
        place_of(picks, scores, i, from + 1)
    }
}

/// Between `from` and the place of `i`, every candidate scores at least as much as `i`.
proof fn lemma_place_of(picks: Seq<int>, scores: Seq<Fraction>, i: int, from: int)
    requires
        0 <= from <= picks.len(),
    ensures
        from <= place_of(picks, scores, i, from) <= picks.len(),
        forall|k: int|
            from <= k < place_of(picks, scores, i, from) ==> fraction_ge(
                scores[#[trigger] picks[k]],
                scores[i],
            ),
        place_of(picks, scores, i, from) < picks.len() ==> fraction_gt(
            scores[i],
            scores[picks[place_of(picks, scores, i, from)]],
        ),
    decreases picks.len() - from,
{
    if from < picks.len() && fraction_ge(scores[picks[from]], scores[i]) {
        lemma_place_of(picks, scores, i, from + 1);
    }
}

/// Every list of scores has a ranking, and `ranking` is it.
pub proof fn lemma_ranking_exists(scores: Seq<Fraction>, threshold: Fraction)
    requires
        forall|k: int| 0 <= k < scores.len() ==> (#[trigger] scores[k]).denominator > 0,
    ensures
        is_ranking(ranking(scores, threshold), scores, threshold),
{
    lemma_ranking_of_first(scores, threshold, scores.len() as int);
    assert(scores.take(scores.len() as int) =~= scores);
}

/// The first `count` of the scores have a ranking.
proof fn lemma_ranking_of_first(scores: Seq<Fraction>, threshold: Fraction, count: int)
    requires
        0 <= count <= scores.len(),
        forall|k: int| 0 <= k < scores.len() ==> (#[trigger] scores[k]).denominator > 0,
    ensures
        is_ranking(ranking(scores.take(count), threshold), scores.take(count), threshold),
    decreases count,
{
    if count == 0 {
        assert(is_ranking(Seq::<int>::empty(), scores.take(0), threshold));
    } else {
        let i = count - 1;
        lemma_ranking_of_first(scores, threshold, i);
        let picks = ranking(scores.take(i), threshold);
        if fraction_ge(scores[i], threshold) {
            let at = place_of(picks, scores, i, 0);
            lemma_place_of(picks, scores, i, 0);
            lemma_rank_insert(picks, scores, threshold, i, at);
        } else {
            lemma_rank_skip(picks, scores, threshold, i);
        }
    }
}

/// Ranks the candidates with the scores `scores`: the indices of those that
/// score at least `threshold`, the best first.
pub fn rank_scores(scores: &Vec<Ratio>, threshold: Ratio) -> (picks: Vec<usize>)
    ensures
        indices_view(picks@) == ranking(ratios_view(scores@), threshold@),
        is_ranking(indices_view(picks@), ratios_view(scores@), threshold@),
{
    let ghost all = ratios_view(scores@);
    let mut picks: Vec<usize> = Vec::new();
    let mut i: usize = 0;
    proof {
        assert forall|k: int| 0 <= k < all.len() implies (#[trigger] all[k]).denominator > 0 by {
            scores@[k].lemma_denominator();
        }
    }
    while i < scores.len()
        invariant
            i <= scores@.len(),
            all == ratios_view(scores@),
            forall|k: int| 0 <= k < all.len() ==> (#[trigger] all[k]).denominator > 0,
            is_ranking(indices_view(picks@), all.take(i as int), threshold@),
        decreases scores@.len() - i,
    {
        let ghost before = indices_view(picks@);
        if scores[i].at_least(&threshold) {
            let mut at: usize = 0;
            assert forall|k: int| 0 <= k < picks@.len() implies (#[trigger] picks@[k]) < i by {
                assert(before[k] == picks@[k]);
            }
            while at < picks.len() && scores[picks[at]].at_least(&scores[i])
                invariant
                    at <= picks@.len(),
                    i < scores@.len(),
                    all == ratios_view(scores@),
                    before == indices_view(picks@),
                    forall|k: int| 0 <= k < picks@.len() ==> (#[trigger] picks@[k]) < i,
                    forall|k: int|
                        0 <= k < at ==> fraction_ge(all[#[trigger] before[k]], all[i as int]),
                decreases picks@.len() - at,
            {
                at += 1;
            }
            picks.insert(at, i);
            proof {
                lemma_rank_insert(before, all, threshold@, i as int, at as int);
                assert(indices_view(picks@) =~= before.insert(at as int, i as int));
            }
        }
        i += 1;
    }
    proof {
        assert(all.take(scores@.len() as int) =~= all);
        lemma_ranking_unique(indices_view(picks@), all, threshold@);
    }
    picks
}

} // verus!
