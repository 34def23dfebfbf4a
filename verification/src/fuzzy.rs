//! Edit distance between strings, and the script names that are similar to a
//! mistyped one.

use vstd::prelude::*;
use crate::ranking::{
    comes_before, indices_view, is_ranking, lemma_ranking_exists, lemma_ranking_top, rank_scores,
    ranking,
};
use crate::ratio::{fraction_ge, ratios_view, Fraction, Ratio};
use crate::text::{chars_of, lowercase, names_view};

verus! {

/// The smallest of three numbers.
pub open spec fn min3(a: nat, b: nat, c: nat) -> nat {
    if a <= b && a <= c {
        a
    } else if b <= c {
        b
    } else {
        c
    }
}

/// What it costs to put `y` where `x` stands: nothing if they are the same character.
pub open spec fn substitution_cost(x: char, y: char) -> nat {
    if x == y {
        0
    } else {
        1
    }
}

/// The edit distance between `a` and `b`: the least number of insertions,
/// deletions and substitutions of one character that turn `a` into `b`.
///
/// The last step of a cheapest way either deletes the last character of `a`,
/// inserts the last character of `b`, or lines the two last characters up.
/// That this is the least number of edits is `edits::lemma_distance_is_least`.
pub open spec fn edit_distance(a: Seq<char>, b: Seq<char>) -> nat
    decreases a.len() + b.len(),
{
    if a.len() == 0 {
        b.len()
    } else if b.len() == 0 {
        a.len()
    } else {
        min3(
            edit_distance(a.drop_last(), b) + 1,
            edit_distance(a, b.drop_last()) + 1,
            edit_distance(a.drop_last(), b.drop_last()) + substitution_cost(a.last(), b.last()),
        )
    }
}

/// The distance of a string to itself is zero.
pub proof fn lemma_distance_to_self(a: Seq<char>)
    ensures
        edit_distance(a, a) == 0,
    decreases a.len(),
{
    if a.len() > 0 {
        lemma_distance_to_self(a.drop_last());
    }
}

/// The distance of a string to the empty string is its length.
pub proof fn lemma_distance_to_empty(a: Seq<char>)
    ensures
        edit_distance(a, Seq::<char>::empty()) == a.len(),
        edit_distance(Seq::<char>::empty(), a) == a.len(),
{
}

/// The distance does not depend on the direction.
pub proof fn lemma_distance_symmetric(a: Seq<char>, b: Seq<char>)
    ensures
        edit_distance(a, b) == edit_distance(b, a),
    decreases a.len() + b.len(),
{
    if a.len() > 0 && b.len() > 0 {
        lemma_distance_symmetric(a.drop_last(), b);
        lemma_distance_symmetric(a, b.drop_last());
        lemma_distance_symmetric(a.drop_last(), b.drop_last());
    }
}

/// The distance lies between the difference of the two lengths and the longer length.
pub proof fn lemma_distance_bounds(a: Seq<char>, b: Seq<char>)
    ensures
        edit_distance(a, b) <= if a.len() >= b.len() { a.len() } else { b.len() },
        edit_distance(a, b) >= a.len() - b.len(),
        edit_distance(a, b) >= b.len() - a.len(),
    decreases a.len() + b.len(),
{
    if a.len() > 0 && b.len() > 0 {
        lemma_distance_bounds(a.drop_last(), b);
        lemma_distance_bounds(a, b.drop_last());
        lemma_distance_bounds(a.drop_last(), b.drop_last());
    }
}

/// Only equal strings are at distance zero.
pub proof fn lemma_distance_zero(a: Seq<char>, b: Seq<char>)
    ensures
        edit_distance(a, b) == 0 <==> a == b,
    decreases a.len() + b.len(),
{
    if a.len() > 0 && b.len() > 0 {
        lemma_distance_zero(a.drop_last(), b.drop_last());
        if edit_distance(a, b) == 0 {
            assert(a =~= a.drop_last().push(a.last()));
            assert(b =~= b.drop_last().push(b.last()));
        }
    } else {
        if a.len() == 0 && b.len() == 0 {
            assert(a =~= b);
        }
    }
}

/// One step of the table: the distance between `a[..i]` and `b[..j]` from its three neighbours.
proof fn lemma_distance_step(a: Seq<char>, b: Seq<char>, i: int, j: int)
    requires
        0 < i <= a.len(),
        0 < j <= b.len(),
    ensures
        edit_distance(a.take(i), b.take(j)) == min3(
            edit_distance(a.take(i - 1), b.take(j)) + 1,
            edit_distance(a.take(i), b.take(j - 1)) + 1,
            edit_distance(a.take(i - 1), b.take(j - 1)) + substitution_cost(a[i - 1], b[j - 1]),
        ),
{
    assert(a.take(i).drop_last() =~= a.take(i - 1));
    assert(b.take(j).drop_last() =~= b.take(j - 1));
}

/// The edit distance between two sequences of characters.
pub fn distance_of_chars(a: &Vec<char>, b: &Vec<char>) -> (d: usize)
    ensures
        d == edit_distance(a@, b@),
{
    let len_a: usize = a.len();
    let len_b: usize = b.len();
    // `row[k]` is the distance between the first `i` characters of `a` and the
    // first `k + 1` of `b`; the distance to no character of `b` is `i` itself.
    let mut row: Vec<usize> = Vec::new();
    let mut k: usize = 0;
    while k < len_b
        invariant
            k <= len_b,
            len_b == b@.len(),
            row@.len() == k,
            forall|c: int| 0 <= c < k ==> row@[c] == edit_distance(a@.take(0), b@.take(c + 1)),
        decreases len_b - k,
    {
        row.push(k + 1);
        k += 1;
    }
    let mut i: usize = 0;
    while i < len_a
        invariant
            i <= len_a,
            len_a == a@.len(),
            len_b == b@.len(),
            row@.len() == len_b,
            forall|c: int|
                0 <= c < len_b ==> row@[c] == edit_distance(a@.take(i as int), b@.take(c + 1)),
        decreases len_a - i,
    {
        let mut next: Vec<usize> = Vec::new();
        let mut diagonal: usize = i;
        let mut left: usize = i + 1;
        let mut j: usize = 0;
        while j < len_b
            invariant
                j <= len_b,
                i < len_a,
                len_a == a@.len(),
                len_b == b@.len(),
                row@.len() == len_b,
                next@.len() == j,
                forall|c: int|
                    0 <= c < len_b ==> row@[c] == edit_distance(
                        a@.take(i as int),
                        b@.take(c + 1),
                    ),
                forall|c: int|
                    0 <= c < j ==> next@[c] == edit_distance(a@.take(i + 1), b@.take(c + 1)),
                diagonal == edit_distance(a@.take(i as int), b@.take(j as int)),
                left == edit_distance(a@.take(i + 1), b@.take(j as int)),
            decreases len_b - j,
        {
            let up: usize = row[j];
            let least: usize = if up <= left { up } else { left };
            proof {
                lemma_distance_step(a@, b@, i + 1, j + 1);
                lemma_distance_bounds(a@.take(i as int), b@.take(j as int));
            }
            let here: usize = if a[i] == b[j] {
                if diagonal <= least { diagonal } else { least + 1 }
            } else if diagonal <= least {
                diagonal + 1
            } else {
                least + 1
            };
            next.push(here);
            diagonal = up;
            left = here;
            j += 1;
        }
        row = next;
        i += 1;
    }
    proof {
        assert(a@.take(len_a as int) =~= a@);
        assert(b@.take(len_b as int) =~= b@);
    }
    if len_b == 0 {
        len_a
    } else {
        row[len_b - 1]
    }
}

/// The edit distance between `a` and `b`, counted in characters, not in bytes.
pub fn levenshtein_distance(a: &str, b: &str) -> (d: usize)
    ensures
        d == edit_distance(a@, b@),
{
    let a_chars = chars_of(a);
    let b_chars = chars_of(b);
    distance_of_chars(&a_chars, &b_chars)
}

/// The longer of two lengths.
pub open spec fn longer(a: nat, b: nat) -> nat {
    if a >= b {
        a
    } else {
        b
    }
}

/// How similar `a` and `b` are: one minus their edit distance over the
/// longer of their lengths, both counted in characters. Two empty strings are
/// as similar as can be.
pub open spec fn similarity(a: Seq<char>, b: Seq<char>) -> Fraction {
    let longest = longer(a.len(), b.len());
    if longest == 0 {
        Fraction { numerator: 1, denominator: 1 }
    } else {
        Fraction { numerator: (longest - edit_distance(a, b)) as nat, denominator: longest }
    }
}

/// A similarity lies between zero and one.
pub proof fn lemma_similarity_range(a: Seq<char>, b: Seq<char>)
    ensures
        similarity(a, b).denominator > 0,
        similarity(a, b).numerator <= similarity(a, b).denominator,
        similarity(a, b).numerator + edit_distance(a, b) == similarity(a, b).denominator
            || a.len() + b.len() == 0,
{
    lemma_distance_bounds(a, b);
}

/// A string is as similar to itself as can be: the similarity is one.
pub proof fn lemma_similarity_to_self(a: Seq<char>)
    ensures
        similarity(a, a).numerator == similarity(a, a).denominator,
        similarity(a, a).denominator > 0,
{
    lemma_distance_to_self(a);
}

/// The similarity does not depend on the direction.
pub proof fn lemma_similarity_symmetric(a: Seq<char>, b: Seq<char>)
    ensures
        similarity(a, b) == similarity(b, a),
{
    lemma_distance_symmetric(a, b);
}

/// The similarity of two sequences of characters.
pub fn similarity_of_chars(a: &Vec<char>, b: &Vec<char>) -> (score: Ratio)
    ensures
        score@ == similarity(a@, b@),
{
    let distance = distance_of_chars(a, b);
    let longest: usize = if a.len() >= b.len() { a.len() } else { b.len() };
    proof {
        lemma_distance_bounds(a@, b@);
    }
    if longest == 0 {
        Ratio::one()
    } else {
        Ratio::new((longest - distance) as u64, longest as u64).unwrap()
    }
}

/// How similar `a` and `b` are, from zero for nothing in common to one for
/// the same string.
pub fn similarity_score(a: &str, b: &str) -> (score: Ratio)
    ensures
        score@ == similarity(a@, b@),
{
    let a_chars = chars_of(a);
    let b_chars = chars_of(b);
    similarity_of_chars(&a_chars, &b_chars)
}

/// `names` in lower case, one by one.
pub open spec fn lowercased(names: Seq<Seq<char>>) -> Seq<Seq<char>> {
    names.map_values(|name: Seq<char>| lowercase(name))
}

/// How similar `query` is to each of `keys`.
pub open spec fn scores_of(query: Seq<char>, keys: Seq<Seq<char>>) -> Seq<Fraction> {
    keys.map_values(|key: Seq<char>| similarity(query, key))
}

/// How similar `input` is to each of `names`, whatever the case of their letters.
pub open spec fn folded_scores(input: Seq<char>, names: Seq<Seq<char>>) -> Seq<Fraction> {
    scores_of(lowercase(input), lowercased(names))
}

/// Each of `names` in lower case.
pub fn lowercase_all(names: &[String]) -> (lower: Vec<String>)
    ensures
        names_view(lower@) == lowercased(names_view(names@)),
{
    let mut lower: Vec<String> = Vec::new();
    let mut i: usize = 0;
    while i < names.len()
        invariant
            i <= names@.len(),
            lower@.len() == i,
            forall|k: int| 0 <= k < i ==> lower@[k]@ == lowercase(names@[k]@),
        decreases names@.len() - i,
    {
        lower.push(names[i].to_lowercase());
        i += 1;
    }
    lower
}

/// Scores each of `keys` by its similarity to `query`.
pub fn score_candidates(query: &str, keys: &[String]) -> (scores: Vec<Ratio>)
    ensures
        ratios_view(scores@) == scores_of(query@, names_view(keys@)),
{
    let query_chars = chars_of(query);
    let mut scores: Vec<Ratio> = Vec::new();
    let mut i: usize = 0;
    while i < keys.len()
        invariant
            i <= keys@.len(),
            query_chars@ == query@,
            scores@.len() == i,
            forall|k: int| 0 <= k < i ==> scores@[k]@ == similarity(query@, keys@[k]@),
        decreases keys@.len() - i,
    {
        let key_chars = chars_of(keys[i].as_str());
        scores.push(similarity_of_chars(&query_chars, &key_chars));
        i += 1;
    }
    scores
}

/// Whether `matches` holds the candidates of the ranking, each with its score.
pub open spec fn is_selection(
    matches: Seq<(&str, Ratio)>,
    names: Seq<Seq<char>>,
    scores: Seq<Fraction>,
    threshold: Fraction,
) -> bool {
    let picks = ranking(scores, threshold);
    &&& matches.len() == picks.len()
    &&& forall|k: int|
        0 <= k < matches.len() ==> 0 <= picks[k] < names.len() && (#[trigger] matches[k]).0@
            == names[picks[k]] && matches[k].1@ == scores[picks[k]]
}

/// The scripts whose names are similar to `input`, whatever the case of
/// their letters: those that score at least `threshold`, each with its score,
/// the best first, and those of equal score in their order in `available_scripts`.
pub fn find_similar_scripts<'a>(
    input: &str,
    available_scripts: &'a [String],
    threshold: Ratio,
) -> (matches: Vec<(&'a str, Ratio)>)
    ensures
        is_selection(
            matches@,
            names_view(available_scripts@),
            folded_scores(input@, names_view(available_scripts@)),
            threshold@,
        ),
        forall|k: int|
            0 <= k < matches@.len() ==> fraction_ge((#[trigger] matches@[k]).1@, threshold@),
        forall|j: int, k: int|
            0 <= j < k < matches@.len() ==> fraction_ge(
                (#[trigger] matches@[j]).1@,
                (#[trigger] matches@[k]).1@,
            ),
{
    let input_lower = input.to_lowercase();
    let keys = lowercase_all(available_scripts);
    let scores = score_candidates(input_lower.as_str(), keys.as_slice());
    let picks = rank_scores(&scores, threshold);
    let ghost names = names_view(available_scripts@);
    let ghost all = folded_scores(input@, names);
    let ghost chosen = ranking(all, threshold@);
    let mut matches: Vec<(&'a str, Ratio)> = Vec::new();
    let mut k: usize = 0;
    while k < picks.len()
        invariant
            k <= picks@.len(),
            matches@.len() == k,
            all == ratios_view(scores@),
            all.len() == available_scripts@.len(),
            names == names_view(available_scripts@),
            chosen == indices_view(picks@),
            is_ranking(chosen, all, threshold@),
            forall|c: int|
                0 <= c < k ==> (#[trigger] matches@[c]).0@ == names[chosen[c]] && matches@[c].1@
                    == all[chosen[c]],
        decreases picks@.len() - k,
    {
        assert(chosen[k as int] == picks@[k as int]);
        let pick = picks[k];
        matches.push((available_scripts[pick].as_str(), scores[pick]));
        k += 1;
    }
    matches
}

/// The script that `input` most likely stands for: the first of the scripts
/// that are at least half similar to it, none where no script is.
pub open spec fn suggestion(input: Seq<char>, names: Seq<Seq<char>>) -> Option<Seq<char>> {
    let picks = ranking(folded_scores(input, names), Fraction { numerator: 1, denominator: 2 });
    if picks.len() > 0 {
        Some(names[picks[0]])
    } else {
        None
    }
}

/// A script is suggested where one of the scripts is at least half similar
/// to the input, and only there; no script is more similar to the input than
/// the suggested one, and none that is as similar stands before it.
pub proof fn lemma_suggestion(input: Seq<char>, names: Seq<Seq<char>>)
    ensures
        suggestion(input, names) is Some <==> exists|i: int|
            0 <= i < names.len() && fraction_ge(
                #[trigger] folded_scores(input, names)[i],
                Fraction { numerator: 1, denominator: 2 },
            ),
        suggestion(input, names) is Some ==> {
            let best = ranking(
                folded_scores(input, names),
                Fraction { numerator: 1, denominator: 2 },
            )[0];
            &&& 0 <= best < names.len()
            &&& suggestion(input, names) == Some(names[best])
            &&& forall|i: int|
                0 <= i < names.len() ==> !comes_before(folded_scores(input, names), i, best)
        },
{
    let scores = folded_scores(input, names);
    let half = Fraction { numerator: 1, denominator: 2 };
    let picks = ranking(scores, half);
    lemma_ranking_exists(scores, half);
    if picks.len() > 0 {
        assert forall|i: int| 0 <= i < names.len() implies !comes_before(scores, i, picks[0]) by {
            lemma_ranking_top(picks, scores, half, i);
        }
    }
}

/// Suggests the script that `input` most likely stands for.
pub fn suggest_script(input: &str, available_scripts: &[String]) -> (suggested: Option<String>)
    ensures
        match suggested {
            Some(name) => suggestion(input@, names_view(available_scripts@)) == Some(name@),
            None => suggestion(input@, names_view(available_scripts@)) is None,
        },
{
    let matches = find_similar_scripts(input, available_scripts, Ratio::half());
    if matches.len() > 0 {
        Some(matches[0].0.to_owned())
    } else {
        None
    }
}

/// Whether `input` is the name of one of the scripts, whatever the case of
/// their letters.
pub open spec fn has_exact_match(input: Seq<char>, names: Seq<Seq<char>>) -> bool {
    lowercased(names).contains(lowercase(input))
}

/// Whether one of `names` is `wanted`, letter for letter.
pub fn contains_name(names: &[String], wanted: &str) -> (found: bool)
    ensures
        found == names_view(names@).contains(wanted@),
{
    let wanted_name = wanted.to_owned();
    let mut i: usize = 0;
    while i < names.len()
        invariant
            i <= names@.len(),
            wanted_name@ == wanted@,
            forall|k: int| 0 <= k < i ==> names_view(names@)[k] != wanted@,
        decreases names@.len() - i,
    {
        if names[i] == wanted_name {
            assert(names_view(names@)[i as int] == wanted@);
            return true;
        }
        i += 1;
    }
    false
}

/// Whether `input` names one of the scripts, whatever the case of their letters.
pub fn is_exact_match(input: &str, available_scripts: &[String]) -> (found: bool)
    ensures
        found == has_exact_match(input@, names_view(available_scripts@)),
{
    let input_lower = input.to_lowercase();
    let keys = lowercase_all(available_scripts);
    contains_name(keys.as_slice(), input_lower.as_str())
}

} // verus!
