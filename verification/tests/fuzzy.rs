use devrunner::fuzzy::{
    contains_name, find_similar_scripts, is_exact_match, levenshtein_distance, lowercase_all,
    score_candidates, similarity_score, suggest_script,
};
use devrunner::ranking::rank_scores;
use devrunner::ratio::Ratio;

fn value(score: Ratio) -> f64 {
    score.numerator() as f64 / score.denominator() as f64
}

#[test]
fn test_levenshtein_distance() {
    assert_eq!(levenshtein_distance("", ""), 0);
    assert_eq!(levenshtein_distance("abc", ""), 3);
    assert_eq!(levenshtein_distance("", "abc"), 3);
    assert_eq!(levenshtein_distance("abc", "abc"), 0);
    assert_eq!(levenshtein_distance("abc", "abd"), 1);
    assert_eq!(levenshtein_distance("test", "tset"), 2);
    assert_eq!(levenshtein_distance("kitten", "sitting"), 3);
}

#[test]
fn test_similarity_score() {
    assert!((value(similarity_score("abc", "abc")) - 1.0).abs() < 0.001);
    assert!((value(similarity_score("abc", "abd")) - 0.666).abs() < 0.01);
    assert!((value(similarity_score("", "")) - 1.0).abs() < 0.001);
}

#[test]
fn test_find_similar_scripts() {
    let scripts = vec![
        "dev".to_string(),
        "build".to_string(),
        "test".to_string(),
        "start".to_string(),
    ];

    let matches = find_similar_scripts("tets", &scripts, Ratio::half());
    assert!(!matches.is_empty());
    assert_eq!(matches[0].0, "test");

    let matches = find_similar_scripts("bild", &scripts, Ratio::half());
    assert!(!matches.is_empty());
    assert_eq!(matches[0].0, "build");
}

#[test]
fn test_suggest_script() {
    let scripts = vec!["dev".to_string(), "build".to_string(), "test".to_string()];

    assert_eq!(suggest_script("tets", &scripts), Some("test".to_string()));
    assert_eq!(suggest_script("bld", &scripts), Some("build".to_string()));
    assert_eq!(suggest_script("xyz123", &scripts), None);
}

#[test]
fn test_is_exact_match() {
    let scripts = vec!["dev".to_string(), "Build".to_string()];

    assert!(is_exact_match("dev", &scripts));
    assert!(is_exact_match("DEV", &scripts));
    assert!(is_exact_match("build", &scripts));
    assert!(!is_exact_match("test", &scripts));
}

#[test]
fn suggest_test_for_tets() {
    let scripts = vec![
        "dev".to_string(),
        "build".to_string(),
        "test".to_string(),
        "start".to_string(),
    ];
    assert_eq!(suggest_script("tets", &scripts), Some("test".to_string()));
}

#[test]
fn distance_counts_characters_not_bytes() {
    assert_eq!(levenshtein_distance("é", "e"), 1);
    assert_eq!(levenshtein_distance("日本語", "日本"), 1);
    assert_eq!(levenshtein_distance("😀", ""), 1);
    assert_eq!(levenshtein_distance("naïve", "naive"), 1);
}

#[test]
fn distance_laws_on_examples() {
    let words = ["", "a", "ab", "ba", "abc", "kitten", "sitting", "flaw", "lawn", "日本語"];
    for a in words {
        assert_eq!(levenshtein_distance(a, a), 0);
        assert_eq!(levenshtein_distance(a, ""), a.chars().count());
        for b in words {
            let d = levenshtein_distance(a, b);
            assert_eq!(d, levenshtein_distance(b, a));
            assert_eq!(d == 0, a == b);
            assert!(d <= a.chars().count().max(b.chars().count()));
            assert!(d >= a.chars().count().abs_diff(b.chars().count()));
            for c in words {
                assert!(levenshtein_distance(a, c) <= d + levenshtein_distance(b, c));
            }
        }
    }
    assert_eq!(levenshtein_distance("flaw", "lawn"), 2);
    assert_eq!(levenshtein_distance("ab", "ba"), 2);
    assert_eq!(levenshtein_distance("saturday", "sunday"), 3);
}

#[test]
fn similarity_is_an_exact_fraction() {
    let score = similarity_score("abc", "abd");
    assert_eq!((score.numerator(), score.denominator()), (2, 3));
    let score = similarity_score("kitten", "sitting");
    assert_eq!((score.numerator(), score.denominator()), (4, 7));
    let score = similarity_score("", "");
    assert_eq!((score.numerator(), score.denominator()), (1, 1));
    let score = similarity_score("abc", "");
    assert_eq!((score.numerator(), score.denominator()), (0, 3));
    let score = similarity_score("x", "x");
    assert_eq!((score.numerator(), score.denominator()), (1, 1));
    let score = similarity_score("日本", "日本語");
    assert_eq!((score.numerator(), score.denominator()), (2, 3));
}

#[test]
fn similarity_of_a_string_to_itself_is_one() {
    for a in ["a", "abc", "Hello, World", "日本語"] {
        let score = similarity_score(a, a);
        assert_eq!(score.numerator(), score.denominator());
        assert_eq!(value(score), 1.0);
    }
}

#[test]
fn ratio_needs_a_denominator() {
    assert!(Ratio::new(1, 0).is_none());
    assert!(Ratio::new(0, 0).is_none());
    let ratio = Ratio::new(3, 4).unwrap();
    assert_eq!((ratio.numerator(), ratio.denominator()), (3, 4));
    let ratio = Ratio::new(u64::MAX, u64::MAX).unwrap();
    assert_eq!((ratio.numerator(), ratio.denominator()), (u64::MAX, u64::MAX));
    assert_eq!((Ratio::half().numerator(), Ratio::half().denominator()), (1, 2));
}

#[test]
fn ratio_order() {
    let r = |n, d| Ratio::new(n, d).unwrap();
    assert!(r(1, 2).at_least(&r(1, 2)));
    assert!(r(2, 4).at_least(&r(1, 2)));
    assert!(r(1, 2).at_least(&r(2, 4)));
    assert!(r(2, 3).at_least(&r(1, 2)));
    assert!(!r(1, 2).at_least(&r(2, 3)));
    assert!(r(0, 5).at_least(&r(0, 1)));
    assert!(!r(0, 5).at_least(&r(1, u64::MAX)));
    assert!(r(u64::MAX, u64::MAX).at_least(&r(u64::MAX - 1, u64::MAX)));
    assert!(!r(u64::MAX - 1, u64::MAX).at_least(&r(u64::MAX, u64::MAX)));
    assert!(r(u64::MAX, 1).at_least(&r(u64::MAX, 2)));
    assert!(r(u64::MAX - 1, u64::MAX).at_least(&r(u64::MAX - 2, u64::MAX - 1)));
}

#[test]
fn rank_keeps_what_meets_the_threshold_best_first() {
    let scores: Vec<Ratio> = [(1, 4), (3, 4), (2, 4), (4, 4), (0, 4)]
        .iter()
        .map(|(n, d)| Ratio::new(*n, *d).unwrap())
        .collect();
    assert_eq!(rank_scores(&scores, Ratio::half()), vec![3, 1, 2]);
    assert_eq!(rank_scores(&scores, Ratio::new(0, 1).unwrap()), vec![3, 1, 2, 0, 4]);
    assert_eq!(rank_scores(&scores, Ratio::new(1, 1).unwrap()), vec![3]);
    assert_eq!(rank_scores(&scores, Ratio::new(5, 4).unwrap()), Vec::<usize>::new());
    assert_eq!(rank_scores(&[].to_vec(), Ratio::half()), Vec::<usize>::new());
}

#[test]
fn rank_keeps_the_order_of_equal_scores() {
    let scores: Vec<Ratio> = [(1, 2), (2, 3), (2, 4), (4, 6), (3, 6), (1, 3)]
        .iter()
        .map(|(n, d)| Ratio::new(*n, *d).unwrap())
        .collect();
    assert_eq!(rank_scores(&scores, Ratio::half()), vec![1, 3, 0, 2, 4]);
}

#[test]
fn find_similar_never_returns_a_score_below_the_threshold() {
    let scripts: Vec<String> =
        ["dev", "build", "test", "start", "tests", "text", "TEST", "lint"].iter().map(|s| s.to_string()).collect();
    for (n, d) in [(0, 1), (1, 4), (1, 2), (3, 4), (1, 1), (2, 1)] {
        let threshold = Ratio::new(n, d).unwrap();
        let matches = find_similar_scripts("test", &scripts, threshold);
        for (_, score) in &matches {
            assert!(score.at_least(&threshold));
        }
        for pair in matches.windows(2) {
            assert!(pair[0].1.at_least(&pair[1].1));
        }
        let expected = scripts
            .iter()
            .filter(|s| similarity_score("test", &s.to_lowercase()).at_least(&threshold))
            .count();
        assert_eq!(matches.len(), expected);
    }
}

#[test]
fn find_similar_orders_by_score_then_by_position() {
    let scripts: Vec<String> =
        ["text", "dev", "tests", "TEST", "best", "test"].iter().map(|s| s.to_string()).collect();
    let matches = find_similar_scripts("Test", &scripts, Ratio::half());
    let names: Vec<&str> = matches.iter().map(|m| m.0).collect();
    // one for "TEST" and "test", 4/5 for "tests", 3/4 for "text" and "best"
    assert_eq!(names, vec!["TEST", "test", "tests", "text", "best"]);
    assert_eq!(value(matches[0].1), 1.0);
    assert_eq!((matches[2].1.numerator(), matches[2].1.denominator()), (4, 5));
    assert_eq!((matches[3].1.numerator(), matches[3].1.denominator()), (3, 4));
}

#[test]
fn find_similar_folds_the_case_of_both_sides() {
    let scripts = vec!["BUILD".to_string(), "Straße".to_string()];
    let matches = find_similar_scripts("build", &scripts, Ratio::new(1, 1).unwrap());
    assert_eq!(matches.len(), 1);
    assert_eq!(matches[0].0, "BUILD");
    let matches = find_similar_scripts("STRASSE", &scripts, Ratio::half());
    assert_eq!(matches.len(), 1);
    assert_eq!(matches[0].0, "Straße");
    assert!(is_exact_match("ÄPFEL", &["äpfel".to_string()]));
}

#[test]
fn suggest_needs_half_a_match() {
    let scripts = vec!["ab".to_string(), "abcd".to_string()];
    // "ax" is half similar to "ab" and a quarter to "abcd"
    assert_eq!(suggest_script("ax", &scripts), Some("ab".to_string()));
    // "xy" is similar to neither
    assert_eq!(suggest_script("xy", &scripts), None);
    assert_eq!(suggest_script("ab", &[]), None);
    assert_eq!(suggest_script("", &["".to_string()]), Some("".to_string()));
    assert_eq!(suggest_script("", &["a".to_string()]), None);
}

#[test]
fn suggest_takes_the_first_of_the_best() {
    let scripts = vec!["tesa".to_string(), "tesb".to_string(), "xest".to_string()];
    assert_eq!(suggest_script("test", &scripts), Some("tesa".to_string()));
    let scripts = vec!["tes".to_string(), "Test".to_string(), "test".to_string()];
    assert_eq!(suggest_script("test", &scripts), Some("Test".to_string()));
}

#[test]
fn exact_match_on_no_scripts() {
    assert!(!is_exact_match("dev", &[]));
    assert!(!is_exact_match("", &["dev".to_string()]));
    assert!(is_exact_match("", &["".to_string()]));
    assert!(!is_exact_match("dev", &["dev ".to_string()]));
}

#[test]
fn scores_of_candidates() {
    let keys = vec!["test".to_string(), "".to_string(), "tset".to_string()];
    let scores = score_candidates("test", &keys);
    let pairs: Vec<(u64, u64)> = scores.iter().map(|s| (s.numerator(), s.denominator())).collect();
    assert_eq!(pairs, vec![(4, 4), (0, 4), (2, 4)]);
    assert_eq!(lowercase_all(&["ABC".to_string(), "ÄÖ".to_string()]), vec!["abc".to_string(), "äö".to_string()]);
}

#[test]
fn contains_name_compares_letter_for_letter() {
    let names = vec!["dev".to_string(), "Build".to_string()];
    assert!(contains_name(&names, "dev"));
    assert!(contains_name(&names, "Build"));
    assert!(!contains_name(&names, "build"));
    assert!(!contains_name(&names, "de"));
    assert!(!contains_name(&[], "dev"));
}
