use hangul_fuzzy::distance;

/// Distance in ordinary edit steps: hundredths divided back out.
fn dist(a: &str, b: &str, case_sensitive: bool) -> f64 {
    let d = distance(a, b, case_sensitive).unwrap();
    d as f64 / 100.0
}

/// Containment score as a float, from the exact rational.
fn score(needle: &str, haystack: &str, case_sensitive: bool) -> f64 {
    let s = hangul_fuzzy::matches(needle, haystack, case_sensitive).unwrap();
    s.num as f64 / s.den as f64
}

#[test]
fn distance_between_two_english_words() {
    assert_eq!(dist("kitten", "sitting", false), 3.0);
}

#[test]
fn distance_when_one_string_is_empty() {
    assert_eq!(dist("", "foo", false), 3.0);
    assert_eq!(dist("hello", "", false), 5.0);
    assert_eq!(dist("", "한글", false), 2.0);
}

#[test]
fn distance_when_korean_letters_exist() {
    assert_eq!(dist("A학급", "B학급", false), 1.0);
    assert_eq!(dist("Aㅎㄱ", "B학급", true), 1.02);
}

#[test]
fn matches_when_needle_is_same_with_haystack() {
    assert_eq!(score("foo", "foo", true), 1.0);

    // Case-insensitive
    assert_eq!(score("foo", "FOo", false), 1.0);
    assert_eq!(score("foo", "FOo", true), 0.0);

    // Korean
    assert_eq!(score("홍길동", "홍길동", true), 1.0);
}

#[test]
fn matches_when_needle_is_not_in_the_haystack() {
    assert_eq!(score("foo", "bar", true), 0.0);
    assert_eq!(score("foo", "bar", false), 0.0);
    assert_eq!(score("dog", "digging", false), 0.0);

    // Needle is longer than haystack
    assert_eq!(score("longer", "long", false), 0.0);

    // Korean
    assert_eq!(score("홍길동", "박문수", false), 0.0);
    assert_eq!(score("홍길동", "호길동", false), 0.0);
    assert_eq!(score("홍가동", "홍길동", false), 0.0);
    assert_eq!(score("홍가두", "홍길동", false), 0.0);
    assert_eq!(score("고성", "군산", false), 0.0);
    assert_eq!(score("우산", "ㅇ산", false), 0.0);
}

#[test]
fn matches_shows_how_much_similar_two_strings_are() {
    assert!(score("brb", "Be Right Back!", false) > 0.0);
    assert!(score("br", "bring back", false) > 0.0);
    assert!(score("brb", "bring back", false) > score("brb", "Be Right Back", false));
    assert!(score("강성", "서울시 강남구 삼성동", false) > 0.0);
    assert!(score("강남", "서울시 강남구 삼성동", false) > 0.0);
    assert!(score("ㄱㅅ", "서울시 강남구 삼성동", false) > 0.0);
    assert!(score("강남", "서울시 강남구 삼성동", false) > score("ㄱㄴ", "서울시 강남구 삼성동", false));
}

#[test]
fn matches_when_korean_characters_partially_match() {
    assert!(score("ㅎㄱ", "한글", false) > 0.0);
    assert!(score("하그", "한글", false) > 0.0);
    assert!(score("하ㄱ", "한글", false) > 0.0);
    assert!(score("하그", "한글", false) == score("ㅎㄱ", "한글", false));
    assert!(score("하그", "한글", false) == score("하ㄱ", "한글", false));
}

#[test]
fn distance_of_a_string_to_itself_is_zero() {
    assert_eq!(dist("kitten", "kitten", false), 0.0);
    assert_eq!(dist("한글", "한글", false), 0.0);
    assert_eq!(dist("", "", false), 0.0);
    assert_eq!(dist("MiXeD", "MiXeD", true), 0.0);
}

#[test]
fn distance_is_symmetric() {
    assert_eq!(dist("kitten", "sitting", false), dist("sitting", "kitten", false));
    assert_eq!(dist("Aㅎㄱ", "B학급", true), dist("B학급", "Aㅎㄱ", true));
    assert_eq!(dist("", "foo", false), dist("foo", "", false));
}

#[test]
fn distance_exact_korean_discounts() {
    // Two near-substitutions only: each costs a hundredth of a step.
    assert_eq!(dist("ㅎㄱ", "학급", true), 0.02);
    // One of each: a full substitution and a near one.
    assert_eq!(dist("x학", "y하", true), 1.01);
}

#[test]
fn matches_score_of_partial_korean_needle() {
    // Two near-matches in a two-character haystack: (200 - 2) / 200.
    assert_eq!(score("ㅎㄱ", "한글", false), 0.99);
}

#[test]
fn matches_with_empty_needle_scores_by_pure_length() {
    // The empty needle is contained; the score is what the distance leaves.
    assert_eq!(score("", "abc", false), 0.0);
}

#[test]
fn matches_score_stays_within_unit_interval() {
    let cases = [
        ("brb", "Be Right Back!", false),
        ("br", "bring back", false),
        ("강남", "서울시 강남구 삼성동", false),
        ("foo", "foo", true),
        ("longer", "long", false),
        ("하그", "한글", false),
    ];
    for (n, h, cs) in cases {
        let s = score(n, h, cs);
        assert!((0.0..=1.0).contains(&s));
    }
}

#[test]
fn matches_score_can_fall_below_zero_when_folding_lengthens() {
    // Lower-casing the dotted capital I yields two characters, so the
    // scoring distance outgrows the haystack's own character count.
    assert_eq!(score("", "İ", false), -1.0);
}

#[test]
fn containment_never_reuses_a_haystack_character() {
    // Each needle character must find its own haystack character,
    // strictly after the previous match: the single 'b' cannot serve
    // both needle 'b's, and matches cannot run backwards.
    assert_eq!(score("abb", "axb", true), 0.0);
    assert_eq!(score("ba", "ab", true), 0.0);
    assert_eq!(score("abb", "axbb", true), 0.75);
}

#[test]
fn matches_of_two_empty_strings_has_no_defined_score() {
    // Zero over zero: the rational faithfully records the division the
    // floating API would perform.
    let s = hangul_fuzzy::matches("", "", true).unwrap();
    assert_eq!(s.num, 0);
    assert_eq!(s.den, 0);
    assert!((s.num as f64 / s.den as f64).is_nan());
}

#[test]
fn case_sensitivity_only_affects_containment() {
    // Containment honors the flag; scoring always folds case.
    assert_eq!(score("brb", "BRB", false), 1.0);
    assert_eq!(score("brb", "BRB", true), 0.0);
}
