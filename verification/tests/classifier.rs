use hangul_fuzzy::korean::{get_consonant, has_final, is_consonant, is_korean, is_similar, is_syllable, omit_final};

#[test]
fn test_is_korean() {
    assert!(is_korean(&'강'));
    assert!(is_korean(&'핳'));
    assert!(is_korean(&'ㅅ'));
    assert!(!is_korean(&'a'));
    assert!(!is_korean(&'*'));
    assert!(!is_korean(&'🗿'));
}

#[test]
fn test_similar_when_both_are_the_same() {
    assert!(is_similar(&'강', &'강'));
    assert!(is_similar(&'나', &'나'));
    assert!(is_similar(&'나', &'나'));
}

#[test]
fn test_similar_when_partial_matches() {
    assert!(is_similar(&'ㄱ', &'강'));
    assert!(!is_similar(&'ㄲ', &'강'));
    assert!(is_similar(&'가', &'강'));
    assert!(!is_similar(&'거', &'강'));
}

#[test]
fn classifier_ranges() {
    assert!(is_consonant(&'ㄱ'));
    assert!(is_consonant(&'ㅎ'));
    // The range boundary is the full compatibility-jamo block start/end.
    assert!(is_consonant(&'\u{3131}'));
    assert!(is_consonant(&'\u{314e}'));
    assert!(!is_consonant(&'\u{3130}'));
    assert!(!is_consonant(&'\u{314f}'));
    assert!(is_syllable(&'가'));
    assert!(is_syllable(&'힣'));
    assert!(!is_syllable(&'ㄱ'));
    assert!(!is_syllable(&'a'));
}

#[test]
fn final_consonant_detection() {
    assert!(has_final(&'강'));
    assert!(has_final(&'힣'));
    assert!(!has_final(&'가'));
    assert!(!has_final(&'ㄱ'));
    assert!(!has_final(&'a'));
    assert_eq!(omit_final(&'강'), '가');
    assert_eq!(omit_final(&'한'), '하');
    assert_eq!(omit_final(&'가'), '가');
    assert_eq!(omit_final(&'x'), 'x');
}

#[test]
fn leading_consonant_of_every_group() {
    let pairs = [
        ('ㄱ', '가'),
        ('ㄲ', '까'),
        ('ㄴ', '나'),
        ('ㄷ', '다'),
        ('ㄸ', '따'),
        ('ㄹ', '라'),
        ('ㅁ', '마'),
        ('ㅂ', '바'),
        ('ㅃ', '빠'),
        ('ㅅ', '사'),
        ('ㅆ', '싸'),
        ('ㅇ', '아'),
        ('ㅈ', '자'),
        ('ㅉ', '짜'),
        ('ㅊ', '차'),
        ('ㅋ', '카'),
        ('ㅌ', '타'),
        ('ㅍ', '파'),
        ('ㅎ', '하'),
    ];
    for (jamo, syllable) in pairs {
        assert_eq!(get_consonant(&syllable), jamo);
        // A bare consonant is similar to any syllable led by it.
        assert!(is_similar(&jamo, &syllable));
    }
}

#[test]
fn similarity_is_reflexive_and_symmetric() {
    for c in ['강', '가', 'ㄱ', 'ㅏ', 'a', '*', '🗿'] {
        assert!(is_similar(&c, &c));
    }
    let samples = ['강', '가', '한', 'ㄱ', 'ㅎ', 'x', '나'];
    for a in samples {
        for b in samples {
            assert_eq!(is_similar(&a, &b), is_similar(&b, &a));
        }
    }
}

#[test]
fn similarity_of_syllables_ignores_only_the_final() {
    assert!(is_similar(&'한', &'하'));
    assert!(is_similar(&'한', &'핳'));
    assert!(!is_similar(&'한', &'호'));
    // A bare consonant only ever equals another bare consonant.
    assert!(!is_similar(&'ㄱ', &'ㄲ'));
    assert!(is_similar(&'ㅎ', &'학'));
}
