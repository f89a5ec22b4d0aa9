use icy_term::pattern_recognizer::PatternRecognizer;

#[test]
fn test_pattern_recognizer() {
    let mut test = PatternRecognizer::from(b"Name", false);

    let mut result = false;
    for b in b"Name" {
        result = test.push_ch(*b);
    }
    assert!(result);

    let mut result = false;
    for b in b"name" {
        result = test.push_ch(*b);
    }
    assert!(!result);
}

#[test]
fn test_pattern_recognizer_ignore_case() {
    let mut test = PatternRecognizer::from(b"Name", true);

    let mut result = false;
    for b in b"name" {
        result = test.push_ch(*b);
    }
    assert!(result);

    let mut result = false;
    for b in b"NaMe" {
        result = test.push_ch(*b);
    }
    assert!(result);

    let mut result = false;
    for b in b"Nmae" {
        result = test.push_ch(*b);
    }
    assert!(!result);
}

#[test]
fn test_pattern_recognizer_recovery() {
    let mut test = PatternRecognizer::from(b"name", false);

    let mut result = false;
    for b in b"namname" {
        result = test.push_ch(*b);
    }
    assert!(result);
}

#[test]
fn test_pattern_recognizer_invalid() {
    let mut test = PatternRecognizer::from(b"name", false);

    let mut result = false;
    for b in b"n_a_m_e" {
        result = test.push_ch(*b);
    }
    assert!(!result);
}

fn push_all(p: &mut PatternRecognizer, data: &[u8]) -> Vec<bool> {
    data.iter().map(|b| p.push_ch(*b)).collect()
}

#[test]
fn reports_only_on_the_last_byte_of_the_pattern() {
    let mut p = PatternRecognizer::from(b"login:", false);
    let r = push_all(&mut p, b"xx login: y login:");
    let hits: Vec<usize> = r.iter().enumerate().filter(|(_, b)| **b).map(|(i, _)| i).collect();
    assert_eq!(hits, vec![8, 17]);
}

#[test]
fn reset_forgets_a_partial_match() {
    let mut p = PatternRecognizer::from(b"abc", false);
    assert!(!p.push_ch(b'a'));
    assert!(!p.push_ch(b'b'));
    p.reset();
    assert!(!p.push_ch(b'c'));
    assert_eq!(push_all(&mut p, b"abc"), vec![false, false, true]);
}

#[test]
fn single_byte_pattern_matches_every_occurrence() {
    let mut p = PatternRecognizer::from(b"x", false);
    assert_eq!(push_all(&mut p, b"axxb"), vec![false, true, true, false]);
}

#[test]
fn ignore_case_does_not_lower_the_input_pattern_side() {
    // The stored pattern is uppercased; an uppercase input matches as is,
    // a lowercase input through its uppercase.
    let mut p = PatternRecognizer::from(b"pw", true);
    assert_eq!(push_all(&mut p, b"PW"), vec![false, true]);
    assert_eq!(push_all(&mut p, b"pW"), vec![false, true]);
    // without ignore_case, case must agree
    let mut q = PatternRecognizer::from(b"pw", false);
    assert_eq!(push_all(&mut q, b"PW"), vec![false, false]);
}

#[test]
fn non_letters_are_not_case_folded() {
    let mut p = PatternRecognizer::from(b"[", true);
    // '{' is '[' + 32 but not a lowercase letter
    assert!(!p.push_ch(b'{'));
    assert!(p.push_ch(b'['));
}

#[test]
fn empty_pattern_can_be_built() {
    let _p = PatternRecognizer::from(b"", true);
}

#[test]
fn every_completed_occurrence_is_reported() {
    let mut r = PatternRecognizer::from(b"name", false);
    let stream = b"xnanamexxnamenameynam";
    let mut reported = Vec::new();
    for (i, b) in stream.iter().enumerate() {
        if r.push_ch(*b) {
            reported.push(i);
        }
    }
    assert_eq!(reported, vec![6, 12, 16]);
}

#[test]
fn every_completed_occurrence_is_reported_ignoring_case() {
    let mut r = PatternRecognizer::from(b"Login:", true);
    let stream = b"lOgLOGIN:..login:";
    let mut reported = Vec::new();
    for (i, b) in stream.iter().enumerate() {
        if r.push_ch(*b) {
            reported.push(i);
        }
    }
    assert_eq!(reported, vec![8, 16]);
}
