use dcreplaybot::content::{build_safe_content, CONTENT_SAFE_LIMIT};

#[test]
fn build_safe_content_joins_parts() {
    let parts = vec!["a".to_string(), "b".to_string(), "c".to_string()];
    assert_eq!(build_safe_content(&parts), "a\nb\nc");
}

#[test]
fn build_safe_content_empty() {
    let parts: Vec<String> = vec![];
    assert_eq!(build_safe_content(&parts), "");
}

#[test]
fn build_safe_content_truncates_long_first_part() {
    let long = "x".repeat(CONTENT_SAFE_LIMIT + 100);
    let parts = vec![long];
    let result = build_safe_content(&parts);
    assert_eq!(result.chars().count(), CONTENT_SAFE_LIMIT);
}

#[test]
fn build_safe_content_truncates_with_suffix() {
    let parts: Vec<String> = (0..20).map(|_| "x".repeat(100)).collect();
    let result = build_safe_content(&parts);
    assert!(result.chars().count() <= CONTENT_SAFE_LIMIT);
    assert!(result.contains("(+"));
    assert!(result.contains("more...)"));
}

#[test]
fn build_safe_content_exact_note() {
    // 18 parts of 100 fit (1817 characters); the 19th would overflow.
    let parts: Vec<String> = (0..20).map(|_| "x".repeat(100)).collect();
    let result = build_safe_content(&parts);
    let mut expected = vec!["x".repeat(100); 18].join("\n");
    expected.push_str("\n(+2 more...)");
    assert_eq!(result, expected);
}

#[test]
fn build_safe_content_note_dropped_when_it_does_not_fit() {
    let parts = vec!["y".repeat(1895), "z".repeat(10)];
    assert_eq!(build_safe_content(&parts), "y".repeat(1895));
}

#[test]
fn build_safe_content_multibyte_counts_characters() {
    let parts = vec!["ü".repeat(1900), "b".to_string()];
    let result = build_safe_content(&parts);
    assert_eq!(result.chars().count(), 1900);
    assert!(!result.contains("more"));
}

#[test]
fn build_safe_content_leading_empty_part_gets_no_line_break() {
    let parts = vec!["".to_string(), "a".to_string()];
    assert_eq!(build_safe_content(&parts), "a");
}
