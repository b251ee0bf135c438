use loadstorm::failure::{classify_failure, text_contains, FailureKind};

#[test]
fn finds_text_anywhere() {
    assert!(text_contains("Too many open files (os error 24)", "open files"));
    assert!(text_contains("abc", "abc"));
    assert!(text_contains("abc", ""));
    assert!(text_contains("", ""));
    assert!(!text_contains("ab", "abc"));
    assert!(!text_contains("too many open files", "Too many open files"));
    assert!(text_contains("ééx", "éx"));
}

#[test]
fn exhaustion_found_deep_in_chain() {
    let chain = vec![
        "error sending request for url (http://127.0.0.1/)".to_string(),
        "client error (Connect)".to_string(),
        "Too many open files (os error 24)".to_string(),
    ];
    assert_eq!(classify_failure(&chain), FailureKind::ResourceExhausted);
}

#[test]
fn exhaustion_found_at_top() {
    let chain = vec!["Too many open files".to_string()];
    assert_eq!(classify_failure(&chain), FailureKind::ResourceExhausted);
}

#[test]
fn other_failures_are_ordinary() {
    let chain = vec![
        "error sending request".to_string(),
        "Connection refused (os error 111)".to_string(),
    ];
    assert_eq!(classify_failure(&chain), FailureKind::Ordinary);
    assert_eq!(classify_failure(&Vec::new()), FailureKind::Ordinary);
}
