use message_format::format::{format_message, format_message_logged, FormatOutcome};

#[test]
fn test_format_message() {
    let result = format_message("Hello, World");
    assert_eq!(result, "Message received: [Hello, World]");
}

#[test]
fn test_format_message_empty() {
    let result = format_message("");
    assert_eq!(result, "Message received: []");
}

#[test]
fn test_format_message_special_chars() {
    let result = format_message("Test!@#$%");
    assert_eq!(result, "Message received: [Test!@#$%]");
}

#[test]
fn format_message_keeps_non_ascii_text() {
    let result = format_message("héllo ✓ [x]");
    assert_eq!(result, "Message received: [héllo ✓ [x]]");
}

#[test]
fn stored_message_gets_the_plain_reply() {
    let outcome = format_message_logged("Hello", Ok(()));
    assert!(matches!(outcome, FormatOutcome::Stored { .. }));
    assert_eq!(outcome.into_text(), "Message received: [Hello]");
}

#[test]
fn storage_failure_is_folded_into_the_reply() {
    let outcome = format_message_logged("Hello", Err("disk I/O error".to_string()));
    match &outcome {
        FormatOutcome::Degraded { cause, .. } => assert_eq!(cause, "disk I/O error"),
        FormatOutcome::Stored { .. } => panic!("a failed store must give a degraded outcome"),
    }
    let text = outcome.into_text();
    assert_eq!(text, "Message received: [Hello] (DB Error: disk I/O error)");
    assert!(text.contains("Hello"));
    assert!(text.contains("DB Error"));
}

#[test]
fn storage_failure_with_empty_message() {
    let text = format_message_logged("", Err("no such table".to_string())).into_text();
    assert_eq!(text, "Message received: [] (DB Error: no such table)");
}
