use b8t_core::identity::{
    clean_message, is_valid_username, is_valid_uuid, normalize_username, MAX_MESSAGE_LENGTH,
};

#[test]
fn usernames_are_trimmed_and_lowercased() {
    assert_eq!(normalize_username("  MindComplexity \n"), "mindcomplexity");
    assert_eq!(normalize_username("wqm"), "wqm");
    assert_eq!(normalize_username("ÄBC_x"), "Äbc_x");
    assert_eq!(normalize_username("   "), "");
}

#[test]
fn normalizing_twice_changes_nothing() {
    for name in ["  Foo_Bar  ", "\tMIXED case\n", "ÉÀ x", "", "abc"] {
        let once = normalize_username(name);
        assert_eq!(normalize_username(&once), once);
    }
}

#[test]
fn username_validity() {
    assert!(is_valid_username("MindComplexity"));
    assert!(is_valid_username(" wqm_2 "));
    assert!(is_valid_username(&"a".repeat(32)));
    assert!(!is_valid_username(&"a".repeat(33)));
    assert!(!is_valid_username(""));
    assert!(!is_valid_username("   "));
    assert!(!is_valid_username("bad name"));
    assert!(!is_valid_username("dash-name"));
    assert!(!is_valid_username("émile"));
}

#[test]
fn a_valid_username_stays_valid_when_normalized() {
    for name in [" Steve ", "ALEX_99", "x"] {
        assert!(is_valid_username(name));
        let n = normalize_username(name);
        assert!(is_valid_username(&n));
        assert_eq!(n.len(), name.trim().len());
    }
}

#[test]
fn uuid_validity() {
    assert!(is_valid_uuid("5b3a39be-24cc-3861-b90a-619502c73562"));
    assert!(is_valid_uuid("5B3A39BE24CC3861B90A619502C73562"));
    assert!(is_valid_uuid(""));
    assert!(!is_valid_uuid("5b3a39be-24cc-3861-b90a-619502c73562-"));
    assert!(!is_valid_uuid("5b3a39be-24cc-3861-b90a-619502c7356g"));
    assert!(!is_valid_uuid(" 5b3a39be"));
}

#[test]
fn messages_are_cleaned() {
    assert_eq!(clean_message("  hello  "), Some("hello".to_string()));
    assert_eq!(clean_message("a\u{7}b\tc\u{0}d"), Some("ab\tcd".to_string()));
    assert_eq!(clean_message("   "), None);
    assert_eq!(clean_message("\u{1b}\u{7f}"), None);
    assert_eq!(clean_message(" \u{1b} x"), Some(" x".to_string()));
    let long = "é".repeat(300);
    let cleaned = clean_message(&long).unwrap();
    assert_eq!(cleaned.chars().count(), MAX_MESSAGE_LENGTH);
    assert_eq!(cleaned, "é".repeat(256));
}

#[test]
fn cleaned_messages_are_bounded() {
    for m in ["x", " \u{85}a\u{9f}b ", &"ab\u{1}".repeat(200), "\tkeep\ttabs\t"] {
        if let Some(c) = clean_message(m) {
            let n = c.chars().count();
            assert!((1..=MAX_MESSAGE_LENGTH).contains(&n));
            assert!(c.chars().all(|ch| !ch.is_control() || ch == '\t'));
        }
    }
}
