use secure_file_sharing::registry::{FetchError, Registry};

const NOW: u64 = 1_700_000_000;

#[test]
fn first_fetch_succeeds_second_fails() {
    let mut registry = Registry::new();
    let code = registry
        .publish("ZW52ZWxvcGU=".to_string(), "a.txt".to_string(), 3600, NOW)
        .unwrap();
    let response = registry.fetch(&code, NOW).unwrap();
    assert_eq!(response.encrypted, "ZW52ZWxvcGU=");
    assert_eq!(response.original_filename, "a.txt");
    assert_eq!(registry.fetch(&code, NOW), Err(FetchError::NotFound));
}

#[test]
fn unknown_code_is_not_found() {
    let mut registry = Registry::new();
    assert_eq!(
        registry.fetch(&"no-such-code".to_string(), NOW),
        Err(FetchError::NotFound)
    );
}

#[test]
fn expired_share_is_purged() {
    let mut registry = Registry::new();
    let code = registry.publish("DATA".to_string(), "f.bin".to_string(), 0, NOW).unwrap();
    assert_eq!(registry.fetch(&code, NOW + 1), Err(FetchError::Expired));
    assert_eq!(registry.fetch(&code, NOW + 1), Err(FetchError::NotFound));
}

#[test]
fn expiry_is_inclusive_of_its_last_second() {
    let mut registry = Registry::new();
    let code = registry.publish("DATA".to_string(), "f.bin".to_string(), 10, NOW).unwrap();
    let response = registry.fetch(&code, NOW + 10).unwrap();
    assert_eq!(response.encrypted, "DATA");
}

#[test]
fn exhausted_share_reports_already_used() {
    let mut registry = Registry::new();
    let code = registry.publish_with_uses("DATA".to_string(), "f.bin".to_string(), 3600, 0, NOW).unwrap();
    assert_eq!(registry.fetch(&code, NOW), Err(FetchError::AlreadyUsed));
    assert_eq!(registry.fetch(&code, NOW), Err(FetchError::NotFound));
}

#[test]
fn multi_use_share_allows_exactly_its_uses() {
    let mut registry = Registry::new();
    let code = registry.publish_with_uses("DATA".to_string(), "f.bin".to_string(), 3600, 2, NOW).unwrap();
    assert!(registry.fetch(&code, NOW).is_ok());
    assert!(registry.fetch(&code, NOW + 1).is_ok());
    assert_eq!(registry.fetch(&code, NOW + 2), Err(FetchError::NotFound));
}

#[test]
fn share_codes_are_fixed_length_and_distinct() {
    let mut registry = Registry::new();
    let first = registry.publish("A".to_string(), "a".to_string(), 3600, NOW).unwrap();
    let second = registry.publish("B".to_string(), "b".to_string(), 3600, NOW).unwrap();
    assert_eq!(first.len(), 36);
    assert_eq!(second.len(), 36);
    assert_ne!(first, second);
}

#[test]
fn two_shares_are_independent() {
    let mut registry = Registry::new();
    let first = registry.publish("ONE".to_string(), "one.txt".to_string(), 3600, NOW).unwrap();
    let second = registry.publish("TWO".to_string(), "two.txt".to_string(), 3600, NOW).unwrap();
    let response = registry.fetch(&second, NOW).unwrap();
    assert_eq!(response.encrypted, "TWO");
    let response = registry.fetch(&first, NOW).unwrap();
    assert_eq!(response.encrypted, "ONE");
    assert_eq!(registry.fetch(&first, NOW), Err(FetchError::NotFound));
    assert_eq!(registry.fetch(&second, NOW), Err(FetchError::NotFound));
}

#[test]
fn failure_reasons_match_the_boundary_strings() {
    assert_eq!(FetchError::NotFound.reason(), "Invalid code");
    assert_eq!(FetchError::Expired.reason(), "Expired or used");
    assert_eq!(FetchError::AlreadyUsed.reason(), "Already used");
}
