use cli_khronos::domain::{TaskID, TaskTag, TaskTitle};
use cli_khronos::error::DomainError;
use cli_khronos::service::{IDService, IdPolicy, validate_id};

#[test]
fn title_valid_simple() {
    let t = TaskTitle::new("coding").unwrap();
    assert_eq!(t.as_str(), "coding");
}

#[test]
fn title_trims_and_lowercases() {
    let t = TaskTitle::new("  CoDiNg  ").unwrap();
    assert_eq!(t.as_str(), "coding");
}

#[test]
fn title_rejects_empty() {
    assert_eq!(TaskTitle::new("").unwrap_err(), DomainError::UnvalidTaskTitleFormat);
}

#[test]
fn title_rejects_no_alphabetic() {
    assert_eq!(TaskTitle::new("12345").unwrap_err(), DomainError::UnvalidTaskTitleFormat);
}

#[test]
fn title_rejects_too_short() {
    assert_eq!(TaskTitle::new("ab").unwrap_err(), DomainError::UnvalidTaskTitleFormat);
}

#[test]
fn title_rejects_too_long() {
    // sixteen characters after trimming and lower-casing
    assert_eq!(
        TaskTitle::new("abcdefghijklmnop").unwrap_err(),
        DomainError::UnvalidTaskTitleFormat
    );
}

#[test]
fn title_boundary_lengths() {
    assert!(TaskTitle::new("abc").is_ok());
    assert!(TaskTitle::new("abcdefghijklmno").is_ok());
    assert!(TaskTitle::new("  abc  ").is_ok());
    assert_eq!(TaskTitle::new("  abc  ").unwrap().as_str(), "abc");
}

#[test]
fn tag_valid_normalized() {
    let tag = TaskTag::from_raw(" Dev ").unwrap();
    assert_eq!(tag.value(), Some("dev".to_string()));
}

#[test]
fn tag_rejects_empty() {
    assert_eq!(TaskTag::from_raw("").unwrap_err(), DomainError::UnvalidTaskTagFormat);
}

#[test]
fn tag_rejects_all_punctuation() {
    assert_eq!(TaskTag::from_raw("...!!!").unwrap_err(), DomainError::UnvalidTaskTagFormat);
}

#[test]
fn tag_rejects_no_alphabetic() {
    assert_eq!(TaskTag::from_raw("12345").unwrap_err(), DomainError::UnvalidTaskTagFormat);
}

#[test]
fn id_strict_accepts_uuid() {
    let id = validate_id("550e8400-e29b-41d4-a716-446655440000", IdPolicy::Strict).unwrap();
    assert_eq!(id.as_str(), "550e8400-e29b-41d4-a716-446655440000");
}

#[test]
fn id_strict_rejects_non_uuid() {
    assert_eq!(
        validate_id("a1", IdPolicy::Strict).unwrap_err(),
        DomainError::UnvalidParsingUuid
    );
}

#[test]
fn id_permissive_accepts_any_nonempty() {
    assert_eq!(validate_id("a1", IdPolicy::Permissive).unwrap().as_str(), "a1");
}

#[test]
fn id_permissive_rejects_empty() {
    assert_eq!(
        validate_id("", IdPolicy::Permissive).unwrap_err(),
        DomainError::UnvalidParsingUuid
    );
}

#[test]
fn task_id_from_service_verbatim() {
    assert_eq!(TaskID::from_service("xyz").unwrap().as_str(), "xyz");
}

#[test]
fn id_service_takes_raw_verbatim() {
    assert_eq!(IDService::from_raw("raw-id"), IDService::from_raw("raw-id"));
}
