use cli_khronos::document::parse_document;
use cli_khronos::domain::{FileContent, Task};
use cli_khronos::dto::TaskDTO;
use cli_khronos::error::{AppError, DomainError};
use cli_khronos::service::{BatchPolicy, IdPolicy, build_catalog};

fn make_task(id: &str, title: &str) -> Task {
    let dto = TaskDTO {
        id: id.to_string(),
        name: title.to_string(),
        timedate: "07:00:00\nMon, 12/05 09:00:00 \u{2013} 17:30:00".to_string(),
        tags: "dev".to_string(),
    };
    dto.into_domain(IdPolicy::Permissive).unwrap()
}

#[test]
fn catalog_insert_first_write_wins() {
    let mut c = FileContent::new().unwrap();
    c.insert(make_task("a1", "first task"));
    c.insert(make_task("a1", "second task"));
    assert_eq!(c.len(), 1);
    let t = c.lookup("a1").unwrap();
    assert_eq!(t.title.as_str(), "first task");
}

#[test]
fn catalog_insert_distinct_ids() {
    let mut c = FileContent::new().unwrap();
    c.insert(make_task("a1", "first task"));
    c.insert(make_task("a2", "second task"));
    assert_eq!(c.len(), 2);
    assert!(c.lookup("a1").is_some());
    assert!(c.lookup("a2").is_some());
    assert!(c.lookup("a3").is_none());
}

#[test]
fn assemble_reports_first_error() {
    let dto = TaskDTO {
        id: "".to_string(),
        name: "".to_string(),
        timedate: "".to_string(),
        tags: "".to_string(),
    };
    // the identifier is validated first, so its error wins
    assert_eq!(
        dto.into_domain(IdPolicy::Permissive).unwrap_err(),
        AppError::DomainError(DomainError::UnvalidParsingUuid)
    );
}

#[test]
fn end_to_end_single_record() {
    let doc = "[{\"id\":\"a1\",\"name\":\"coding\",\"timedate\":\"07:00:00\\nMon, 12/05 09:00:00 \u{2013} 17:30:00\",\"tags\":\"dev\"}]";
    let c = build_catalog(doc, IdPolicy::Permissive, BatchPolicy::Atomic).unwrap();
    assert_eq!(c.len(), 1);
    let t = c.lookup("a1").unwrap();
    assert_eq!(t.title.as_str(), "coding");
    assert_eq!(t.timeline.total_time, 30600);
    assert_eq!(t.timeline.break_time, 5400);
    assert_eq!(t.tag.value(), Some("dev".to_string()));
}

#[test]
fn duplicate_identifier_keeps_first() {
    let doc = "[{\"id\":\"a1\",\"name\":\"first task\",\"timedate\":\"07:00:00\\nMon, 12/05 09:00:00 \u{2013} 17:30:00\",\"tags\":\"dev\"},{\"id\":\"a1\",\"name\":\"second task\",\"timedate\":\"07:00:00\\nMon, 12/05 09:00:00 \u{2013} 17:30:00\",\"tags\":\"ops\"}]";
    let c = build_catalog(doc, IdPolicy::Permissive, BatchPolicy::Atomic).unwrap();
    assert_eq!(c.len(), 1);
    assert_eq!(c.lookup("a1").unwrap().title.as_str(), "first task");
}

#[test]
fn empty_document_fails() {
    assert_eq!(
        build_catalog("", IdPolicy::Permissive, BatchPolicy::Atomic).unwrap_err(),
        AppError::EmptyFile
    );
}

#[test]
fn malformed_document_fails() {
    assert_eq!(
        build_catalog("not a document", IdPolicy::Permissive, BatchPolicy::Atomic).unwrap_err(),
        AppError::SerdeError
    );
}

#[test]
fn empty_array_yields_empty_catalog() {
    let c = build_catalog("[]", IdPolicy::Permissive, BatchPolicy::Atomic).unwrap();
    assert_eq!(c.len(), 0);
}

#[test]
fn atomic_batch_fails_on_bad_record() {
    let doc = "[{\"id\":\"a1\",\"name\":\"coding\",\"timedate\":\"07:00:00\\nMon, 12/05 09:00:00 \u{2013} 17:30:00\",\"tags\":\"dev\"},{\"id\":\"a2\",\"name\":\"12\",\"timedate\":\"07:00:00\\nMon, 12/05 09:00:00 \u{2013} 17:30:00\",\"tags\":\"dev\"}]";
    assert_eq!(
        build_catalog(doc, IdPolicy::Permissive, BatchPolicy::Atomic).unwrap_err(),
        AppError::DomainError(DomainError::UnvalidTaskTitleFormat)
    );
}

#[test]
fn lenient_batch_skips_bad_record() {
    let doc = "[{\"id\":\"a1\",\"name\":\"coding\",\"timedate\":\"07:00:00\\nMon, 12/05 09:00:00 \u{2013} 17:30:00\",\"tags\":\"dev\"},{\"id\":\"a2\",\"name\":\"12\",\"timedate\":\"07:00:00\\nMon, 12/05 09:00:00 \u{2013} 17:30:00\",\"tags\":\"dev\"}]";
    let c = build_catalog(doc, IdPolicy::Permissive, BatchPolicy::Lenient).unwrap();
    assert_eq!(c.len(), 1);
    assert!(c.lookup("a1").is_some());
    assert!(c.lookup("a2").is_none());
}

#[test]
fn strict_policy_over_document() {
    let good = "[{\"id\":\"550e8400-e29b-41d4-a716-446655440000\",\"name\":\"coding\",\"timedate\":\"07:00:00\\nMon, 12/05 09:00:00 \u{2013} 17:30:00\",\"tags\":\"dev\"}]";
    let c = build_catalog(good, IdPolicy::Strict, BatchPolicy::Atomic).unwrap();
    assert_eq!(c.len(), 1);
    let bad = "[{\"id\":\"a1\",\"name\":\"coding\",\"timedate\":\"07:00:00\\nMon, 12/05 09:00:00 \u{2013} 17:30:00\",\"tags\":\"dev\"}]";
    assert_eq!(
        build_catalog(bad, IdPolicy::Strict, BatchPolicy::Atomic).unwrap_err(),
        AppError::DomainError(DomainError::UnvalidParsingUuid)
    );
}

#[test]
fn parse_document_fields() {
    let doc = "[{\"id\":\"a1\",\"name\":\"coding\",\"timedate\":\"07:00:00\",\"tags\":\"dev\"},{\"id\":\"a2\",\"name\":\"review\",\"timedate\":\"08:00:00\",\"tags\":\"ops\"}]";
    let v = parse_document(doc).unwrap();
    assert_eq!(v.len(), 2);
    assert_eq!(v[0].id, "a1");
    assert_eq!(v[0].name, "coding");
    assert_eq!(v[1].id, "a2");
    assert_eq!(v[1].tags, "ops");
}

#[test]
fn parse_document_decodes_escapes() {
    let doc = "[{\"id\":\"a1\",\"name\":\"a\\\\b\\\"c\",\"timedate\":\"x\\ny\",\"tags\":\"dev\"}]";
    let v = parse_document(doc).unwrap();
    assert_eq!(v[0].name, "a\\b\"c");
    assert_eq!(v[0].timedate, "x\ny");
}

#[test]
fn parse_document_rejects_trailing_text() {
    let doc = "[{\"id\":\"a1\",\"name\":\"coding\",\"timedate\":\"x\",\"tags\":\"dev\"}]extra";
    assert!(parse_document(doc).is_none());
}

#[test]
fn parse_document_rejects_unknown_escape() {
    let doc = "[{\"id\":\"a\\q1\",\"name\":\"coding\",\"timedate\":\"x\",\"tags\":\"dev\"}]";
    assert!(parse_document(doc).is_none());
}

#[test]
fn parse_document_rejects_reordered_fields() {
    let doc = "[{\"name\":\"coding\",\"id\":\"a1\",\"timedate\":\"x\",\"tags\":\"dev\"}]";
    assert!(parse_document(doc).is_none());
}
