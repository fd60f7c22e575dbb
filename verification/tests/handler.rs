use file_upload::PartInput;
use file_upload::TaskStatus;
use file_upload::UploadHandler;
use file_upload::upload_response_json;

fn file_part(name: &str, data: &[u8]) -> PartInput {
    PartInput {
        field_name: Some("file".to_string()),
        filename: Some(name.to_string()),
        data: data.to_vec(),
    }
}

fn nameless_part(data: &[u8]) -> PartInput {
    PartInput { field_name: Some("file".to_string()), filename: None, data: data.to_vec() }
}

#[test]
fn accepted_part_is_scheduled_and_processing() {
    let mut h = UploadHandler::new("uploads".to_string());
    let w = h
        .admit_part_with_id(file_part("hello.txt", b"hi"), "id-1".to_string())
        .expect("a safe part under a fresh id must be accepted");
    assert_eq!(w.task_id, "id-1");
    assert_eq!(w.filename, "hello.txt");
    assert_eq!(w.dest_path, "uploads/hello.txt");
    assert_eq!(w.data, b"hi".to_vec());
    let id = "id-1".to_string();
    assert!(matches!(h.status_of(&id), Some(TaskStatus::Processing)));
    assert_eq!(h.status_response_json(&id).unwrap(), "{\"status\":\"processing\"}");
}

#[test]
fn part_without_filename_is_ignored() {
    let mut h = UploadHandler::new("uploads".to_string());
    assert!(h.admit_part_with_id(nameless_part(b"hi"), "id-1".to_string()).is_none());
    assert_eq!(h.task_count(), 0);
}

#[test]
fn traversal_filename_is_rejected() {
    let mut h = UploadHandler::new("uploads".to_string());
    let part = file_part("../../etc/passwd", b"oops");
    assert!(h.admit_part_with_id(part, "id-1".to_string()).is_none());
    assert_eq!(h.task_count(), 0);
}

#[test]
fn empty_filename_is_rejected() {
    let mut h = UploadHandler::new("uploads".to_string());
    assert!(h.admit_part_with_id(file_part("", b"x"), "id-1".to_string()).is_none());
    assert_eq!(h.task_count(), 0);
}

#[test]
fn duplicate_id_is_refused() {
    let mut h = UploadHandler::new("uploads".to_string());
    assert!(h.admit_part_with_id(file_part("a.txt", b"a"), "id-1".to_string()).is_some());
    assert!(h.admit_part_with_id(file_part("b.txt", b"b"), "id-1".to_string()).is_none());
    assert_eq!(h.task_count(), 1);
}

#[test]
fn zero_part_body_uploads_nothing() {
    let mut h = UploadHandler::new("uploads".to_string());
    let (writes, response) = h.handle_parts(Vec::new());
    assert!(writes.is_empty());
    assert_eq!(response, "{\"error\":\"no file uploaded\"}");
    assert_eq!(h.task_count(), 0);
}

#[test]
fn body_without_file_parts_uploads_nothing() {
    let mut h = UploadHandler::new("uploads".to_string());
    let parts = vec![nameless_part(b"a"), nameless_part(b"b")];
    let (writes, response) = h.handle_parts(parts);
    assert!(writes.is_empty());
    assert_eq!(response, "{\"error\":\"no file uploaded\"}");
    assert_eq!(h.task_count(), 0);
}

#[test]
fn two_uploads_get_independent_ids() {
    let mut h = UploadHandler::new("uploads".to_string());
    let parts = vec![file_part("a.txt", b"aaa"), file_part("b.txt", b"bbb")];
    let (writes, response) = h.handle_parts(parts);
    assert_eq!(writes.len(), 2);
    assert_ne!(writes[0].task_id, writes[1].task_id);
    assert_eq!(writes[0].dest_path, "uploads/a.txt");
    assert_eq!(writes[1].dest_path, "uploads/b.txt");
    let expected = format!(
        "[{{\"task_id\":\"{}\",\"status\":\"processing\"}},{{\"task_id\":\"{}\",\"status\":\"processing\"}}]",
        writes[0].task_id, writes[1].task_id
    );
    assert_eq!(response, expected);
    for w in &writes {
        assert!(matches!(h.status_of(&w.task_id), Some(TaskStatus::Processing)));
    }
    h.complete_upload(&writes[0].task_id.clone(), None);
    h.complete_upload(&writes[1].task_id.clone(), None);
    for w in &writes {
        assert!(matches!(h.status_of(&w.task_id), Some(TaskStatus::Completed)));
    }
}

#[test]
fn failed_write_reads_failed_and_later_requests_go_on() {
    let mut h = UploadHandler::new("uploads".to_string());
    let (writes, _) = h.handle_parts(vec![file_part("a.txt", b"aaa")]);
    assert_eq!(writes.len(), 1);
    let id = writes[0].task_id.clone();
    h.complete_upload(&id, Some("read-only file system".to_string()));
    match h.status_of(&id) {
        Some(TaskStatus::Failed(reason)) => {
            assert_eq!(reason, "read-only file system");
            assert!(!reason.is_empty());
        },
        other => panic!("unexpected status {:?}", other.map(|s| s.label())),
    }
    assert_eq!(h.status_response_json(&id).unwrap(), "{\"status\":\"failed\"}");
    let (more, _) = h.handle_parts(vec![file_part("b.txt", b"bbb")]);
    assert_eq!(more.len(), 1);
    assert!(matches!(h.status_of(&more[0].task_id), Some(TaskStatus::Processing)));
}

#[test]
fn status_query_for_unissued_id_is_not_found() {
    let mut h = UploadHandler::new("uploads".to_string());
    let (writes, _) = h.handle_parts(vec![file_part("a.txt", b"aaa")]);
    assert_eq!(writes.len(), 1);
    let unknown = "00000000-0000-0000-0000-000000000000".to_string();
    assert_ne!(writes[0].task_id, unknown);
    assert!(h.status_of(&unknown).is_none());
    assert!(h.status_response_json(&unknown).is_none());
}

#[test]
fn response_rendering_is_exact() {
    assert_eq!(upload_response_json(&Vec::new()), "{\"error\":\"no file uploaded\"}");
}
