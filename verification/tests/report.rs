use transformation_engine::report::{
    audit_notice, failure_message, failure_notices, key_warning, progress_notices, start_notices,
    success_message, success_notices, Notice,
};

fn is_announcement(notices: &[Notice], status: &str, message: &str, progress: Option<u8>) {
    assert_eq!(notices.len(), 2);
    assert_eq!(notices[0].event_type, "status");
    assert_eq!(notices[0].status, Some(status.to_string()));
    assert_eq!(notices[0].message, message);
    assert_eq!(notices[0].progress, progress);
    assert_eq!(notices[1].event_type, "audit");
    assert_eq!(notices[1].status, None);
    assert_eq!(notices[1].message, message);
    assert_eq!(notices[1].progress, None);
}

#[test]
fn the_start_is_told_with_the_version() {
    is_announcement(
        &start_notices("1.2.3"),
        "started",
        "Transformation Engine (1.2.3) started",
        Some(0),
    );
}

#[test]
fn progress_is_told_with_the_count() {
    is_announcement(
        &progress_notices(500),
        "processing",
        "Progress: 500 records processed",
        Some(0),
    );
}

#[test]
fn a_good_end_is_told_with_the_count() {
    let message = "Transformation Batch Job finished successfully. 12 records processed";
    assert_eq!(success_message(12), message);
    is_announcement(&success_notices(12), "finished", message, Some(100));
}

#[test]
fn a_bad_end_is_told_with_the_reason() {
    let message = "Transformation Batch Job failed: no route";
    assert_eq!(failure_message("no route"), message);
    is_announcement(&failure_notices("no route"), "failed", message, None);
}

#[test]
fn a_missing_key_is_told_to_the_audit() {
    let message = key_warning("t", "none");
    assert_eq!(message, "Warning: Failed to fetch wrapped key for topic t: none");
    let notice = audit_notice(&message);
    assert_eq!(notice.event_type, "audit");
    assert_eq!(notice.status, None);
    assert_eq!(notice.message, message);
    assert_eq!(notice.progress, None);
}
