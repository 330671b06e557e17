use libra_core::clock::Timestamp;
use libra_core::mr::{MergeRequest, MergeRequestRow, MergeStatus};

#[test]
fn fresh_request_is_open() {
    let mr = MergeRequest::with_id(9);
    assert_eq!(mr.id, 9);
    assert_eq!(mr.status, MergeStatus::Open);
    assert_eq!(mr.merge_date, None);
    assert_eq!(mr.title, "");
    let other = MergeRequest::default();
    assert_eq!(other.status, MergeStatus::Open);
    assert_eq!(other.merge_date, None);
    assert_eq!(other.from_hash, "");
}

#[test]
fn merge_sets_status_and_date_and_is_final() {
    let mut mr = MergeRequest::with_id(1);
    mr.merge();
    assert_eq!(mr.status, MergeStatus::Merged);
    assert!(mr.merge_date.is_some());
    let date = mr.merge_date;
    mr.close();
    assert_eq!(mr.status, MergeStatus::Merged);
    assert_eq!(mr.merge_date, date);
    mr.merge();
    assert_eq!(mr.merge_date, date);
}

#[test]
fn merge_at_records_the_given_time() {
    let mut mr = MergeRequest::with_id(1);
    let now = Timestamp { secs: 1_700_000_000, nanos: 123 };
    mr.merge_at(now);
    assert_eq!(mr.status, MergeStatus::Merged);
    assert_eq!(mr.merge_date, Some(now));
    mr.merge_at(Timestamp { secs: 5, nanos: 0 });
    assert_eq!(mr.merge_date, Some(now));
}

#[test]
fn close_is_final_and_leaves_no_date() {
    let mut mr = MergeRequest::with_id(1);
    mr.close();
    assert_eq!(mr.status, MergeStatus::Closed);
    assert_eq!(mr.merge_date, None);
    mr.close();
    assert_eq!(mr.status, MergeStatus::Closed);
    mr.merge();
    assert_eq!(mr.status, MergeStatus::Closed);
    assert_eq!(mr.merge_date, None);
}

#[test]
fn request_to_row_and_back() {
    let mut mr = MergeRequest::with_id(77);
    mr.title = "Add parser".to_string();
    mr.mr_link = "ABCD1234".to_string();
    mr.path = "/project".to_string();
    mr.from_hash = "1111".to_string();
    mr.to_hash = "2222".to_string();
    let at = Timestamp { secs: 10, nanos: 1 };
    let later = Timestamp { secs: 11, nanos: 2 };
    let row: MergeRequestRow = mr.clone().into_row_with(at, later);
    assert_eq!(row.id, 77);
    assert_eq!(row.title, "Add parser");
    assert_eq!(row.mr_link, "ABCD1234");
    assert_eq!(row.path, "/project");
    assert_eq!(row.from_hash, "1111");
    assert_eq!(row.to_hash, "2222");
    assert_eq!(row.status, MergeStatus::Open);
    assert_eq!(row.merge_date, None);
    assert_eq!(row.created_at, at);
    assert_eq!(row.updated_at, later);
    let back = MergeRequest::from(row);
    assert_eq!(back.id, 77);
    assert_eq!(back.title, "Add parser");
    assert_eq!(back.status, MergeStatus::Open);
    let stamped = mr.into_row();
    assert!(stamped.created_at.secs > 1_600_000_000);
    assert!(stamped.updated_at.secs >= stamped.created_at.secs);
}
