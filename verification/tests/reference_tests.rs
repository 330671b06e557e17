use libra_core::clock::Timestamp;
use libra_core::reference::{
    ref_type_of, CommandStatus, CommandType, RefCommand, RefRow, RefType, Refs, SP, ZERO_ID,
};

const A: &str = "1111111111111111111111111111111111111111";
const B: &str = "2222222222222222222222222222222222222222";

fn command(old: &str, new: &str, name: &str) -> RefCommand {
    RefCommand::new(old.to_string(), new.to_string(), name.to_string())
}

#[test]
fn zero_id_is_forty_zeros() {
    assert_eq!(ZERO_ID, "0000000000000000000000000000000000000000");
    assert_eq!(ZERO_ID.len(), 40);
    assert_eq!(SP, ' ');
}

#[test]
fn command_type_from_sentinels() {
    let zero = "0000000000000000000000000000000000000000";
    assert_eq!(command(zero, A, "refs/heads/main").command_type, CommandType::Create);
    assert_eq!(command(A, zero, "refs/heads/main").command_type, CommandType::Delete);
    assert_eq!(command(A, B, "refs/heads/main").command_type, CommandType::Update);
    assert_eq!(command(zero, zero, "refs/heads/main").command_type, CommandType::Create);
    assert_eq!(command("000", A, "refs/heads/main").command_type, CommandType::Update);
}

#[test]
fn new_command_is_good_and_keeps_its_fields() {
    let cmd = command(A, B, "refs/heads/dev");
    assert_eq!(cmd.ref_name, "refs/heads/dev");
    assert_eq!(cmd.old_id, A);
    assert_eq!(cmd.new_id, B);
    assert_eq!(cmd.status, CommandStatus::Pending);
    assert_eq!(cmd.error_msg, "");
    assert_eq!(cmd.ref_type, RefType::Branch);
    assert!(!cmd.default_branch);
}

#[test]
fn ref_type_from_name() {
    assert_eq!(command(A, B, "refs/tags/v1.0").ref_type, RefType::Tag);
    assert_eq!(command(A, B, "refs/heads/main").ref_type, RefType::Branch);
    assert_eq!(ref_type_of("refs/tags/"), RefType::Tag);
    assert_eq!(ref_type_of("refs/tag"), RefType::Branch);
    assert_eq!(ref_type_of("refs/tagship"), RefType::Branch);
    assert_eq!(ref_type_of("xrefs/tags/v1"), RefType::Branch);
    assert_eq!(ref_type_of(""), RefType::Branch);
}

#[test]
fn status_line_of_a_fresh_and_a_failed_command() {
    let mut cmd = command(ZERO_ID, A, "refs/heads/main");
    assert_eq!(cmd.get_status(), "ok refs/heads/main");
    cmd.failed("conflict".to_string());
    assert_eq!(cmd.get_status(), "ng refs/heads/main conflict");
    assert_eq!(cmd.status, CommandStatus::Failed);
}

#[test]
fn first_failure_stays() {
    let mut cmd = command(A, B, "refs/heads/main");
    cmd.failed("first".to_string());
    cmd.failed("second".to_string());
    assert_eq!(cmd.status, CommandStatus::Failed);
    assert_eq!(cmd.error_msg, "first");
    assert_eq!(cmd.get_status(), "ng refs/heads/main first");
}

#[test]
fn command_to_row() {
    let cmd = command(A, B, "refs/tags/v2");
    let at = Timestamp { secs: 1_700_000_000, nanos: 5 };
    let later = Timestamp { secs: 1_700_000_001, nanos: 0 };
    let row = cmd.clone().into_row_with(42, at, later);
    assert_eq!(row.id, 42);
    assert_eq!(row.repo_id, 0);
    assert_eq!(row.ref_name, "refs/tags/v2");
    assert_eq!(row.ref_git_id, B);
    assert_eq!(row.ref_type, RefType::Tag);
    assert!(!row.default_branch);
    assert_eq!(row.created_at, at);
    assert_eq!(row.updated_at, later);
    let fresh = cmd.into_row();
    assert_eq!(fresh.ref_git_id, B);
    assert_eq!(fresh.repo_id, 0);
    assert!(fresh.created_at.secs > 1_600_000_000);
}

#[test]
fn refs_from_row() {
    let at = Timestamp { secs: 1, nanos: 2 };
    let row = RefRow {
        id: 7,
        repo_id: 3,
        ref_name: "refs/heads/main".to_string(),
        ref_git_id: A.to_string(),
        ref_type: RefType::Branch,
        default_branch: true,
        created_at: at,
        updated_at: at,
    };
    let refs = Refs::from(row);
    assert_eq!(refs.id, 7);
    assert_eq!(refs.ref_name, "refs/heads/main");
    assert_eq!(refs.ref_hash, A);
    assert!(refs.default_branch);
    let empty = Refs::default();
    assert_eq!(empty.id, 0);
    assert_eq!(empty.ref_name, "");
}
