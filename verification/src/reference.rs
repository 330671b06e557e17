//! References and reference-update commands as they travel in a transfer.

use crate::clock::{generate_id, utc_now, Timestamp};
use crate::text::{chars_of, has_prefix, starts_with};
use vstd::prelude::*;
use vstd::string::StringExecFns;

verus! {

/// The text of the all-zero hash: as the old value it says that the
/// reference does not exist yet, as the new value that it is to be deleted.
pub const ZERO_ID: &'static str = "0000000000000000000000000000000000000000";

/// The separator between the fields of a status line.
pub const SP: char = ' ';

/// The prefix under which tags are named.
pub const TAG_PREFIX: &'static str = "refs/tags/";

/// A reference as the protocol shows it.
#[derive(Clone, Debug, Default)]
pub struct Refs {
    pub id: i64,
    pub ref_name: String,
    pub ref_hash: String,
    pub default_branch: bool,
}

/// Whether a reference names a branch or a tag.
#[derive(Clone, Copy, Debug, PartialEq, Eq, Structural)]
pub enum RefType {
    Branch,
    Tag,
}

/// A reference as the persistence layer keeps it.
#[derive(Clone, Debug)]
pub struct RefRow {
    pub id: i64,
    pub repo_id: i64,
    pub ref_name: String,
    pub ref_git_id: String,
    pub ref_type: RefType,
    pub default_branch: bool,
    pub created_at: Timestamp,
    pub updated_at: Timestamp,
}

impl From<RefRow> for Refs {
    fn from(value: RefRow) -> (refs: Refs) {
        Refs {
            id: value.id,
            ref_name: value.ref_name,
            ref_hash: value.ref_git_id,
            default_branch: value.default_branch,
        }
    }
}

impl vstd::std_specs::convert::FromSpecImpl<RefRow> for Refs {
    open spec fn obeys_from_spec() -> bool {
        true
    }

    open spec fn from_spec(value: RefRow) -> Refs {
        Refs {
            id: value.id,
            ref_name: value.ref_name,
            ref_hash: value.ref_git_id,
            default_branch: value.default_branch,
        }
    }
}

/// What a reference-update command does to its reference.
#[derive(Clone, Copy, Debug, PartialEq, Eq, Structural)]
pub enum CommandType {
    Create,
    Delete,
    Update,
}

/// Whether a command is still good (reported as `ok`) or has failed.
#[derive(Clone, Copy, Debug, PartialEq, Eq, Structural)]
pub enum CommandStatus {
    Pending,
    Failed,
}

/// The kind of a command, from its two hashes alone: an all-zero old hash
/// creates, else an all-zero new hash deletes, else the command updates.
pub open spec fn spec_command_type(old_id: Seq<char>, new_id: Seq<char>) -> CommandType {
    if old_id == ZERO_ID@ {
        CommandType::Create
    } else if new_id == ZERO_ID@ {
        CommandType::Delete
    } else {
        CommandType::Update
    }
}

/// The kind of a reference, from its name alone.
pub open spec fn spec_ref_type(ref_name: Seq<char>) -> RefType {
    if has_prefix(ref_name, TAG_PREFIX@) {
        RefType::Tag
    } else {
        RefType::Branch
    }
}

/// Classifies a reference name as a tag or a branch.
pub fn ref_type_of(ref_name: &str) -> (kind: RefType)
    ensures
        kind == spec_ref_type(ref_name@),
{
    let name = chars_of(ref_name);
    let prefix = chars_of(TAG_PREFIX);
    if starts_with(&name, &prefix) {
        RefType::Tag
    } else {
        RefType::Branch
    }
}

/// One create, update or delete of a named reference.
#[derive(Clone, Debug, PartialEq)]
pub struct RefCommand {
    pub ref_name: String,
    pub old_id: String,
    pub new_id: String,
    pub status: CommandStatus,
    pub error_msg: String,
    pub command_type: CommandType,
    pub ref_type: RefType,
    pub default_branch: bool,
}

impl RefCommand {
    /// The status word of a command that has not failed.
    pub const OK_STATUS: &'static str = "ok";

    /// The status word of a failed command.
    pub const FAILED_STATUS: &'static str = "ng";

    /// The line that reports this command: `ok <name>` while it is good,
    /// `ng <name> <message>` once it has failed.
    pub open spec fn spec_status_line(self) -> Seq<char> {
        match self.status {
            CommandStatus::Pending => Self::OK_STATUS@ + seq![SP] + self.ref_name@,
            CommandStatus::Failed => Self::FAILED_STATUS@ + seq![SP] + self.ref_name@ + seq![SP]
                + self.error_msg@,
        }
    }

    /// This command after `msg` was reported as its failure: the first
    /// failure stays, a later one changes nothing.
    pub open spec fn spec_failed(self, msg: String) -> RefCommand {
        match self.status {
            CommandStatus::Pending => RefCommand {
                status: CommandStatus::Failed,
                error_msg: msg,
                ..self
            },
            CommandStatus::Failed => self,
        }
    }

    /// The row that records this command's new target.
    pub open spec fn spec_row(self, id: i64, created_at: Timestamp, updated_at: Timestamp) -> RefRow {
        RefRow {
            id,
            repo_id: 0,
            ref_name: self.ref_name,
            ref_git_id: self.new_id,
            ref_type: self.ref_type,
            default_branch: self.default_branch,
            created_at,
            updated_at,
        }
    }

    /// A fresh command for `ref_name`, from `old_id` to `new_id`.
    pub fn new(old_id: String, new_id: String, ref_name: String) -> (cmd: RefCommand)
        ensures
            cmd.ref_name@ == ref_name@,
            cmd.old_id@ == old_id@,
            cmd.new_id@ == new_id@,
            cmd.status == CommandStatus::Pending,
            cmd.error_msg@ == Seq::<char>::empty(),
            cmd.command_type == spec_command_type(old_id@, new_id@),
            cmd.ref_type == spec_ref_type(ref_name@),
            !cmd.default_branch,
    {
        let zero = String::from_str(ZERO_ID);
        let command_type = if old_id == zero {
            CommandType::Create
        } else if new_id == zero {
            CommandType::Delete
        } else {
            CommandType::Update
        };
        let ref_type = ref_type_of(ref_name.as_str());
        RefCommand {
            ref_name,
            old_id,
            new_id,
            status: CommandStatus::Pending,
            error_msg: String::new(),
            command_type,
            ref_type,
            default_branch: false,
        }
    }

    /// The status line of this command.
    pub fn get_status(&self) -> (line: String)
        ensures
            line@ == self.spec_status_line(),
    {
        proof {
            reveal_strlit(" ");
        }
        match self.status {
            CommandStatus::Pending => {
                let line = String::from_str(Self::OK_STATUS).concat(" ").concat(
                    self.ref_name.as_str(),
                );
                assert(line@ =~= self.spec_status_line());
                line
            },
            CommandStatus::Failed => {
                let line = String::from_str(Self::FAILED_STATUS).concat(" ").concat(
                    self.ref_name.as_str(),
                ).concat(" ").concat(self.error_msg.as_str());
                assert(line@ =~= self.spec_status_line());
                line
            },
        }
    }

    /// Marks the command as failed with `msg`, unless it has failed before.
    pub fn failed(&mut self, msg: String)
        ensures
            *final(self) == old(self).spec_failed(msg),
    {
        match self.status {
            CommandStatus::Pending => {
                self.status = CommandStatus::Failed;
                self.error_msg = msg;
            },
            CommandStatus::Failed => {},
        }
    }

    /// The row for this command under the given identifier and times.
    pub fn into_row_with(self, id: i64, created_at: Timestamp, updated_at: Timestamp) -> (row:
        RefRow)
        ensures
            row == self.spec_row(id, created_at, updated_at),
    {
        RefRow {
            id,
            repo_id: 0,
            ref_name: self.ref_name,
            ref_git_id: self.new_id,
            ref_type: self.ref_type,
            default_branch: self.default_branch,
            created_at,
            updated_at,
        }
    }

    /// The row for this command, with a fresh identifier and the current
    /// time: all else is as `spec_row` says.
    pub fn into_row(self) -> (row: RefRow)
        ensures
            row == self.spec_row(row.id, row.created_at, row.updated_at),
    {
        let id = generate_id();
        let created_at = utc_now();
        let updated_at = utc_now();
        self.into_row_with(id, created_at, updated_at)
    }
}

/// A command is a creation exactly when its old hash is all zeros, a
/// deletion when only its new hash is, and an update when neither is.
pub proof fn lemma_command_type_by_sentinel(old_id: Seq<char>, new_id: Seq<char>)
    ensures
        ZERO_ID@ == Seq::new(40, |i: int| '0'),
        spec_command_type(old_id, new_id) == CommandType::Create <==> old_id == ZERO_ID@,
        spec_command_type(old_id, new_id) == CommandType::Delete <==> old_id != ZERO_ID@ && new_id
            == ZERO_ID@,
        spec_command_type(old_id, new_id) == CommandType::Update <==> old_id != ZERO_ID@ && new_id
            != ZERO_ID@,
{
    reveal_strlit("0000000000000000000000000000000000000000");
    assert(ZERO_ID@ =~= Seq::new(40, |i: int| '0'));
}

/// Once a command has failed it stays failed, and keeps its first message.
pub proof fn lemma_failure_is_final(cmd: RefCommand, first: String, second: String)
    ensures
        cmd.spec_failed(first).status == CommandStatus::Failed,
        cmd.spec_failed(first).spec_failed(second) == cmd.spec_failed(first),
        cmd.status == CommandStatus::Pending ==> cmd.spec_failed(first).spec_failed(second).error_msg
            == first,
{
}

} // verus!
