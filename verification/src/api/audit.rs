//! The security audit trail. It spans every domain, so only the Master reads it.

use vstd::prelude::*;

use crate::api::support;
use crate::api::sync_logs;
use crate::entities::api_key;
use crate::error::{AppError, AppFault};

verus! {

/// Which rows of the trail are asked for.
#[derive(Debug)]
pub struct AuditLogQuery {
    /// Only this action.
    pub action: Option<String>,
    /// Most rows to return.
    pub limit: Option<u64>,
    /// Rows to skip.
    pub offset: Option<u64>,
}

/// Whether the caller may read the trail. Gives how many rows to return, and how many to skip.
pub fn list_audit_logs(caller: &api_key::Model, query: &AuditLogQuery) -> (r: Result<
    (u64, u64),
    AppError,
>)
    ensures
        if caller.is_master {
            r == Ok::<(u64, u64), AppError>(
                (sync_logs::page_rows(query.limit), support::or_kept(query.offset, 0)),
            )
        } else {
            r is Err && r->Err_0@ == AppFault::Forbidden(
                "audit logs are visible to the Master key only"@,
            )
        },
{
    if !caller.is_master {
        return Err(AppError::Forbidden("audit logs are visible to the Master key only".to_owned()));
    }
    Ok(sync_logs::page(query.limit, query.offset))
}

/// What the trail calls an action.
#[derive(Clone, Copy, Debug, PartialEq, Eq, Structural)]
pub enum AuditAction {
    /// A key was created.
    KeyCreate,
    /// A key was changed.
    KeyUpdate,
    /// A key was deleted, with its subtree.
    KeyDelete,
    /// A key's credential was replaced.
    KeyRotate,
    /// A key's signing secret was replaced.
    KeyRotateSecret,
    /// A permission was granted or changed.
    PermissionGrant,
    /// A permission was revoked.
    PermissionRevoke,
    /// An external source was created.
    SourceCreate,
    /// An external source was changed.
    SourceUpdate,
    /// An external source was deleted.
    SourceDelete,
    /// A run of an external source was asked for.
    SourceTrigger,
    /// A sync task was created.
    SyncTaskCreate,
    /// A sync task was changed.
    SyncTaskUpdate,
    /// A sync task was deleted.
    SyncTaskDelete,
    /// A run of a sync task was asked for.
    SyncTaskTrigger,
    /// A vault endpoint was created.
    VaultCreate,
    /// A vault endpoint was changed.
    VaultUpdate,
    /// A vault endpoint was deleted.
    VaultDelete,
}

impl AuditAction {
    /// How the action is written.
    pub open spec fn text(self) -> Seq<char> {
        match self {
            AuditAction::KeyCreate => "KEY_CREATE"@,
            AuditAction::KeyUpdate => "KEY_UPDATE"@,
            AuditAction::KeyDelete => "KEY_DELETE"@,
            AuditAction::KeyRotate => "KEY_ROTATE"@,
            AuditAction::KeyRotateSecret => "KEY_ROTATE_SECRET"@,
            AuditAction::PermissionGrant => "PERMISSION_GRANT"@,
            AuditAction::PermissionRevoke => "PERMISSION_REVOKE"@,
            AuditAction::SourceCreate => "SOURCE_CREATE"@,
            AuditAction::SourceUpdate => "SOURCE_UPDATE"@,
            AuditAction::SourceDelete => "SOURCE_DELETE"@,
            AuditAction::SourceTrigger => "SOURCE_TRIGGER"@,
            AuditAction::SyncTaskCreate => "SYNC_TASK_CREATE"@,
            AuditAction::SyncTaskUpdate => "SYNC_TASK_UPDATE"@,
            AuditAction::SyncTaskDelete => "SYNC_TASK_DELETE"@,
            AuditAction::SyncTaskTrigger => "SYNC_TASK_TRIGGER"@,
            AuditAction::VaultCreate => "VAULT_CREATE"@,
            AuditAction::VaultUpdate => "VAULT_UPDATE"@,
            AuditAction::VaultDelete => "VAULT_DELETE"@,
        }
    }

    /// How the action is written.
    pub fn as_str(self) -> (s: &'static str)
        ensures
            s@ == self.text(),
    {
        match self {
            AuditAction::KeyCreate => "KEY_CREATE",
            AuditAction::KeyUpdate => "KEY_UPDATE",
            AuditAction::KeyDelete => "KEY_DELETE",
            AuditAction::KeyRotate => "KEY_ROTATE",
            AuditAction::KeyRotateSecret => "KEY_ROTATE_SECRET",
            AuditAction::PermissionGrant => "PERMISSION_GRANT",
            AuditAction::PermissionRevoke => "PERMISSION_REVOKE",
            AuditAction::SourceCreate => "SOURCE_CREATE",
            AuditAction::SourceUpdate => "SOURCE_UPDATE",
            AuditAction::SourceDelete => "SOURCE_DELETE",
            AuditAction::SourceTrigger => "SOURCE_TRIGGER",
            AuditAction::SyncTaskCreate => "SYNC_TASK_CREATE",
            AuditAction::SyncTaskUpdate => "SYNC_TASK_UPDATE",
            AuditAction::SyncTaskDelete => "SYNC_TASK_DELETE",
            AuditAction::SyncTaskTrigger => "SYNC_TASK_TRIGGER",
            AuditAction::VaultCreate => "VAULT_CREATE",
            AuditAction::VaultUpdate => "VAULT_UPDATE",
            AuditAction::VaultDelete => "VAULT_DELETE",
        }
    }
}

/// What the trail calls the actions.
pub proof fn law_what_actions_are_called()
    ensures
        AuditAction::KeyCreate.text() == "KEY_CREATE"@,
        AuditAction::KeyUpdate.text() == "KEY_UPDATE"@,
        AuditAction::KeyDelete.text() == "KEY_DELETE"@,
        AuditAction::KeyRotate.text() == "KEY_ROTATE"@,
        AuditAction::KeyRotateSecret.text() == "KEY_ROTATE_SECRET"@,
        AuditAction::PermissionGrant.text() == "PERMISSION_GRANT"@,
        AuditAction::PermissionRevoke.text() == "PERMISSION_REVOKE"@,
        AuditAction::SourceCreate.text() == "SOURCE_CREATE"@,
        AuditAction::SourceUpdate.text() == "SOURCE_UPDATE"@,
        AuditAction::SourceDelete.text() == "SOURCE_DELETE"@,
        AuditAction::SourceTrigger.text() == "SOURCE_TRIGGER"@,
        AuditAction::SyncTaskCreate.text() == "SYNC_TASK_CREATE"@,
        AuditAction::SyncTaskUpdate.text() == "SYNC_TASK_UPDATE"@,
        AuditAction::SyncTaskDelete.text() == "SYNC_TASK_DELETE"@,
        AuditAction::SyncTaskTrigger.text() == "SYNC_TASK_TRIGGER"@,
        AuditAction::VaultCreate.text() == "VAULT_CREATE"@,
        AuditAction::VaultUpdate.text() == "VAULT_UPDATE"@,
        AuditAction::VaultDelete.text() == "VAULT_DELETE"@,
{
}

/// No two actions are called the same, so that the trail tells them apart.
pub proof fn law_actions_are_told_apart(a: AuditAction, b: AuditAction)
    requires
        a.text() == b.text(),
    ensures
        a == b,
{
    reveal_strlit("KEY_CREATE");
    reveal_strlit("KEY_UPDATE");
    reveal_strlit("KEY_DELETE");
    reveal_strlit("KEY_ROTATE");
    reveal_strlit("KEY_ROTATE_SECRET");
    reveal_strlit("PERMISSION_GRANT");
    reveal_strlit("PERMISSION_REVOKE");
    reveal_strlit("SOURCE_CREATE");
    reveal_strlit("SOURCE_UPDATE");
    reveal_strlit("SOURCE_DELETE");
    reveal_strlit("SOURCE_TRIGGER");
    reveal_strlit("SYNC_TASK_CREATE");
    reveal_strlit("SYNC_TASK_UPDATE");
    reveal_strlit("SYNC_TASK_DELETE");
    reveal_strlit("SYNC_TASK_TRIGGER");
    reveal_strlit("VAULT_CREATE");
    reveal_strlit("VAULT_UPDATE");
    reveal_strlit("VAULT_DELETE");
    let s = a.text();
    let t = b.text();
    assert(s.len() == t.len());
    assert(s[0] == t[0] && s[1] == t[1] && s[4] == t[4] && s[6] == t[6] && s[7] == t[7]);
    if s.len() > 10 {
        assert(s[10] == t[10]);
    }
    if s.len() > 11 {
        assert(s[11] == t[11]);
    }
}

} // verus!
