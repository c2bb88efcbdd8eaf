//! Every authorization decision. Each function answers one question and returns `Ok(())` or a
//! refusal.

use vstd::prelude::*;

use crate::entities::{api_key, api_key_sync_permission};
use crate::error::{AppError, AppFault};

verus! {

/// A refusal.
fn forbidden(msg: &str) -> (e: AppError)
    ensures
        e@ == AppFault::Forbidden(msg@),
{
    AppError::Forbidden(msg.to_owned())
}

/// Whether `r` lets the caller through exactly where `allowed` holds, and refuses with `message`
/// everywhere else.
pub open spec fn decides(r: Result<(), AppError>, allowed: bool, message: Seq<char>) -> bool {
    match r {
        Ok(_) => allowed,
        Err(e) => !allowed && e@ == AppFault::Forbidden(message),
    }
}

/// Resource creation takes the Master key or the resource's own creation right.
pub open spec fn may_create(caller: api_key::Model, has_right: bool) -> bool {
    caller.is_master || has_right
}

/// Resource-creation rights are global flags, checked directly against the caller: they are never
/// implied by `can_manage_keys`.
pub fn guard_resource_creation(caller: &api_key::Model, has_right: bool) -> (r: Result<(), AppError>)
    ensures
        decides(
            r,
            may_create(*caller, has_right),
            "missing the resource-creation right for this action"@,
        ),
{
    if caller.is_master || has_right {
        Ok(())
    } else {
        Err(forbidden("missing the resource-creation right for this action"))
    }
}

/// Granting a global right takes the Master key.
pub open spec fn may_elevate(
    caller: api_key::Model,
    wants_can_manage_keys: bool,
    wants_can_manage_sources: bool,
    wants_can_manage_vaults: bool,
) -> bool {
    caller.is_master || !(wants_can_manage_keys || wants_can_manage_sources
        || wants_can_manage_vaults)
}

/// Only the Master key may grant `can_manage_keys`, `can_manage_sources`, or `can_manage_vaults`
/// to any key. A parent key can never mint another parent key or a resource-creation right.
pub fn guard_scope_elevation(
    caller: &api_key::Model,
    wants_can_manage_keys: bool,
    wants_can_manage_sources: bool,
    wants_can_manage_vaults: bool,
) -> (r: Result<(), AppError>)
    ensures
        decides(
            r,
            may_elevate(
                *caller,
                wants_can_manage_keys,
                wants_can_manage_sources,
                wants_can_manage_vaults,
            ),
            "only the Master key may grant can_manage_keys, can_manage_sources, or can_manage_vaults"@,
        ),
{
    if (wants_can_manage_keys || wants_can_manage_sources || wants_can_manage_vaults)
        && !caller.is_master {
        return Err(
            forbidden(
                "only the Master key may grant can_manage_keys, can_manage_sources, or can_manage_vaults",
            ),
        );
    }
    Ok(())
}

/// A permission row that carries the right to manage.
pub open spec fn holds_manage(permission: Option<&api_key_sync_permission::Model>) -> bool {
    permission matches Some(p) && p.can_manage
}

/// A permission row that carries the right to trigger.
pub open spec fn holds_sync(permission: Option<&api_key_sync_permission::Model>) -> bool {
    permission matches Some(p) && p.can_sync
}

/// A permission row that carries the right to view logs.
pub open spec fn holds_view_logs(permission: Option<&api_key_sync_permission::Model>) -> bool {
    permission matches Some(p) && p.can_view_logs
}

/// Managing a resource takes the Master key, or `can_manage_keys` together with a `can_manage`
/// grant on that resource.
pub open spec fn may_manage(
    caller: api_key::Model,
    permission: Option<&api_key_sync_permission::Model>,
) -> bool {
    caller.is_master || (caller.can_manage_keys && holds_manage(permission))
}

/// Managing a specific resource requires both the global `can_manage_keys` and a `can_manage` row
/// for that resource. Neither alone is sufficient. Master bypasses everywhere.
pub fn guard_resource_manage(
    caller: &api_key::Model,
    permission: Option<&api_key_sync_permission::Model>,
) -> (r: Result<(), AppError>)
    ensures
        decides(
            r,
            may_manage(*caller, permission),
            "managing this resource requires can_manage_keys and a can_manage grant on it (RBAC R2)"@,
        ),
{
    if caller.is_master {
        return Ok(());
    }
    let granted = match permission {
        Some(p) => p.can_manage,
        None => false,
    };
    if caller.can_manage_keys && granted {
        Ok(())
    } else {
        Err(
            forbidden(
                "managing this resource requires can_manage_keys and a can_manage grant on it (RBAC R2)",
            ),
        )
    }
}

/// Deleting or renaming a resource takes the Master key or the resource's owner.
pub open spec fn may_end(caller: api_key::Model, owner_key_id: Option<u128>) -> bool {
    caller.is_master || owner_key_id == Some(caller.id)
}

/// Lifecycle actions (delete, rename) are restricted to Master and the resource's owner. Holding
/// manage rights or any operational verb confers no lifecycle authority.
pub fn guard_resource_lifecycle(caller: &api_key::Model, owner_key_id: Option<u128>) -> (r: Result<
    (),
    AppError,
>)
    ensures
        decides(
            r,
            may_end(*caller, owner_key_id),
            "only the Master key or this resource's owner may delete or rename it (RBAC §3)"@,
        ),
{
    let owns = match owner_key_id {
        Some(owner) => owner == caller.id,
        None => false,
    };
    if caller.is_master || owns {
        Ok(())
    } else {
        Err(
            forbidden(
                "only the Master key or this resource's owner may delete or rename it (RBAC §3)",
            ),
        )
    }
}

/// Triggering a resource takes the Master key or a `can_sync` grant on it.
pub open spec fn may_sync(
    caller: api_key::Model,
    permission: Option<&api_key_sync_permission::Model>,
) -> bool {
    caller.is_master || holds_sync(permission)
}

/// Gate for manual triggers. Absence of a permission row is a refusal, not an implicit grant.
pub fn guard_can_sync(
    caller: &api_key::Model,
    permission: Option<&api_key_sync_permission::Model>,
) -> (r: Result<(), AppError>)
    ensures
        decides(
            r,
            may_sync(*caller, permission),
            "missing can_sync permission on this resource"@,
        ),
{
    let granted = match permission {
        Some(p) => p.can_sync,
        None => false,
    };
    if caller.is_master || granted {
        Ok(())
    } else {
        Err(forbidden("missing can_sync permission on this resource"))
    }
}

/// Visibility gate for a resource's execution logs. No permission row means no visibility, except
/// for Master.
pub fn guard_can_view_logs(
    caller: &api_key::Model,
    permission: Option<&api_key_sync_permission::Model>,
) -> (b: bool)
    ensures
        b == (caller.is_master || holds_view_logs(permission)),
{
    let granted = match permission {
        Some(p) => p.can_view_logs,
        None => false,
    };
    caller.is_master || granted
}

/// What stands against a delegated grant, if anything.
pub open spec fn grant_refusal(
    caller: api_key::Model,
    permission: Option<&api_key_sync_permission::Model>,
    grant_can_sync: bool,
    grant_can_manage: bool,
    grant_can_view_logs: bool,
) -> Option<Seq<char>> {
    if caller.is_master {
        None
    } else if !may_manage(caller, permission) {
        Some(
            "managing this resource requires can_manage_keys and a can_manage grant on it (RBAC R2)"@,
        )
    } else if grant_can_sync && !holds_sync(permission) {
        Some("cannot grant can_sync without holding it yourself on this resource (RBAC R1)"@)
    } else if grant_can_view_logs && !holds_view_logs(permission) {
        Some("cannot grant can_view_logs without holding it yourself on this resource (RBAC R1)"@)
    } else if grant_can_manage && !holds_manage(permission) {
        Some("cannot grant can_manage without holding it yourself on this resource (RBAC R1)"@)
    } else {
        None
    }
}

/// A caller may only grant a verb it currently holds itself on the same resource, and granting
/// anything at all first requires the right to manage it. Master bypasses.
pub fn guard_delegated_grant(
    caller: &api_key::Model,
    caller_permission: Option<&api_key_sync_permission::Model>,
    grant_can_sync: bool,
    grant_can_manage: bool,
    grant_can_view_logs: bool,
) -> (r: Result<(), AppError>)
    ensures
        match grant_refusal(
            *caller,
            caller_permission,
            grant_can_sync,
            grant_can_manage,
            grant_can_view_logs,
        ) {
            None => r is Ok,
            Some(message) => r is Err && r->Err_0@ == AppFault::Forbidden(message),
        },
{
    if caller.is_master {
        return Ok(());
    }
    match guard_resource_manage(caller, caller_permission) {
        Ok(_) => {},
        Err(e) => return Err(e),
    }
    let (sync, view_logs, manage) = match caller_permission {
        Some(p) => (p.can_sync, p.can_view_logs, p.can_manage),
        None => (false, false, false),
    };
    if grant_can_sync && !sync {
        return Err(
            forbidden(
                "cannot grant can_sync without holding it yourself on this resource (RBAC R1)",
            ),
        );
    }
    if grant_can_view_logs && !view_logs {
        return Err(
            forbidden(
                "cannot grant can_view_logs without holding it yourself on this resource (RBAC R1)",
            ),
        );
    }
    if grant_can_manage && !manage {
        return Err(
            forbidden(
                "cannot grant can_manage without holding it yourself on this resource (RBAC R1)",
            ),
        );
    }
    Ok(())
}

/// Revocation is never escalation: reducing or removing a permission requires only the right to
/// manage the resource. The revoker need not hold the verb being removed.
pub fn guard_revocation(
    caller: &api_key::Model,
    caller_permission: Option<&api_key_sync_permission::Model>,
) -> (r: Result<(), AppError>)
    ensures
        decides(
            r,
            may_manage(*caller, caller_permission),
            "managing this resource requires can_manage_keys and a can_manage grant on it (RBAC R2)"@,
        ),
{
    guard_resource_manage(caller, caller_permission)
}

/// The Master key is immutable through the API except for its own `bound_ips`.
pub fn guard_master_immutable(target_is_master: bool, changing_non_bound_ips_field: bool) -> (r:
    Result<(), AppError>)
    ensures
        decides(
            r,
            !(target_is_master && changing_non_bound_ips_field),
            "the Master key is immutable through the API except for its own bound_ips (RBAC §5)"@,
        ),
{
    if target_is_master && changing_non_bound_ips_field {
        Err(
            forbidden(
                "the Master key is immutable through the API except for its own bound_ips (RBAC §5)",
            ),
        )
    } else {
        Ok(())
    }
}

/// Rotation returns a fresh plaintext credential, so it is refused on the Master key for every
/// caller, the Master itself included.
pub fn guard_rotation_allowed(target_is_master: bool) -> (r: Result<(), AppError>)
    ensures
        decides(
            r,
            !target_is_master,
            "the Master key's credentials cannot be rotated through the API (RBAC §5)"@,
        ),
{
    if target_is_master {
        Err(forbidden("the Master key's credentials cannot be rotated through the API (RBAC §5)"))
    } else {
        Ok(())
    }
}

/// Managing other keys takes the Master key or `can_manage_keys`.
pub open spec fn may_manage_keys(caller: api_key::Model) -> bool {
    caller.is_master || caller.can_manage_keys
}

/// Creating, updating or deleting other keys, or managing their permissions, requires
/// `can_manage_keys`. Master bypasses.
pub fn guard_manage_keys(caller: &api_key::Model) -> (r: Result<(), AppError>)
    ensures
        decides(r, may_manage_keys(*caller), "missing can_manage_keys"@),
{
    if caller.is_master || caller.can_manage_keys {
        Ok(())
    } else {
        Err(forbidden("missing can_manage_keys"))
    }
}

/// Delegation never amplifies: a key other than the Master that may make a grant holds every verb
/// in it, and may manage the resource.
pub proof fn law_delegation_never_amplifies(
    caller: api_key::Model,
    permission: Option<&api_key_sync_permission::Model>,
    grant_can_sync: bool,
    grant_can_manage: bool,
    grant_can_view_logs: bool,
)
    requires
        !caller.is_master,
        grant_refusal(
            caller,
            permission,
            grant_can_sync,
            grant_can_manage,
            grant_can_view_logs,
        ) is None,
    ensures
        grant_can_sync ==> holds_sync(permission),
        grant_can_manage ==> holds_manage(permission),
        grant_can_view_logs ==> holds_view_logs(permission),
        may_manage(caller, permission),
{
}

/// Whoever may grant a permission may also revoke it, and no verb is needed to revoke.
pub proof fn law_revocation_is_weaker_than_granting(
    caller: api_key::Model,
    permission: Option<&api_key_sync_permission::Model>,
    grant_can_sync: bool,
    grant_can_manage: bool,
    grant_can_view_logs: bool,
)
    requires
        grant_refusal(
            caller,
            permission,
            grant_can_sync,
            grant_can_manage,
            grant_can_view_logs,
        ) is None,
    ensures
        may_manage(caller, permission),
{
}

/// `can_manage_keys` is no bypass: without a grant on a resource, no key but the Master can manage
/// it, trigger it or delegate it.
pub proof fn law_no_grant_no_access(caller: api_key::Model)
    requires
        !caller.is_master,
    ensures
        !may_manage(caller, None),
        !may_sync(caller, None),
        grant_refusal(caller, None, false, false, false) is Some,
{
}

/// The Master key passes every gate but those that protect the Master key itself.
pub proof fn law_master_bypasses(
    caller: api_key::Model,
    permission: Option<&api_key_sync_permission::Model>,
    owner_key_id: Option<u128>,
    a: bool,
    b: bool,
    c: bool,
)
    requires
        caller.is_master,
    ensures
        may_create(caller, a),
        may_elevate(caller, a, b, c),
        may_manage(caller, permission),
        may_end(caller, owner_key_id),
        may_sync(caller, permission),
        may_manage_keys(caller),
        grant_refusal(caller, permission, a, b, c) is None,
{
}

/// Who may do what, in terms of the caller's own marks and the permission row it holds on the
/// resource: each gate opens for exactly those and for nobody else.
pub proof fn law_gates(
    caller: api_key::Model,
    permission: Option<&api_key_sync_permission::Model>,
    owner_key_id: Option<u128>,
    has_right: bool,
    keys: bool,
    sources: bool,
    vaults: bool,
)
    ensures
        may_create(caller, has_right) <==> caller.is_master || has_right,
        may_elevate(caller, keys, sources, vaults) <==> caller.is_master || (!keys && !sources
            && !vaults),
        may_manage(caller, permission) <==> caller.is_master || (caller.can_manage_keys
            && permission is Some && permission->0.can_manage),
        may_end(caller, owner_key_id) <==> caller.is_master || (owner_key_id is Some
            && owner_key_id->0 == caller.id),
        may_sync(caller, permission) <==> caller.is_master || (permission is Some
            && permission->0.can_sync),
        may_manage_keys(caller) <==> caller.is_master || caller.can_manage_keys,
        holds_view_logs(permission) <==> permission is Some && permission->0.can_view_logs,
        holds_sync(permission) <==> permission is Some && permission->0.can_sync,
        holds_manage(permission) <==> permission is Some && permission->0.can_manage,
{
}

/// A gate answers with one of two things: it lets the caller through, or it refuses as forbidden.
pub proof fn law_gates_open_or_refuse(r: Result<(), AppError>, allowed: bool, message: Seq<char>)
    requires
        decides(r, allowed, message),
    ensures
        r is Ok <==> allowed,
        r matches Err(e) ==> e@ == AppFault::Forbidden(message),
{
}

/// A delegated grant is accepted exactly from the Master, and from a caller that may manage the
/// resource and holds each verb that it grants.
pub proof fn law_who_may_grant(
    caller: api_key::Model,
    permission: Option<&api_key_sync_permission::Model>,
    sync: bool,
    manage: bool,
    view_logs: bool,
)
    ensures
        grant_refusal(caller, permission, sync, manage, view_logs) is None <==> caller.is_master || (
        caller.can_manage_keys && permission is Some && permission->0.can_manage && (sync
            ==> permission->0.can_sync) && (view_logs ==> permission->0.can_view_logs)),
{
}

/// A grant is refused for want of the right to manage first, and then for the first verb that the
/// caller does not hold, which is named.
pub proof fn law_grant_refusals_name_the_verb(
    caller: api_key::Model,
    permission: Option<&api_key_sync_permission::Model>,
    can_sync: bool,
    can_manage: bool,
    can_view_logs: bool,
)
    requires
        !caller.is_master,
    ensures
        ({
            let refusal = grant_refusal(caller, permission, can_sync, can_manage, can_view_logs);
            let manages = caller.can_manage_keys && permission is Some && permission->0.can_manage;
            &&& !manages ==> refusal == Some(
                "managing this resource requires can_manage_keys and a can_manage grant on it (RBAC R2)"@,
            )
            &&& manages && can_sync && !permission->0.can_sync ==> refusal == Some(
                "cannot grant can_sync without holding it yourself on this resource (RBAC R1)"@,
            )
            &&& manages && (can_sync ==> permission->0.can_sync) && can_view_logs
                && !permission->0.can_view_logs ==> refusal == Some(
                "cannot grant can_view_logs without holding it yourself on this resource (RBAC R1)"@,
            )
            &&& manages && (can_sync ==> permission->0.can_sync) && (can_view_logs
                ==> permission->0.can_view_logs) ==> refusal is None
        }),
{
}

} // verus!
