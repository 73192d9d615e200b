//! RBAC decision engine.

use crate::auth::model::{GlobalRole, MemoryPermission, Permission, SpaceRole, SpaceVisibility};
use crate::error::AppError;
use crate::memory::model::Visibility;
use crate::text::str_eq;
use vstd::prelude::*;

verus! {

/// Context required to evaluate permissions.
#[derive(Debug, Clone)]
pub struct AuthContext {
    pub user_id: String,
    pub global_role: GlobalRole,
    pub space_id: String,
    pub space_role: Option<SpaceRole>,
}

/// RBAC engine.
pub struct RbacEngine;

/// Permissions a global role grants everywhere.
pub open spec fn global_grants(role: GlobalRole, p: Permission) -> bool {
    match role {
        GlobalRole::Admin => true,
        GlobalRole::Owner => p != Permission::UserManage,
        GlobalRole::Editor => p == Permission::SpaceRead || p == Permission::SpaceWrite || p
            == Permission::MemoryRead || p == Permission::MemoryWrite,
        GlobalRole::Viewer => p == Permission::SpaceRead || p == Permission::MemoryRead,
    }
}

/// Permissions a space role grants inside its space.
pub open spec fn space_grants(role: SpaceRole, p: Permission) -> bool {
    match role {
        SpaceRole::Owner => true,
        SpaceRole::Editor => p == Permission::SpaceRead || p == Permission::SpaceWrite || p
            == Permission::MemoryRead || p == Permission::MemoryWrite || p == Permission::AgentWrite
            || p == Permission::ApiKeyManage,
        SpaceRole::Viewer => p == Permission::SpaceRead || p == Permission::MemoryRead,
    }
}

/// An actor holds a permission when its global role grants it, or else its
/// space role does.
pub open spec fn spec_has_permission(
    global_role: GlobalRole,
    space_role: Option<SpaceRole>,
    p: Permission,
) -> bool {
    global_grants(global_role, p) || (space_role matches Some(r) && space_grants(r, p))
}

/// The `Debug` name of a permission.
pub open spec fn permission_name(p: Permission) -> Seq<char> {
    match p {
        Permission::SpaceRead => "SpaceRead"@,
        Permission::SpaceWrite => "SpaceWrite"@,
        Permission::SpaceAdmin => "SpaceAdmin"@,
        Permission::MemoryRead => "MemoryRead"@,
        Permission::MemoryWrite => "MemoryWrite"@,
        Permission::MemoryAdmin => "MemoryAdmin"@,
        Permission::AgentWrite => "AgentWrite"@,
        Permission::ApiKeyManage => "ApiKeyManage"@,
        Permission::UserManage => "UserManage"@,
    }
}

/// Whether an explicit grant gives `user_id` read access.
pub open spec fn grants_read(p: MemoryPermission, user_id: Seq<char>) -> bool {
    p.user_id@ == user_id && p.permission@ == "read"@
}

/// Whether the actor may read a memory, from the memory's and the space's
/// visibility and the explicit grants on the memory.
pub open spec fn spec_can_read_memory(
    ctx: AuthContext,
    author_id: Option<Seq<char>>,
    memory_visibility: Visibility,
    space_visibility: SpaceVisibility,
    explicit: Seq<MemoryPermission>,
) -> bool {
    if ctx.global_role == GlobalRole::Admin {
        true
    } else {
        let is_member = ctx.space_role is Some;
        let is_owner = ctx.space_role == Some(SpaceRole::Owner);
        let is_author = author_id == Some(ctx.user_id@);
        let space_readable = match space_visibility {
            SpaceVisibility::Public => true,
            _ => is_member,
        };
        match memory_visibility {
            Visibility::Inherit => space_readable,
            Visibility::SpaceOnly => is_member,
            Visibility::Private => is_author || is_owner,
            Visibility::Selected => is_owner || exists|i: int|
                0 <= i < explicit.len() && grants_read(#[trigger] explicit[i], ctx.user_id@),
        }
    }
}

/// The `Debug` rendering of a permission.
fn permission_debug(p: Permission) -> (res: &'static str)
    ensures
        res@ == permission_name(p),
{
    match p {
        Permission::SpaceRead => "SpaceRead",
        Permission::SpaceWrite => "SpaceWrite",
        Permission::SpaceAdmin => "SpaceAdmin",
        Permission::MemoryRead => "MemoryRead",
        Permission::MemoryWrite => "MemoryWrite",
        Permission::MemoryAdmin => "MemoryAdmin",
        Permission::AgentWrite => "AgentWrite",
        Permission::ApiKeyManage => "ApiKeyManage",
        Permission::UserManage => "UserManage",
    }
}

impl RbacEngine {
    /// Create a new RBAC engine.
    pub fn new() -> Self {
        RbacEngine
    }

    /// Check whether the actor has the requested permission in the given
    /// space; refuse with `Forbidden` otherwise.
    pub fn check(&self, ctx: &AuthContext, permission: Permission) -> (res: Result<(), AppError>)
        ensures
            res is Ok <==> spec_has_permission(ctx.global_role, ctx.space_role, permission),
            res matches Err(e) ==> e matches AppError::Forbidden(m) && m@ == "user "@ + ctx.user_id@
                + " lacks permission "@ + permission_name(permission),
    {
        if Self::has_permission(ctx.global_role, ctx.space_role, &permission) {
            Ok(())
        } else {
            let mut m = String::from_str("user ");
            m.append(ctx.user_id.as_str());
            m.append(" lacks permission ");
            m.append(permission_debug(permission));
            Err(AppError::Forbidden(m))
        }
    }

    /// Determine whether a memory is readable by the actor based on
    /// space / memory visibility and explicit grants.
    pub fn can_read_memory(
        &self,
        ctx: &AuthContext,
        memory_author_id: Option<&str>,
        memory_visibility: Visibility,
        space_visibility: SpaceVisibility,
        explicit_permissions: &[MemoryPermission],
    ) -> (res: bool)
        ensures
            res == spec_can_read_memory(
                *ctx,
                match memory_author_id {
                    Some(a) => Some(a@),
                    None => None,
                },
                memory_visibility,
                space_visibility,
                explicit_permissions@,
            ),
    {
        if ctx.global_role == GlobalRole::Admin {
            return true;
        }
        assert(ctx.global_role != GlobalRole::Admin);
        let is_space_member = ctx.space_role.is_some();
        let is_space_owner = match ctx.space_role {
            Some(SpaceRole::Owner) => true,
            _ => false,
        };
        let is_author = match memory_author_id {
            Some(id) => str_eq(id, ctx.user_id.as_str()),
            None => false,
        };
        let space_readable = match space_visibility {
            SpaceVisibility::Public => true,
            SpaceVisibility::Team | SpaceVisibility::Private => is_space_member,
        };
        match memory_visibility {
            Visibility::Inherit => space_readable,
            Visibility::SpaceOnly => is_space_member,
            Visibility::Private => is_author || is_space_owner,
            Visibility::Selected => {
                if is_space_owner {
                    return true;
                }
                let mut i: usize = 0;
                while i < explicit_permissions.len()
                    invariant
                        i <= explicit_permissions@.len(),
                        memory_visibility == Visibility::Selected,
                        ctx.global_role != GlobalRole::Admin,
                        ctx.space_role != Some(SpaceRole::Owner),
                        forall|k: int|
                            0 <= k < i ==> !grants_read(
                                #[trigger] explicit_permissions@[k],
                                ctx.user_id@,
                            ),
                    decreases explicit_permissions@.len() - i,
                {
                    let p = &explicit_permissions[i];
                    if str_eq(p.user_id.as_str(), ctx.user_id.as_str()) && str_eq(
                        p.permission.as_str(),
                        "read",
                    ) {
                        assert(grants_read(explicit_permissions@[i as int], ctx.user_id@));
                        return true;
                    }
                    i = i + 1;
                }
                false
            },
        }
    }

    /// Whether a global role, with an optional space role as fallback,
    /// holds a permission.
    pub fn has_permission(
        global_role: GlobalRole,
        space_role: Option<SpaceRole>,
        permission: &Permission,
    ) -> (res: bool)
        ensures
            res == spec_has_permission(global_role, space_role, *permission),
    {
        let p = *permission;
        let global_ok = match global_role {
            GlobalRole::Admin => true,
            GlobalRole::Owner => p != Permission::UserManage,
            GlobalRole::Editor => p == Permission::SpaceRead || p == Permission::SpaceWrite || p
                == Permission::MemoryRead || p == Permission::MemoryWrite,
            GlobalRole::Viewer => p == Permission::SpaceRead || p == Permission::MemoryRead,
        };
        if global_ok {
            return true;
        }
        match space_role {
            Some(role) => match role {
                SpaceRole::Owner => true,
                SpaceRole::Editor => p == Permission::SpaceRead || p == Permission::SpaceWrite || p
                    == Permission::MemoryRead || p == Permission::MemoryWrite || p
                    == Permission::AgentWrite || p == Permission::ApiKeyManage,
                SpaceRole::Viewer => p == Permission::SpaceRead || p == Permission::MemoryRead,
            },
            None => false,
        }
    }
}

impl Default for RbacEngine {
    fn default() -> Self {
        Self::new()
    }
}

/// Rank of a global role: viewer < editor < owner < admin.
pub open spec fn global_rank(r: GlobalRole) -> int {
    match r {
        GlobalRole::Viewer => 0,
        GlobalRole::Editor => 1,
        GlobalRole::Owner => 2,
        GlobalRole::Admin => 3,
    }
}

/// Rank of a space role: viewer < editor < owner.
pub open spec fn space_rank(r: SpaceRole) -> int {
    match r {
        SpaceRole::Viewer => 0,
        SpaceRole::Editor => 1,
        SpaceRole::Owner => 2,
    }
}

/// Role hierarchy: a higher global role, or a higher (or newly granted)
/// space role, never loses a permission that a lower one holds.
pub proof fn lemma_permissions_monotone(
    g1: GlobalRole,
    g2: GlobalRole,
    s1: Option<SpaceRole>,
    s2: Option<SpaceRole>,
    p: Permission,
)
    requires
        global_rank(g1) <= global_rank(g2),
        s1 matches Some(r1) ==> (s2 matches Some(r2) && space_rank(r1) <= space_rank(r2)),
        spec_has_permission(g1, s1, p),
    ensures
        spec_has_permission(g2, s2, p),
{
}

/// Global admins and space owners hold every permission; every role may
/// read spaces and memories.
pub proof fn lemma_admin_and_owner_hold_all(g: GlobalRole, s: Option<SpaceRole>, p: Permission)
    ensures
        spec_has_permission(GlobalRole::Admin, s, p),
        spec_has_permission(g, Some(SpaceRole::Owner), p),
        spec_has_permission(g, s, Permission::SpaceRead),
        spec_has_permission(g, s, Permission::MemoryRead),
{
}

/// Only global admins hold the user-management permission.
pub proof fn lemma_user_manage_admin_only(g: GlobalRole, s: Option<SpaceRole>)
    requires
        g != GlobalRole::Admin,
        s != Some(SpaceRole::Owner),
    ensures
        !spec_has_permission(g, s, Permission::UserManage),
{
}

/// Global admins read every memory; space owners read every memory of
/// their space; nothing but visibility `Inherit` of a public space lets a
/// non-member read.
pub proof fn lemma_read_access(
    ctx: AuthContext,
    author_id: Option<Seq<char>>,
    mv: Visibility,
    sv: SpaceVisibility,
    explicit: Seq<MemoryPermission>,
)
    ensures
        ctx.global_role == GlobalRole::Admin ==> spec_can_read_memory(ctx, author_id, mv, sv, explicit),
        ctx.space_role == Some(SpaceRole::Owner) ==> spec_can_read_memory(
            ctx,
            author_id,
            mv,
            sv,
            explicit,
        ),
        (ctx.global_role != GlobalRole::Admin && ctx.space_role is None && author_id != Some(
            ctx.user_id@,
        ) && spec_can_read_memory(ctx, author_id, mv, sv, explicit)) ==> ((mv == Visibility::Inherit
            && sv == SpaceVisibility::Public) || (mv == Visibility::Selected && exists|i: int|
            0 <= i < explicit.len() && grants_read(#[trigger] explicit[i], ctx.user_id@))),
{
}

/// The role table. With no space role, a global viewer reads spaces and
/// memories; an editor also writes them; an owner holds everything but
/// user management; an admin holds everything. A space viewer adds reading,
/// a space editor adds reading and writing spaces and memories, agent
/// writes and API-key management, and a space owner adds everything;
/// a space role never takes away what the global role grants.
pub proof fn lemma_permission_table(g: GlobalRole, p: Permission)
    ensures
        spec_has_permission(GlobalRole::Viewer, None, p) <==> (p == Permission::SpaceRead || p
            == Permission::MemoryRead),
        spec_has_permission(GlobalRole::Editor, None, p) <==> (p == Permission::SpaceRead || p
            == Permission::SpaceWrite || p == Permission::MemoryRead || p == Permission::MemoryWrite),
        spec_has_permission(GlobalRole::Owner, None, p) <==> p != Permission::UserManage,
        spec_has_permission(GlobalRole::Admin, None, p),
        spec_has_permission(GlobalRole::Viewer, Some(SpaceRole::Viewer), p) <==> (p
            == Permission::SpaceRead || p == Permission::MemoryRead),
        spec_has_permission(GlobalRole::Viewer, Some(SpaceRole::Editor), p) <==> (p
            == Permission::SpaceRead || p == Permission::SpaceWrite || p == Permission::MemoryRead
            || p == Permission::MemoryWrite || p == Permission::AgentWrite || p
            == Permission::ApiKeyManage),
        spec_has_permission(g, Some(SpaceRole::Owner), p),
        spec_has_permission(g, None, p) ==> spec_has_permission(g, Some(SpaceRole::Viewer), p),
        spec_has_permission(g, None, p) ==> spec_has_permission(g, Some(SpaceRole::Editor), p),
{
}

/// A space editor, whatever its global role, reads and writes the space and
/// its memories, writes as an agent and manages API keys.
pub proof fn lemma_space_editor_grants(g: GlobalRole)
    ensures
        spec_has_permission(g, Some(SpaceRole::Editor), Permission::SpaceRead),
        spec_has_permission(g, Some(SpaceRole::Editor), Permission::SpaceWrite),
        spec_has_permission(g, Some(SpaceRole::Editor), Permission::MemoryRead),
        spec_has_permission(g, Some(SpaceRole::Editor), Permission::MemoryWrite),
        spec_has_permission(g, Some(SpaceRole::Editor), Permission::AgentWrite),
        spec_has_permission(g, Some(SpaceRole::Editor), Permission::ApiKeyManage),
{
}

/// Who reads a memory, for an actor that is not a global admin: one of
/// visibility `Inherit` anyone in a public space and the members of any
/// other; one of `SpaceOnly` the members; one of `Private` its author and
/// the space owner; one of `Selected` the space owner and the users granted
/// `read` on it. The author of a private memory always reads it.
pub proof fn lemma_read_rules(
    ctx: AuthContext,
    author_id: Option<Seq<char>>,
    mv: Visibility,
    sv: SpaceVisibility,
    explicit: Seq<MemoryPermission>,
)
    ensures
        author_id == Some(ctx.user_id@) && mv == Visibility::Private ==> spec_can_read_memory(
            ctx,
            author_id,
            mv,
            sv,
            explicit,
        ),
        ctx.global_role != GlobalRole::Admin ==> {
            let can = spec_can_read_memory(ctx, author_id, mv, sv, explicit);
            &&& mv == Visibility::Inherit ==> (can <==> (sv == SpaceVisibility::Public
                || ctx.space_role is Some))
            &&& mv == Visibility::SpaceOnly ==> (can <==> ctx.space_role is Some)
            &&& mv == Visibility::Private ==> (can <==> (author_id == Some(ctx.user_id@)
                || ctx.space_role == Some(SpaceRole::Owner)))
            &&& mv == Visibility::Selected ==> (can <==> (ctx.space_role == Some(SpaceRole::Owner)
                || exists|i: int|
                0 <= i < explicit.len() && (#[trigger] explicit[i]).user_id@ == ctx.user_id@
                    && explicit[i].permission@ == "read"@))
        },
{
}

} // verus!
