//! Teams, their roles and members, and what each role permits.

use vstd::prelude::*;
use vstd::string::*;
use crate::clock::{now, Timestamp};
use crate::error::ApiError;
use crate::ids::{fresh_id, Id};

verus! {

/// A team.
#[derive(Debug, Clone, PartialEq, Eq)]
pub struct Team {
    pub id: Id,
    pub name: String,
    pub description: Option<String>,
    pub image_url: Option<String>,
    pub created_at: Timestamp,
    pub updated_at: Timestamp,
}

/// What is given to create a team.
#[derive(Debug, Clone, PartialEq, Eq)]
pub struct NewTeam {
    pub name: String,
    pub description: Option<String>,
    pub image_url: Option<String>,
}

/// What may be changed of a team; an absent field is left as it is.
#[derive(Debug, Clone, PartialEq, Eq)]
pub struct UpdateTeam {
    pub name: Option<String>,
    pub description: Option<String>,
    pub image_url: Option<String>,
}

/// The eight things that a role may permit.
#[derive(Clone, Copy, PartialEq, Eq, Structural, Debug)]
pub struct Capabilities {
    pub can_read: bool,
    pub can_write: bool,
    pub can_manage_privacy: bool,
    pub can_manage_clones: bool,
    pub can_invite_users: bool,
    pub can_remove_users: bool,
    pub can_manage_permissions: bool,
    pub can_manage_team: bool,
}

impl Capabilities {
    /// Everything permitted, or nothing.
    pub open spec fn all(value: bool) -> Capabilities {
        Capabilities {
            can_read: value,
            can_write: value,
            can_manage_privacy: value,
            can_manage_clones: value,
            can_invite_users: value,
            can_remove_users: value,
            can_manage_permissions: value,
            can_manage_team: value,
        }
    }

    /// Reading permitted, and nothing else.
    pub open spec fn read_only() -> Capabilities {
        Capabilities { can_read: true, ..Capabilities::all(false) }
    }

    /// Reading and writing permitted, and nothing else.
    pub open spec fn read_write() -> Capabilities {
        Capabilities { can_read: true, can_write: true, ..Capabilities::all(false) }
    }
}

/// A role of a team.
#[derive(Debug, Clone, PartialEq, Eq)]
pub struct TeamRole {
    pub id: Id,
    pub team_id: Id,
    pub name: String,
    pub can_read: bool,
    pub can_write: bool,
    pub can_manage_privacy: bool,
    pub can_manage_clones: bool,
    pub can_invite_users: bool,
    pub can_remove_users: bool,
    pub can_manage_permissions: bool,
    pub created_at: Timestamp,
    pub can_manage_team: bool,
}

impl TeamRole {
    /// What this role permits.
    pub open spec fn capabilities(self) -> Capabilities {
        Capabilities {
            can_read: self.can_read,
            can_write: self.can_write,
            can_manage_privacy: self.can_manage_privacy,
            can_manage_clones: self.can_manage_clones,
            can_invite_users: self.can_invite_users,
            can_remove_users: self.can_remove_users,
            can_manage_permissions: self.can_manage_permissions,
            can_manage_team: self.can_manage_team,
        }
    }

    /// What this role permits.
    pub fn flags(&self) -> (c: Capabilities)
        ensures
            c == self.capabilities(),
    {
        Capabilities {
            can_read: self.can_read,
            can_write: self.can_write,
            can_manage_privacy: self.can_manage_privacy,
            can_manage_clones: self.can_manage_clones,
            can_invite_users: self.can_invite_users,
            can_remove_users: self.can_remove_users,
            can_manage_permissions: self.can_manage_permissions,
            can_manage_team: self.can_manage_team,
        }
    }

    /// A role that belongs to no team, with the given name and permissions,
    /// made at `created_at` under the two identifiers given.
    pub fn synthetic(id: Id, team_id: Id, name: &str, flags: Capabilities, created_at: Timestamp) -> (r:
        Self)
        ensures
            r.id == id,
            r.team_id == team_id,
            r.name@ == name@,
            r.capabilities() == flags,
            r.created_at == created_at,
    {
        TeamRole {
            id,
            team_id,
            name: String::from_str(name),
            can_read: flags.can_read,
            can_write: flags.can_write,
            can_manage_privacy: flags.can_manage_privacy,
            can_manage_clones: flags.can_manage_clones,
            can_invite_users: flags.can_invite_users,
            can_remove_users: flags.can_remove_users,
            can_manage_permissions: flags.can_manage_permissions,
            created_at,
            can_manage_team: flags.can_manage_team,
        }
    }

    /// The role of someone who may look and do nothing else. Its two
    /// identifiers are drawn at random and it is dated now.
    pub fn get_view_only() -> (r: Self)
        ensures
            r.name@ == "Default Role Name - View Only"@,
            r.capabilities() == Capabilities::read_only(),
    {
        let flags = Capabilities {
            can_read: true,
            can_write: false,
            can_manage_privacy: false,
            can_manage_clones: false,
            can_invite_users: false,
            can_remove_users: false,
            can_manage_permissions: false,
            can_manage_team: false,
        };
        TeamRole::synthetic(fresh_id(), fresh_id(), "Default Role Name - View Only", flags, now())
    }

    /// The role of someone who may do nothing. Its two identifiers are
    /// drawn at random and it is dated now.
    pub fn get_all_false() -> (r: Self)
        ensures
            r.name@ == "Default Role Name - All False"@,
            r.capabilities() == Capabilities::all(false),
    {
        let flags = Capabilities {
            can_read: false,
            can_write: false,
            can_manage_privacy: false,
            can_manage_clones: false,
            can_invite_users: false,
            can_remove_users: false,
            can_manage_permissions: false,
            can_manage_team: false,
        };
        TeamRole::synthetic(fresh_id(), fresh_id(), "Default Role Name - All False", flags, now())
    }
}

/// What is stored to create a role.
#[derive(Debug, Clone, PartialEq, Eq)]
pub struct NewTeamRole {
    pub team_id: Id,
    pub name: String,
    pub can_read: bool,
    pub can_write: bool,
    pub can_manage_privacy: bool,
    pub can_manage_clones: bool,
    pub can_invite_users: bool,
    pub can_remove_users: bool,
    pub can_manage_permissions: bool,
    pub can_manage_team: bool,
}

/// What a client sends to create a role.
#[derive(Debug, Clone, PartialEq, Eq)]
pub struct NewTeamRoleRequest {
    pub name: String,
    pub can_read: bool,
    pub can_write: bool,
    pub can_manage_privacy: bool,
    pub can_manage_clones: bool,
    pub can_invite_users: bool,
    pub can_remove_users: bool,
    pub can_manage_permissions: bool,
    pub can_manage_team: bool,
}

impl NewTeamRoleRequest {
    /// What the requested role permits.
    pub open spec fn capabilities(self) -> Capabilities {
        Capabilities {
            can_read: self.can_read,
            can_write: self.can_write,
            can_manage_privacy: self.can_manage_privacy,
            can_manage_clones: self.can_manage_clones,
            can_invite_users: self.can_invite_users,
            can_remove_users: self.can_remove_users,
            can_manage_permissions: self.can_manage_permissions,
            can_manage_team: self.can_manage_team,
        }
    }
}

impl NewTeamRole {
    /// What this role permits.
    pub open spec fn capabilities(self) -> Capabilities {
        Capabilities {
            can_read: self.can_read,
            can_write: self.can_write,
            can_manage_privacy: self.can_manage_privacy,
            can_manage_clones: self.can_manage_clones,
            can_invite_users: self.can_invite_users,
            can_remove_users: self.can_remove_users,
            can_manage_permissions: self.can_manage_permissions,
            can_manage_team: self.can_manage_team,
        }
    }

    /// The role that a request asks for, as a role of the team `team_id`.
    pub fn from_request(team_id: Id, r: NewTeamRoleRequest) -> (role: Self)
        ensures
            role.team_id == team_id,
            role.name == r.name,
            role.capabilities() == r.capabilities(),
    {
        NewTeamRole {
            team_id,
            name: r.name,
            can_read: r.can_read,
            can_write: r.can_write,
            can_manage_privacy: r.can_manage_privacy,
            can_manage_clones: r.can_manage_clones,
            can_invite_users: r.can_invite_users,
            can_remove_users: r.can_remove_users,
            can_manage_permissions: r.can_manage_permissions,
            can_manage_team: r.can_manage_team,
        }
    }
}

/// What may be changed of a role; an absent field is left as it is.
#[derive(Debug, Clone, PartialEq, Eq)]
pub struct UpdateTeamRole {
    pub id: Id,
    pub name: Option<String>,
    pub can_read: Option<bool>,
    pub can_write: Option<bool>,
    pub can_manage_privacy: Option<bool>,
    pub can_manage_clones: Option<bool>,
    pub can_invite_users: Option<bool>,
    pub can_remove_users: Option<bool>,
    pub can_manage_permissions: Option<bool>,
}

/// What a client sends to change a role, the identifier still as text.
#[derive(Debug, Clone, PartialEq, Eq)]
pub struct UpdateTeamRoleRequest {
    pub id: String,
    pub name: Option<String>,
    pub can_read: Option<bool>,
    pub can_write: Option<bool>,
    pub can_manage_privacy: Option<bool>,
    pub can_manage_clones: Option<bool>,
    pub can_invite_users: Option<bool>,
    pub can_remove_users: Option<bool>,
    pub can_manage_permissions: Option<bool>,
}

/// The membership of one user in one team.
#[derive(Debug, Clone, PartialEq, Eq)]
pub struct TeamMember {
    pub id: Id,
    pub team_id: Id,
    pub user_id: Id,
    pub role_id: Id,
    pub joined_at: Timestamp,
}

/// A membership together with the member's name and address.
#[derive(Debug, Clone, PartialEq, Eq)]
pub struct TeamMemberResponse {
    pub id: Id,
    pub team_id: Id,
    pub user_id: Id,
    pub role_id: Id,
    pub name: String,
    pub email: String,
    pub joined_at: Timestamp,
}

/// What is stored to make a user a member.
#[derive(Clone, Copy, PartialEq, Eq, Structural, Debug)]
pub struct NewTeamMember {
    pub team_id: Id,
    pub user_id: Id,
    pub role_id: Id,
}

/// The two roles that every team starts with, in this order: `Owner`, which
/// permits everything, and `Member`, which permits reading and writing.
pub fn get_default_roles(team_id: &Id) -> (r: Vec<NewTeamRole>)
    ensures
        r@.len() == 2,
        r@[0].team_id == *team_id,
        r@[0].name@ == "Owner"@,
        r@[0].capabilities() == Capabilities::all(true),
        r@[1].team_id == *team_id,
        r@[1].name@ == "Member"@,
        r@[1].capabilities() == Capabilities::read_write(),
{
    let admin_role = NewTeamRole {
        team_id: *team_id,
        name: String::from_str("Owner"),
        can_read: true,
        can_write: true,
        can_manage_privacy: true,
        can_manage_clones: true,
        can_invite_users: true,
        can_remove_users: true,
        can_manage_permissions: true,
        can_manage_team: true,
    };
    let member_role = NewTeamRole {
        team_id: *team_id,
        name: String::from_str("Member"),
        can_read: true,
        can_write: true,
        can_manage_privacy: false,
        can_manage_clones: false,
        can_invite_users: false,
        can_remove_users: false,
        can_manage_permissions: false,
        can_manage_team: false,
    };
    let mut roles: Vec<NewTeamRole> = Vec::new();
    roles.push(admin_role);
    roles.push(member_role);
    roles
}

/// The membership that makes the creator of a team its owner: the creator
/// joins under the first of the roles created, which is `Owner` when both
/// default roles were stored. With fewer than two roles stored there is no
/// such membership.
pub fn founding_member(team_id: Id, creator: Id, created: &Vec<TeamRole>) -> (r: Option<
    NewTeamMember,
>)
    ensures
        r == (if created@.len() == 2 {
            Some(NewTeamMember { team_id, user_id: creator, role_id: created@[0].id })
        } else {
            None
        }),
{
    if created.len() == 2 {
        Some(NewTeamMember { team_id, user_id: creator, role_id: created[0].id })
    } else {
        None
    }
}

/// The membership found for a user, or the refusal that a user who is no
/// member meets: whatever went wrong with the search, the token is called
/// invalid.
pub fn get_team_member(found: Result<(TeamMember, TeamRole), ApiError>) -> (r: Result<
    (TeamMember, TeamRole),
    ApiError,
>)
    ensures
        match found {
            Ok(m) => r == Ok::<(TeamMember, TeamRole), ApiError>(m),
            Err(_) => r == Err::<(TeamMember, TeamRole), ApiError>(
                ApiError::InvalidAuthorizationToken,
            ),
        },
{
    match found {
        Ok(m) => Ok(m),
        Err(_) => Err(ApiError::InvalidAuthorizationToken),
    }
}

/// What a member may ask of a team.
#[derive(Clone, Copy, PartialEq, Eq, Structural, Debug)]
pub enum TeamAction {
    CreateNotebook,
    ListNotebooks,
    UpdateTeam,
    ListRoles,
    CreateRole,
    UpdateRole,
    RemoveMember,
    ListMembers,
    ViewTeam,
    DeleteTeam,
    ViewOwnPermissions,
    InviteMember,
}

/// Whether a role with the permissions `c` may do `action`. Looking at the
/// team, its members and one's own permissions takes membership alone.
pub open spec fn permits(c: Capabilities, action: TeamAction) -> bool {
    match action {
        TeamAction::CreateNotebook => c.can_write,
        TeamAction::ListNotebooks => c.can_read,
        TeamAction::UpdateTeam => c.can_manage_team,
        TeamAction::ListRoles => c.can_manage_team,
        TeamAction::CreateRole => c.can_manage_permissions,
        TeamAction::UpdateRole => c.can_manage_permissions,
        TeamAction::RemoveMember => c.can_remove_users,
        TeamAction::ListMembers => true,
        TeamAction::ViewTeam => true,
        TeamAction::DeleteTeam => c.can_manage_team,
        TeamAction::ViewOwnPermissions => true,
        TeamAction::InviteMember => c.can_invite_users,
    }
}

/// Lets a member do `action` if the member's role permits it; a member
/// whose role does not is told that the token is invalid.
pub fn authorize_team_action(role: &TeamRole, action: TeamAction) -> (r: Result<(), ApiError>)
    ensures
        r == (if permits(role.capabilities(), action) {
            Ok::<(), ApiError>(())
        } else {
            Err::<(), ApiError>(ApiError::InvalidAuthorizationToken)
        }),
{
    let allowed = match action {
        TeamAction::CreateNotebook => role.can_write,
        TeamAction::ListNotebooks => role.can_read,
        TeamAction::UpdateTeam => role.can_manage_team,
        TeamAction::ListRoles => role.can_manage_team,
        TeamAction::CreateRole => role.can_manage_permissions,
        TeamAction::UpdateRole => role.can_manage_permissions,
        TeamAction::RemoveMember => role.can_remove_users,
        TeamAction::ListMembers => true,
        TeamAction::ViewTeam => true,
        TeamAction::DeleteTeam => role.can_manage_team,
        TeamAction::ViewOwnPermissions => true,
        TeamAction::InviteMember => role.can_invite_users,
    };
    if allowed {
        Ok(())
    } else {
        Err(ApiError::InvalidAuthorizationToken)
    }
}

/// The role `Owner` that a team starts with permits every action, and the
/// role `Member` permits creating and listing notebooks and what membership
/// alone permits, and nothing else.
pub proof fn lemma_default_roles(action: TeamAction)
    ensures
        permits(Capabilities::all(true), action),
        permits(Capabilities::read_write(), action) <==> (action == TeamAction::CreateNotebook
            || action == TeamAction::ListNotebooks || action == TeamAction::ListMembers || action
            == TeamAction::ViewTeam || action == TeamAction::ViewOwnPermissions),
        permits(Capabilities::all(false), action) <==> (action == TeamAction::ListMembers || action
            == TeamAction::ViewTeam || action == TeamAction::ViewOwnPermissions),
{
}

} // verus!
