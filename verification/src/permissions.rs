//! What a user may do with a notebook: the role that the user has towards
//! it, whether the user's edits reach the shared document, and whether the
//! document may be stored in the user's name.
//!
//! Each decision comes in two steps where it may need the user's role in
//! the team that owns the notebook: the first step decides what it can and
//! otherwise names the membership to look up; the second decides from what
//! the search gave.

use vstd::prelude::*;
use vstd::string::*;
use crate::clock::now;
use crate::error::ApiError;
use crate::ids::{fresh_id, Id};
use crate::notebook::{Notebook, NotebookPermission};
use crate::team::{Capabilities, TeamRole};

verus! {

/// The role of a user towards a notebook of their own: it permits
/// everything. Its two identifiers are drawn at random and it is dated now.
pub fn get_user_owner_permissions() -> (r: TeamRole)
    ensures
        r.name@ == "Notebook Owner"@,
        r.capabilities() == Capabilities::all(true),
{
    let flags = Capabilities {
        can_read: true,
        can_write: true,
        can_manage_privacy: true,
        can_manage_clones: true,
        can_invite_users: true,
        can_remove_users: true,
        can_manage_permissions: true,
        can_manage_team: true,
    };
    TeamRole::synthetic(fresh_id(), fresh_id(), "Notebook Owner", flags, now())
}

/// The role of someone who is no member: looking is permitted if the
/// notebook is public, and nothing else.
fn outsider_role(is_public: bool) -> (r: TeamRole)
    ensures
        is_outsider_role(is_public, r),
{
    if is_public {
        TeamRole::get_view_only()
    } else {
        TeamRole::get_all_false()
    }
}

/// `r` is the role of someone who is no member of the team of a notebook.
pub open spec fn is_outsider_role(is_public: bool, r: TeamRole) -> bool {
    if is_public {
        r.name@ == "Default Role Name - View Only"@ && r.capabilities()
            == Capabilities::read_only()
    } else {
        r.name@ == "Default Role Name - All False"@ && r.capabilities() == Capabilities::all(
            false,
        )
    }
}

/// `user_id` is the user who owns `notebook`.
pub open spec fn owns(user_id: Option<Id>, notebook: Notebook) -> bool {
    user_id is Some && notebook.user_id == user_id
}

/// The membership that decides: the notebook belongs to a team, and the
/// user, who does not own the notebook, is known.
pub open spec fn membership_needed(user_id: Option<Id>, notebook: Notebook) -> Option<(Id, Id)> {
    if !owns(user_id, notebook) && notebook.team_id is Some && user_id is Some {
        Some((notebook.team_id->0, user_id->0))
    } else {
        None
    }
}

/// The first step of finding a user's role towards a notebook.
#[derive(Debug, Clone, PartialEq, Eq)]
pub enum Resolution {
    /// The role is this one.
    Resolved(TeamRole),
    /// The role is the one that the user has in this team.
    ConsultTeam { team_id: Id, user_id: Id },
}

/// Finds the role of a user towards a notebook, as far as the notebook
/// itself tells it. The owner gets the role that permits everything. Where
/// the notebook belongs to a team and the user is known, the user's role in
/// that team decides. Anyone else may look if the notebook is public and may
/// do nothing otherwise.
pub fn get_user_notebook_permissions(notebook: &Notebook, user_id: Option<Id>) -> (r: Resolution)
    ensures
        owns(user_id, *notebook) ==> (r matches Resolution::Resolved(role) && role.name@
            == "Notebook Owner"@ && role.capabilities() == Capabilities::all(true)),
        !owns(user_id, *notebook) ==> match membership_needed(user_id, *notebook) {
            Some((team, user)) => r == (Resolution::ConsultTeam { team_id: team, user_id: user }),
            None => r matches Resolution::Resolved(role) && is_outsider_role(
                notebook.is_public,
                role,
            ),
        },
{
    match (notebook.user_id, user_id) {
        (Some(owner), Some(user)) => {
            if owner == user {
                return Resolution::Resolved(get_user_owner_permissions());
            }
        },
        _ => {},
    }
    match (notebook.team_id, user_id) {
        (Some(team_id), Some(user_id)) => Resolution::ConsultTeam { team_id, user_id },
        _ => Resolution::Resolved(outsider_role(notebook.is_public)),
    }
}

/// The second step of finding a user's role towards a notebook of a team,
/// given what the search for the user's membership gave. A member has the
/// role found, as it is. Someone who is no member may look if the notebook
/// is public, and is answered that nothing was found otherwise. Any other
/// failure of the search is the answer, whether the notebook is public or
/// not.
pub fn team_member_permissions(is_public: bool, found: Result<TeamRole, ApiError>) -> (r: Result<
    TeamRole,
    ApiError,
>)
    ensures
        match found {
            Ok(role) => r == Ok::<TeamRole, ApiError>(role),
            Err(e) => if is_public && e is NotFound {
                r matches Ok(role) && is_outsider_role(true, role)
            } else {
                r == Err::<TeamRole, ApiError>(e)
            },
        },
{
    match found {
        Ok(role) => Ok(role),
        Err(ApiError::NotFound) => {
            if is_public {
                Ok(TeamRole::get_view_only())
            } else {
                Err(ApiError::NotFound)
            }
        },
        Err(e) => Err(e),
    }
}

/// The first step of deciding whether a session may change the shared
/// document.
#[derive(Clone, Copy, PartialEq, Eq, Structural, Debug)]
pub enum AccessStep {
    /// The session has this permission.
    Decided(NotebookPermission),
    /// The permission depends on whether the user's role in this team
    /// permits writing.
    ConsultTeam { team_id: Id, user_id: Id },
}

/// What the notebook itself tells of the permission of a session of the
/// user `user_id`.
pub open spec fn access_step(user_id: Option<Id>, notebook: Option<Notebook>) -> AccessStep {
    match (user_id, notebook) {
        (Some(user), Some(n)) => if n.user_id == Some(user) {
            AccessStep::Decided(NotebookPermission::OwnerOrTeam)
        } else if n.team_id is Some {
            AccessStep::ConsultTeam { team_id: n.team_id->0, user_id: user }
        } else {
            AccessStep::Decided(NotebookPermission::Viewer)
        },
        _ => AccessStep::Decided(NotebookPermission::Viewer),
    }
}

/// Decides whether a session may change the shared document, as far as
/// the notebook itself tells it. A session without a user, or on a notebook
/// that is not there, only views. The owner's session may change the
/// document. On a notebook of a team the user's role there decides. Any
/// other session only views.
pub fn check_permission(user_id: Option<Id>, notebook: Option<&Notebook>) -> (r: AccessStep)
    ensures
        r == access_step(
            user_id,
            match notebook {
                Some(n) => Some(*n),
                None => None,
            },
        ),
{
    let user = match user_id {
        Some(u) => u,
        None => {
            return AccessStep::Decided(NotebookPermission::Viewer);
        },
    };
    let n = match notebook {
        Some(n) => n,
        None => {
            return AccessStep::Decided(NotebookPermission::Viewer);
        },
    };
    match n.user_id {
        Some(owner) => {
            if owner == user {
                return AccessStep::Decided(NotebookPermission::OwnerOrTeam);
            }
        },
        None => {},
    }
    match n.team_id {
        Some(team_id) => AccessStep::ConsultTeam { team_id, user_id: user },
        None => AccessStep::Decided(NotebookPermission::Viewer),
    }
}

/// The second step of deciding whether a session may change the shared
/// document, given whether the user's role in the team permits writing, if
/// the user has a role there: only a member whose role permits it may.
pub fn team_write_access(can_write: Option<bool>) -> (r: NotebookPermission)
    ensures
        r == (if can_write == Some(true) {
            NotebookPermission::OwnerOrTeam
        } else {
            NotebookPermission::Viewer
        }),
{
    match can_write {
        Some(true) => NotebookPermission::OwnerOrTeam,
        _ => NotebookPermission::Viewer,
    }
}

/// The first step of deciding whether a document is stored in a user's
/// name.
#[derive(Clone, Copy, PartialEq, Eq, Structural, Debug)]
pub enum PersistStep {
    /// It is not stored.
    Reject,
    /// It is stored.
    Write,
    /// It is stored if the user's role in this team permits writing.
    ConsultTeam { team_id: Id, user_id: Id },
}

/// What the notebook itself tells of whether its document is stored in the
/// name of `actor`.
pub open spec fn persist_step(notebook: Notebook, actor: Id) -> PersistStep {
    if notebook.user_id is Some && notebook.user_id != Some(actor) {
        PersistStep::Reject
    } else if notebook.team_id is Some {
        PersistStep::ConsultTeam { team_id: notebook.team_id->0, user_id: actor }
    } else {
        PersistStep::Write
    }
}

/// Decides whether the document of a notebook is stored in the name of
/// `actor`, as far as the notebook itself tells it. It is not if the
/// notebook is owned by another user. On a notebook of a team the actor's
/// role there decides. Otherwise it is.
pub fn save_notebook_data(notebook: &Notebook, actor: Id) -> (r: PersistStep)
    ensures
        r == persist_step(*notebook, actor),
{
    match notebook.user_id {
        Some(owner) => {
            if owner != actor {
                return PersistStep::Reject;
            }
        },
        None => {},
    }
    match notebook.team_id {
        Some(team_id) => PersistStep::ConsultTeam { team_id, user_id: actor },
        None => PersistStep::Write,
    }
}

/// The second step of deciding whether a document is stored, given
/// whether the actor's role in the team permits writing, if the actor has a
/// role there: it is stored only for a member whose role permits it.
pub fn team_persist_access(can_write: Option<bool>) -> (store: bool)
    ensures
        store == (can_write == Some(true)),
{
    match can_write {
        Some(true) => true,
        _ => false,
    }
}

/// The permission of a session of the user `user_id` on `notebook`, given
/// whether the user's role in the team that owns the notebook permits
/// writing, if the user has a role there.
pub open spec fn session_permission(
    user_id: Option<Id>,
    notebook: Option<Notebook>,
    can_write: Option<bool>,
) -> NotebookPermission {
    match access_step(user_id, notebook) {
        AccessStep::Decided(p) => p,
        AccessStep::ConsultTeam { .. } => if can_write == Some(true) {
            NotebookPermission::OwnerOrTeam
        } else {
            NotebookPermission::Viewer
        },
    }
}

/// Whether the document of `notebook` is stored in the name of `actor`,
/// given whether the actor's role in the team that owns the notebook permits
/// writing, if the actor has a role there.
pub open spec fn is_stored_for(notebook: Notebook, actor: Id, can_write: Option<bool>) -> bool {
    match persist_step(notebook, actor) {
        PersistStep::Reject => false,
        PersistStep::Write => true,
        PersistStep::ConsultTeam { .. } => can_write == Some(true),
    }
}

/// A session may change the shared document exactly if its user owns the
/// notebook, or the notebook belongs to a team in which the user has a role
/// that permits writing.
pub proof fn lemma_write_access_follows_role(
    user_id: Option<Id>,
    notebook: Option<Notebook>,
    can_write: Option<bool>,
)
    ensures
        session_permission(user_id, notebook, can_write) == NotebookPermission::OwnerOrTeam <==> (
        user_id is Some && notebook is Some && (owns(user_id, notebook->0) || (
        notebook->0.team_id is Some && can_write == Some(true)))),
{
}

/// Whoever may change the shared document of a notebook that has exactly
/// one owner may have the document stored.
pub proof fn lemma_writers_are_stored(user: Id, notebook: Notebook, can_write: Option<bool>)
    requires
        notebook.well_owned(),
        session_permission(Some(user), Some(notebook), can_write)
            == NotebookPermission::OwnerOrTeam,
    ensures
        is_stored_for(notebook, user, can_write),
{
}

/// The document of a notebook of a user is never stored in the name of
/// anyone else, whatever any team permits; and on a notebook that no team
/// owns, anyone else only views.
pub proof fn lemma_strangers_are_not_stored(actor: Id, notebook: Notebook, can_write: Option<bool>)
    requires
        notebook.user_id is Some,
        notebook.user_id != Some(actor),
    ensures
        !is_stored_for(notebook, actor, can_write),
        notebook.team_id is None ==> session_permission(Some(actor), Some(notebook), can_write)
            == NotebookPermission::Viewer,
{
}

} // verus!
