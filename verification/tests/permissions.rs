use rust_server::clock::Timestamp;
use rust_server::error::ApiError;
use rust_server::notebook::{Notebook, NotebookPermission};
use rust_server::permissions::{
    check_permission, get_user_notebook_permissions, get_user_owner_permissions,
    save_notebook_data, team_member_permissions, team_persist_access, team_write_access, AccessStep,
    PersistStep, Resolution,
};
use rust_server::team::{Capabilities, TeamRole};

fn notebook(user: Option<u128>, team: Option<u128>, is_public: bool) -> Notebook {
    Notebook {
        id: 500,
        user_id: user,
        title: "t".to_string(),
        created_at: Timestamp { secs: 1, nanos: 0 },
        updated_at: Timestamp { secs: 2, nanos: 0 },
        is_public,
        document_data: None,
        team_id: team,
    }
}

fn all(value: bool) -> Capabilities {
    Capabilities {
        can_read: value,
        can_write: value,
        can_manage_privacy: value,
        can_manage_clones: value,
        can_invite_users: value,
        can_remove_users: value,
        can_manage_permissions: value,
        can_manage_team: value,
    }
}

fn read_only() -> Capabilities {
    Capabilities { can_read: true, ..all(false) }
}

fn resolved(r: Resolution) -> TeamRole {
    match r {
        Resolution::Resolved(role) => role,
        Resolution::ConsultTeam { .. } => panic!("no team is to be consulted"),
    }
}

#[test]
fn owner_role_permits_everything() {
    let r = get_user_owner_permissions();
    assert_eq!(r.name, "Notebook Owner");
    assert_eq!(r.flags(), all(true));
    assert_ne!(r.id, r.team_id);
}

#[test]
fn owner_may_do_everything() {
    for is_public in [false, true] {
        let role = resolved(get_user_notebook_permissions(&notebook(Some(7), None, is_public), Some(7)));
        assert_eq!(role.name, "Notebook Owner");
        assert_eq!(role.flags(), all(true));
    }
}

#[test]
fn stranger_may_look_at_a_public_notebook() {
    let role = resolved(get_user_notebook_permissions(&notebook(Some(7), None, true), Some(8)));
    assert_eq!(role.name, "Default Role Name - View Only");
    assert_eq!(role.flags(), read_only());
    let role = resolved(get_user_notebook_permissions(&notebook(Some(7), None, true), None));
    assert_eq!(role.flags(), read_only());
}

#[test]
fn stranger_may_do_nothing_with_a_private_notebook() {
    let role = resolved(get_user_notebook_permissions(&notebook(Some(7), None, false), Some(8)));
    assert_eq!(role.name, "Default Role Name - All False");
    assert_eq!(role.flags(), all(false));
    let role = resolved(get_user_notebook_permissions(&notebook(Some(7), None, false), None));
    assert_eq!(role.flags(), all(false));
}

#[test]
fn team_decides_for_its_notebooks() {
    let r = get_user_notebook_permissions(&notebook(None, Some(30), false), Some(8));
    assert_eq!(r, Resolution::ConsultTeam { team_id: 30, user_id: 8 });
    let r = get_user_notebook_permissions(&notebook(None, Some(30), true), Some(8));
    assert_eq!(r, Resolution::ConsultTeam { team_id: 30, user_id: 8 });
}

#[test]
fn nobody_is_looked_up_for_an_anonymous_visitor() {
    let role = resolved(get_user_notebook_permissions(&notebook(None, Some(30), true), None));
    assert_eq!(role.flags(), read_only());
    let role = resolved(get_user_notebook_permissions(&notebook(None, Some(30), false), None));
    assert_eq!(role.flags(), all(false));
}

#[test]
fn member_has_the_role_found() {
    let reader = TeamRole::synthetic(1, 30, "Reader", read_only(), Timestamp { secs: 0, nanos: 0 });
    assert_eq!(team_member_permissions(false, Ok(reader.clone())), Ok(reader.clone()));
    assert_eq!(team_member_permissions(true, Ok(reader.clone())), Ok(reader));
}

#[test]
fn non_member_may_look_at_a_public_team_notebook() {
    let r = team_member_permissions(true, Err(ApiError::NotFound)).unwrap();
    assert_eq!(r.name, "Default Role Name - View Only");
    assert_eq!(r.flags(), read_only());
}

#[test]
fn non_member_of_a_private_team_notebook_finds_nothing() {
    let r = team_member_permissions(false, Err(ApiError::NotFound));
    assert_eq!(r, Err(ApiError::NotFound));
}

#[test]
fn failed_search_for_a_membership_is_handed_on() {
    let failure = ApiError::Database("connection reset".to_string());
    assert_eq!(team_member_permissions(true, Err(failure.clone())), Err(failure.clone()));
    assert_eq!(team_member_permissions(false, Err(failure.clone())), Err(failure));
    let no_connection = ApiError::DatabaseConnection("pool".to_string());
    assert_eq!(team_member_permissions(true, Err(no_connection.clone())), Err(no_connection));
}

#[test]
fn session_without_user_or_notebook_only_views() {
    let n = notebook(Some(7), None, true);
    assert_eq!(check_permission(None, Some(&n)), AccessStep::Decided(NotebookPermission::Viewer));
    assert_eq!(check_permission(Some(7), None), AccessStep::Decided(NotebookPermission::Viewer));
    assert_eq!(check_permission(None, None), AccessStep::Decided(NotebookPermission::Viewer));
}

#[test]
fn session_of_the_owner_may_write() {
    let n = notebook(Some(7), None, false);
    assert_eq!(check_permission(Some(7), Some(&n)), AccessStep::Decided(NotebookPermission::OwnerOrTeam));
    assert_eq!(check_permission(Some(8), Some(&n)), AccessStep::Decided(NotebookPermission::Viewer));
}

#[test]
fn session_on_a_team_notebook_asks_the_team() {
    let n = notebook(None, Some(30), false);
    assert_eq!(check_permission(Some(8), Some(&n)), AccessStep::ConsultTeam { team_id: 30, user_id: 8 });
}

#[test]
fn only_a_member_who_may_write_gets_through() {
    assert_eq!(team_write_access(Some(true)), NotebookPermission::OwnerOrTeam);
    assert_eq!(team_write_access(Some(false)), NotebookPermission::Viewer);
    assert_eq!(team_write_access(None), NotebookPermission::Viewer);
}

#[test]
fn document_of_another_user_is_not_stored() {
    assert_eq!(save_notebook_data(&notebook(Some(7), None, true), 8), PersistStep::Reject);
    assert_eq!(save_notebook_data(&notebook(Some(7), Some(30), true), 8), PersistStep::Reject);
}

#[test]
fn document_of_the_owner_is_stored() {
    assert_eq!(save_notebook_data(&notebook(Some(7), None, false), 7), PersistStep::Write);
}

#[test]
fn document_of_a_team_notebook_asks_the_team() {
    assert_eq!(
        save_notebook_data(&notebook(None, Some(30), false), 8),
        PersistStep::ConsultTeam { team_id: 30, user_id: 8 }
    );
    assert!(team_persist_access(Some(true)));
    assert!(!team_persist_access(Some(false)));
    assert!(!team_persist_access(None));
}
