use rust_server::clock::Timestamp;
use rust_server::error::ApiError;
use rust_server::notebook::{
    authorize_manage, authorize_view, blocks_for_sync, clone_block, clone_blocks, clone_change,
    clone_title, document_change, get_notebook_with_blocks, get_public_notebooks,
    in_position_order, is_notebook_owner, owner_name, rename_change, search_term, search_user_blocks, seed_block,
    sync_change, visibility_change, Block, BlockMetadata, BlockRequest, BlockResponse, BlockType,
    CardProps, Language, NewBlock, NewNotebook, Notebook, NotebookChange, Owner,
    PublicNotebookResponse, PublicNotebookRow, SearchResult, SEARCH_LIMIT,
};
use rust_server::team::{Capabilities, TeamRole};

fn at(secs: i64) -> Timestamp {
    Timestamp { secs, nanos: 0 }
}

fn notebook(user: Option<u128>, team: Option<u128>, is_public: bool) -> Notebook {
    Notebook {
        id: 500,
        user_id: user,
        title: "Old".to_string(),
        created_at: at(1),
        updated_at: at(2),
        is_public,
        document_data: Some(vec![1, 2, 3]),
        team_id: team,
    }
}

fn request(id: u128, title: &str, kind: BlockType, content: &str) -> BlockRequest {
    BlockRequest {
        id,
        title: title.to_string(),
        block_type: kind,
        content: content.to_string(),
        language: if kind == BlockType::Code { Some(Language::Rust) } else { None },
        metadata: None,
    }
}

fn block(id: u128, title: &str, kind: BlockType, content: &str, position: i32) -> Block {
    Block {
        id,
        notebook_id: 500,
        title: title.to_string(),
        block_type: kind,
        language: if kind == BlockType::Code { Some(Language::Rust) } else { None },
        content: content.to_string(),
        metadata: None,
        position,
    }
}

fn role(privacy: bool, team: bool) -> TeamRole {
    let flags = Capabilities {
        can_read: true,
        can_write: true,
        can_manage_privacy: privacy,
        can_manage_clones: false,
        can_invite_users: false,
        can_remove_users: false,
        can_manage_permissions: false,
        can_manage_team: team,
    };
    TeamRole::synthetic(1, 30, "r", flags, at(0))
}

#[test]
fn new_personal_notebook_belongs_to_its_user() {
    let n = NewNotebook::personal(9, 7);
    assert_eq!(n, NewNotebook { id: 9, user_id: Some(7), team_id: None, title: "Nova Página".to_string() });
}

#[test]
fn new_team_notebook_belongs_to_its_team() {
    let n = NewNotebook::of_team(9, 30);
    assert_eq!(n, NewNotebook { id: 9, user_id: None, team_id: Some(30), title: "Nova Página".to_string() });
}

#[test]
fn notebook_has_an_owner_only_if_it_has_exactly_one() {
    assert_eq!(notebook(Some(7), None, false).owner(), Some(Owner::User(7)));
    assert_eq!(notebook(None, Some(30), false).owner(), Some(Owner::Team(30)));
    assert_eq!(notebook(None, None, false).owner(), None);
    assert_eq!(notebook(Some(7), Some(30), false).owner(), None);
}

#[test]
fn new_notebook_starts_with_a_block_of_text() {
    let b = seed_block(11, 9);
    assert_eq!(
        b,
        NewBlock {
            id: 11,
            notebook_id: 9,
            title: "Novo Bloco".to_string(),
            block_type: BlockType::Text,
            language: None,
            content: "# Notas\nComece a editar…".to_string(),
            metadata: None,
            position: 0,
        }
    );
}

#[test]
fn saved_blocks_are_numbered_in_order() {
    let rows = blocks_for_sync(
        500,
        vec![
            request(3, "t1", BlockType::Text, "hello"),
            request(1, "t2", BlockType::Code, "fn x(){}"),
            request(2, "t3", BlockType::Component, ""),
        ],
    );
    assert_eq!(rows.len(), 3);
    let positions: Vec<i32> = rows.iter().map(|r| r.position).collect();
    assert_eq!(positions, vec![0, 1, 2]);
    let ids: Vec<u128> = rows.iter().map(|r| r.id).collect();
    assert_eq!(ids, vec![3, 1, 2]);
    assert_eq!(
        rows[1],
        NewBlock {
            id: 1,
            notebook_id: 500,
            title: "t2".to_string(),
            block_type: BlockType::Code,
            language: Some(Language::Rust),
            content: "fn x(){}".to_string(),
            metadata: None,
            position: 1,
        }
    );
    for r in &rows {
        assert_eq!(r.notebook_id, 500);
    }
}

#[test]
fn save_of_no_blocks_gives_no_rows() {
    assert_eq!(blocks_for_sync(500, Vec::new()), Vec::<NewBlock>::new());
}

#[test]
fn metadata_goes_with_the_block() {
    let meta = BlockMetadata::Card {
        props: CardProps { title: "c".to_string(), description: None, href: Some("h".to_string()) },
    };
    let mut r = request(1, "t", BlockType::Component, "");
    r.metadata = Some(meta.clone());
    let rows = blocks_for_sync(500, vec![r]);
    assert_eq!(rows[0].metadata, Some(meta));
}

#[test]
fn copy_of_a_block_keeps_its_content() {
    let copy = clone_block(block(1, "t2", BlockType::Code, "fn x(){}", 4), 99, 600);
    assert_eq!(
        copy,
        NewBlock {
            id: 99,
            notebook_id: 600,
            title: "t2".to_string(),
            block_type: BlockType::Code,
            language: Some(Language::Rust),
            content: "fn x(){}".to_string(),
            metadata: None,
            position: 4,
        }
    );
}

#[test]
fn copies_keep_content_and_get_fresh_identifiers() {
    let blocks = vec![block(1, "t1", BlockType::Text, "hello", 0), block(2, "t2", BlockType::Code, "fn x(){}", 1)];
    let copies = clone_blocks(blocks, 600);
    assert_eq!(copies.len(), 2);
    let titles: Vec<&str> = copies.iter().map(|b| b.title.as_str()).collect();
    assert_eq!(titles, vec!["t1", "t2"]);
    let contents: Vec<&str> = copies.iter().map(|b| b.content.as_str()).collect();
    assert_eq!(contents, vec!["hello", "fn x(){}"]);
    let positions: Vec<i32> = copies.iter().map(|b| b.position).collect();
    assert_eq!(positions, vec![0, 1]);
    assert_eq!(copies[0].block_type, BlockType::Text);
    assert_eq!(copies[1].block_type, BlockType::Code);
    assert_eq!(copies[1].language, Some(Language::Rust));
    for c in &copies {
        assert_eq!(c.notebook_id, 600);
        assert!(c.id != 1 && c.id != 2);
    }
    assert_ne!(copies[0].id, copies[1].id);
}

#[test]
fn copy_is_titled_after_its_source() {
    assert_eq!(clone_title("Hello"), "Cópia de \"Hello\"");
    assert_eq!(clone_title(""), "Cópia de \"\"");
}

#[test]
fn changes_write_only_their_fields() {
    assert_eq!(
        rename_change("Hello".to_string(), at(9)),
        NotebookChange { title: Some("Hello".to_string()), is_public: None, document_data: None, updated_at: at(9) }
    );
    assert_eq!(
        visibility_change(true, at(9)),
        NotebookChange { title: None, is_public: Some(true), document_data: None, updated_at: at(9) }
    );
    assert_eq!(
        sync_change("T".to_string(), false, at(9)),
        NotebookChange { title: Some("T".to_string()), is_public: Some(false), document_data: None, updated_at: at(9) }
    );
    assert_eq!(
        document_change(vec![7, 8], at(9)),
        NotebookChange { title: None, is_public: None, document_data: Some(Some(vec![7, 8])), updated_at: at(9) }
    );
    assert_eq!(
        clone_change(notebook(Some(7), None, true), "C".to_string(), at(9)),
        NotebookChange {
            title: Some("C".to_string()),
            is_public: Some(true),
            document_data: Some(Some(vec![1, 2, 3])),
            updated_at: at(9),
        }
    );
}

#[test]
fn rename_changes_the_title_alone() {
    let n = notebook(Some(7), None, false).apply(rename_change("Hello".to_string(), at(9)));
    assert_eq!(n.title, "Hello");
    assert_eq!(n.updated_at, at(9));
    assert_eq!(n.created_at, at(1));
    assert!(!n.is_public);
    assert_eq!(n.user_id, Some(7));
    assert_eq!(n.document_data, Some(vec![1, 2, 3]));
}

#[test]
fn showing_twice_is_showing_once() {
    let once = notebook(Some(7), None, false).apply(visibility_change(true, at(9)));
    let twice = notebook(Some(7), None, false)
        .apply(visibility_change(true, at(8)))
        .apply(visibility_change(true, at(9)));
    assert_eq!(once, twice);
    assert!(once.is_public);
    assert_eq!(once.title, "Old");
}

#[test]
fn blocks_in_rising_order_are_shown_as_they_come() {
    let n = notebook(Some(7), None, true);
    let r = get_notebook_with_blocks(
        n.clone(),
        vec![block(1, "t1", BlockType::Text, "hello", 0), block(2, "t2", BlockType::Code, "fn x(){}", 1)],
    );
    assert_eq!(r.meta, n);
    assert_eq!(
        r.blocks,
        vec![
            BlockResponse {
                id: 1,
                title: "t1".to_string(),
                block_type: BlockType::Text,
                content: "hello".to_string(),
                language: None,
                metadata: None,
            },
            BlockResponse {
                id: 2,
                title: "t2".to_string(),
                block_type: BlockType::Code,
                content: "fn x(){}".to_string(),
                language: Some(Language::Rust),
                metadata: None,
            },
        ]
    );
    assert_eq!(get_notebook_with_blocks(n, Vec::new()).blocks, Vec::<BlockResponse>::new());
}

#[test]
fn owner_name_prefers_the_team() {
    assert_eq!(owner_name(Some("Team".to_string()), Some("User".to_string())), "Team");
    assert_eq!(owner_name(Some("Team".to_string()), None), "Team");
    assert_eq!(owner_name(None, Some("User".to_string())), "User");
    assert_eq!(owner_name(None, None), "Desconhecido");
}

#[test]
fn public_notebooks_are_listed_with_their_owners() {
    let rows = vec![
        PublicNotebookRow {
            id: 1,
            title: "a".to_string(),
            user_id: Some(7),
            team_id: None,
            user_name: Some("Eva".to_string()),
            team_name: None,
            updated_at: at(20),
        },
        PublicNotebookRow {
            id: 2,
            title: "b".to_string(),
            user_id: None,
            team_id: Some(30),
            user_name: None,
            team_name: Some("Crew".to_string()),
            updated_at: at(10),
        },
        PublicNotebookRow {
            id: 3,
            title: "c".to_string(),
            user_id: None,
            team_id: None,
            user_name: None,
            team_name: None,
            updated_at: at(5),
        },
    ];
    assert_eq!(
        get_public_notebooks(rows),
        vec![
            PublicNotebookResponse {
                id: 1,
                title: "a".to_string(),
                user_id: Some(7),
                team_id: None,
                owner_name: "Eva".to_string(),
                updated_at: at(20),
            },
            PublicNotebookResponse {
                id: 2,
                title: "b".to_string(),
                user_id: None,
                team_id: Some(30),
                owner_name: "Crew".to_string(),
                updated_at: at(10),
            },
            PublicNotebookResponse {
                id: 3,
                title: "c".to_string(),
                user_id: None,
                team_id: None,
                owner_name: "Desconhecido".to_string(),
                updated_at: at(5),
            },
        ]
    );
}

#[test]
fn empty_search_looks_for_nothing() {
    assert_eq!(search_term(""), None);
    assert_eq!(search_term("   "), None);
    assert_eq!(search_term("\t\n"), None);
}

#[test]
fn search_looks_for_the_words_anywhere() {
    assert_eq!(SEARCH_LIMIT, 10);
    assert_eq!(search_term("rust"), Some("%rust%".to_string()));
    assert_eq!(search_term(" two words "), Some("% two words %".to_string()));
    assert_eq!(search_term("%"), Some("%%%".to_string()));
}

#[test]
fn search_rows_become_results() {
    let rows = vec![(1u128, "a".to_string(), "x".to_string()), (2u128, "b".to_string(), "y".to_string())];
    assert_eq!(
        search_user_blocks(rows),
        vec![
            SearchResult { id: 1, title: "a".to_string(), content: "x".to_string() },
            SearchResult { id: 2, title: "b".to_string(), content: "y".to_string() },
        ]
    );
}

fn reader(can_read: bool) -> TeamRole {
    let flags = Capabilities {
        can_read,
        can_write: false,
        can_manage_privacy: false,
        can_manage_clones: false,
        can_invite_users: false,
        can_remove_users: false,
        can_manage_permissions: false,
        can_manage_team: false,
    };
    TeamRole::synthetic(1, 30, "r", flags, at(0))
}

#[test]
fn owner_passes_and_another_user_does_not() {
    let n = notebook(Some(7), None, false);
    assert_eq!(is_notebook_owner(Some(7), &n, None), Ok(()));
    assert_eq!(is_notebook_owner(Some(8), &n, None), Err(ApiError::InvalidAuthorizationToken));
    assert_eq!(is_notebook_owner(None, &n, None), Err(ApiError::InvalidAuthorizationToken));
    assert_eq!(
        is_notebook_owner(Some(8), &n, Some(&role(true, true))),
        Err(ApiError::InvalidAuthorizationToken)
    );
}

#[test]
fn team_notebook_takes_a_role_that_manages() {
    let n = notebook(None, Some(30), false);
    assert_eq!(is_notebook_owner(Some(8), &n, None), Err(ApiError::InvalidAuthorizationToken));
    assert_eq!(
        is_notebook_owner(Some(8), &n, Some(&role(false, false))),
        Err(ApiError::InvalidAuthorizationToken)
    );
    assert_eq!(is_notebook_owner(Some(8), &n, Some(&role(true, false))), Ok(()));
    assert_eq!(is_notebook_owner(Some(8), &n, Some(&role(false, true))), Ok(()));
    assert_eq!(
        is_notebook_owner(None, &n, Some(&role(true, true))),
        Err(ApiError::InvalidAuthorizationToken)
    );
}

#[test]
fn public_notebook_is_shown_to_anyone() {
    let n = notebook(Some(7), None, true);
    assert_eq!(authorize_view(None, &n, None), Ok(()));
    assert_eq!(authorize_view(Some(8), &n, None), Ok(()));
    assert_eq!(authorize_view(Some(7), &n, None), Ok(()));
    assert_eq!(authorize_view(None, &notebook(None, Some(30), true), None), Ok(()));
}

#[test]
fn private_notebook_is_shown_to_its_owner() {
    let n = notebook(Some(7), None, false);
    assert_eq!(authorize_view(Some(7), &n, None), Ok(()));
    assert_eq!(authorize_view(Some(8), &n, None), Err(ApiError::InvalidAuthorizationToken));
    assert_eq!(authorize_view(Some(8), &n, Some(&reader(true))), Err(ApiError::InvalidAuthorizationToken));
    assert_eq!(authorize_view(None, &n, None), Err(ApiError::InvalidAuthorizationToken));
}

#[test]
fn private_team_notebook_is_shown_to_members_who_may_read() {
    let n = notebook(None, Some(30), false);
    assert_eq!(authorize_view(Some(8), &n, Some(&reader(true))), Ok(()));
    assert_eq!(authorize_view(Some(8), &n, Some(&reader(false))), Err(ApiError::InvalidAuthorizationToken));
    assert_eq!(authorize_view(Some(8), &n, None), Err(ApiError::InvalidAuthorizationToken));
    assert_eq!(authorize_view(None, &n, Some(&reader(true))), Err(ApiError::InvalidAuthorizationToken));
}

#[test]
fn owner_manages_a_personal_notebook() {
    let n = notebook(Some(7), None, false);
    assert_eq!(authorize_manage(7, &n, None), Ok(()));
    assert_eq!(authorize_manage(8, &n, None), Err(ApiError::InvalidAuthorizationToken));
    assert_eq!(authorize_manage(8, &n, Some(&role(true, true))), Err(ApiError::InvalidAuthorizationToken));
}

#[test]
fn team_notebook_is_managed_by_those_the_team_lets() {
    let n = notebook(None, Some(30), false);
    assert_eq!(authorize_manage(8, &n, Some(&role(true, false))), Ok(()));
    assert_eq!(authorize_manage(8, &n, Some(&role(false, true))), Ok(()));
    assert_eq!(authorize_manage(8, &n, Some(&role(false, false))), Err(ApiError::InvalidAuthorizationToken));
    assert_eq!(authorize_manage(8, &n, None), Err(ApiError::InvalidAuthorizationToken));
}

#[test]
fn blocks_are_shown_by_rising_position() {
    let n = notebook(Some(7), None, true);
    let r = get_notebook_with_blocks(
        n.clone(),
        vec![
            block(3, "c", BlockType::Text, "third", 2),
            block(1, "a", BlockType::Text, "first", 0),
            block(2, "b", BlockType::Code, "second", 1),
        ],
    );
    assert_eq!(r.meta, n);
    let ids: Vec<u128> = r.blocks.iter().map(|b| b.id).collect();
    assert_eq!(ids, vec![1, 2, 3]);
    let contents: Vec<&str> = r.blocks.iter().map(|b| b.content.as_str()).collect();
    assert_eq!(contents, vec!["first", "second", "third"]);
}

#[test]
fn rows_are_ordered_by_position_and_none_is_lost() {
    let rows = vec![
        block(10, "x", BlockType::Text, "", 5),
        block(11, "x", BlockType::Text, "", -1),
        block(12, "x", BlockType::Text, "", 3),
        block(13, "x", BlockType::Text, "", i32::MAX),
        block(14, "x", BlockType::Text, "", i32::MIN),
    ];
    let ordered = in_position_order(rows.clone());
    let positions: Vec<i32> = ordered.iter().map(|b| b.position).collect();
    assert_eq!(positions, vec![i32::MIN, -1, 3, 5, i32::MAX]);
    let ids: Vec<u128> = ordered.iter().map(|b| b.id).collect();
    assert_eq!(ids, vec![14, 11, 12, 10, 13]);
    assert_eq!(in_position_order(ordered.clone()), ordered);
    assert_eq!(in_position_order(Vec::new()), Vec::<Block>::new());
}

#[test]
fn rows_of_one_position_keep_their_order() {
    let rows = vec![
        block(1, "x", BlockType::Text, "", 1),
        block(2, "x", BlockType::Text, "", 0),
        block(3, "x", BlockType::Text, "", 1),
        block(4, "x", BlockType::Text, "", 0),
    ];
    let ids: Vec<u128> = in_position_order(rows).iter().map(|b| b.id).collect();
    assert_eq!(ids, vec![2, 4, 1, 3]);
}

#[test]
fn copy_is_shown_as_its_source_but_for_identifiers() {
    let source = vec![
        block(2, "t2", BlockType::Code, "fn x(){}", 1),
        block(1, "t1", BlockType::Text, "hello", 0),
    ];
    let copies: Vec<Block> = clone_blocks(source.clone(), 600)
        .into_iter()
        .map(|c| Block {
            id: c.id,
            notebook_id: c.notebook_id,
            title: c.title,
            block_type: c.block_type,
            language: c.language,
            content: c.content,
            metadata: c.metadata,
            position: c.position,
        })
        .collect();
    let shown_source = get_notebook_with_blocks(notebook(Some(7), None, true), source).blocks;
    let shown_copy = get_notebook_with_blocks(notebook(Some(7), None, true), copies).blocks;
    assert_eq!(shown_copy.len(), 2);
    for (c, s) in shown_copy.iter().zip(shown_source.iter()) {
        assert_ne!(c.id, s.id);
        assert_eq!(c.title, s.title);
        assert_eq!(c.block_type, s.block_type);
        assert_eq!(c.content, s.content);
        assert_eq!(c.language, s.language);
        assert_eq!(c.metadata, s.metadata);
    }
    assert_eq!(shown_copy[0].title, "t1");
    assert_eq!(shown_copy[1].content, "fn x(){}");
}
