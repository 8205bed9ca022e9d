//! Notebooks and their blocks: how a notebook is created, what a save or a
//! copy writes, who may look at a notebook and who may change it.

use vstd::prelude::*;
use vstd::string::*;
use crate::clock::Timestamp;
use crate::error::ApiError;
use crate::ids::{fresh_id, Id};
use crate::team::TeamRole;
use crate::text::{to_chars, trim, trim_chars};

verus! {

/// What a block holds.
#[derive(Clone, Copy, PartialEq, Eq, Structural, Debug)]
pub enum BlockType {
    Text,
    Code,
    Component,
}

/// The language of a block of code.
#[derive(Clone, Copy, PartialEq, Eq, Structural, Debug)]
pub enum Language {
    Rust,
    Typescript,
    Python,
}

/// The properties of a callout.
#[derive(Debug, Clone, PartialEq, Eq)]
pub struct CalloutProps {
    pub title: Option<String>,
    pub icon: Option<String>,
    pub callout_type: Option<String>,
}

/// The properties of a card.
#[derive(Debug, Clone, PartialEq, Eq)]
pub struct CardProps {
    pub title: String,
    pub description: Option<String>,
    pub href: Option<String>,
}

/// The properties of a link to a repository.
#[derive(Debug, Clone, PartialEq, Eq)]
pub struct GithubRepoProps {
    pub owner: String,
    pub repo: String,
}

/// What a component block carries besides its content. The properties of a
/// generic component are kept as the JSON text they were sent as.
#[allow(inconsistent_fields)]
#[derive(Debug, Clone, PartialEq, Eq)]
pub enum BlockMetadata {
    Callout { props: CalloutProps },
    Card { props: CardProps },
    GithubRepo { props: GithubRepoProps },
    Banner { variant: String },
    Generic { props: String },
}

/// A notebook as stored.
#[derive(Debug, Clone, PartialEq, Eq)]
pub struct Notebook {
    pub id: Id,
    pub user_id: Option<Id>,
    pub title: String,
    pub created_at: Timestamp,
    pub updated_at: Timestamp,
    pub is_public: bool,
    pub document_data: Option<Vec<u8>>,
    pub team_id: Option<Id>,
}

/// A block as stored.
#[derive(Debug, Clone, PartialEq, Eq)]
pub struct Block {
    pub id: Id,
    pub notebook_id: Id,
    pub title: String,
    pub block_type: BlockType,
    pub language: Option<Language>,
    pub content: String,
    pub metadata: Option<BlockMetadata>,
    pub position: i32,
}

/// A block as shown to a client.
#[derive(Debug, Clone, PartialEq, Eq)]
pub struct BlockResponse {
    pub id: Id,
    pub title: String,
    pub block_type: BlockType,
    pub content: String,
    pub language: Option<Language>,
    pub metadata: Option<BlockMetadata>,
}

/// A notebook with its blocks, as shown to a client.
#[derive(Debug, Clone, PartialEq, Eq)]
pub struct NotebookResponse {
    pub meta: Notebook,
    pub blocks: Vec<BlockResponse>,
}

/// What is stored to create a notebook.
#[derive(Debug, Clone, PartialEq, Eq)]
pub struct NewNotebook {
    pub id: Id,
    pub user_id: Option<Id>,
    pub team_id: Option<Id>,
    pub title: String,
}

/// What is stored to create a block.
#[derive(Debug, Clone, PartialEq, Eq)]
pub struct NewBlock {
    pub id: Id,
    pub notebook_id: Id,
    pub title: String,
    pub block_type: BlockType,
    pub language: Option<Language>,
    pub content: String,
    pub metadata: Option<BlockMetadata>,
    pub position: i32,
}

/// What a client sends to rename a notebook.
#[derive(Debug, Clone, PartialEq, Eq)]
pub struct UpdateNotebookTitle {
    pub title: String,
}

/// What a client sends to show or hide a notebook.
#[derive(Debug, Clone, PartialEq, Eq)]
pub struct UpdateNotebookVisibility {
    pub is_visible: bool,
}

/// One block of a save, as a client sends it.
#[derive(Debug, Clone, PartialEq, Eq)]
pub struct BlockRequest {
    pub id: Id,
    pub title: String,
    pub block_type: BlockType,
    pub content: String,
    pub language: Option<Language>,
    pub metadata: Option<BlockMetadata>,
}

/// A save, as a client sends it: the title, the blocks in order and the
/// visibility.
#[derive(Debug, Clone, PartialEq, Eq)]
pub struct SyncNotebookRequest {
    pub title: String,
    pub blocks: Vec<BlockRequest>,
    pub is_public: bool,
}

/// What a client sends to search.
#[derive(Debug, Clone, PartialEq, Eq)]
pub struct SearchQuery {
    pub q: String,
}

/// One hit of a search: the notebook and the content of the block that
/// matched.
#[derive(Debug, Clone, PartialEq, Eq)]
pub struct SearchResult {
    pub id: Id,
    pub title: String,
    pub content: String,
}

/// Whether a session may change the shared document.
#[derive(Clone, Copy, PartialEq, Eq, Structural, Debug)]
pub enum NotebookPermission {
    OwnerOrTeam,
    Viewer,
}

/// A public notebook as listed, with the name of its owner.
#[derive(Debug, Clone, PartialEq, Eq)]
pub struct PublicNotebookResponse {
    pub id: Id,
    pub title: String,
    pub user_id: Option<Id>,
    pub team_id: Option<Id>,
    pub owner_name: String,
    pub updated_at: Timestamp,
}

/// A public notebook as read from storage, with the names of the user and
/// of the team that own it, where there are such.
#[derive(Debug, Clone, PartialEq, Eq)]
pub struct PublicNotebookRow {
    pub id: Id,
    pub title: String,
    pub user_id: Option<Id>,
    pub team_id: Option<Id>,
    pub user_name: Option<String>,
    pub team_name: Option<String>,
    pub updated_at: Timestamp,
}

/// Who owns a notebook.
#[derive(Clone, Copy, PartialEq, Eq, Structural, Debug)]
pub enum Owner {
    User(Id),
    Team(Id),
}

/// The most hits that a search returns.
pub const SEARCH_LIMIT: i64 = 10;

impl NewNotebook {
    /// The notebook has exactly one owner: a user or a team, not both and
    /// not neither.
    pub open spec fn well_owned(self) -> bool {
        (self.user_id is Some) != (self.team_id is Some)
    }

    /// A new notebook of the user `owner`, titled `Nova Página`.
    pub fn personal(id: Id, owner: Id) -> (r: Self)
        ensures
            r.id == id,
            r.user_id == Some(owner),
            r.team_id is None,
            r.title@ == "Nova Página"@,
            r.well_owned(),
    {
        NewNotebook {
            id,
            user_id: Some(owner),
            team_id: None,
            title: String::from_str("Nova Página"),
        }
    }

    /// A new notebook of the team `team`, titled `Nova Página`.
    pub fn of_team(id: Id, team: Id) -> (r: Self)
        ensures
            r.id == id,
            r.user_id is None,
            r.team_id == Some(team),
            r.title@ == "Nova Página"@,
            r.well_owned(),
    {
        NewNotebook { id, user_id: None, team_id: Some(team), title: String::from_str("Nova Página") }
    }

    /// The notebook as it stands in storage once created at `now`: private,
    /// with no document yet.
    pub open spec fn stored(self, now: Timestamp) -> Notebook {
        Notebook {
            id: self.id,
            user_id: self.user_id,
            title: self.title,
            created_at: now,
            updated_at: now,
            is_public: false,
            document_data: None,
            team_id: self.team_id,
        }
    }
}

impl Notebook {
    /// The notebook has exactly one owner: a user or a team, not both and
    /// not neither.
    pub open spec fn well_owned(self) -> bool {
        (self.user_id is Some) != (self.team_id is Some)
    }

    /// The owner of the notebook, where it has exactly one.
    pub fn owner(&self) -> (r: Option<Owner>)
        ensures
            r is Some <==> self.well_owned(),
            self.well_owned() && self.user_id is Some ==> r == Some(Owner::User(self.user_id->0)),
            self.well_owned() && self.team_id is Some ==> r == Some(Owner::Team(self.team_id->0)),
    {
        match (self.user_id, self.team_id) {
            (Some(u), None) => Some(Owner::User(u)),
            (None, Some(t)) => Some(Owner::Team(t)),
            _ => None,
        }
    }

    /// The notebook once `change` has been written to it.
    pub open spec fn changed(self, change: NotebookChange) -> Notebook {
        Notebook {
            id: self.id,
            user_id: self.user_id,
            title: match change.title {
                Some(t) => t,
                None => self.title,
            },
            created_at: self.created_at,
            updated_at: change.updated_at,
            is_public: match change.is_public {
                Some(v) => v,
                None => self.is_public,
            },
            document_data: match change.document_data {
                Some(d) => d,
                None => self.document_data,
            },
            team_id: self.team_id,
        }
    }

    /// Writes `change` to the notebook.
    pub fn apply(self, change: NotebookChange) -> (r: Notebook)
        ensures
            r == self.changed(change),
    {
        Notebook {
            id: self.id,
            user_id: self.user_id,
            title: match change.title {
                Some(t) => t,
                None => self.title,
            },
            created_at: self.created_at,
            updated_at: change.updated_at,
            is_public: match change.is_public {
                Some(v) => v,
                None => self.is_public,
            },
            document_data: match change.document_data {
                Some(d) => d,
                None => self.document_data,
            },
            team_id: self.team_id,
        }
    }
}

/// What an update writes to a notebook: the fields that are present, and
/// the time of the update. The identifier, the owner and the time of
/// creation are never written.
#[derive(Debug, Clone, PartialEq, Eq)]
pub struct NotebookChange {
    pub title: Option<String>,
    pub is_public: Option<bool>,
    pub document_data: Option<Option<Vec<u8>>>,
    pub updated_at: Timestamp,
}

/// What a rename writes.
pub fn rename_change(title: String, now: Timestamp) -> (c: NotebookChange)
    ensures
        c == (NotebookChange {
            title: Some(title),
            is_public: None,
            document_data: None,
            updated_at: now,
        }),
{
    NotebookChange { title: Some(title), is_public: None, document_data: None, updated_at: now }
}

/// What a change of visibility writes.
pub fn visibility_change(is_visible: bool, now: Timestamp) -> (c: NotebookChange)
    ensures
        c == (NotebookChange {
            title: None,
            is_public: Some(is_visible),
            document_data: None,
            updated_at: now,
        }),
{
    NotebookChange { title: None, is_public: Some(is_visible), document_data: None, updated_at: now }
}

/// What a save writes to the notebook itself.
pub fn sync_change(title: String, is_public: bool, now: Timestamp) -> (c: NotebookChange)
    ensures
        c == (NotebookChange {
            title: Some(title),
            is_public: Some(is_public),
            document_data: None,
            updated_at: now,
        }),
{
    NotebookChange {
        title: Some(title),
        is_public: Some(is_public),
        document_data: None,
        updated_at: now,
    }
}

/// What a copy writes to the new notebook: the new title, and the
/// visibility and the document of the source.
pub fn clone_change(source: Notebook, title: String, now: Timestamp) -> (c: NotebookChange)
    ensures
        c == (NotebookChange {
            title: Some(title),
            is_public: Some(source.is_public),
            document_data: Some(source.document_data),
            updated_at: now,
        }),
{
    NotebookChange {
        title: Some(title),
        is_public: Some(source.is_public),
        document_data: Some(source.document_data),
        updated_at: now,
    }
}

/// What the end of an editing session writes: the document.
pub fn document_change(data: Vec<u8>, now: Timestamp) -> (c: NotebookChange)
    ensures
        c == (NotebookChange {
            title: None,
            is_public: None,
            document_data: Some(Some(data)),
            updated_at: now,
        }),
{
    NotebookChange { title: None, is_public: None, document_data: Some(Some(data)), updated_at: now }
}

/// `b` is the block that a new notebook starts with: a block of text at
/// position 0.
pub open spec fn is_seed_block(b: NewBlock, id: Id, notebook_id: Id) -> bool {
    &&& b.id == id
    &&& b.notebook_id == notebook_id
    &&& b.title@ == "Novo Bloco"@
    &&& b.block_type == BlockType::Text
    &&& b.language is None
    &&& b.content@ == "# Notas\nComece a editar…"@
    &&& b.metadata is None
    &&& b.position == 0
}

/// The block that a new notebook starts with.
pub fn seed_block(id: Id, notebook_id: Id) -> (b: NewBlock)
    ensures
        is_seed_block(b, id, notebook_id),
{
    NewBlock {
        id,
        notebook_id,
        title: String::from_str("Novo Bloco"),
        block_type: BlockType::Text,
        language: None,
        content: String::from_str("# Notas\nComece a editar…"),
        metadata: None,
        position: 0,
    }
}

/// The row that the block at place `index` of a save becomes.
pub open spec fn sync_row(notebook_id: Id, b: BlockRequest, index: int) -> NewBlock {
    NewBlock {
        id: b.id,
        notebook_id,
        title: b.title,
        block_type: b.block_type,
        language: b.language,
        content: b.content,
        metadata: b.metadata,
        position: index as i32,
    }
}

/// The rows that the blocks of a save become: one for each, in the same
/// order, the position of each being its place in the list.
pub open spec fn sync_rows(notebook_id: Id, blocks: Seq<BlockRequest>) -> Seq<NewBlock> {
    Seq::new(blocks.len(), |i: int| sync_row(notebook_id, blocks[i], i))
}

/// The rows that replace the blocks of a notebook when it is saved.
pub fn blocks_for_sync(notebook_id: Id, blocks: Vec<BlockRequest>) -> (r: Vec<NewBlock>)
    requires
        blocks@.len() <= i32::MAX,
    ensures
        r@ == sync_rows(notebook_id, blocks@),
{
    let mut rows: Vec<NewBlock> = Vec::new();
    let ghost all = blocks@;
    for b in it: blocks.into_iter()
        invariant
            it.seq() == all,
            all.len() <= i32::MAX,
            rows@ == sync_rows(notebook_id, all).take(it.index() as int),
    {
        let index: usize = rows.len();
        let row = NewBlock {
            id: b.id,
            notebook_id,
            title: b.title,
            block_type: b.block_type,
            language: b.language,
            content: b.content,
            metadata: b.metadata,
            position: index as i32,
        };
        rows.push(row);
        assert(rows@ =~= sync_rows(notebook_id, all).take(it.index() + 1));
    }
    assert(rows@ =~= sync_rows(notebook_id, all));
    rows
}

/// The row that a block is stored as.
pub open spec fn stored_row(row: NewBlock) -> Block {
    Block {
        id: row.id,
        notebook_id: row.notebook_id,
        title: row.title,
        block_type: row.block_type,
        language: row.language,
        content: row.content,
        metadata: row.metadata,
        position: row.position,
    }
}

/// The copy of `source` that is stored in the notebook `notebook_id`
/// under the identifier `id`.
pub open spec fn copy_of(source: Block, id: Id, notebook_id: Id) -> NewBlock {
    NewBlock {
        id,
        notebook_id,
        title: source.title,
        block_type: source.block_type,
        language: source.language,
        content: source.content,
        metadata: source.metadata,
        position: source.position,
    }
}

/// Copies one block into another notebook under a new identifier.
pub fn clone_block(source: Block, id: Id, notebook_id: Id) -> (r: NewBlock)
    ensures
        r == copy_of(source, id, notebook_id),
{
    NewBlock {
        id,
        notebook_id,
        title: source.title,
        block_type: source.block_type,
        language: source.language,
        content: source.content,
        metadata: source.metadata,
        position: source.position,
    }
}

/// `copies` holds one copy for each of `blocks`, in the same order, each
/// in the notebook `notebook_id`.
pub open spec fn are_copies(copies: Seq<NewBlock>, blocks: Seq<Block>, notebook_id: Id) -> bool {
    &&& copies.len() == blocks.len()
    &&& forall|i: int|
        0 <= i < copies.len() ==> #[trigger] copies[i] == copy_of(
            blocks[i],
            copies[i].id,
            notebook_id,
        )
}

/// Copies the blocks of a notebook into the notebook `notebook_id`: one
/// copy for each block, in the same order, each under an identifier drawn
/// at random.
pub fn clone_blocks(blocks: Vec<Block>, notebook_id: Id) -> (r: Vec<NewBlock>)
    ensures
        are_copies(r@, blocks@, notebook_id),
{
    let mut copies: Vec<NewBlock> = Vec::new();
    let ghost all = blocks@;
    for b in it: blocks.into_iter()
        invariant
            it.seq() == all,
            copies@.len() == it.index(),
            forall|i: int|
                0 <= i < copies@.len() ==> #[trigger] copies@[i] == copy_of(
                    all[i],
                    copies@[i].id,
                    notebook_id,
                ),
    {
        let copy = clone_block(b, fresh_id(), notebook_id);
        copies.push(copy);
    }
    copies
}

/// The title of a copy of a notebook titled `title`.
pub fn clone_title(title: &str) -> (r: String)
    ensures
        r@ == "Cópia de \""@ + title@ + "\""@,
{
    let mut r = String::from_str("Cópia de \"");
    r.append(title);
    r.append("\"");
    r
}

/// A block as shown to a client: the block without its notebook and its
/// position.
pub open spec fn shown_block(b: Block) -> BlockResponse {
    BlockResponse {
        id: b.id,
        title: b.title,
        block_type: b.block_type,
        content: b.content,
        language: b.language,
        metadata: b.metadata,
    }
}

/// The place of the first of `rows` whose position is greater than
/// `position`, or the length of `rows` if there is none.
pub open spec fn first_after(rows: Seq<Block>, position: i32) -> int
    decreases rows.len(),
{
    if rows.len() == 0 || rows[0].position > position {
        0
    } else {
        1 + first_after(rows.drop_first(), position)
    }
}

/// `rows` with `b` put in before the first row whose position is greater
/// than its own.
pub open spec fn placed(rows: Seq<Block>, b: Block) -> Seq<Block> {
    rows.insert(first_after(rows, b.position), b)
}

/// `rows` by rising position; rows of equal position keep the order in
/// which they stand in `rows`.
pub open spec fn by_position(rows: Seq<Block>) -> Seq<Block>
    decreases rows.len(),
{
    if rows.len() == 0 {
        Seq::empty()
    } else {
        placed(by_position(rows.drop_last()), rows.last())
    }
}

/// The positions of `rows`.
pub open spec fn positions(rows: Seq<Block>) -> Seq<i32> {
    rows.map_values(|b: Block| b.position)
}

/// No row of `rows` has a greater position than a row after it.
pub open spec fn positions_rise(rows: Seq<Block>) -> bool {
    forall|i: int, j: int|
        0 <= i < j < rows.len() ==> (#[trigger] rows[i]).position <= (#[trigger] rows[j]).position
}

/// Every row of `rows` has a smaller position than every row after it.
pub open spec fn positions_increase(rows: Seq<Block>) -> bool {
    forall|i: int, j: int|
        0 <= i < j < rows.len() ==> (#[trigger] rows[i]).position < (#[trigger] rows[j]).position
}

/// Where the first row with a greater position stands: no row before it has
/// a greater position.
pub proof fn lemma_first_after(rows: Seq<Block>, position: i32)
    ensures
        0 <= first_after(rows, position) <= rows.len(),
        forall|i: int|
            0 <= i < first_after(rows, position) ==> (#[trigger] rows[i]).position <= position,
        first_after(rows, position) < rows.len() ==> rows[first_after(rows, position)].position
            > position,
    decreases rows.len(),
{
    if rows.len() == 0 || rows[0].position > position {
    } else {
        let rest = rows.drop_first();
        lemma_first_after(rest, position);
        assert forall|i: int| 0 <= i < first_after(rows, position) implies (
        #[trigger] rows[i]).position <= position by {
            if i > 0 {
                assert(rows[i] == rest[i - 1]);
            }
        }
        if first_after(rows, position) < rows.len() {
            assert(rows[first_after(rows, position)] == rest[first_after(rest, position)]);
        }
    }
}

/// The first row with a greater position is where a look from the front
/// first meets one.
pub proof fn lemma_first_after_is(rows: Seq<Block>, position: i32, i: int)
    requires
        0 <= i <= rows.len(),
        forall|j: int| 0 <= j < i ==> (#[trigger] rows[j]).position <= position,
        i < rows.len() ==> rows[i].position > position,
    ensures
        first_after(rows, position) == i,
{
    lemma_first_after(rows, position);
    let p = first_after(rows, position);
    if p < i {
        assert(rows[p].position <= position);
    } else if i < p {
        assert(rows[i].position <= position);
    }
}

/// Putting a row into rows whose positions rise gives rows whose positions
/// rise, which hold the row besides what they held.
pub proof fn lemma_placed(rows: Seq<Block>, b: Block)
    requires
        positions_rise(rows),
    ensures
        positions_rise(placed(rows, b)),
        placed(rows, b).len() == rows.len() + 1,
        placed(rows, b).to_multiset() == rows.to_multiset().insert(b),
        positions(placed(rows, b)).to_multiset() == positions(rows).to_multiset().insert(
            b.position,
        ),
{
    lemma_first_after(rows, b.position);
    let f = first_after(rows, b.position);
    let p = placed(rows, b);
    assert forall|i: int, j: int| 0 <= i < j < p.len() implies (#[trigger] p[i]).position <= (
    #[trigger] p[j]).position by {
        if j < f {
            assert(p[i] == rows[i] && p[j] == rows[j]);
        } else if j == f {
            assert(p[i] == rows[i]);
        } else if i < f {
            assert(p[i] == rows[i] && p[j] == rows[j - 1]);
            assert(rows[f].position <= rows[j - 1].position || f == j - 1);
        } else if i == f {
            assert(p[j] == rows[j - 1]);
            assert(rows[f].position <= rows[j - 1].position || f == j - 1);
        } else {
            assert(p[i] == rows[i - 1] && p[j] == rows[j - 1]);
        }
    }
    lemma_insert_to_multiset(rows, f, b);
    let q = positions(rows);
    assert(positions(p) =~= q.insert(f, b.position));
    lemma_insert_to_multiset(q, f, b.position);
}

/// A sequence with one more element holds that element besides what it
/// held.
pub proof fn lemma_insert_to_multiset<A>(s: Seq<A>, i: int, a: A)
    requires
        0 <= i <= s.len(),
    ensures
        s.insert(i, a).to_multiset() == s.to_multiset().insert(a),
{
    let t = s.insert(i, a);
    assert(t.remove(i) =~= s);
    assert(t[i] == a);
    vstd::seq_lib::to_multiset_remove(t, i);
    t.to_multiset_ensures();
    assert(t.contains(a));
    assert(t.to_multiset().count(a) > 0);
    assert(t.to_multiset() =~= s.to_multiset().insert(a));
}

/// Rows by rising position are the same rows, and their positions rise.
pub proof fn lemma_by_position(rows: Seq<Block>)
    ensures
        positions_rise(by_position(rows)),
        by_position(rows).len() == rows.len(),
        by_position(rows).to_multiset() == rows.to_multiset(),
        positions(by_position(rows)).to_multiset() == positions(rows).to_multiset(),
    decreases rows.len(),
{
    if rows.len() == 0 {
        assert(rows =~= Seq::<Block>::empty());
        assert(positions(rows) =~= positions(by_position(rows)));
    } else {
        let earlier = rows.drop_last();
        lemma_by_position(earlier);
        lemma_placed(by_position(earlier), rows.last());
        assert(earlier.push(rows.last()) =~= rows);
        vstd::seq_lib::to_multiset_build(earlier, rows.last());
        assert(positions(earlier).push(rows.last().position) =~= positions(rows));
        vstd::seq_lib::to_multiset_build(positions(earlier), rows.last().position);
    }
}

/// Rows whose positions rise already are left as they are.
pub proof fn lemma_rising_rows_stay(rows: Seq<Block>)
    requires
        positions_rise(rows),
    ensures
        by_position(rows) == rows,
    decreases rows.len(),
{
    if rows.len() == 0 {
        assert(rows =~= Seq::<Block>::empty());
    } else {
        let earlier = rows.drop_last();
        assert forall|i: int, j: int| 0 <= i < j < earlier.len() implies (
        #[trigger] earlier[i]).position <= (#[trigger] earlier[j]).position by {
            assert(earlier[i] == rows[i] && earlier[j] == rows[j]);
        }
        lemma_rising_rows_stay(earlier);
        assert forall|j: int| 0 <= j < earlier.len() implies (#[trigger] earlier[j]).position
            <= rows.last().position by {
            assert(earlier[j] == rows[j]);
            assert(rows[j].position <= rows[rows.len() - 1].position);
        }
        lemma_first_after_is(earlier, rows.last().position, earlier.len() as int);
        assert(earlier.insert(earlier.len() as int, rows.last()) =~= rows);
    }
}

/// Rows of which no two have the same position come, by rising position,
/// each with a smaller position than every row after it.
pub proof fn lemma_distinct_positions_increase(rows: Seq<Block>)
    requires
        positions(rows).no_duplicates(),
    ensures
        positions_increase(by_position(rows)),
{
    lemma_by_position(rows);
    let sorted = by_position(rows);
    positions(rows).lemma_multiset_has_no_duplicates();
    positions(sorted).lemma_multiset_has_no_duplicates_conv();
    assert forall|i: int, j: int| 0 <= i < j < sorted.len() implies (
    #[trigger] sorted[i]).position < (#[trigger] sorted[j]).position by {
        assert(positions(sorted)[i] == sorted[i].position);
        assert(positions(sorted)[j] == sorted[j].position);
        assert(positions(sorted)[i] != positions(sorted)[j]);
    }
}

/// Two blocks agree in all but their identifiers and their notebooks.
pub open spec fn same_content(a: Block, b: Block) -> bool {
    a.title == b.title && a.block_type == b.block_type && a.language == b.language && a.content
        == b.content && a.metadata == b.metadata && a.position == b.position
}

/// Two sequences of blocks agree, place by place, in all but the blocks'
/// identifiers and notebooks.
pub open spec fn same_contents(a: Seq<Block>, b: Seq<Block>) -> bool {
    a.len() == b.len() && forall|i: int| 0 <= i < a.len() ==> same_content(#[trigger] a[i], b[i])
}

/// Rows that agree in all but identifiers and notebooks still do so once
/// both are brought into the order of their positions.
pub proof fn lemma_order_keeps_contents(a: Seq<Block>, b: Seq<Block>)
    requires
        same_contents(a, b),
    ensures
        same_contents(by_position(a), by_position(b)),
    decreases a.len(),
{
    if a.len() > 0 {
        let x = by_position(a.drop_last());
        let y = by_position(b.drop_last());
        assert forall|i: int| 0 <= i < a.drop_last().len() implies same_content(
            #[trigger] a.drop_last()[i],
            b.drop_last()[i],
        ) by {
            assert(same_content(a[i], b[i]));
        }
        lemma_order_keeps_contents(a.drop_last(), b.drop_last());
        assert(same_content(a[a.len() - 1], b[a.len() - 1]));
        let p = a.last().position;
        lemma_first_after(x, p);
        let f = first_after(x, p);
        assert forall|j: int| 0 <= j < f implies (#[trigger] y[j]).position <= p by {
            assert(same_content(x[j], y[j]));
        }
        if f < y.len() {
            assert(same_content(x[f], y[f]));
        }
        lemma_first_after_is(y, p, f);
        let xs = placed(x, a.last());
        let ys = placed(y, b.last());
        assert forall|i: int| 0 <= i < xs.len() implies same_content(#[trigger] xs[i], ys[i]) by {
            if i < f {
                assert(same_content(x[i], y[i]));
            } else if i > f {
                assert(same_content(x[i - 1], y[i - 1]));
            }
        }
    }
}

/// Where a row of the position `position` is put into `rows`.
fn insertion_place(rows: &Vec<Block>, position: i32) -> (j: usize)
    ensures
        j == first_after(rows@, position),
        j <= rows@.len(),
{
    let mut i: usize = 0;
    while i < rows.len() && rows[i].position <= position
        invariant
            i <= rows.len(),
            forall|k: int| 0 <= k < i ==> (#[trigger] rows@[k]).position <= position,
        decreases rows.len() - i,
    {
        i += 1;
    }
    proof {
        lemma_first_after_is(rows@, position, i as int);
    }
    i
}

/// The rows by rising position; rows of equal position keep their order.
pub fn in_position_order(rows: Vec<Block>) -> (r: Vec<Block>)
    ensures
        r@ == by_position(rows@),
{
    let mut out: Vec<Block> = Vec::new();
    let ghost all = rows@;
    assert(all.take(0) =~= Seq::<Block>::empty());
    for b in it: rows.into_iter()
        invariant
            it.seq() == all,
            out@ == by_position(all.take(it.index() as int)),
    {
        let ghost upto = all.take(it.index() + 1);
        proof {
            assert(upto.drop_last() =~= all.take(it.index() as int));
            assert(upto.last() == b);
        }
        let j = insertion_place(&out, b.position);
        out.insert(j, b);
    }
    assert(all.take(all.len() as int) =~= all);
    out
}

/// A notebook with its blocks as shown to a client: the blocks by rising
/// position, whatever the order in which storage returned them.
pub fn get_notebook_with_blocks(notebook: Notebook, blocks: Vec<Block>) -> (r: NotebookResponse)
    ensures
        r.meta == notebook,
        r.blocks@ == by_position(blocks@).map_values(|b: Block| shown_block(b)),
{
    let ordered = in_position_order(blocks);
    let mut shown: Vec<BlockResponse> = Vec::new();
    let ghost all = ordered@;
    for b in it: ordered.into_iter()
        invariant
            it.seq() == all,
            shown@ == all.map_values(|b: Block| shown_block(b)).take(it.index() as int),
    {
        shown.push(
            BlockResponse {
                id: b.id,
                title: b.title,
                block_type: b.block_type,
                content: b.content,
                language: b.language,
                metadata: b.metadata,
            },
        );
        assert(shown@ =~= all.map_values(|b: Block| shown_block(b)).take(it.index() + 1));
    }
    assert(shown@ =~= all.map_values(|b: Block| shown_block(b)));
    NotebookResponse { meta: notebook, blocks: shown }
}

/// The name shown as the owner of a public notebook: the team's if there
/// is one, else the user's, else `Desconhecido`.
pub fn owner_name(team_name: Option<String>, user_name: Option<String>) -> (r: String)
    ensures
        r@ == (match team_name {
            Some(t) => t@,
            None => match user_name {
                Some(u) => u@,
                None => "Desconhecido"@,
            },
        }),
{
    match team_name {
        Some(t) => t,
        None => match user_name {
            Some(u) => u,
            None => String::from_str("Desconhecido"),
        },
    }
}

/// A public notebook as listed.
pub open spec fn listed(row: PublicNotebookRow, r: PublicNotebookResponse) -> bool {
    &&& r.id == row.id
    &&& r.title == row.title
    &&& r.user_id == row.user_id
    &&& r.team_id == row.team_id
    &&& r.updated_at == row.updated_at
    &&& r.owner_name@ == (match row.team_name {
        Some(t) => t@,
        None => match row.user_name {
            Some(u) => u@,
            None => "Desconhecido"@,
        },
    })
}

/// The public notebooks as listed: one entry for each row, in the order in
/// which storage returned them, each with the name of its owner.
pub fn get_public_notebooks(rows: Vec<PublicNotebookRow>) -> (r: Vec<PublicNotebookResponse>)
    ensures
        r@.len() == rows@.len(),
        forall|i: int| 0 <= i < r@.len() ==> listed(rows@[i], #[trigger] r@[i]),
{
    let mut out: Vec<PublicNotebookResponse> = Vec::new();
    let ghost all = rows@;
    for row in it: rows.into_iter()
        invariant
            it.seq() == all,
            out@.len() == it.index(),
            forall|i: int| 0 <= i < out@.len() ==> listed(all[i], #[trigger] out@[i]),
    {
        let name = owner_name(row.team_name, row.user_name);
        out.push(
            PublicNotebookResponse {
                id: row.id,
                title: row.title,
                user_id: row.user_id,
                team_id: row.team_id,
                owner_name: name,
                updated_at: row.updated_at,
            },
        );
    }
    out
}

/// The pattern that a search for `q` looks for, if it looks at all: `q`
/// between two percent signs, unless `q` is empty or all white space.
pub fn search_term(q: &str) -> (r: Option<String>)
    ensures
        match r {
            Some(t) => trim(q@).len() > 0 && t@ == "%"@ + q@ + "%"@,
            None => trim(q@).len() == 0,
        },
{
    let chars = to_chars(q);
    let trimmed = trim_chars(&chars);
    if trimmed.len() == 0 {
        None
    } else {
        let mut t = String::from_str("%");
        t.append(q);
        t.append("%");
        Some(t)
    }
}

/// The hits of a search as shown: one for each row of notebook, title and
/// content, in the order in which storage returned them.
pub fn search_user_blocks(rows: Vec<(Id, String, String)>) -> (r: Vec<SearchResult>)
    ensures
        r@ == rows@.map_values(
            |row: (Id, String, String)| SearchResult { id: row.0, title: row.1, content: row.2 },
        ),
{
    let mut out: Vec<SearchResult> = Vec::new();
    let ghost all = rows@;
    let ghost goal = all.map_values(
        |row: (Id, String, String)| SearchResult { id: row.0, title: row.1, content: row.2 },
    );
    for row in it: rows.into_iter()
        invariant
            it.seq() == all,
            goal == all.map_values(
                |row: (Id, String, String)| SearchResult { id: row.0, title: row.1, content: row.2 },
            ),
            out@ == goal.take(it.index() as int),
    {
        out.push(SearchResult { id: row.0, title: row.1, content: row.2 });
        assert(out@ =~= goal.take(it.index() + 1));
    }
    assert(out@ =~= goal);
    out
}

/// The role behind a reference, if there is one.
pub open spec fn role_found(role: Option<&TeamRole>) -> Option<TeamRole> {
    match role {
        Some(r) => Some(*r),
        None => None,
    }
}

/// Whether the user `user_id` may rename, delete, show, hide or save
/// `notebook`: there is such a user, and the user owns the notebook, or the
/// notebook belongs to a team in which the user's role permits managing
/// privacy or managing the team.
pub open spec fn may_manage(user_id: Option<Id>, notebook: Notebook, role: Option<TeamRole>) -> bool {
    user_id is Some && (notebook.user_id == user_id || (notebook.team_id is Some && (
    role matches Some(r) && (r.can_manage_privacy || r.can_manage_team))))
}

/// Whether `notebook` is shown to the user `user_id`, or to someone who is
/// not logged in: it is public, or the user owns it, or it belongs to a team
/// in which the user's role permits reading.
pub open spec fn may_view(user_id: Option<Id>, notebook: Notebook, role: Option<TeamRole>) -> bool {
    notebook.is_public || (user_id is Some && (notebook.user_id == user_id || (
    notebook.team_id is Some && (role matches Some(r) && r.can_read))))
}

/// Lets a user through who may manage `notebook`; anyone else, and whoever
/// is not logged in, is told that the token is invalid. `role` is the
/// user's role in the team that owns the notebook, where there is such a
/// team and the user is a member of it.
pub fn is_notebook_owner(user_id: Option<Id>, notebook: &Notebook, role: Option<&TeamRole>) -> (r:
    Result<(), ApiError>)
    ensures
        r == (if may_manage(user_id, *notebook, role_found(role)) {
            Ok::<(), ApiError>(())
        } else {
            Err::<(), ApiError>(ApiError::InvalidAuthorizationToken)
        }),
{
    let user = match user_id {
        Some(user) => user,
        None => {
            return Err(ApiError::InvalidAuthorizationToken);
        },
    };
    let owns = match notebook.user_id {
        Some(owner) => owner == user,
        None => false,
    };
    if owns {
        return Ok(());
    }
    let by_team = match (notebook.team_id, role) {
        (Some(_), Some(r)) => r.can_manage_privacy || r.can_manage_team,
        _ => false,
    };
    if by_team {
        Ok(())
    } else {
        Err(ApiError::InvalidAuthorizationToken)
    }
}

/// Lets the user `user_id` rename, delete, show, hide or save a notebook
/// as [`is_notebook_owner`] decides.
pub fn authorize_manage(user_id: Id, notebook: &Notebook, role: Option<&TeamRole>) -> (r: Result<
    (),
    ApiError,
>)
    ensures
        r == (if may_manage(Some(user_id), *notebook, role_found(role)) {
            Ok::<(), ApiError>(())
        } else {
            Err::<(), ApiError>(ApiError::InvalidAuthorizationToken)
        }),
{
    is_notebook_owner(Some(user_id), notebook, role)
}

/// Lets anyone look at a public notebook; at any other notebook its owner,
/// and the members of the team that owns it whose role permits reading.
/// Anyone else is told that the token is invalid. `role` is the user's role
/// in the team that owns the notebook, where there is such a team and the
/// user is a member of it.
pub fn authorize_view(user_id: Option<Id>, notebook: &Notebook, role: Option<&TeamRole>) -> (r:
    Result<(), ApiError>)
    ensures
        r == (if may_view(user_id, *notebook, role_found(role)) {
            Ok::<(), ApiError>(())
        } else {
            Err::<(), ApiError>(ApiError::InvalidAuthorizationToken)
        }),
{
    if notebook.is_public {
        return Ok(());
    }
    let user = match user_id {
        Some(user) => user,
        None => {
            return Err(ApiError::InvalidAuthorizationToken);
        },
    };
    let owns = match notebook.user_id {
        Some(owner) => owner == user,
        None => false,
    };
    if owns {
        return Ok(());
    }
    let by_team = match (notebook.team_id, role) {
        (Some(_), Some(r)) => r.can_read,
        _ => false,
    };
    if by_team {
        Ok(())
    } else {
        Err(ApiError::InvalidAuthorizationToken)
    }
}

/// A public notebook is shown to anyone, also to someone who is not
/// logged in; the owner of a notebook may always look at it and manage it;
/// and a private notebook is shown to nobody who neither owns it nor has a
/// role that permits reading in the team that owns it.
pub proof fn lemma_public_and_owner_access(
    notebook: Notebook,
    user_id: Option<Id>,
    owner: Id,
    role: Option<TeamRole>,
)
    ensures
        notebook.is_public ==> may_view(user_id, notebook, role) && may_view(None, notebook, None),
        notebook.user_id == Some(owner) ==> may_view(Some(owner), notebook, role) && may_manage(
            Some(owner),
            notebook,
            role,
        ),
        !notebook.is_public && notebook.user_id != user_id && (role is None || !role->0.can_read)
            ==> !may_view(user_id, notebook, role),
        !may_manage(None, notebook, role),
{
}

/// No change to a notebook touches its identifier, its owner or the time
/// of its creation.
pub proof fn lemma_change_keeps_owner(notebook: Notebook, change: NotebookChange)
    ensures
        notebook.changed(change).id == notebook.id,
        notebook.changed(change).user_id == notebook.user_id,
        notebook.changed(change).team_id == notebook.team_id,
        notebook.changed(change).created_at == notebook.created_at,
        notebook.changed(change).well_owned() == notebook.well_owned(),
{
}

} // verus!
