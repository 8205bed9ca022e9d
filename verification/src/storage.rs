//! What the service writes to storage when a notebook is renamed, shown or
//! hidden, saved or copied, and what storage holds afterwards.
//!
//! The writes of one operation are carried out together or not at all.
//! [`Storage`] is what storage holds as far as notebooks and blocks go, and
//! [`written`] is what a write makes of it; the laws at the end are stated
//! over these.

use vstd::prelude::*;
use crate::clock::Timestamp;
use crate::ids::{fresh_id, Id};
use crate::notebook::{
    are_copies, by_position, clone_blocks, clone_change, copy_of, document_change, is_seed_block,
    lemma_order_keeps_contents, lemma_rising_rows_stay, positions_increase, rename_change,
    same_content, same_contents, seed_block, shown_block, stored_row, sync_change, sync_rows,
    visibility_change, Block, BlockRequest, BlockResponse, NewBlock, NewNotebook, Notebook,
    NotebookChange,
};

verus! {

/// One write to storage.
#[derive(Debug, Clone, PartialEq, Eq)]
pub enum NotebookWrite {
    /// The notebook is stored as created at `now`, unless one is there
    /// under its identifier.
    Create { notebook: NewNotebook, now: Timestamp },
    /// The notebook `id` is changed as `change` says, if it is there.
    Update { id: Id, change: NotebookChange },
    /// Every block of the notebook `notebook_id` is taken out.
    DeleteBlocks { notebook_id: Id },
    /// The rows are stored, after those that are there.
    InsertBlocks(Vec<NewBlock>),
}

/// One write to storage, the rows as a sequence.
pub enum WriteView {
    Create { notebook: NewNotebook, now: Timestamp },
    Update { id: Id, change: NotebookChange },
    DeleteBlocks { notebook_id: Id },
    InsertBlocks(Seq<NewBlock>),
}

impl View for NotebookWrite {
    type V = WriteView;

    open spec fn view(&self) -> WriteView {
        match self {
            NotebookWrite::Create { notebook, now } => WriteView::Create {
                notebook: *notebook,
                now: *now,
            },
            NotebookWrite::Update { id, change } => WriteView::Update { id: *id, change: *change },
            NotebookWrite::DeleteBlocks { notebook_id } => WriteView::DeleteBlocks {
                notebook_id: *notebook_id,
            },
            NotebookWrite::InsertBlocks(rows) => WriteView::InsertBlocks(rows@),
        }
    }
}

/// The writes of a list.
pub open spec fn write_views(ws: Seq<NotebookWrite>) -> Seq<WriteView> {
    ws.map_values(|w: NotebookWrite| w@)
}

/// What the creation of a notebook writes.
pub fn create_notebook(new_notebook: NewNotebook, now: Timestamp) -> (w: NotebookWrite)
    ensures
        w@ == (WriteView::Create { notebook: new_notebook, now }),
{
    NotebookWrite::Create { notebook: new_notebook, now }
}

/// What the creation of a block writes.
pub fn create_block(new_block: NewBlock) -> (w: NotebookWrite)
    ensures
        w@ == WriteView::InsertBlocks(seq![new_block]),
{
    let mut rows: Vec<NewBlock> = Vec::new();
    rows.push(new_block);
    assert(rows@ =~= seq![new_block]);
    NotebookWrite::InsertBlocks(rows)
}

/// What the creation of a notebook of the user `owner` writes: the
/// notebook `notebook`, then its first block `block`.
pub open spec fn creation_writes(notebook: NewNotebook, block: NewBlock, now: Timestamp) -> Seq<
    WriteView,
> {
    seq![WriteView::Create { notebook, now }, WriteView::InsertBlocks(seq![block])]
}

/// `notebook` is a new notebook of the user `owner` under the identifier
/// `id`.
pub open spec fn is_personal(notebook: NewNotebook, id: Id, owner: Id) -> bool {
    &&& notebook.id == id
    &&& notebook.user_id == Some(owner)
    &&& notebook.team_id is None
    &&& notebook.title@ == "Nova Página"@
}

/// `ws` are the writes that create a notebook of the user `owner` under
/// the identifier `id`, with its first block under `block_id`.
pub open spec fn is_creation(
    ws: Seq<WriteView>,
    id: Id,
    block_id: Id,
    owner: Id,
    now: Timestamp,
) -> bool {
    exists|notebook: NewNotebook, block: NewBlock| #[trigger]
        is_personal(notebook, id, owner) && #[trigger] is_seed_block(block, block_id, id) && ws
            == creation_writes(notebook, block, now)
}

/// The writes that create a notebook of the user `owner` under the
/// identifier `notebook_id`, with its first block under `block_id`.
pub fn create_personal_notebook(notebook_id: Id, block_id: Id, owner: Id, now: Timestamp) -> (r: Vec<
    NotebookWrite,
>)
    ensures
        is_creation(write_views(r@), notebook_id, block_id, owner, now),
{
    let notebook = NewNotebook::personal(notebook_id, owner);
    let block = seed_block(block_id, notebook_id);
    let mut writes: Vec<NotebookWrite> = Vec::new();
    writes.push(create_notebook(notebook, now));
    writes.push(create_block(block));
    assert(write_views(writes@) =~= creation_writes(notebook, block, now));
    assert(is_personal(notebook, notebook_id, owner) && is_seed_block(
        block,
        block_id,
        notebook_id,
    ));
    writes
}

/// The writes that create a notebook of the user `owner`, the notebook
/// and its first block each under an identifier drawn at random; the
/// notebook's identifier comes first in the result.
pub fn api_create_notebook(owner: Id, now: Timestamp) -> (r: (Id, Vec<NotebookWrite>))
    ensures
        exists|block_id: Id| #[trigger] is_creation(write_views(r.1@), r.0, block_id, owner, now),
{
    let notebook_id = fresh_id();
    let block_id = fresh_id();
    let writes = create_personal_notebook(notebook_id, block_id, owner, now);
    let r = (notebook_id, writes);
    assert(is_creation(write_views(r.1@), r.0, block_id, owner, now));
    r
}

/// The write that creates a notebook of the team `team` under an
/// identifier drawn at random, which comes first in the result.
pub fn api_create_team_page(team: Id, now: Timestamp) -> (r: (Id, NotebookWrite))
    ensures
        r.1@ matches WriteView::Create { notebook, now: at } && at == now && notebook.id == r.0
            && notebook.user_id is None && notebook.team_id == Some(team) && notebook.title@
            == "Nova Página"@ && notebook.well_owned(),
{
    let id = fresh_id();
    (id, create_notebook(NewNotebook::of_team(id, team), now))
}

/// What a rename writes.
pub fn update_notebook_title(param_id: Id, new_title: String, now: Timestamp) -> (w: NotebookWrite)
    ensures
        w@ == (WriteView::Update {
            id: param_id,
            change: NotebookChange {
                title: Some(new_title),
                is_public: None,
                document_data: None,
                updated_at: now,
            },
        }),
{
    NotebookWrite::Update { id: param_id, change: rename_change(new_title, now) }
}

/// What showing or hiding a notebook writes.
pub fn update_notebook_visibility(param_id: Id, is_visible: bool, now: Timestamp) -> (w:
    NotebookWrite)
    ensures
        w@ == visibility_write(param_id, is_visible, now),
{
    NotebookWrite::Update { id: param_id, change: visibility_change(is_visible, now) }
}

/// What showing or hiding a notebook writes.
pub open spec fn visibility_write(id: Id, is_visible: bool, now: Timestamp) -> WriteView {
    WriteView::Update {
        id,
        change: NotebookChange {
            title: None,
            is_public: Some(is_visible),
            document_data: None,
            updated_at: now,
        },
    }
}

/// What the end of an editing session writes: the document.
pub fn store_document(notebook_id: Id, data: Vec<u8>, now: Timestamp) -> (w: NotebookWrite)
    ensures
        w@ == (WriteView::Update {
            id: notebook_id,
            change: NotebookChange {
                title: None,
                is_public: None,
                document_data: Some(Some(data)),
                updated_at: now,
            },
        }),
{
    NotebookWrite::Update { id: notebook_id, change: document_change(data, now) }
}

/// What a save writes: the title and the visibility; then every block of
/// the notebook is taken out; then the new rows are stored, if there are
/// any.
pub open spec fn sync_writes(
    nb_id: Id,
    new_title: String,
    new_blocks: Seq<NewBlock>,
    set_is_public: bool,
    now: Timestamp,
) -> Seq<WriteView> {
    let head = seq![
        WriteView::Update {
            id: nb_id,
            change: NotebookChange {
                title: Some(new_title),
                is_public: Some(set_is_public),
                document_data: None,
                updated_at: now,
            },
        },
        WriteView::DeleteBlocks { notebook_id: nb_id },
    ];
    if new_blocks.len() > 0 {
        head.push(WriteView::InsertBlocks(new_blocks))
    } else {
        head
    }
}

/// The writes of a save, in the order in which they are carried out.
pub fn sync_notebook_content(
    nb_id: Id,
    new_title: String,
    new_blocks: Vec<NewBlock>,
    set_is_public: bool,
    now: Timestamp,
) -> (r: Vec<NotebookWrite>)
    ensures
        write_views(r@) == sync_writes(nb_id, new_title, new_blocks@, set_is_public, now),
{
    let mut writes: Vec<NotebookWrite> = Vec::new();
    writes.push(
        NotebookWrite::Update { id: nb_id, change: sync_change(new_title, set_is_public, now) },
    );
    writes.push(NotebookWrite::DeleteBlocks { notebook_id: nb_id });
    if new_blocks.len() > 0 {
        writes.push(NotebookWrite::InsertBlocks(new_blocks));
    }
    assert(write_views(writes@) =~= sync_writes(
        nb_id,
        new_title,
        new_blocks@,
        set_is_public,
        now,
    ));
    writes
}

/// What a copy writes to the new notebook: the new title with the
/// visibility and the document of the source; then every block of the new
/// notebook is taken out; then the copies are stored.
pub open spec fn clone_writes(
    target: Notebook,
    copies: Seq<NewBlock>,
    new_notebook_id: Id,
    new_title: String,
    now: Timestamp,
) -> Seq<WriteView> {
    seq![
        WriteView::Update {
            id: new_notebook_id,
            change: NotebookChange {
                title: Some(new_title),
                is_public: Some(target.is_public),
                document_data: Some(target.document_data),
                updated_at: now,
            },
        },
        WriteView::DeleteBlocks { notebook_id: new_notebook_id },
        WriteView::InsertBlocks(copies),
    ]
}

/// The writes of a copy of the notebook `target`, whose blocks are
/// `db_blocks`, into the notebook `new_notebook_id`, in the order in which
/// they are carried out. Each block is copied under an identifier drawn at
/// random.
pub fn clone_notebook(
    target: Notebook,
    db_blocks: Vec<Block>,
    new_notebook_id: Id,
    new_title: String,
    now: Timestamp,
) -> (r: Vec<NotebookWrite>)
    ensures
        exists|copies: Seq<NewBlock>| #[trigger]
            are_copies(copies, db_blocks@, new_notebook_id) && write_views(r@) == clone_writes(
                target,
                copies,
                new_notebook_id,
                new_title,
                now,
            ),
{
    let copies = clone_blocks(db_blocks, new_notebook_id);
    let ghost rows = copies@;
    let mut writes: Vec<NotebookWrite> = Vec::new();
    writes.push(
        NotebookWrite::Update { id: new_notebook_id, change: clone_change(target, new_title, now) },
    );
    writes.push(NotebookWrite::DeleteBlocks { notebook_id: new_notebook_id });
    writes.push(NotebookWrite::InsertBlocks(copies));
    assert(write_views(writes@) =~= clone_writes(target, rows, new_notebook_id, new_title, now));
    assert(are_copies(rows, db_blocks@, new_notebook_id));
    writes
}

/// What storage holds: the notebooks by their identifiers, and the blocks
/// in the order in which they were stored.
pub struct Storage {
    pub notebooks: Map<Id, Notebook>,
    pub blocks: Seq<Block>,
}

/// The blocks among `blocks` that belong to the notebook `notebook_id`, in
/// the same order.
pub open spec fn rows_of(blocks: Seq<Block>, notebook_id: Id) -> Seq<Block>
    decreases blocks.len(),
{
    if blocks.len() == 0 {
        Seq::empty()
    } else if blocks[0].notebook_id == notebook_id {
        seq![blocks[0]] + rows_of(blocks.drop_first(), notebook_id)
    } else {
        rows_of(blocks.drop_first(), notebook_id)
    }
}

/// The blocks among `blocks` that do not belong to the notebook
/// `notebook_id`, in the same order.
pub open spec fn rows_not_of(blocks: Seq<Block>, notebook_id: Id) -> Seq<Block>
    decreases blocks.len(),
{
    if blocks.len() == 0 {
        Seq::empty()
    } else if blocks[0].notebook_id != notebook_id {
        seq![blocks[0]] + rows_not_of(blocks.drop_first(), notebook_id)
    } else {
        rows_not_of(blocks.drop_first(), notebook_id)
    }
}

/// The rows as they stand in storage.
pub open spec fn stored_rows(rows: Seq<NewBlock>) -> Seq<Block> {
    rows.map_values(|r: NewBlock| stored_row(r))
}

/// What storage holds once `w` has been carried out.
pub open spec fn written(s: Storage, w: WriteView) -> Storage {
    match w {
        WriteView::Create { notebook, now } => if s.notebooks.contains_key(notebook.id) {
            s
        } else {
            Storage { notebooks: s.notebooks.insert(notebook.id, notebook.stored(now)), ..s }
        },
        WriteView::Update { id, change } => if s.notebooks.contains_key(id) {
            Storage { notebooks: s.notebooks.insert(id, s.notebooks[id].changed(change)), ..s }
        } else {
            s
        },
        WriteView::DeleteBlocks { notebook_id } => Storage {
            blocks: rows_not_of(s.blocks, notebook_id),
            ..s
        },
        WriteView::InsertBlocks(rows) => Storage { blocks: s.blocks + stored_rows(rows), ..s },
    }
}

/// What storage holds once the writes `ws` have been carried out in order.
pub open spec fn written_all(s: Storage, ws: Seq<WriteView>) -> Storage
    decreases ws.len(),
{
    if ws.len() == 0 {
        s
    } else {
        written_all(written(s, ws[0]), ws.drop_first())
    }
}

/// The blocks of the notebook `notebook_id` that storage holds, in the
/// order in which they were stored.
pub open spec fn blocks_of(s: Storage, notebook_id: Id) -> Seq<Block> {
    rows_of(s.blocks, notebook_id)
}

/// Every notebook that storage holds has exactly one owner.
pub open spec fn all_well_owned(s: Storage) -> bool {
    forall|id: Id| s.notebooks.contains_key(id) ==> (#[trigger] s.notebooks[id]).well_owned()
}

proof fn lemma_rows_of_add(a: Seq<Block>, b: Seq<Block>, n: Id)
    ensures
        rows_of(a + b, n) == rows_of(a, n) + rows_of(b, n),
    decreases a.len(),
{
    if a.len() == 0 {
        assert(a + b =~= b);
        assert(rows_of(a, n) + rows_of(b, n) =~= rows_of(b, n));
    } else {
        assert((a + b).drop_first() =~= a.drop_first() + b);
        lemma_rows_of_add(a.drop_first(), b, n);
        let rest = rows_of(a.drop_first(), n);
        assert((seq![a[0]] + rest) + rows_of(b, n) =~= seq![a[0]] + (rest + rows_of(b, n)));
    }
}

proof fn lemma_rows_after_delete(a: Seq<Block>, n: Id, m: Id)
    ensures
        rows_of(rows_not_of(a, n), m) == (if m == n {
            Seq::empty()
        } else {
            rows_of(a, m)
        }),
    decreases a.len(),
{
    if a.len() == 0 {
    } else {
        lemma_rows_after_delete(a.drop_first(), n, m);
        let rest = rows_not_of(a.drop_first(), n);
        if a[0].notebook_id != n {
            assert((seq![a[0]] + rest).drop_first() =~= rest);
        }
    }
}

proof fn lemma_rows_of_own(b: Seq<Block>, n: Id, m: Id)
    requires
        forall|i: int| 0 <= i < b.len() ==> (#[trigger] b[i]).notebook_id == n,
    ensures
        rows_of(b, m) == (if m == n {
            b
        } else {
            Seq::empty()
        }),
    decreases b.len(),
{
    if b.len() == 0 {
        assert(b =~= Seq::empty());
    } else {
        assert forall|i: int| 0 <= i < b.drop_first().len() implies (
        #[trigger] b.drop_first()[i]).notebook_id == n by {
            assert(b.drop_first()[i] == b[i + 1]);
        }
        lemma_rows_of_own(b.drop_first(), n, m);
        assert(b[0].notebook_id == n);
        if m == n {
            assert(seq![b[0]] + b.drop_first() =~= b);
        }
    }
}

/// What storage holds of blocks once every block of the notebook `n` has
/// been replaced by `rows`, all of which belong to `n`: `rows` for `n`, and
/// for any other notebook what it held.
proof fn lemma_replace_rows(blocks: Seq<Block>, rows: Seq<Block>, n: Id, m: Id)
    requires
        forall|i: int| 0 <= i < rows.len() ==> (#[trigger] rows[i]).notebook_id == n,
    ensures
        rows_of(rows_not_of(blocks, n) + rows, m) == (if m == n {
            rows
        } else {
            rows_of(blocks, m)
        }),
{
    lemma_rows_of_add(rows_not_of(blocks, n), rows, m);
    lemma_rows_after_delete(blocks, n, m);
    lemma_rows_of_own(rows, n, m);
    if m == n {
        assert(Seq::<Block>::empty() + rows =~= rows);
    } else {
        assert(rows_of(blocks, m) + Seq::<Block>::empty() =~= rows_of(blocks, m));
    }
}

/// After a save, storage holds for the notebook exactly the blocks that
/// were sent, in the order in which they were sent, the position of each
/// being its place in that order; the notebook has the title and the
/// visibility that were sent; the blocks of every other notebook are as they
/// were.
pub proof fn lemma_save_stores_exactly(
    s: Storage,
    nb_id: Id,
    new_title: String,
    blocks: Seq<BlockRequest>,
    set_is_public: bool,
    now: Timestamp,
    other: Id,
)
    requires
        blocks.len() <= i32::MAX,
    ensures
        ({
            let rows = sync_rows(nb_id, blocks);
            let after = written_all(s, sync_writes(nb_id, new_title, rows, set_is_public, now));
            &&& blocks_of(after, nb_id) == stored_rows(rows)
            &&& blocks_of(after, nb_id).len() == blocks.len()
            &&& forall|i: int|
                0 <= i < blocks.len() ==> (#[trigger] blocks_of(after, nb_id)[i]).position == i
            &&& positions_increase(blocks_of(after, nb_id))
            &&& other != nb_id ==> blocks_of(after, other) == blocks_of(s, other)
            &&& s.notebooks.contains_key(nb_id) ==> after.notebooks[nb_id].title == new_title
                && after.notebooks[nb_id].is_public == set_is_public
        }),
{
    let rows = sync_rows(nb_id, blocks);
    let ws = sync_writes(nb_id, new_title, rows, set_is_public, now);
    let s1 = written(s, ws[0]);
    let s2 = written(s1, ws[1]);
    assert(s1.blocks == s.blocks);
    assert(s2.blocks == rows_not_of(s.blocks, nb_id));
    let after = written_all(s, ws);
    let stored = stored_rows(rows);
    assert forall|i: int| 0 <= i < stored.len() implies (#[trigger] stored[i]).notebook_id
        == nb_id by {}
    if rows.len() > 0 {
        assert(ws.len() == 3);
        assert(ws.drop_first().drop_first().drop_first() =~= Seq::<WriteView>::empty());
        assert(ws.drop_first()[0] == ws[1]);
        assert(ws.drop_first().drop_first()[0] == ws[2]);
        reveal_with_fuel(written_all, 4);
        assert(after == written(s2, ws[2]));
        assert(after.blocks == s2.blocks + stored);
    } else {
        assert(ws.len() == 2);
        assert(ws.drop_first().drop_first() =~= Seq::<WriteView>::empty());
        assert(ws.drop_first()[0] == ws[1]);
        reveal_with_fuel(written_all, 3);
        assert(after == s2);
        assert(stored =~= Seq::<Block>::empty());
        assert(s2.blocks + stored =~= s2.blocks);
    }
    lemma_replace_rows(s.blocks, stored, nb_id, nb_id);
    lemma_replace_rows(s.blocks, stored, nb_id, other);
    assert forall|i: int| 0 <= i < blocks.len() implies (#[trigger] blocks_of(
        after,
        nb_id,
    )[i]).position == i by {
        assert(stored[i] == stored_row(rows[i]));
        assert(rows[i].position == i as i32);
    }
}

/// After a copy, the new notebook holds one block for each block of the
/// source, in the same order, each with the title, type, language, content,
/// metadata and position of the block it copies; it has the new title and
/// the visibility and the document of the source; the blocks of every other
/// notebook are as they were.
pub proof fn lemma_copy_keeps_content(
    s: Storage,
    target: Notebook,
    copies: Seq<NewBlock>,
    new_notebook_id: Id,
    new_title: String,
    now: Timestamp,
    other: Id,
)
    requires
        are_copies(copies, blocks_of(s, target.id), new_notebook_id),
        new_notebook_id != target.id,
    ensures
        ({
            let source = blocks_of(s, target.id);
            let after = written_all(
                s,
                clone_writes(target, copies, new_notebook_id, new_title, now),
            );
            let copy = blocks_of(after, new_notebook_id);
            &&& copy.len() == source.len()
            &&& forall|i: int|
                0 <= i < copy.len() ==> (#[trigger] copy[i]).title == source[i].title
                    && copy[i].block_type == source[i].block_type && copy[i].language
                    == source[i].language && copy[i].content == source[i].content
                    && copy[i].metadata == source[i].metadata && copy[i].position
                    == source[i].position
            &&& blocks_of(after, target.id) == source
            &&& other != new_notebook_id ==> blocks_of(after, other) == blocks_of(s, other)
            &&& s.notebooks.contains_key(new_notebook_id) ==> after.notebooks[new_notebook_id].title
                == new_title && after.notebooks[new_notebook_id].is_public == target.is_public
                && after.notebooks[new_notebook_id].document_data == target.document_data
        }),
{
    let ws = clone_writes(target, copies, new_notebook_id, new_title, now);
    let s1 = written(s, ws[0]);
    let s2 = written(s1, ws[1]);
    let after = written_all(s, ws);
    let stored = stored_rows(copies);
    assert(ws.drop_first().drop_first().drop_first() =~= Seq::<WriteView>::empty());
    assert(ws.drop_first()[0] == ws[1]);
    assert(ws.drop_first().drop_first()[0] == ws[2]);
    reveal_with_fuel(written_all, 4);
    assert(after == written(s2, ws[2]));
    assert(after.blocks == rows_not_of(s.blocks, new_notebook_id) + stored);
    assert forall|i: int| 0 <= i < stored.len() implies (#[trigger] stored[i]).notebook_id
        == new_notebook_id by {
        assert(stored[i] == stored_row(copies[i]));
    }
    lemma_replace_rows(s.blocks, stored, new_notebook_id, new_notebook_id);
    lemma_replace_rows(s.blocks, stored, new_notebook_id, target.id);
    lemma_replace_rows(s.blocks, stored, new_notebook_id, other);
    let source = blocks_of(s, target.id);
    let copy = blocks_of(after, new_notebook_id);
    assert forall|i: int| 0 <= i < copy.len() implies (#[trigger] copy[i]).title
        == source[i].title && copy[i].block_type == source[i].block_type && copy[i].language
        == source[i].language && copy[i].content == source[i].content && copy[i].metadata
        == source[i].metadata && copy[i].position == source[i].position by {
        assert(stored[i] == stored_row(copies[i]));
        assert(copies[i] == copy_of(source[i], copies[i].id, new_notebook_id));
    }
}

/// After a save, the notebook is shown with exactly the blocks that were
/// sent, in the order in which they were sent, and the positions of the
/// blocks behind what is shown increase from each to the next.
pub proof fn lemma_saved_blocks_are_shown_as_sent(
    s: Storage,
    nb_id: Id,
    new_title: String,
    blocks: Seq<BlockRequest>,
    set_is_public: bool,
    now: Timestamp,
)
    requires
        blocks.len() <= i32::MAX,
    ensures
        ({
            let rows = sync_rows(nb_id, blocks);
            let after = written_all(s, sync_writes(nb_id, new_title, rows, set_is_public, now));
            &&& by_position(blocks_of(after, nb_id)) == stored_rows(rows)
            &&& positions_increase(by_position(blocks_of(after, nb_id)))
        }),
{
    lemma_save_stores_exactly(s, nb_id, new_title, blocks, set_is_public, now, nb_id);
    let rows = sync_rows(nb_id, blocks);
    let after = written_all(s, sync_writes(nb_id, new_title, rows, set_is_public, now));
    lemma_rising_rows_stay(blocks_of(after, nb_id));
}

/// A copy is shown as its source is, but for the identifiers: as many
/// blocks, and each with the title, type, content, language and metadata of
/// the block shown at the same place of the source.
pub proof fn lemma_copy_is_shown_as_source(
    s: Storage,
    target: Notebook,
    copies: Seq<NewBlock>,
    new_notebook_id: Id,
    new_title: String,
    now: Timestamp,
)
    requires
        are_copies(copies, blocks_of(s, target.id), new_notebook_id),
        new_notebook_id != target.id,
    ensures
        ({
            let after = written_all(
                s,
                clone_writes(target, copies, new_notebook_id, new_title, now),
            );
            let of_source = by_position(blocks_of(after, target.id));
            let of_copy = by_position(blocks_of(after, new_notebook_id));
            &&& same_contents(of_copy, of_source)
            &&& forall|i: int|
                0 <= i < of_copy.len() ==> #[trigger] shown_block(of_copy[i]) == (BlockResponse {
                    id: of_copy[i].id,
                    ..shown_block(of_source[i])
                })
        }),
{
    lemma_copy_keeps_content(s, target, copies, new_notebook_id, new_title, now, target.id);
    let after = written_all(s, clone_writes(target, copies, new_notebook_id, new_title, now));
    let source = blocks_of(after, target.id);
    let copy = blocks_of(after, new_notebook_id);
    assert(same_contents(copy, source)) by {
        assert forall|i: int| 0 <= i < copy.len() implies same_content(
            #[trigger] copy[i],
            source[i],
        ) by {
            assert(copy[i].title == source[i].title);
        }
    }
    lemma_order_keeps_contents(copy, source);
    let of_source = by_position(source);
    let of_copy = by_position(copy);
    assert forall|i: int| 0 <= i < of_copy.len() implies #[trigger] shown_block(of_copy[i]) == (
    BlockResponse { id: of_copy[i].id, ..shown_block(of_source[i]) }) by {
        assert(same_content(of_copy[i], of_source[i]));
    }
}

/// Showing or hiding a notebook twice with the same value leaves storage
/// as doing it once, at the time of the second.
pub proof fn lemma_visibility_twice(
    s: Storage,
    id: Id,
    is_visible: bool,
    first: Timestamp,
    second: Timestamp,
)
    ensures
        written(written(s, visibility_write(id, is_visible, first)), visibility_write(
            id,
            is_visible,
            second,
        )) == written(s, visibility_write(id, is_visible, second)),
{
    let once = written(s, visibility_write(id, is_visible, second));
    let mid = written(s, visibility_write(id, is_visible, first));
    let twice = written(mid, visibility_write(id, is_visible, second));
    if s.notebooks.contains_key(id) {
        assert(twice.notebooks =~= once.notebooks);
    }
}

/// Every notebook has exactly one owner: if that holds before a write, and
/// the write creates no notebook that has none or two, it holds after.
pub proof fn lemma_writes_keep_owners(s: Storage, w: WriteView)
    requires
        all_well_owned(s),
        w matches WriteView::Create { notebook, .. } ==> notebook.well_owned(),
    ensures
        all_well_owned(written(s, w)),
{
    let after = written(s, w);
    assert forall|id: Id| after.notebooks.contains_key(id) implies (
    #[trigger] after.notebooks[id]).well_owned() by {
        if s.notebooks.contains_key(id) {
            assert(s.notebooks[id].well_owned());
        }
    }
}

/// After the creation of a notebook of a user under an identifier that
/// was free, storage holds the notebook: it belongs to that user and to no
/// team, is titled `Nova Página`, is private and has no document; and it
/// holds the notebook's first block after the blocks that were there.
pub proof fn lemma_creation_stores(
    s: Storage,
    notebook: NewNotebook,
    block: NewBlock,
    id: Id,
    owner: Id,
    now: Timestamp,
)
    requires
        is_personal(notebook, id, owner),
        is_seed_block(block, block.id, id),
        !s.notebooks.contains_key(id),
    ensures
        ({
            let after = written_all(s, creation_writes(notebook, block, now));
            &&& after.notebooks.contains_key(id)
            &&& after.notebooks[id].well_owned()
            &&& after.notebooks[id].user_id == Some(owner)
            &&& after.notebooks[id].title@ == "Nova Página"@
            &&& !after.notebooks[id].is_public
            &&& after.notebooks[id].document_data is None
            &&& blocks_of(after, id) == blocks_of(s, id) + seq![stored_row(block)]
        }),
{
    let ws = creation_writes(notebook, block, now);
    assert(ws.drop_first().drop_first() =~= Seq::<WriteView>::empty());
    assert(ws.drop_first()[0] == ws[1]);
    reveal_with_fuel(written_all, 3);
    let s1 = written(s, ws[0]);
    let after = written_all(s, ws);
    assert(after == written(s1, ws[1]));
    assert(stored_rows(seq![block]) =~= seq![stored_row(block)]);
    lemma_rows_of_add(s.blocks, seq![stored_row(block)], id);
    let one = seq![stored_row(block)];
    assert(one.drop_first() =~= Seq::<Block>::empty());
    assert(one[0].notebook_id == id);
    assert(rows_of(one.drop_first(), id) =~= Seq::<Block>::empty());
    assert(rows_of(one, id) =~= one);
}

} // verus!
