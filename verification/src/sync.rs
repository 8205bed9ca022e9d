//! The shared state of one notebook that is being edited: the document and
//! the sessions that follow it.
//!
//! The document is an `automerge::AutoCommit`. This crate never edits it by
//! itself: it loads it, lets the messages of the sessions that may write
//! reach it, and saves it. What is said of a document below is said of the
//! bytes that saving it yields.

use vstd::prelude::*;
use crate::ids::{fresh_id, variant_of, version_of, Id};
use crate::notebook::NotebookPermission;

verus! {

/// Declares `automerge::AutoCommit`, a document, as a type whose inside is
/// not looked at.
#[verifier::external_type_specification]
#[verifier::external_body]
pub struct ExAutoCommit(automerge::AutoCommit);

/// Declares `automerge::sync::State`, what is known of what one peer has,
/// as a type whose inside is not looked at.
#[verifier::external_type_specification]
#[verifier::external_body]
pub struct ExSyncState(automerge::sync::State);

/// Declares `automerge::sync::Message`, one message of the
/// synchronisation protocol, as a type whose inside is not looked at.
#[verifier::external_type_specification]
#[verifier::external_body]
pub struct ExSyncMessage(automerge::sync::Message);

/// The bytes that `AutoCommit::save` yields for a document. This crate
/// makes documents only by loading them and by letting messages reach them,
/// so that a document never holds changes that are not committed.
pub uninterp spec fn saved_image(doc: automerge::AutoCommit) -> Seq<u8>;

/// The bytes that saving yields for the document that `AutoCommit::load`
/// makes of `data`; none where `data` cannot be loaded.
pub uninterp spec fn loaded_image(data: Seq<u8>) -> Option<Seq<u8>>;

/// The message that `Message::decode` reads from `data`; none where
/// `data` is no message of the synchronisation protocol.
pub uninterp spec fn decoded(data: Seq<u8>) -> Option<automerge::sync::Message>;

/// The bytes that `Message::encode` writes for a message.
pub uninterp spec fn encoded(message: automerge::sync::Message) -> Seq<u8>;

/// What `SyncDoc::generate_sync_message` makes of a document and of what
/// is known of a peer: the message that it offers the peer, if it offers
/// one, and what is known of the peer afterwards.
pub uninterp spec fn offer(doc: automerge::AutoCommit, state: automerge::sync::State) -> (
    Option<automerge::sync::Message>,
    automerge::sync::State,
);

/// What `SyncDoc::receive_sync_message` makes of a document, of what is
/// known of a peer and of a message from that peer: the document and what
/// is known of the peer afterwards.
pub uninterp spec fn receipt(
    doc: automerge::AutoCommit,
    state: automerge::sync::State,
    message: automerge::sync::Message,
) -> (automerge::AutoCommit, automerge::sync::State);

/// Whether `data` is a message of the synchronisation protocol.
pub open spec fn is_sync_message(data: Seq<u8>) -> bool {
    decoded(data) is Some
}

/// Calls `AutoCommit::new`. The document is empty, as the one that loading
/// no bytes at all gives.
#[verifier::external_body]
fn new_document() -> (doc: automerge::AutoCommit)
    ensures
        Some(saved_image(doc)) == loaded_image(Seq::<u8>::empty()),
{
    automerge::AutoCommit::new()
}

/// Calls `AutoCommit::load`. What the document saves to depends on the
/// bytes alone and is named [`loaded_image`].
#[verifier::external_body]
fn load_document(data: &Vec<u8>) -> (r: Option<automerge::AutoCommit>)
    ensures
        match r {
            Some(doc) => loaded_image(data@) == Some(saved_image(doc)),
            None => loaded_image(data@) is None,
        },
{
    automerge::AutoCommit::load(data).ok()
}

/// Calls `AutoCommit::save`, which leaves what the document saves to as it
/// was.
#[verifier::external_body]
fn save_document(doc: &mut automerge::AutoCommit) -> (bytes: Vec<u8>)
    ensures
        bytes@ == saved_image(*old(doc)),
        saved_image(*final(doc)) == saved_image(*old(doc)),
{
    doc.save()
}

/// Calls `AutoCommit::fork`. The copy saves to the same bytes as the
/// document, and the document, which holds no changes that are not
/// committed, is left as it is.
#[verifier::external_body]
fn fork_document(doc: &mut automerge::AutoCommit) -> (copy: automerge::AutoCommit)
    ensures
        saved_image(copy) == saved_image(*old(doc)),
        *final(doc) == *old(doc),
{
    doc.fork()
}

/// Calls `State::new`: the state of a peer of whom nothing is known yet.
#[verifier::external_body]
fn new_sync_state() -> (state: automerge::sync::State) {
    automerge::sync::State::new()
}

/// `bytes` begin as a message of the synchronisation protocol does: with
/// the byte 0x42 or the byte 0x43, which tell the version of the message.
pub open spec fn begins_as_message(bytes: Seq<u8>) -> bool {
    bytes.len() > 0 && (bytes[0] == 0x42 || bytes[0] == 0x43)
}

/// Calls `Message::decode`. What is read depends on the bytes alone and
/// is named [`decoded`]; a message begins with the byte 0x42 or 0x43.
#[verifier::external_body]
fn decode_sync_message(data: &Vec<u8>) -> (r: Option<automerge::sync::Message>)
    ensures
        r == decoded(data@),
        r is Some ==> begins_as_message(data@),
{
    automerge::sync::Message::decode(data).ok()
}

/// Calls `Message::encode`, which writes the byte that tells the version
/// of the message, 0x42 or 0x43, and then the rest of the message. What is
/// written depends on the message alone and is named [`encoded`].
#[verifier::external_body]
fn encode_sync_message(message: automerge::sync::Message) -> (bytes: Vec<u8>)
    ensures
        bytes@ == encoded(message),
        begins_as_message(bytes@),
{
    message.encode()
}

/// Calls `SyncDoc::receive_sync_message` on `AutoCommit::sync`, and says
/// whether the message was taken without error. What becomes of the
/// document and of what is known of the peer depends on the three
/// arguments alone and is named [`receipt`].
#[verifier::external_body]
fn receive_sync_message(
    doc: &mut automerge::AutoCommit,
    state: &mut automerge::sync::State,
    message: automerge::sync::Message,
) -> (ok: bool)
    ensures
        *final(doc) == receipt(*old(doc), *old(state), message).0,
        *final(state) == receipt(*old(doc), *old(state), message).1,
{
    automerge::sync::SyncDoc::receive_sync_message(&mut doc.sync(), state, message).is_ok()
}

/// Calls `SyncDoc::generate_sync_message` on `AutoCommit::sync`. The
/// message offered and what is known of the peer afterwards depend on the
/// two arguments alone and are named [`offer`]; the document, which holds no
/// changes that are not committed, is left as it is.
#[verifier::external_body]
fn generate_sync_message(doc: &mut automerge::AutoCommit, state: &mut automerge::sync::State) -> (r:
    Option<automerge::sync::Message>)
    ensures
        r == offer(*old(doc), *old(state)).0,
        *final(state) == offer(*old(doc), *old(state)).1,
        *final(doc) == *old(doc),
{
    automerge::sync::SyncDoc::generate_sync_message(&doc.sync(), state)
}

/// `s` without any occurrence of `id`.
pub open spec fn without(s: Seq<Id>, id: Id) -> Seq<Id>
    decreases s.len(),
{
    if s.len() == 0 {
        Seq::empty()
    } else if s[0] == id {
        without(s.drop_first(), id)
    } else {
        seq![s[0]] + without(s.drop_first(), id)
    }
}

/// The identifier under which a session is known: the user's where the
/// session has a user, else one drawn at random.
pub fn session_id(user_id: Option<Id>) -> (r: Id)
    ensures
        user_id matches Some(u) ==> r == u,
        user_id is None ==> version_of(r) == 4 && variant_of(r) == 2,
{
    match user_id {
        Some(u) => u,
        None => fresh_id(),
    }
}

/// What becomes of a frame that a session sent.
#[derive(Clone, Copy, PartialEq, Eq, Structural, Debug)]
pub enum FrameTarget {
    /// It is ignored: it is no message, or its sender is not subscribed.
    Ignored,
    /// It is applied to the shared document.
    Shared,
    /// It is applied to a copy of the shared document, which is then
    /// dropped.
    Copy,
}

/// Decides what becomes of a frame: a frame that is a message from a
/// subscribed session reaches the shared document if the session may write,
/// and a copy of it otherwise.
pub fn route_frame(permission: NotebookPermission, is_message: bool, subscribed: bool) -> (r:
    FrameTarget)
    ensures
        r == (if !is_message || !subscribed {
            FrameTarget::Ignored
        } else if permission == NotebookPermission::OwnerOrTeam {
            FrameTarget::Shared
        } else {
            FrameTarget::Copy
        }),
{
    if !is_message || !subscribed {
        FrameTarget::Ignored
    } else {
        match permission {
            NotebookPermission::OwnerOrTeam => FrameTarget::Shared,
            NotebookPermission::Viewer => FrameTarget::Copy,
        }
    }
}

/// The recipients of a list of outbound messages.
pub open spec fn recipients(outbox: Seq<(Id, Vec<u8>)>) -> Seq<Id> {
    outbox.map_values(|m: (Id, Vec<u8>)| m.0)
}

/// `picked` holds sessions of `from` in the order in which they stand
/// there, each place of `from` taken at most once.
pub open spec fn in_order_of(picked: Seq<Id>, from: Seq<Id>) -> bool
    decreases from.len(),
{
    if picked.len() == 0 {
        true
    } else if from.len() == 0 {
        false
    } else {
        (picked.last() == from.last() && in_order_of(picked.drop_last(), from.drop_last()))
            || in_order_of(picked, from.drop_last())
    }
}

/// `picked` is made of `rounds` parts that follow one another, each of
/// which holds sessions of `from` in the order in which they stand there.
pub open spec fn in_rounds(picked: Seq<Id>, from: Seq<Id>, rounds: nat) -> bool
    decreases rounds,
{
    if rounds == 0 {
        picked.len() == 0
    } else {
        exists|k: int|
            #![trigger picked.take(k)]
            0 <= k <= picked.len() && in_rounds(picked.take(k), from, (rounds - 1) as nat)
                && in_order_of(picked.skip(k), from)
    }
}

/// Every message of `outbox` begins as a message of the synchronisation
/// protocol does.
pub open spec fn all_messages(outbox: Seq<(Id, Vec<u8>)>) -> bool {
    forall|k: int| 0 <= k < outbox.len() ==> begins_as_message((#[trigger] outbox[k]).1@)
}

/// What is picked in order from a list is no longer than the list, and
/// every session picked stands in the list.
pub proof fn lemma_in_order_of(picked: Seq<Id>, from: Seq<Id>)
    requires
        in_order_of(picked, from),
    ensures
        picked.len() <= from.len(),
        forall|k: int| 0 <= k < picked.len() ==> from.contains(#[trigger] picked[k]),
    decreases from.len(),
{
    if picked.len() > 0 {
        let shorter = from.drop_last();
        if picked.last() == from.last() && in_order_of(picked.drop_last(), shorter) {
            lemma_in_order_of(picked.drop_last(), shorter);
            assert forall|k: int| 0 <= k < picked.len() implies from.contains(
                #[trigger] picked[k],
            ) by {
                if k < picked.len() - 1 {
                    assert(picked.drop_last()[k] == picked[k]);
                    let j = choose|j: int| 0 <= j < shorter.len() && shorter[j] == picked[k];
                    assert(from[j] == picked[k]);
                } else {
                    assert(from[from.len() - 1] == picked[k]);
                }
            }
        } else {
            lemma_in_order_of(picked, shorter);
            assert forall|k: int| 0 <= k < picked.len() implies from.contains(
                #[trigger] picked[k],
            ) by {
                let j = choose|j: int| 0 <= j < shorter.len() && shorter[j] == picked[k];
                assert(from[j] == picked[k]);
            }
        }
    }
}

/// What is picked in rounds from a list holds only sessions of the list,
/// and at most as many as the list holds for each round.
pub proof fn lemma_in_rounds(picked: Seq<Id>, from: Seq<Id>, rounds: nat)
    requires
        in_rounds(picked, from, rounds),
    ensures
        picked.len() <= rounds * from.len(),
        forall|k: int| 0 <= k < picked.len() ==> from.contains(#[trigger] picked[k]),
    decreases rounds,
{
    if rounds > 0 {
        let earlier = (rounds - 1) as nat;
        let k = choose|k: int|
            #![trigger picked.take(k)]
            0 <= k <= picked.len() && in_rounds(picked.take(k), from, earlier) && in_order_of(
                picked.skip(k),
                from,
            );
        lemma_in_rounds(picked.take(k), from, earlier);
        lemma_in_order_of(picked.skip(k), from);
        assert(picked.len() == picked.take(k).len() + picked.skip(k).len());
        assert(picked.len() <= rounds * from.len()) by (nonlinear_arith)
            requires
                picked.len() == picked.take(k).len() + picked.skip(k).len(),
                picked.take(k).len() <= (rounds - 1) * from.len(),
                picked.skip(k).len() <= from.len(),
                rounds > 0,
        ;
        assert forall|j: int| 0 <= j < picked.len() implies from.contains(#[trigger] picked[j]) by {
            if j < k {
                assert(picked.take(k)[j] == picked[j]);
            } else {
                assert(picked.skip(k)[j - k] == picked[j]);
            }
        }
    }
}

/// Queues `message` for `recipient` if there is one.
pub fn enqueue(outbox: &mut Vec<(Id, Vec<u8>)>, recipient: Id, message: Option<Vec<u8>>)
    ensures
        final(outbox)@ == (match message {
            Some(bytes) => old(outbox)@.push((recipient, bytes)),
            None => old(outbox)@,
        }),
{
    match message {
        Some(bytes) => {
            outbox.push((recipient, bytes));
        },
        None => {},
    }
}

/// `states` without those that stand where `id` stands in `ids`.
pub open spec fn kept_states(
    ids: Seq<Id>,
    states: Seq<automerge::sync::State>,
    id: Id,
) -> Seq<automerge::sync::State>
    decreases ids.len(),
{
    if ids.len() == 0 || states.len() != ids.len() {
        Seq::empty()
    } else if ids[0] == id {
        kept_states(ids.drop_first(), states.drop_first(), id)
    } else {
        seq![states[0]] + kept_states(ids.drop_first(), states.drop_first(), id)
    }
}

/// The first place at which `id` stands in `ids`, or the length of `ids`
/// if it stands nowhere.
pub open spec fn position(ids: Seq<Id>, id: Id) -> int
    decreases ids.len(),
{
    if ids.len() == 0 || ids[0] == id {
        0
    } else {
        1 + position(ids.drop_first(), id)
    }
}

/// The first place of `id` is where a look from the front first meets it.
pub proof fn lemma_position_is(ids: Seq<Id>, id: Id, i: int)
    requires
        0 <= i <= ids.len(),
        forall|j: int| 0 <= j < i ==> ids[j] != id,
        i < ids.len() ==> ids[i] == id,
    ensures
        position(ids, id) == i,
    decreases ids.len(),
{
    if ids.len() == 0 || ids[0] == id {
        if i > 0 {
            assert(ids[0] != id);
        }
    } else {
        let rest = ids.drop_first();
        assert(i > 0);
        assert forall|j: int| 0 <= j < i - 1 implies rest[j] != id by {
            assert(rest[j] == ids[j + 1]);
        }
        if i - 1 < rest.len() {
            assert(rest[i - 1] == ids[i]);
        }
        lemma_position_is(rest, id, i - 1);
    }
}

/// What is left of a list of sessions once one session is taken out of it
/// holds that session nowhere and every other session as often as before;
/// so a list that holds no session twice is left as such a list.
pub proof fn lemma_without(s: Seq<Id>, id: Id)
    ensures
        !without(s, id).contains(id),
        forall|x: Id| #[trigger] without(s, id).contains(x) ==> s.contains(x),
        s.no_duplicates() ==> without(s, id).no_duplicates(),
    decreases s.len(),
{
    if s.len() > 0 {
        let rest = s.drop_first();
        lemma_without(rest, id);
        let w = without(rest, id);
        assert forall|x: Id| without(s, id).contains(x) implies s.contains(x) by {
            let k = choose|k: int| 0 <= k < without(s, id).len() && without(s, id)[k] == x;
            if s[0] != id && k == 0 {
                assert(s[0] == x);
            } else {
                let kk = if s[0] != id {
                    k - 1
                } else {
                    k
                };
                assert(w[kk] == x);
                assert(w.contains(x));
                assert(rest.contains(x));
                let j = choose|j: int| 0 <= j < rest.len() && rest[j] == x;
                assert(s[j + 1] == x);
            }
        }
        if s[0] != id {
            let kept = seq![s[0]] + w;
            if kept.contains(id) {
                let k = choose|k: int| 0 <= k < kept.len() && kept[k] == id;
                assert(w[k - 1] == id);
            }
            if s.no_duplicates() {
                assert forall|a: int, b: int| 0 <= a < rest.len() && 0 <= b < rest.len() && a
                    != b implies rest[a] != rest[b] by {
                    assert(rest[a] == s[a + 1] && rest[b] == s[b + 1]);
                }
                assert(rest.no_duplicates());
                assert forall|a: int, b: int| 0 <= a < kept.len() && 0 <= b < kept.len() && a
                    != b implies kept[a] != kept[b] by {
                    if a > 0 && b > 0 {
                        assert(kept[a] == w[a - 1] && kept[b] == w[b - 1]);
                    } else {
                        let other = if a == 0 {
                            b
                        } else {
                            a
                        };
                        assert(kept[other] == w[other - 1]);
                        if w[other - 1] == s[0] {
                            assert(w.contains(s[0]));
                            assert(rest.contains(s[0]));
                            let j = choose|j: int| 0 <= j < rest.len() && rest[j] == s[0];
                            assert(s[j + 1] == s[0]);
                        }
                    }
                }
            }
        } else {
            if s.no_duplicates() {
                assert forall|a: int, b: int| 0 <= a < rest.len() && 0 <= b < rest.len() && a
                    != b implies rest[a] != rest[b] by {
                    assert(rest[a] == s[a + 1] && rest[b] == s[b + 1]);
                }
                assert(rest.no_duplicates());
            }
        }
    }
}

/// A list of outbound messages as plain values.
pub open spec fn outbox_view(outbox: Seq<(Id, Vec<u8>)>) -> Seq<(Id, Seq<u8>)> {
    outbox.map_values(|m: (Id, Vec<u8>)| (m.0, m.1@))
}

/// The bytes of the message that a peer is offered, if it is offered one.
pub open spec fn offered(doc: automerge::AutoCommit, state: automerge::sync::State) -> Option<
    Seq<u8>,
> {
    match offer(doc, state).0 {
        Some(message) => Some(encoded(message)),
        None => None,
    }
}

/// The messages that the sessions `ids`, of whose peers `states` is known,
/// are offered of the document `doc`: for each session in order the message
/// offered to it, if one is.
pub open spec fn offers(
    doc: automerge::AutoCommit,
    ids: Seq<Id>,
    states: Seq<automerge::sync::State>,
) -> Seq<(Id, Seq<u8>)>
    decreases ids.len(),
{
    if ids.len() == 0 || states.len() != ids.len() {
        Seq::empty()
    } else {
        let earlier = offers(doc, ids.drop_last(), states.drop_last());
        match offered(doc, states.last()) {
            Some(bytes) => earlier.push((ids.last(), bytes)),
            None => earlier,
        }
    }
}

/// What is known of the peers once each has been offered a message of the
/// document `doc`.
pub open spec fn states_after_offers(
    doc: automerge::AutoCommit,
    states: Seq<automerge::sync::State>,
) -> Seq<automerge::sync::State> {
    Seq::new(states.len(), |i: int| offer(doc, states[i]).1)
}

/// What a frame makes of the document and of what is known of the peers,
/// before anyone is offered a message. A frame that is no message, or whose
/// sender is not subscribed, changes nothing. A message from a session that
/// may write is received by the document. A message from a session that
/// only views is received by `copy`; the document is left as it is, and only
/// what is known of the sender's peer moves on.
pub open spec fn frame_effect(
    doc: automerge::AutoCommit,
    ids: Seq<Id>,
    states: Seq<automerge::sync::State>,
    sender: Id,
    data: Seq<u8>,
    permission: NotebookPermission,
    copy: automerge::AutoCommit,
) -> (automerge::AutoCommit, Seq<automerge::sync::State>) {
    let at = position(ids, sender);
    if decoded(data) is Some && ids.contains(sender) {
        if permission == NotebookPermission::OwnerOrTeam {
            let received = receipt(doc, states[at], decoded(data)->0);
            (received.0, states.update(at, received.1))
        } else {
            (doc, states.update(at, receipt(copy, states[at], decoded(data)->0).1))
        }
    } else {
        (doc, states)
    }
}

/// Whether `after_doc`, `after_states` and `out` are what taking in one
/// frame leads to: what the frame makes of the document and the peers, as
/// [`frame_effect`] says with `copy` a copy of the document, and then each
/// session offered a message of the document in order, as [`offers`] says.
pub open spec fn processed(
    doc: automerge::AutoCommit,
    ids: Seq<Id>,
    states: Seq<automerge::sync::State>,
    sender: Id,
    data: Seq<u8>,
    permission: NotebookPermission,
    copy: automerge::AutoCommit,
    after_doc: automerge::AutoCommit,
    after_states: Seq<automerge::sync::State>,
    out: Seq<(Id, Seq<u8>)>,
) -> bool {
    let effect = frame_effect(doc, ids, states, sender, data, permission, copy);
    &&& saved_image(copy) == saved_image(doc)
    &&& after_doc == effect.0
    &&& after_states == states_after_offers(effect.0, effect.1)
    &&& out == offers(effect.0, ids, effect.1)
}

/// The frames of a list as plain values.
pub open spec fn frame_views(frames: Seq<Vec<u8>>) -> Seq<Seq<u8>> {
    frames.map_values(|f: Vec<u8>| f@)
}

/// What taking in the frames one after the other makes of the document,
/// of what is known of the peers and of the messages to send on: each frame
/// as [`frame_effect`] and [`offers`] say, the messages of one frame
/// following those of the frame before. `copies` holds, for each frame, the
/// copy of the document that receives the frame of a session that only
/// views.
pub open spec fn after_frames(
    doc: automerge::AutoCommit,
    ids: Seq<Id>,
    states: Seq<automerge::sync::State>,
    sender: Id,
    frames: Seq<Seq<u8>>,
    permission: NotebookPermission,
    copies: Seq<automerge::AutoCommit>,
) -> (automerge::AutoCommit, Seq<automerge::sync::State>, Seq<(Id, Seq<u8>)>)
    decreases frames.len(),
{
    if frames.len() == 0 || copies.len() != frames.len() {
        (doc, states, Seq::empty())
    } else {
        let before = after_frames(
            doc,
            ids,
            states,
            sender,
            frames.drop_last(),
            permission,
            copies.drop_last(),
        );
        let effect = frame_effect(
            before.0,
            ids,
            before.1,
            sender,
            frames.last(),
            permission,
            copies.last(),
        );
        (
            effect.0,
            states_after_offers(effect.0, effect.1),
            before.2 + offers(effect.0, ids, effect.1),
        )
    }
}

/// Whether `after_doc`, `after_states` and `out` are what taking in the
/// frames one after the other leads to, as [`after_frames`] says, with one
/// copy of the document for each frame; where the sender only views, each
/// of them saves to what the document saves to.
pub open spec fn frames_processed(
    doc: automerge::AutoCommit,
    ids: Seq<Id>,
    states: Seq<automerge::sync::State>,
    sender: Id,
    frames: Seq<Seq<u8>>,
    permission: NotebookPermission,
    copies: Seq<automerge::AutoCommit>,
    after_doc: automerge::AutoCommit,
    after_states: Seq<automerge::sync::State>,
    out: Seq<(Id, Seq<u8>)>,
) -> bool {
    &&& copies.len() == frames.len()
    &&& permission == NotebookPermission::Viewer ==> forall|i: int|
        0 <= i < copies.len() ==> saved_image(#[trigger] copies[i]) == saved_image(doc)
    &&& (after_doc, after_states, out) == after_frames(
        doc,
        ids,
        states,
        sender,
        frames,
        permission,
        copies,
    )
}

/// Frames of a session that only views leave the document as it is,
/// however many they are and whatever they hold.
pub proof fn lemma_viewer_frames_leave_document(
    doc: automerge::AutoCommit,
    ids: Seq<Id>,
    states: Seq<automerge::sync::State>,
    sender: Id,
    frames: Seq<Seq<u8>>,
    copies: Seq<automerge::AutoCommit>,
)
    ensures
        after_frames(doc, ids, states, sender, frames, NotebookPermission::Viewer, copies).0
            == doc,
    decreases frames.len(),
{
    if frames.len() > 0 && copies.len() == frames.len() {
        lemma_viewer_frames_leave_document(
            doc,
            ids,
            states,
            sender,
            frames.drop_last(),
            copies.drop_last(),
        );
    }
}

/// Whether `first`, `after_states` are what subscribing a session leads
/// to, `fresh` being what is known of a peer of whom nothing is known: the
/// session's earlier entries are gone, the session is offered a message of
/// the document, and what is known of its peer afterwards stands last.
pub open spec fn subscribed(
    doc: automerge::AutoCommit,
    ids: Seq<Id>,
    states: Seq<automerge::sync::State>,
    session: Id,
    fresh: automerge::sync::State,
    first: Option<Seq<u8>>,
    after_states: Seq<automerge::sync::State>,
) -> bool {
    &&& first == offered(doc, fresh)
    &&& after_states == kept_states(ids, states, session).push(offer(doc, fresh).1)
}

/// The bytes of an optional message.
pub open spec fn bytes_view(message: Option<Vec<u8>>) -> Option<Seq<u8>> {
    match message {
        Some(bytes) => Some(bytes@),
        None => None,
    }
}

/// One subscribed session: its identifier and what is known of what its
/// client has.
pub struct Peer {
    id: Id,
    state: automerge::sync::State,
}

/// What a departure leaves to do.
#[derive(Debug)]
pub struct Departure {
    /// No session is left: the notebook leaves the registry and its
    /// document is stored.
    pub should_remove: bool,
    /// The bytes that the document saves to.
    pub data_to_save: Vec<u8>,
    /// The session in whose name the document is stored: the one whose
    /// message last reached the document, or the one that leaves if no
    /// message ever did.
    pub actor: Id,
}

/// The document of a place that ran empty, to be stored in the name of
/// `actor`.
#[derive(Debug, Clone, PartialEq, Eq)]
pub struct Handover {
    pub actor: Id,
    pub data: Vec<u8>,
}

/// A notebook that is being edited. Its sessions are kept in the order in
/// which they subscribed, which is the order in which they are served.
pub struct ActiveNotebook {
    doc: automerge::AutoCommit,
    peers: Vec<Peer>,
    writer: Option<Id>,
}

impl ActiveNotebook {
    /// The document.
    pub closed spec fn document(&self) -> automerge::AutoCommit {
        self.doc
    }

    /// The bytes that the document saves to.
    pub closed spec fn image(&self) -> Seq<u8> {
        saved_image(self.doc)
    }

    /// The subscribed sessions, in the order in which they are served.
    pub closed spec fn sessions(&self) -> Seq<Id> {
        self.peers@.map_values(|p: Peer| p.id)
    }

    /// What is known of the peer of each subscribed session, in the same
    /// order.
    pub closed spec fn states(&self) -> Seq<automerge::sync::State> {
        self.peers@.map_values(|p: Peer| p.state)
    }

    /// The session whose message last reached the document, if any did
    /// since the notebook was opened.
    pub closed spec fn last_writer(&self) -> Option<Id> {
        self.writer
    }

    /// No session is subscribed twice. A notebook is opened so, and
    /// everything that is done with it leaves it so.
    pub open spec fn well_formed(&self) -> bool {
        self.sessions().no_duplicates()
    }

    /// The image is that of the document, and there is one state for each
    /// session.
    pub proof fn lemma_view(&self)
        ensures
            self.image() == saved_image(self.document()),
            self.states().len() == self.sessions().len(),
    {
    }

    /// Opens a notebook with what storage holds of its document. Bytes that
    /// load give that document; no bytes, or bytes that do not load, give an
    /// empty document. No session is subscribed yet.
    pub fn new(loaded_data: Option<Vec<u8>>) -> (r: Self)
        ensures
            r.sessions() == Seq::<Id>::empty(),
            r.well_formed(),
            r.states().len() == 0,
            r.last_writer() is None,
            Some(r.image()) == (match loaded_data {
                Some(data) if loaded_image(data@) is Some => loaded_image(data@),
                _ => loaded_image(Seq::<u8>::empty()),
            }),
    {
        let doc = match loaded_data {
            Some(data) => match load_document(&data) {
                Some(doc) => doc,
                None => new_document(),
            },
            None => new_document(),
        };
        let r = ActiveNotebook { doc, peers: Vec::new(), writer: None };
        assert(r.sessions() =~= Seq::<Id>::empty());
        r
    }

    /// The bytes that the document saves to. What the document saves to,
    /// the sessions and what is known of their peers are left as they are.
    pub fn save(&mut self) -> (bytes: Vec<u8>)
        ensures
            bytes@ == old(self).image(),
            final(self).image() == old(self).image(),
            final(self).sessions() == old(self).sessions(),
            final(self).states() == old(self).states(),
            final(self).last_writer() == old(self).last_writer(),
            old(self).well_formed() ==> final(self).well_formed(),
    {
        save_document(&mut self.doc)
    }

    /// How many sessions are subscribed.
    pub fn subscriber_count(&self) -> (n: usize)
        ensures
            n == self.sessions().len(),
    {
        self.peers.len()
    }

    /// Whether the session `session` is subscribed.
    pub fn is_subscribed(&self, session: Id) -> (b: bool)
        ensures
            b == self.sessions().contains(session),
    {
        self.position_of(session).is_some()
    }

    /// Takes every entry of the session `session` out of the list.
    fn drop_session(&mut self, session: Id)
        ensures
            final(self).sessions() == without(old(self).sessions(), session),
            final(self).states() == kept_states(old(self).sessions(), old(self).states(), session),
            final(self).doc == old(self).doc,
            final(self).writer == old(self).writer,
    {
        let mut i: usize = 0;
        let ghost start = self.sessions();
        let ghost start_states = self.states();
        proof {
            assert(start.skip(0) =~= start);
            assert(start_states.skip(0) =~= start_states);
            assert(start.take(0) + without(start.skip(0), session) =~= without(start, session));
            assert(start_states.take(0) + kept_states(start, start_states, session)
                =~= kept_states(start, start_states, session));
        }
        while i < self.peers.len()
            invariant
                i <= self.peers.len(),
                self.doc == old(self).doc,
                self.writer == old(self).writer,
                self.states().len() == self.sessions().len(),
                without(start, session) == self.sessions().take(i as int) + without(
                    self.sessions().skip(i as int),
                    session,
                ),
                kept_states(start, start_states, session) == self.states().take(i as int)
                    + kept_states(
                    self.sessions().skip(i as int),
                    self.states().skip(i as int),
                    session,
                ),
            decreases self.peers.len() - i,
        {
            let ghost before = self.sessions();
            let ghost before_states = self.states();
            let ghost rest = before.skip(i as int);
            let ghost rest_states = before_states.skip(i as int);
            assert(rest[0] == before[i as int]);
            assert(rest_states[0] == before_states[i as int]);
            if self.peers[i].id == session {
                self.peers.remove(i);
                proof {
                    let after = self.sessions();
                    let after_states = self.states();
                    assert(after =~= before.remove(i as int));
                    assert(after_states =~= before_states.remove(i as int));
                    assert(after.take(i as int) =~= before.take(i as int));
                    assert(after_states.take(i as int) =~= before_states.take(i as int));
                    assert(after.skip(i as int) =~= rest.drop_first());
                    assert(after_states.skip(i as int) =~= rest_states.drop_first());
                }
            } else {
                i += 1;
                proof {
                    assert(before.take(i as int) =~= before.take(i - 1).push(before[i - 1]));
                    assert(before_states.take(i as int) =~= before_states.take(i - 1).push(
                        before_states[i - 1],
                    ));
                    assert(before.skip(i as int) =~= rest.drop_first());
                    assert(before_states.skip(i as int) =~= rest_states.drop_first());
                    assert(before.take(i - 1) + (seq![before[i - 1]] + without(
                        rest.drop_first(),
                        session,
                    )) =~= before.take(i as int) + without(rest.drop_first(), session));
                    assert(before_states.take(i - 1) + (seq![before_states[i - 1]] + kept_states(
                        rest.drop_first(),
                        rest_states.drop_first(),
                        session,
                    )) =~= before_states.take(i as int) + kept_states(
                        rest.drop_first(),
                        rest_states.drop_first(),
                        session,
                    ));
                }
            }
        }
        proof {
            let s = self.sessions();
            let t = self.states();
            assert(s.skip(s.len() as int).len() == 0);
            assert(s.take(s.len() as int) =~= s);
            assert(t.take(t.len() as int) =~= t);
            assert(s + Seq::<Id>::empty() =~= s);
            assert(t + Seq::<automerge::sync::State>::empty() =~= t);
        }
    }

    /// Subscribes the session `session`, which is served last from now on.
    /// A session that was subscribed already starts afresh, so that no
    /// session stands twice in the list. The session is offered a message of
    /// the document, and the result is that message, if there is one. The
    /// document is left as it is.
    pub fn subscribe(&mut self, session: Id) -> (first: Option<Vec<u8>>)
        ensures
            final(self).sessions() == without(old(self).sessions(), session).push(session),
            final(self).document() == old(self).document(),
            final(self).image() == old(self).image(),
            final(self).last_writer() == old(self).last_writer(),
            exists|fresh: automerge::sync::State| #[trigger]
                subscribed(
                    old(self).document(),
                    old(self).sessions(),
                    old(self).states(),
                    session,
                    fresh,
                    bytes_view(first),
                    final(self).states(),
                ),
            first matches Some(bytes) ==> begins_as_message(bytes@),
            old(self).well_formed() ==> final(self).well_formed(),
    {
        self.drop_session(session);
        let mut state = new_sync_state();
        let ghost fresh = state;
        let first = match generate_sync_message(&mut self.doc, &mut state) {
            Some(message) => Some(encode_sync_message(message)),
            None => None,
        };
        let ghost before = self.sessions();
        let ghost before_states = self.states();
        self.peers.push(Peer { id: session, state });
        proof {
            assert(self.sessions() =~= before.push(session));
            assert(self.states() =~= before_states.push(offer(old(self).doc, fresh).1));
            assert(subscribed(
                old(self).document(),
                old(self).sessions(),
                old(self).states(),
                session,
                fresh,
                bytes_view(first),
                self.states(),
            ));
            lemma_without(old(self).sessions(), session);
            if old(self).sessions().no_duplicates() {
                let kept = without(old(self).sessions(), session);
                assert forall|a: int, b: int|
                    0 <= a < before.push(session).len() && 0 <= b < before.push(session).len() && a
                        != b implies before.push(session)[a] != before.push(session)[b] by {
                    if a < kept.len() && b < kept.len() {
                    } else {
                        let other = if a == kept.len() {
                            b
                        } else {
                            a
                        };
                        if kept[other] == session {
                            assert(kept.contains(session));
                        }
                    }
                }
            }
        }
        first
    }

    /// Takes in one frame that the session `sender` sent, and gives the
    /// messages to send on, each with the session that it is for.
    ///
    /// A frame that is no message, or whose sender is not subscribed, is
    /// ignored. A message from a session that may write is received by the
    /// document; one from a session that only views is received by a copy,
    /// so that the document is left as it is. Then every subscribed session
    /// is offered a message of the document, in the order in which the
    /// sessions are served, and the messages that were offered are the
    /// result. All this is what [`processed`] says.
    pub fn process_msg(&mut self, sender: Id, data: &Vec<u8>, permission: NotebookPermission) -> (outbox:
        Vec<(Id, Vec<u8>)>)
        ensures
            exists|copy: automerge::AutoCommit| #[trigger]
                processed(
                    old(self).document(),
                    old(self).sessions(),
                    old(self).states(),
                    sender,
                    data@,
                    permission,
                    copy,
                    final(self).document(),
                    final(self).states(),
                    outbox_view(outbox@),
                ),
            final(self).sessions() == old(self).sessions(),
            old(self).well_formed() ==> final(self).well_formed(),
            permission == NotebookPermission::Viewer || !is_sync_message(data@) || !old(self).sessions().contains(sender) ==> ({
                &&& final(self).document() == old(self).document()
                &&& final(self).image() == old(self).image()
            }),
            final(self).last_writer() == (if permission == NotebookPermission::OwnerOrTeam
                && is_sync_message(data@) && old(self).sessions().contains(sender) {
                Some(sender)
            } else {
                old(self).last_writer()
            }),
            in_order_of(recipients(outbox@), final(self).sessions()),
            all_messages(outbox@),
            outbox@.len() <= final(self).sessions().len(),
            forall|k: int|
                0 <= k < outbox@.len() ==> final(self).sessions().contains(
                    #[trigger] recipients(outbox@)[k],
                ),
    {
        let decoded = decode_sync_message(data);
        let index = self.position_of(sender);
        let target = route_frame(permission, decoded.is_some(), index.is_some());
        let ghost ids = self.sessions();
        let ghost start_doc = self.doc;
        let ghost start_states = self.states();
        let ghost copied = self.doc;
        match (decoded, index) {
            (Some(message), Some(i)) => {
                match target {
                    FrameTarget::Shared => {
                        let _ = receive_sync_message(&mut self.doc, &mut self.peers[i].state, message);
                        self.writer = Some(sender);
                        proof {
                            assert(self.sessions() =~= ids);
                            assert(self.states() =~= start_states.update(
                                i as int,
                                receipt(start_doc, start_states[i as int], message).1,
                            ));
                        }
                    },
                    FrameTarget::Copy => {
                        let mut copy = fork_document(&mut self.doc);
                        proof {
                            copied = copy;
                        }
                        let _ = receive_sync_message(&mut copy, &mut self.peers[i].state, message);
                        proof {
                            assert(self.sessions() =~= ids);
                            assert(self.states() =~= start_states.update(
                                i as int,
                                receipt(copied, start_states[i as int], message).1,
                            ));
                        }
                    },
                    FrameTarget::Ignored => {},
                }
            },
            _ => {},
        }
        let ghost mid_doc = self.doc;
        let ghost mid_states = self.states();
        proof {
            let effect = frame_effect(start_doc, ids, start_states, sender, data@, permission, copied);
            assert(mid_doc == effect.0);
            assert(mid_states == effect.1);
        }
        let outbox = self.fan_out();
        proof {
            assert(start_doc == old(self).document());
            assert(ids == old(self).sessions());
            assert(start_states == old(self).states());
            assert(processed(
                old(self).document(),
                old(self).sessions(),
                old(self).states(),
                sender,
                data@,
                permission,
                copied,
                self.document(),
                self.states(),
                outbox_view(outbox@),
            ));
        }
        outbox
    }

    /// Takes in the frames that the session `sender` sent, one after the
    /// other as [`ActiveNotebook::process_msg`] does, and gives the messages
    /// to send on in the order in which they arose: first those that the
    /// first frame led to, then those of the second, and so on. All this is
    /// what [`frames_processed`] says. However many frames a session that
    /// only views sends, the document is left as it is.
    pub fn process_frames(
        &mut self,
        sender: Id,
        frames: &Vec<Vec<u8>>,
        permission: NotebookPermission,
    ) -> (outbox: Vec<(Id, Vec<u8>)>)
        ensures
            exists|copies: Seq<automerge::AutoCommit>| #[trigger]
                frames_processed(
                    old(self).document(),
                    old(self).sessions(),
                    old(self).states(),
                    sender,
                    frame_views(frames@),
                    permission,
                    copies,
                    final(self).document(),
                    final(self).states(),
                    outbox_view(outbox@),
                ),
            final(self).sessions() == old(self).sessions(),
            old(self).well_formed() ==> final(self).well_formed(),
            permission == NotebookPermission::Viewer || !old(self).sessions().contains(sender)
                ==> ({
                &&& final(self).document() == old(self).document()
                &&& final(self).image() == old(self).image()
                &&& final(self).last_writer() == old(self).last_writer()
            }),
            in_rounds(recipients(outbox@), final(self).sessions(), frames@.len()),
            all_messages(outbox@),
            outbox@.len() <= frames@.len() * final(self).sessions().len(),
            forall|k: int|
                0 <= k < outbox@.len() ==> final(self).sessions().contains(
                    #[trigger] recipients(outbox@)[k],
                ),
    {
        let mut outbox: Vec<(Id, Vec<u8>)> = Vec::new();
        let mut i: usize = 0;
        let ghost all_frames = frame_views(frames@);
        let ghost mut copies: Seq<automerge::AutoCommit> = Seq::empty();
        proof {
            assert(recipients(outbox@) =~= Seq::<Id>::empty());
            assert(outbox_view(outbox@) =~= Seq::<(Id, Seq<u8>)>::empty());
            assert(all_frames.take(0).len() == 0);
        }
        while i < frames.len()
            invariant
                i <= frames.len(),
                all_frames == frame_views(frames@),
                self.sessions() == old(self).sessions(),
                permission == NotebookPermission::Viewer || !old(self).sessions().contains(sender)
                    ==> self.doc == old(self).doc && self.writer == old(self).writer,
                frames_processed(
                    old(self).document(),
                    old(self).sessions(),
                    old(self).states(),
                    sender,
                    all_frames.take(i as int),
                    permission,
                    copies,
                    self.document(),
                    self.states(),
                    outbox_view(outbox@),
                ),
                in_rounds(recipients(outbox@), self.sessions(), i as nat),
                all_messages(outbox@),
            decreases frames.len() - i,
        {
            let ghost mid_doc = self.doc;
            let ghost mid_states = self.states();
            let ghost earlier_copies = copies;
            let mut produced = self.process_msg(sender, &frames[i], permission);
            let ghost queued = outbox@;
            let ghost added = produced@;
            outbox.append(&mut produced);
            proof {
                let all = recipients(outbox@);
                let k = queued.len() as int;
                assert(outbox@ =~= queued + added);
                assert(all.take(k) =~= recipients(queued));
                assert(all.skip(k) =~= recipients(added));
                let earlier = ((i + 1) as nat - 1) as nat;
                assert(earlier == i as nat);
                assert(in_rounds(all.take(k), self.sessions(), earlier));
                assert(in_order_of(all.skip(k), self.sessions()));
                assert(in_rounds(all, self.sessions(), (i + 1) as nat));
                assert forall|j: int| 0 <= j < outbox@.len() implies begins_as_message(
                    (#[trigger] outbox@[j]).1@,
                ) by {
                    if j < queued.len() {
                        assert(outbox@[j] == queued[j]);
                    } else {
                        assert(outbox@[j] == added[j - queued.len()]);
                    }
                }
                let upto = all_frames.take(i + 1);
                assert(upto.drop_last() =~= all_frames.take(i as int));
                assert(upto.last() == frames@[i as int]@);
                let copy = choose|copy: automerge::AutoCommit| #[trigger]
                    processed(
                        mid_doc,
                        old(self).sessions(),
                        mid_states,
                        sender,
                        frames@[i as int]@,
                        permission,
                        copy,
                        self.document(),
                        self.states(),
                        outbox_view(added),
                    );
                copies = earlier_copies.push(copy);
                assert(copies.drop_last() =~= earlier_copies);
                assert(copies.last() == copy);
                assert(outbox_view(outbox@) =~= outbox_view(queued) + outbox_view(added));
                assert forall|j: int| 0 <= j < copies.len() && permission
                    == NotebookPermission::Viewer implies saved_image(#[trigger] copies[j])
                    == saved_image(old(self).doc) by {
                    if j < earlier_copies.len() {
                        assert(copies[j] == earlier_copies[j]);
                    }
                }
            }
            i += 1;
        }
        proof {
            assert(all_frames.take(i as int) =~= all_frames);
            lemma_in_rounds(recipients(outbox@), self.sessions(), frames@.len());
        }
        outbox
    }

    /// Where the session `session` first stands in the list, if it is
    /// subscribed.
    fn position_of(&self, session: Id) -> (r: Option<usize>)
        ensures
            r is Some <==> self.sessions().contains(session),
            r matches Some(i) ==> i < self.peers@.len() && self.peers@[i as int].id == session
                && i == position(self.sessions(), session),
    {
        let mut i: usize = 0;
        while i < self.peers.len()
            invariant
                i <= self.peers.len(),
                forall|j: int| 0 <= j < i ==> self.sessions()[j] != session,
            decreases self.peers.len() - i,
        {
            if self.peers[i].id == session {
                proof {
                    assert(self.sessions()[i as int] == session);
                    lemma_position_is(self.sessions(), session, i as int);
                }
                return Some(i);
            }
            i += 1;
        }
        None
    }

    /// Offers every subscribed session a message of the document, in the
    /// order in which the sessions are served, and gives the messages that
    /// were offered, each with the session that it is for. The document is
    /// left as it is.
    fn fan_out(&mut self) -> (outbox: Vec<(Id, Vec<u8>)>)
        ensures
            final(self).doc == old(self).doc,
            final(self).writer == old(self).writer,
            final(self).sessions() == old(self).sessions(),
            old(self).well_formed() ==> final(self).well_formed(),
            final(self).states() == states_after_offers(old(self).doc, old(self).states()),
            outbox_view(outbox@) == offers(old(self).doc, old(self).sessions(), old(self).states()),
            in_order_of(recipients(outbox@), final(self).sessions()),
            all_messages(outbox@),
            outbox@.len() <= final(self).sessions().len(),
            forall|k: int|
                0 <= k < outbox@.len() ==> final(self).sessions().contains(
                    #[trigger] recipients(outbox@)[k],
                ),
    {
        let mut outbox: Vec<(Id, Vec<u8>)> = Vec::new();
        let mut i: usize = 0;
        let ghost doc = self.doc;
        let ghost ids = self.sessions();
        let ghost start = self.states();
        proof {
            assert(recipients(outbox@) =~= Seq::<Id>::empty());
            assert(outbox_view(outbox@) =~= Seq::<(Id, Seq<u8>)>::empty());
            assert(ids.take(0).len() == 0);
        }
        while i < self.peers.len()
            invariant
                i <= self.peers.len(),
                self.doc == doc,
                self.writer == old(self).writer,
                self.sessions() == ids,
                self.states().len() == start.len(),
                start.len() == ids.len(),
                ids.len() == self.peers.len(),
                forall|j: int| 0 <= j < i ==> self.states()[j] == offer(doc, start[j]).1,
                forall|j: int| i <= j < start.len() ==> self.states()[j] == start[j],
                outbox_view(outbox@) == offers(doc, ids.take(i as int), start.take(i as int)),
                in_order_of(recipients(outbox@), ids.take(i as int)),
                all_messages(outbox@),
            decreases self.peers.len() - i,
        {
            let id = self.peers[i].id;
            let ghost before_states = self.states();
            let message = match generate_sync_message(&mut self.doc, &mut self.peers[i].state) {
                Some(message) => Some(encode_sync_message(message)),
                None => None,
            };
            proof {
                assert(self.sessions() =~= ids);
                assert(self.states() =~= before_states.update(i as int, offer(doc, start[i as int]).1));
                assert(bytes_view(message) == offered(doc, start[i as int]));
            }
            let ghost queued = outbox@;
            enqueue(&mut outbox, id, message);
            proof {
                let served = ids.take(i + 1);
                let known = start.take(i + 1);
                assert(ids[i as int] == id);
                assert(served.last() == id);
                assert(known.last() == start[i as int]);
                assert(served.drop_last() =~= ids.take(i as int));
                assert(known.drop_last() =~= start.take(i as int));
                if message is Some {
                    assert(recipients(outbox@) =~= recipients(queued).push(id));
                    assert(recipients(outbox@).drop_last() =~= recipients(queued));
                    assert(outbox_view(outbox@) =~= outbox_view(queued).push((id, message->0@)));
                } else {
                    assert(recipients(outbox@) =~= recipients(queued));
                    assert(outbox_view(outbox@) =~= outbox_view(queued));
                }
                assert(in_order_of(recipients(outbox@), served));
                assert(outbox_view(outbox@) == offers(doc, served, known));
                assert forall|k: int| 0 <= k < outbox@.len() implies begins_as_message(
                    (#[trigger] outbox@[k]).1@,
                ) by {
                    if k < queued.len() {
                        assert(outbox@[k] == queued[k]);
                    }
                }
            }
            i += 1;
        }
        proof {
            assert(ids.take(i as int) =~= ids);
            assert(start.take(i as int) =~= start);
            assert(self.states() =~= states_after_offers(doc, start));
            lemma_in_order_of(recipients(outbox@), ids);
        }
        outbox
    }

    /// Takes the session `session` out. The result says whether that was
    /// the last session, holds the bytes that the document saves to, and
    /// names the session in whose name they are stored: the one whose message
    /// last reached the document, so that a session that only views and
    /// leaves last does not stand in the way of what others wrote; or the one
    /// that leaves, if no message ever reached the document.
    pub fn unsubscribe(&mut self, session: Id) -> (r: Departure)
        ensures
            final(self).sessions() == without(old(self).sessions(), session),
            final(self).states() == kept_states(old(self).sessions(), old(self).states(), session),
            final(self).image() == old(self).image(),
            final(self).last_writer() == old(self).last_writer(),
            r.should_remove == (final(self).sessions().len() == 0),
            r.data_to_save@ == old(self).image(),
            r.actor == (match old(self).last_writer() {
                Some(writer) => writer,
                None => session,
            }),
            old(self).well_formed() ==> final(self).well_formed(),
    {
        self.drop_session(session);
        let empty = self.peers.len() == 0;
        let data = save_document(&mut self.doc);
        proof {
            lemma_without(old(self).sessions(), session);
        }
        let actor = match self.writer {
            Some(writer) => writer,
            None => session,
        };
        Departure { should_remove: empty, data_to_save: data, actor }
    }
}

/// The place of one notebook in the registry of notebooks that are being
/// edited. The place is empty until the first session arrives and the
/// document has been read from storage; it holds the notebook for as long as
/// a session is subscribed; and it is empty again once the last session has
/// left and handed the document over to be stored.
pub struct NotebookSlot {
    room: Option<ActiveNotebook>,
}

impl NotebookSlot {
    /// Whether the place holds a notebook.
    pub closed spec fn live(&self) -> bool {
        self.room is Some
    }

    /// The bytes that the document saves to, where the place holds a
    /// notebook.
    pub closed spec fn image(&self) -> Seq<u8> {
        self.room->0.image()
    }

    /// The document, where the place holds a notebook.
    pub closed spec fn document(&self) -> automerge::AutoCommit {
        self.room->0.document()
    }

    /// The subscribed sessions; none where the place is empty.
    pub closed spec fn sessions(&self) -> Seq<Id> {
        match self.room {
            Some(room) => room.sessions(),
            None => Seq::empty(),
        }
    }

    /// The session whose message last reached the document since the place
    /// was filled, if any did; none where the place is empty.
    pub closed spec fn last_writer(&self) -> Option<Id> {
        match self.room {
            Some(room) => room.last_writer(),
            None => None,
        }
    }

    /// What is known of the peer of each subscribed session, in the same
    /// order; nothing where the place is empty.
    pub closed spec fn states(&self) -> Seq<automerge::sync::State> {
        match self.room {
            Some(room) => room.states(),
            None => Seq::empty(),
        }
    }

    /// No session is subscribed twice. A place is made so, and everything
    /// that is done with it leaves it so.
    pub open spec fn well_formed(&self) -> bool {
        self.sessions().no_duplicates()
    }

    /// The image is that of the document, and there is one state for each
    /// session.
    pub proof fn lemma_view(&self)
        ensures
            self.live() ==> self.image() == saved_image(self.document()),
            self.states().len() == self.sessions().len(),
    {
        if self.room is Some {
            self.room->0.lemma_view();
        }
    }

    /// An empty place.
    pub fn empty() -> (r: Self)
        ensures
            !r.live(),
            r.well_formed(),
            r.sessions() == Seq::<Id>::empty(),
            r.states().len() == 0,
    {
        NotebookSlot { room: None }
    }

    /// Whether the place holds a notebook. Where it does not, the document
    /// is to be read from storage before a session can subscribe.
    pub fn is_live(&self) -> (b: bool)
        ensures
            b == self.live(),
    {
        self.room.is_some()
    }

    /// Fills an empty place with the notebook that [`ActiveNotebook::new`]
    /// makes of what storage holds. A place that holds a notebook already is
    /// left as it is: the document is read from storage once, however many
    /// sessions arrive.
    pub fn hydrate(&mut self, loaded_data: Option<Vec<u8>>)
        ensures
            final(self).live(),
            old(self).well_formed() ==> final(self).well_formed(),
            old(self).live() ==> ({
                &&& final(self).document() == old(self).document()
                &&& final(self).image() == old(self).image()
                &&& final(self).sessions() == old(self).sessions()
                &&& final(self).states() == old(self).states()
                &&& final(self).last_writer() == old(self).last_writer()
            }),
            !old(self).live() ==> ({
                &&& final(self).sessions() == Seq::<Id>::empty()
                &&& final(self).states().len() == 0
                &&& final(self).last_writer() is None
                &&& Some(final(self).image()) == (match loaded_data {
                    Some(data) if loaded_image(data@) is Some => loaded_image(data@),
                    _ => loaded_image(Seq::<u8>::empty()),
                })
            }),
    {
        if self.room.is_none() {
            self.room = Some(ActiveNotebook::new(loaded_data));
        }
    }

    /// Subscribes the session `session` as [`ActiveNotebook::subscribe`]
    /// does. On an empty place nothing happens.
    pub fn subscribe(&mut self, session: Id) -> (first: Option<Vec<u8>>)
        ensures
            final(self).live() == old(self).live(),
            old(self).live() ==> final(self).sessions() == without(
                old(self).sessions(),
                session,
            ).push(session) && final(self).image() == old(self).image() && final(self).document()
                == old(self).document(),
            old(self).live() ==> exists|fresh: automerge::sync::State| #[trigger]
                subscribed(
                    old(self).document(),
                    old(self).sessions(),
                    old(self).states(),
                    session,
                    fresh,
                    bytes_view(first),
                    final(self).states(),
                ),
            old(self).well_formed() ==> final(self).well_formed(),
            final(self).last_writer() == old(self).last_writer(),
            first matches Some(bytes) ==> begins_as_message(bytes@),
            !old(self).live() ==> first is None,
    {
        match self.room.take() {
            Some(mut room) => {
                let ghost before = room;
                let first = room.subscribe(session);
                proof {
                    let fresh = choose|fresh: automerge::sync::State| #[trigger]
                        subscribed(
                            before.document(),
                            before.sessions(),
                            before.states(),
                            session,
                            fresh,
                            bytes_view(first),
                            room.states(),
                        );
                    assert(subscribed(
                        old(self).document(),
                        old(self).sessions(),
                        old(self).states(),
                        session,
                        fresh,
                        bytes_view(first),
                        room.states(),
                    ));
                }
                let ghost after = room;
                let ghost found = choose|fresh: automerge::sync::State| #[trigger]
                    subscribed(
                        old(self).document(),
                        old(self).sessions(),
                        old(self).states(),
                        session,
                        fresh,
                        bytes_view(first),
                        after.states(),
                    );
                self.room = Some(room);
                proof {
                    assert(self.states() == after.states());
                    assert(subscribed(
                        old(self).document(),
                        old(self).sessions(),
                        old(self).states(),
                        session,
                        found,
                        bytes_view(first),
                        self.states(),
                    ));
                }
                first
            },
            None => None,
        }
    }

    /// Takes in one frame as [`ActiveNotebook::process_msg`] does. On an
    /// empty place nothing happens and nothing is sent on.
    pub fn process_msg(&mut self, sender: Id, data: &Vec<u8>, permission: NotebookPermission) -> (outbox:
        Vec<(Id, Vec<u8>)>)
        ensures
            final(self).live() == old(self).live(),
            final(self).sessions() == old(self).sessions(),
            old(self).well_formed() ==> final(self).well_formed(),
            old(self).live() ==> exists|copy: automerge::AutoCommit| #[trigger]
                processed(
                    old(self).document(),
                    old(self).sessions(),
                    old(self).states(),
                    sender,
                    data@,
                    permission,
                    copy,
                    final(self).document(),
                    final(self).states(),
                    outbox_view(outbox@),
                ),
            old(self).live() && (permission == NotebookPermission::Viewer || !is_sync_message(data@)
                || !old(self).sessions().contains(sender)) ==> ({
                &&& final(self).document() == old(self).document()
                &&& final(self).image() == old(self).image()
            }),
            final(self).last_writer() == (if permission == NotebookPermission::OwnerOrTeam
                && is_sync_message(data@) && old(self).sessions().contains(sender) {
                Some(sender)
            } else {
                old(self).last_writer()
            }),
            !old(self).live() ==> outbox@.len() == 0,
            in_order_of(recipients(outbox@), final(self).sessions()),
            all_messages(outbox@),
            outbox@.len() <= final(self).sessions().len(),
            forall|k: int|
                0 <= k < outbox@.len() ==> final(self).sessions().contains(
                    #[trigger] recipients(outbox@)[k],
                ),
    {
        match self.room.take() {
            Some(mut room) => {
                let ghost before = room;
                let outbox = room.process_msg(sender, data, permission);
                proof {
                    let copy = choose|copy: automerge::AutoCommit| #[trigger]
                        processed(
                            before.document(),
                            before.sessions(),
                            before.states(),
                            sender,
                            data@,
                            permission,
                            copy,
                            room.document(),
                            room.states(),
                            outbox_view(outbox@),
                        );
                    assert(processed(
                        old(self).document(),
                        old(self).sessions(),
                        old(self).states(),
                        sender,
                        data@,
                        permission,
                        copy,
                        room.document(),
                        room.states(),
                        outbox_view(outbox@),
                    ));
                }
                let ghost after = room;
                let ghost found = choose|copy: automerge::AutoCommit| #[trigger]
                    processed(
                        old(self).document(),
                        old(self).sessions(),
                        old(self).states(),
                        sender,
                        data@,
                        permission,
                        copy,
                        after.document(),
                        after.states(),
                        outbox_view(outbox@),
                    );
                self.room = Some(room);
                proof {
                    assert(self.states() == after.states());
                    assert(self.document() == after.document());
                    assert(processed(
                        old(self).document(),
                        old(self).sessions(),
                        old(self).states(),
                        sender,
                        data@,
                        permission,
                        found,
                        self.document(),
                        self.states(),
                        outbox_view(outbox@),
                    ));
                }
                outbox
            },
            None => {
                let outbox: Vec<(Id, Vec<u8>)> = Vec::new();
                assert(recipients(outbox@) =~= Seq::<Id>::empty());
                outbox
            },
        }
    }

    /// Takes the session `session` out. If that was the last session, the
    /// place is emptied and the result is the document to be stored: the
    /// bytes that it saved to, and the session in whose name they are stored,
    /// which is the one whose message last reached the document, or the one
    /// that leaves if no message ever did. Otherwise the notebook stays and
    /// nothing is to be stored. So the document is handed over once for each
    /// time the place runs empty, and whoever arrives next reads it from
    /// storage anew.
    pub fn leave(&mut self, session: Id) -> (to_store: Option<Handover>)
        ensures
            !old(self).live() ==> to_store is None && !final(self).live(),
            old(self).live() && without(old(self).sessions(), session).len() == 0 ==> ({
                &&& !final(self).live()
                &&& to_store matches Some(handover) && handover.data@ == old(self).image()
                    && handover.actor == (match old(self).last_writer() {
                    Some(writer) => writer,
                    None => session,
                })
            }),
            old(self).live() && without(old(self).sessions(), session).len() > 0 ==> ({
                &&& to_store is None
                &&& final(self).live()
                &&& final(self).image() == old(self).image()
                &&& final(self).sessions() == without(old(self).sessions(), session)
                &&& final(self).states() == kept_states(
                    old(self).sessions(),
                    old(self).states(),
                    session,
                )
                &&& final(self).last_writer() == old(self).last_writer()
            }),
            old(self).well_formed() ==> final(self).well_formed(),
    {
        match self.room.take() {
            Some(mut room) => {
                let departure = room.unsubscribe(session);
                if departure.should_remove {
                    Some(Handover { actor: departure.actor, data: departure.data_to_save })
                } else {
                    self.room = Some(room);
                    None
                }
            },
            None => None,
        }
    }
}

/// The sessions that watch who is present in a notebook.
#[derive(Debug, Clone, PartialEq, Eq)]
pub struct PresenceRoom {
    pub subscribers: Vec<Id>,
}

impl PresenceRoom {
    /// A room that nobody has entered yet.
    pub fn new() -> (r: Self)
        ensures
            r.subscribers@.len() == 0,
    {
        PresenceRoom { subscribers: Vec::new() }
    }
}

} // verus!
