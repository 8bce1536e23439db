//! Sharing notes with a peer: finding the peer, picking the notes, and putting
//! together one proposal for each of them.
//!
//! A share is made in three moves. `share_target` looks the peer up, and fails
//! the whole share where it is unknown. The caller then reads the notes from the
//! store and `notes_to_share` (or `note_to_share`) picks the ones asked for. For
//! each of those the caller reads the attachments, and `batch_proposal` (or
//! `single_proposal`) builds what is sent. The caller sends each proposal as a
//! task of its own and returns once all are on their way.

use vstd::prelude::*;
use crate::model::{
    attachment_names, attachments_view, clone_bytes, notes_view, Attachment, AttachmentView,
    Missing, Note, NoteView, PeerDevice, PeerDeviceView, SyncError, SyncRequest, SyncRequestView,
};
use crate::search::{first_index_of, lemma_first_index_in_prefix, lemma_first_index_of};
use crate::registry::AppState;
use crate::transport::{
    endpoint_url, request_path, sync_request_url, DeliveryPolicy, ProposalTransmission,
};

verus! {

/// Views of a list of ids.
pub open spec fn ids_view(ids: Seq<String>) -> Seq<Seq<char>> {
    ids.map_values(|s: String| s@)
}

/// The ids of the notes in a list, in order.
pub open spec fn note_ids(notes: Seq<NoteView>) -> Seq<Seq<char>> {
    notes.map_values(|n: NoteView| n.id)
}

/// Position of the first note in `notes` with the given id, or -1.
pub open spec fn first_note_with_id(notes: Seq<NoteView>, id: Seq<char>) -> int {
    first_index_of(note_ids(notes), id)
}

/// `first_note_with_id` is the least position whose note has the id.
pub proof fn lemma_first_note_with_id(notes: Seq<NoteView>, id: Seq<char>)
    ensures
        -1 <= first_note_with_id(notes, id) < notes.len(),
        first_note_with_id(notes, id) >= 0 ==> notes[first_note_with_id(notes, id)].id == id,
        first_note_with_id(notes, id) >= 0 ==> forall|j: int|
            0 <= j < first_note_with_id(notes, id) ==> notes[j].id != id,
        first_note_with_id(notes, id) < 0 ==> forall|j: int|
            0 <= j < notes.len() ==> notes[j].id != id,
{
    let ids = note_ids(notes);
    let k = first_index_of(ids, id);
    lemma_first_index_of(ids, id);
    if k >= 0 {
        assert(ids[k] == notes[k].id);
        assert forall|j: int| 0 <= j < k implies notes[j].id != id by {
            assert(ids[j] == notes[j].id);
        }
    } else {
        assert forall|j: int| 0 <= j < notes.len() implies notes[j].id != id by {
            assert(ids[j] == notes[j].id);
        }
    }
}

/// The notes that a share of `ids` sends: for each id in turn the first note
/// that has it. An id that no note has is passed over.
pub open spec fn selected_notes(all: Seq<NoteView>, ids: Seq<Seq<char>>) -> Seq<NoteView>
    decreases ids.len(),
{
    if ids.len() == 0 {
        Seq::empty()
    } else {
        let before = selected_notes(all, ids.drop_last());
        let k = first_note_with_id(all, ids.last());
        if k >= 0 {
            before.push(all[k])
        } else {
            before
        }
    }
}

/// The result of reading one attachment: its bytes, or nothing where the file
/// was missing or could not be read.
#[derive(Debug)]
pub struct AttachmentRead {
    pub name: String,
    pub data: Option<Vec<u8>>,
}

pub struct AttachmentReadView {
    pub name: Seq<char>,
    pub data: Option<Seq<u8>>,
}

impl View for AttachmentRead {
    type V = AttachmentReadView;

    open spec fn view(&self) -> AttachmentReadView {
        AttachmentReadView {
            name: self.name@,
            data: match self.data {
                Some(d) => Some(d@),
                None => None,
            },
        }
    }
}

/// Views of a list of reads.
pub open spec fn reads_view(reads: Seq<AttachmentRead>) -> Seq<AttachmentReadView> {
    reads.map_values(|r: AttachmentRead| r@)
}

/// The attachments after one more has been put among them: in place of the one
/// of the same name, where there is one, else at the end.
pub open spec fn put_attachment(items: Seq<AttachmentView>, a: AttachmentView) -> Seq<
    AttachmentView,
> {
    let k = first_index_of(attachment_names(items), a.name);
    if k >= 0 {
        items.update(k, a)
    } else {
        items.push(a)
    }
}

/// The attachments that travel with a note: those that could be read, one for
/// each name. Where a name was read more than once, the last bytes that could
/// be read are the ones that travel.
pub open spec fn readable(reads: Seq<AttachmentReadView>) -> Seq<AttachmentView>
    decreases reads.len(),
{
    if reads.len() == 0 {
        Seq::empty()
    } else {
        let before = readable(reads.drop_last());
        match reads.last().data {
            Some(d) => put_attachment(before, AttachmentView { name: reads.last().name, data: d }),
            None => before,
        }
    }
}

/// The map from name to bytes that a list of attachments stands for.
pub open spec fn attachment_map(items: Seq<AttachmentView>) -> Map<Seq<char>, Seq<u8>>
    decreases items.len(),
{
    if items.len() == 0 {
        Map::empty()
    } else {
        attachment_map(items.drop_last()).insert(items.last().name, items.last().data)
    }
}

/// The map from name to bytes that the reads fill, each read that succeeded
/// put in under its name, in turn.
pub open spec fn read_map(reads: Seq<AttachmentReadView>) -> Map<Seq<char>, Seq<u8>>
    decreases reads.len(),
{
    if reads.len() == 0 {
        Map::empty()
    } else {
        let before = read_map(reads.drop_last());
        match reads.last().data {
            Some(d) => before.insert(reads.last().name, d),
            None => before,
        }
    }
}

proof fn lemma_attachment_map_update(items: Seq<AttachmentView>, k: int, a: AttachmentView)
    requires
        attachment_names(items).no_duplicates(),
        0 <= k < items.len(),
        items[k].name == a.name,
    ensures
        attachment_map(items.update(k, a)) == attachment_map(items).insert(a.name, a.data),
    decreases items.len(),
{
    let names = attachment_names(items);
    let fewer = items.drop_last();
    let after = items.update(k, a);
    if k == items.len() - 1 {
        assert(after.drop_last() =~= fewer);
        assert(attachment_map(after) =~= attachment_map(items).insert(a.name, a.data));
    } else {
        assert(attachment_names(fewer) =~= names.drop_last());
        assert(attachment_names(fewer).no_duplicates()) by {
            assert forall|i: int, j: int|
                0 <= i < fewer.len() && 0 <= j < fewer.len() && i != j implies attachment_names(
                fewer,
            )[i] != attachment_names(fewer)[j] by {
                assert(names[i] != names[j]);
            }
        }
        lemma_attachment_map_update(fewer, k, a);
        assert(after.drop_last() =~= fewer.update(k, a));
        assert(after.last() == items.last());
        assert(names[k] != names[items.len() - 1]);
        assert(items.last().name != a.name);
        assert(attachment_map(after) =~= attachment_map(items).insert(a.name, a.data));
    }
}

/// Putting an attachment among others that have each name once leaves each
/// name once, and puts its bytes under its name.
proof fn lemma_put_attachment(items: Seq<AttachmentView>, a: AttachmentView)
    requires
        attachment_names(items).no_duplicates(),
    ensures
        attachment_names(put_attachment(items, a)).no_duplicates(),
        attachment_map(put_attachment(items, a)) == attachment_map(items).insert(a.name, a.data),
{
    let names = attachment_names(items);
    let k = first_index_of(names, a.name);
    let after = put_attachment(items, a);
    lemma_first_index_of(names, a.name);
    if k >= 0 {
        assert(names[k] == items[k].name);
        assert(attachment_names(after) =~= names);
        lemma_attachment_map_update(items, k, a);
    } else {
        assert(after.drop_last() =~= items);
        let new_names = attachment_names(after);
        assert forall|i: int, j: int|
            0 <= i < new_names.len() && 0 <= j < new_names.len() && i != j implies new_names[i]
            != new_names[j] by {
            if i < names.len() {
                assert(new_names[i] == names[i]);
            }
            if j < names.len() {
                assert(new_names[j] == names[j]);
            }
        }
    }
}

/// The attachments that travel are the reads that succeeded, as a map from
/// name to bytes would hold them: no name comes twice, and under each name
/// stand the bytes that were read for it last.
pub proof fn lemma_readable_is_one_per_name(reads: Seq<AttachmentReadView>)
    ensures
        attachment_names(readable(reads)).no_duplicates(),
        attachment_map(readable(reads)) == read_map(reads),
    decreases reads.len(),
{
    if reads.len() > 0 {
        lemma_readable_is_one_per_name(reads.drop_last());
        match reads.last().data {
            Some(d) => {
                lemma_put_attachment(
                    readable(reads.drop_last()),
                    AttachmentView { name: reads.last().name, data: d },
                );
            },
            None => {},
        }
    }
}

/// The peer that a share goes to, and the identity it is sent under.
#[derive(Debug)]
pub struct ShareTarget {
    pub peer: PeerDevice,
    pub url: String,
    pub sender_id: String,
    pub sender_name: String,
}

pub struct ShareTargetView {
    pub peer: PeerDeviceView,
    pub url: Seq<char>,
    pub sender_id: Seq<char>,
    pub sender_name: Seq<char>,
}

impl View for ShareTarget {
    type V = ShareTargetView;

    open spec fn view(&self) -> ShareTargetView {
        ShareTargetView {
            peer: self.peer@,
            url: self.url@,
            sender_id: self.sender_id@,
            sender_name: self.sender_name@,
        }
    }
}

/// Looks up the peer that a share goes to. The share is sent under this
/// device's own identity. An unknown peer fails the share as a whole.
pub fn share_target(state: &AppState, peer_id: &String) -> (r: Result<ShareTarget, SyncError>)
    ensures
        match r {
            Ok(target) => state@.peers.contains_key(peer_id@) && target@ == (ShareTargetView {
                peer: state@.peers[peer_id@],
                url: endpoint_url(
                    state@.peers[peer_id@].ip,
                    state@.peers[peer_id@].port,
                    request_path(),
                ),
                sender_id: state@.device_id,
                sender_name: state@.device_name,
            }) && target@.peer.id == peer_id@,
            Err(e) => !state@.peers.contains_key(peer_id@) && e == SyncError::NotFound(
                Missing::Peer,
            ),
        },
{
    match state.find_peer(peer_id) {
        None => Err(SyncError::NotFound(Missing::Peer)),
        Some(peer) => {
            let url: String = sync_request_url(&peer);
            Ok(
                ShareTarget {
                    peer,
                    url,
                    sender_id: state.device_id().clone(),
                    sender_name: state.device_name().clone(),
                },
            )
        },
    }
}

fn position_of_note(notes: &Vec<Note>, id: &String) -> (r: Option<usize>)
    ensures
        match r {
            Some(i) => i < notes@.len() && i as int == first_note_with_id(notes_view(notes@), id@),
            None => first_note_with_id(notes_view(notes@), id@) == -1,
        },
{
    let ghost ids = note_ids(notes_view(notes@));
    let mut i: usize = 0;
    while i < notes.len()
        invariant
            i <= notes@.len(),
            ids == note_ids(notes_view(notes@)),
            first_index_of(ids.take(i as int), id@) == -1,
        decreases notes@.len() - i,
    {
        assert(ids.take(i + 1).drop_last() == ids.take(i as int));
        assert(ids.take(i + 1).last() == notes@[i as int]@.id);
        if notes[i].id == *id {
            proof {
                lemma_first_index_in_prefix(ids, id@, i + 1);
            }
            return Some(i);
        }
        i = i + 1;
    }
    assert(ids.take(i as int) == ids);
    None
}

/// Picks the one note to share: the first note that has the id. Where the
/// store holds no such note, that is an error.
pub fn note_to_share(all_notes: &Vec<Note>, note_id: &String) -> (r: Result<Note, SyncError>)
    ensures
        match r {
            Ok(note) => first_note_with_id(notes_view(all_notes@), note_id@) >= 0 && note@
                == notes_view(all_notes@)[first_note_with_id(notes_view(all_notes@), note_id@)]
                && note@.id == note_id@,
            Err(e) => e == SyncError::NotFound(Missing::Note) && forall|j: int|
                0 <= j < all_notes@.len() ==> all_notes@[j]@.id != note_id@,
        },
{
    proof {
        lemma_first_note_with_id(notes_view(all_notes@), note_id@);
    }
    match position_of_note(all_notes, note_id) {
        Some(i) => {
            assert(notes_view(all_notes@)[i as int] == all_notes@[i as int]@);
            Ok(all_notes[i].clone())
        },
        None => {
            assert forall|j: int| 0 <= j < all_notes@.len() implies all_notes@[j]@.id
                != note_id@ by {
                assert(notes_view(all_notes@)[j] == all_notes@[j]@);
            }
            Err(SyncError::NotFound(Missing::Note))
        },
    }
}

/// Picks the notes to share, in the order asked for. A note that the store
/// does not hold is passed over; the others are still shared.
pub fn notes_to_share(all_notes: &Vec<Note>, note_ids: &Vec<String>) -> (r: Vec<Note>)
    ensures
        notes_view(r@) == selected_notes(notes_view(all_notes@), ids_view(note_ids@)),
{
    let ghost all = notes_view(all_notes@);
    let ghost ids = ids_view(note_ids@);
    let mut out: Vec<Note> = Vec::new();
    let mut i: usize = 0;
    assert(ids.take(0) == Seq::<Seq<char>>::empty());
    assert(notes_view(out@) =~= Seq::<NoteView>::empty());
    while i < note_ids.len()
        invariant
            i <= note_ids@.len(),
            all == notes_view(all_notes@),
            ids == ids_view(note_ids@),
            notes_view(out@) == selected_notes(all, ids.take(i as int)),
        decreases note_ids@.len() - i,
    {
        assert(ids.take(i + 1).drop_last() == ids.take(i as int));
        assert(ids.take(i + 1).last() == note_ids@[i as int]@);
        let ghost before = out@;
        match position_of_note(all_notes, &note_ids[i]) {
            Some(k) => {
                let note: Note = all_notes[k].clone();
                out.push(note);
                assert(notes_view(out@) =~= notes_view(before).push(all[k as int]));
            },
            None => {},
        }
        i = i + 1;
    }
    assert(ids.take(i as int) == ids);
    out
}

fn position_of_attachment(items: &Vec<Attachment>, name: &String) -> (r: Option<usize>)
    ensures
        match r {
            Some(i) => i < items@.len() && i as int == first_index_of(
                attachment_names(attachments_view(items@)),
                name@,
            ),
            None => first_index_of(attachment_names(attachments_view(items@)), name@) == -1,
        },
{
    let ghost names = attachment_names(attachments_view(items@));
    let mut i: usize = 0;
    while i < items.len()
        invariant
            i <= items@.len(),
            names == attachment_names(attachments_view(items@)),
            first_index_of(names.take(i as int), name@) == -1,
        decreases items@.len() - i,
    {
        assert(names.take(i + 1).drop_last() == names.take(i as int));
        assert(names.take(i + 1).last() == items@[i as int]@.name);
        if items[i].name == *name {
            proof {
                lemma_first_index_in_prefix(names, name@, i + 1);
            }
            return Some(i);
        }
        i = i + 1;
    }
    assert(names.take(i as int) == names);
    None
}

/// Keeps the attachments that could be read, one for each name: of a name that
/// was read more than once, the last bytes that could be read.
pub fn collect_attachments(reads: Vec<AttachmentRead>) -> (r: Vec<Attachment>)
    ensures
        attachments_view(r@) == readable(reads_view(reads@)),
        attachment_names(attachments_view(r@)).no_duplicates(),
        attachment_map(attachments_view(r@)) == read_map(reads_view(reads@)),
{
    let ghost all = reads_view(reads@);
    let mut out: Vec<Attachment> = Vec::new();
    let n: usize = reads.len();
    let mut i: usize = 0;
    assert(all.take(0) == Seq::<AttachmentReadView>::empty());
    assert(attachments_view(out@) =~= Seq::<AttachmentView>::empty());
    while i < n
        invariant
            i <= n,
            n == reads@.len(),
            all == reads_view(reads@),
            attachments_view(out@) == readable(all.take(i as int)),
        decreases n - i,
    {
        assert(all.take(i + 1).drop_last() == all.take(i as int));
        assert(all.take(i + 1).last() == reads@[i as int]@);
        let ghost before = out@;
        match &reads[i].data {
            Some(d) => {
                let name: String = reads[i].name.clone();
                let data: Vec<u8> = clone_bytes(d);
                let ghost a = AttachmentView { name: name@, data: data@ };
                match position_of_attachment(&out, &name) {
                    Some(k) => {
                        out.set(k, Attachment { name, data });
                        assert(attachments_view(out@) =~= attachments_view(before).update(
                            k as int,
                            a,
                        ));
                    },
                    None => {
                        out.push(Attachment { name, data });
                        assert(attachments_view(out@) =~= attachments_view(before).push(a));
                    },
                }
            },
            None => {},
        }
        i = i + 1;
    }
    assert(all.take(i as int) == all);
    proof {
        lemma_readable_is_one_per_name(all);
    }
    out
}

/// The proposal that carries `note` to `target`: it names this device as the
/// sender and carries the attachments that could be read.
pub open spec fn proposal_request(
    target: ShareTargetView,
    note: NoteView,
    reads: Seq<AttachmentReadView>,
) -> SyncRequestView {
    SyncRequestView {
        peer_id: target.sender_id,
        peer_name: target.sender_name,
        note,
        attachments_data: readable(reads),
    }
}

fn build_proposal(
    target: &ShareTarget,
    note: Note,
    reads: Vec<AttachmentRead>,
    policy: DeliveryPolicy,
) -> (r: ProposalTransmission)
    ensures
        r.url@ == target@.url,
        r.policy == policy,
        r.request@ == proposal_request(target@, note@, reads_view(reads@)),
        r.request@.one_per_name(),
{
    let attachments_data: Vec<Attachment> = collect_attachments(reads);
    ProposalTransmission {
        url: target.url.clone(),
        policy,
        request: SyncRequest {
            peer_id: target.sender_id.clone(),
            peer_name: target.sender_name.clone(),
            note,
            attachments_data,
        },
    }
}

/// Builds the proposal for a note that is shared on its own. It is sent as a
/// short message.
pub fn single_proposal(target: &ShareTarget, note: Note, reads: Vec<AttachmentRead>) -> (r:
    ProposalTransmission)
    ensures
        r.url@ == target@.url,
        r.policy == DeliveryPolicy::quick_spec(),
        r.request@ == proposal_request(target@, note@, reads_view(reads@)),
        r.request@.one_per_name(),
{
    build_proposal(target, note, reads, DeliveryPolicy::quick())
}

/// Builds the proposal for one note of a batch. It is given a minute and a
/// connection of its own, so that a large note holds up no other.
pub fn batch_proposal(target: &ShareTarget, note: Note, reads: Vec<AttachmentRead>) -> (r:
    ProposalTransmission)
    ensures
        r.url@ == target@.url,
        r.policy == DeliveryPolicy::bulk_spec(),
        r.request@ == proposal_request(target@, note@, reads_view(reads@)),
        r.request@.one_per_name(),
{
    build_proposal(target, note, reads, DeliveryPolicy::bulk())
}

/// A share sends one proposal for each id that names a note, and no more.
pub proof fn lemma_selected_count(all: Seq<NoteView>, ids: Seq<Seq<char>>)
    ensures
        selected_notes(all, ids).len() <= ids.len(),
        (forall|i: int| 0 <= i < ids.len() ==> first_note_with_id(all, #[trigger] ids[i]) >= 0)
            ==> selected_notes(all, ids).len() == ids.len(),
    decreases ids.len(),
{
    if ids.len() > 0 {
        let t = ids.drop_last();
        lemma_selected_count(all, t);
        if forall|i: int| 0 <= i < ids.len() ==> first_note_with_id(all, #[trigger] ids[i]) >= 0 {
            assert forall|i: int| 0 <= i < t.len() implies first_note_with_id(
                all,
                #[trigger] t[i],
            ) >= 0 by {
                assert(t[i] == ids[i]);
            }
            assert(first_note_with_id(all, ids[ids.len() - 1]) >= 0);
        }
    }
}

} // verus!
