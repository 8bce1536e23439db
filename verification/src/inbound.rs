//! Receiving a proposal. The proposal is put on record before anything is
//! written, so that the user sees it at once; then its note and attachments are
//! staged, where they stay until the user decides.
//!
//! The sender is acknowledged as soon as the proposal is on record. A write
//! that fails is logged and the remaining ones are still made: the note's text
//! is what matters most, and an attachment that did not make it does not undo
//! the proposal.

use vstd::prelude::*;
use vstd::string::*;
use crate::identity::{is_uuid_text, random_uuid_text};
use crate::model::{
    AttachmentView, Ipv4Address, PeerDevice, PeerDeviceView, SyncError, SyncNotification,
    SyncNotificationView, SyncRequest, SyncRequestView, SyncResponse, SyncResponseView,
    SyncStatus,
};
use crate::registry::{
    first_with_id, keyed_by_id, lemma_first_with_id, resolution_target, AppState, AppStateView,
};
use crate::store::{
    make_note_document, make_staged_file_name, note_document, staged_file_name, steps_view,
    DiskStep, DiskStepView,
};

verus! {

/// The peer that a proposal is taken to come from: the one known under the
/// sender's id, or, where none is, a stand-in with the name that the sender
/// gave. The stand-in has no address to answer to; it points at the loopback
/// address and port 0, and a decision sent there reaches nobody.
pub open spec fn proposing_peer(state: AppStateView, request: SyncRequestView) -> PeerDeviceView {
    if state.peers.contains_key(request.peer_id) {
        state.peers[request.peer_id]
    } else {
        PeerDeviceView {
            id: request.peer_id,
            name: request.peer_name,
            ip: Ipv4Address::loopback(),
            port: 0,
        }
    }
}

/// The notification that a proposal is put on record as.
pub open spec fn proposal_notification(
    state: AppStateView,
    request: SyncRequestView,
    notification_id: Seq<char>,
) -> SyncNotificationView {
    SyncNotificationView {
        id: notification_id,
        from_peer: proposing_peer(state, request),
        note_id: request.note.id,
        note_title: request.note.title,
        status: SyncStatus::Pending,
    }
}

/// The step that stages one attachment of the note `note_id`.
pub open spec fn attachment_step(note_id: Seq<char>, a: AttachmentView) -> DiskStepView {
    DiskStepView::WriteAttachment { note_id, name: a.name, data: a.data }
}

/// The writes that stage a proposal: the note's document under its staged
/// name, then each attachment under the note's id.
pub open spec fn staging_steps(request: SyncRequestView) -> Seq<DiskStepView> {
    seq![
        DiskStepView::WriteFile {
            name: staged_file_name(request.note.id),
            document: note_document(request.note.title, request.note.content),
        },
    ] + request.attachments_data.map_values(
        |a: AttachmentView| attachment_step(request.note.id, a),
    )
}

/// What receiving a proposal leads to. Once the writes have been made, whoever
/// shows the notifications is told that a proposal came in.
#[derive(Debug)]
pub struct InboundPlan {
    /// The notification that was put on record.
    pub notification: SyncNotification,
    /// The writes that stage the proposal, in order.
    pub steps: Vec<DiskStep>,
    /// What the sender is told: that the proposal was received.
    pub success: bool,
}

/// Puts a proposal on record under the given notification id and says which
/// writes stage it.
pub fn receive_proposal(state: &mut AppState, request: SyncRequest, notification_id: String) -> (r:
    InboundPlan)
    ensures
        final(state)@ == (AppStateView {
            notifications: old(state)@.notifications.push(
                proposal_notification(old(state)@, request@, notification_id@),
            ),
            ..old(state)@
        }),
        r.notification@ == proposal_notification(old(state)@, request@, notification_id@),
        r.notification@.from_peer.id == request@.peer_id,
        steps_view(r.steps@) == staging_steps(request@),
        r.success,
{
    let from_peer: PeerDevice = match state.find_peer(&request.peer_id) {
        Some(peer) => peer,
        None => PeerDevice {
            id: request.peer_id.clone(),
            name: request.peer_name.clone(),
            ip: Ipv4Address::localhost(),
            port: 0,
        },
    };
    let notification = SyncNotification {
        id: notification_id,
        from_peer,
        note_id: request.note.id.clone(),
        note_title: request.note.title.clone(),
        status: SyncStatus::Pending,
    };
    state.add_notification(notification.clone());

    let ghost wanted = staging_steps(request@);
    let mut steps: Vec<DiskStep> = Vec::new();
    steps.push(
        DiskStep::WriteFile {
            name: make_staged_file_name(request.note.id.as_str()),
            document: make_note_document(
                request.note.title.as_str(),
                request.note.content.as_str(),
            ),
        },
    );
    let n: usize = request.attachments_data.len();
    let mut i: usize = 0;
    assert(steps_view(steps@) =~= wanted.take(1));
    while i < n
        invariant
            i <= n,
            n == request.attachments_data@.len(),
            wanted == staging_steps(request@),
            steps@.len() == i + 1,
            steps_view(steps@) == wanted.take(i + 1),
        decreases n - i,
    {
        let ghost before = steps@;
        let a = &request.attachments_data[i];
        steps.push(
            DiskStep::WriteAttachment {
                note_id: request.note.id.clone(),
                name: a.name.clone(),
                data: crate::model::clone_bytes(&a.data),
            },
        );
        assert(steps_view(steps@) =~= steps_view(before).push(wanted[i + 1]));
        assert(wanted.take(i + 2) =~= wanted.take(i + 1).push(wanted[i + 1]));
        i = i + 1;
    }
    assert(wanted.take(n + 1) =~= wanted);
    InboundPlan { notification, steps, success: true }
}

/// Puts a proposal on record under a fresh notification id and says which writes
/// stage it. The id is drawn at random; everything else is as `receive_proposal`
/// has it for that id.
pub fn handle_sync_request(state: &mut AppState, request: SyncRequest) -> (r: InboundPlan)
    ensures
        is_uuid_text(r.notification@.id),
        final(state)@ == (AppStateView {
            notifications: old(state)@.notifications.push(
                proposal_notification(old(state)@, request@, r.notification@.id),
            ),
            ..old(state)@
        }),
        r.notification@ == proposal_notification(old(state)@, request@, r.notification@.id),
        r.notification@.from_peer.id == request@.peer_id,
        steps_view(r.steps@) == staging_steps(request@),
        r.success,
{
    let notification_id: String = random_uuid_text();
    receive_proposal(state, request, notification_id)
}

/// The decision that a peer reports back, read leniently: a missing id counts
/// as the empty id and a missing verdict as a rejection.
pub fn handle_sync_response(notification_id: Option<String>, accepted: Option<bool>) -> (r:
    SyncResponse)
    ensures
        r@ == (SyncResponseView {
            notification_id: match notification_id {
                Some(id) => id@,
                None => Seq::<char>::empty(),
            },
            accepted: match accepted {
                Some(a) => a,
                None => false,
            },
        }),
{
    let id: String = match notification_id {
        Some(id) => id,
        None => String::new(),
    };
    let verdict: bool = match accepted {
        Some(a) => a,
        None => false,
    };
    SyncResponse { notification_id: id, accepted: verdict }
}

/// A proposal that is put on record is the last entry of the log and leaves
/// the earlier entries as they were. It is pending, it names the sender of the
/// request as the peer it came from, and it carries the id and the title of
/// the note. Where no earlier notification has its id, a decision on that id
/// is a decision on this proposal.
pub proof fn lemma_proposal_on_record(
    state: AppStateView,
    request: SyncRequestView,
    notification_id: Seq<char>,
)
    requires
        keyed_by_id(state.peers),
    ensures
        ({
            let n = proposal_notification(state, request, notification_id);
            let log = state.notifications.push(n);
            &&& log.len() == state.notifications.len() + 1
            &&& log.last() == n
            &&& forall|j: int|
                0 <= j < state.notifications.len() ==> log[j] == state.notifications[j]
            &&& n.id == notification_id
            &&& n.status == SyncStatus::Pending
            &&& n.from_peer.id == request.peer_id
            &&& n.note_id == request.note.id
            &&& n.note_title == request.note.title
            &&& (forall|j: int|
                0 <= j < state.notifications.len() ==> state.notifications[j].id
                    != notification_id) ==> resolution_target(log, notification_id) == Ok::<
                int,
                SyncError,
            >(state.notifications.len() as int)
        }),
{
    let n = proposal_notification(state, request, notification_id);
    let log = state.notifications.push(n);
    if forall|j: int|
        0 <= j < state.notifications.len() ==> state.notifications[j].id != notification_id {
        lemma_first_with_id(log, notification_id);
        let k = first_with_id(log, notification_id);
        if k < 0 {
            assert(log[log.len() - 1].id != notification_id);
        } else if k < state.notifications.len() {
            assert(log[k] == state.notifications[k]);
        }
    }
}

} // verus!
