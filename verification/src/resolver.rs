//! Deciding on a proposal. A notification is decided once: accepting promotes
//! the staged note into the committed notes, rejecting throws the staged note
//! and its attachments away, and either way the proposing peer is told.
//!
//! The decision recorded here stands whether or not the peer can be reached.

use vstd::prelude::*;
use crate::inbound::{attachment_step, staging_steps};
use crate::model::{
    AttachmentView, SyncError, SyncNotification, SyncRequestView, SyncResponse, SyncResponseView,
};
use crate::registry::{log_after_decision, resolution_target, AppState, AppStateView};
use crate::store::{
    lemma_staged_name_is_not_committed, make_note_file_name, make_staged_file_name,
    note_document, note_file_name, staged_file_name, steps_view, DiskModel, DiskStep,
    DiskStepView,
};
use crate::transport::{
    endpoint_url, response_path, sync_response_url, DeliveryPolicy, ResponseTransmission,
};

verus! {

/// What a decision does to the directory of notes. Accepting moves the staged
/// document to its committed name; the attachments are where they belong
/// already. Rejecting removes the staged document and the attachments.
pub open spec fn resolution_steps(note_id: Seq<char>, accept: bool) -> Seq<DiskStepView> {
    if accept {
        seq![
            DiskStepView::MoveFile {
                from: staged_file_name(note_id),
                to: note_file_name(note_id),
            },
        ]
    } else {
        seq![
            DiskStepView::RemoveFile { name: staged_file_name(note_id) },
            DiskStepView::RemoveAttachments { note_id },
        ]
    }
}

/// What follows from a decision.
#[derive(Debug)]
pub struct Resolution {
    /// The notification as it stood before the decision.
    pub notification: SyncNotification,
    /// The changes to make on disk, in order. A step that fails is logged and
    /// the next one is still taken.
    pub steps: Vec<DiskStep>,
    /// Whether the set of committed notes changes, so that whoever shows it
    /// should read it again.
    pub notes_changed: bool,
    /// The message that tells the proposing peer.
    pub reply: ResponseTransmission,
}

/// Records the user's decision on a proposal and says what is to be done about
/// it. An unknown notification is `NotFound` and one that is decided already is
/// `Conflict`; then nothing changes and nothing is to be done.
pub fn respond_to_sync(state: &mut AppState, notification_id: &String, accept: bool) -> (r: Result<
    Resolution,
    SyncError,
>)
    ensures
        final(state)@ == (AppStateView {
            notifications: log_after_decision(old(state)@.notifications, notification_id@, accept),
            ..old(state)@
        }),
        match r {
            Ok(res) => resolution_target(old(state)@.notifications, notification_id@) matches Ok(k)
                && {
                let n = old(state)@.notifications[k];
                &&& res.notification@ == n
                &&& steps_view(res.steps@) == resolution_steps(n.note_id, accept)
                &&& res.notes_changed == accept
                &&& res.reply.url@ == endpoint_url(
                    n.from_peer.ip,
                    n.from_peer.port,
                    response_path(),
                )
                &&& res.reply.policy == DeliveryPolicy::quick_spec()
                &&& res.reply.response@ == (SyncResponseView {
                    notification_id: notification_id@,
                    accepted: accept,
                })
            },
            Err(e) => resolution_target(old(state)@.notifications, notification_id@) == Err::<
                int,
                SyncError,
            >(e),
        },
{
    match state.resolve_notification(notification_id, accept) {
        Err(e) => Err(e),
        Ok(notification) => {
            let staged: String = make_staged_file_name(notification.note_id.as_str());
            let mut steps: Vec<DiskStep> = Vec::new();
            if accept {
                let committed: String = make_note_file_name(notification.note_id.as_str());
                steps.push(DiskStep::MoveFile { from: staged, to: committed });
            } else {
                steps.push(DiskStep::RemoveFile { name: staged });
                steps.push(DiskStep::RemoveAttachments { note_id: notification.note_id.clone() });
            }
            assert(steps_view(steps@) =~= resolution_steps(notification@.note_id, accept));
            let reply = ResponseTransmission {
                url: sync_response_url(&notification.from_peer),
                policy: DeliveryPolicy::quick(),
                response: SyncResponse {
                    notification_id: notification_id.clone(),
                    accepted: accept,
                },
            };
            Ok(Resolution { notification, steps, notes_changed: accept, reply })
        },
    }
}

/// Accepting a staged note commits it: afterwards the note is among the
/// committed notes with the document that was staged, nothing of it is left in
/// staging, and every attachment on disk is there as before, so that those
/// staged with the note can be read under it. No other file is touched.
pub proof fn lemma_accept_commits(disk: DiskModel, note_id: Seq<char>)
    requires
        disk.is_staged(note_id),
        note_id.len() > 0,
    ensures
        ({
            let after = disk.run(resolution_steps(note_id, true));
            &&& after.is_committed(note_id)
            &&& after.files[note_file_name(note_id)] == disk.files[staged_file_name(note_id)]
            &&& !after.is_staged(note_id)
            &&& after.attachments == disk.attachments
            &&& forall|name: Seq<char>|
                disk.has_attachment(note_id, name) ==> after.has_attachment(note_id, name)
                    && after.attachments[(note_id, name)] == disk.attachments[(note_id, name)]
            &&& forall|name: Seq<char>|
                name != staged_file_name(note_id) && name != note_file_name(note_id) ==> (
                after.files.contains_key(name) == disk.files.contains_key(name) && (
                disk.files.contains_key(name) ==> after.files[name] == disk.files[name]))
        }),
{
    let steps = resolution_steps(note_id, true);
    lemma_staged_name_is_not_committed(note_id, note_id);
    assert(steps.drop_last() =~= Seq::<DiskStepView>::empty());
    assert(disk.run(steps.drop_last()) == disk);
    assert(disk.run(steps) == disk.step(steps[0]));
}

/// Rejecting a staged note leaves no trace of it: nothing of it is left in
/// staging, it has no attachment any more, and the committed notes are the
/// same as before. A note that was not committed before is not committed after.
pub proof fn lemma_reject_discards(disk: DiskModel, note_id: Seq<char>)
    ensures
        ({
            let after = disk.run(resolution_steps(note_id, false));
            &&& !after.is_staged(note_id)
            &&& after.has_no_attachment(note_id)
            &&& !disk.is_committed(note_id) ==> !after.is_committed(note_id)
            &&& forall|id: Seq<char>| after.is_committed(id) == disk.is_committed(id)
            &&& forall|id: Seq<char>|
                after.is_committed(id) ==> after.files[note_file_name(id)]
                    == disk.files[note_file_name(id)]
            &&& forall|id: Seq<char>, name: Seq<char>|
                id != note_id ==> (after.has_attachment(id, name) == disk.has_attachment(id, name)
                    && (disk.has_attachment(id, name) ==> after.attachments[(id, name)]
                    == disk.attachments[(id, name)]))
        }),
{
    let steps = resolution_steps(note_id, false);
    let first = steps.drop_last();
    assert(first.drop_last() =~= Seq::<DiskStepView>::empty());
    assert(disk.run(first.drop_last()) == disk);
    assert(disk.run(first) == disk.step(steps[0]));
    assert(disk.run(steps) == disk.step(steps[0]).step(steps[1]));
    let after = disk.run(steps);
    assert forall|id: Seq<char>| after.is_committed(id) == disk.is_committed(id) by {
        lemma_staged_name_is_not_committed(note_id, id);
    }
    assert forall|id: Seq<char>| after.is_committed(id) implies after.files[note_file_name(id)]
        == disk.files[note_file_name(id)] by {
        lemma_staged_name_is_not_committed(note_id, id);
    }
}

/// Taking two sequences of steps one after the other is taking them in a row.
pub proof fn lemma_run_in_a_row(disk: DiskModel, first: Seq<DiskStepView>, then: Seq<DiskStepView>)
    ensures
        disk.run(first + then) == disk.run(first).run(then),
    decreases then.len(),
{
    if then.len() == 0 {
        assert(first + then =~= first);
    } else {
        lemma_run_in_a_row(disk, first, then.drop_last());
        assert((first + then).drop_last() =~= first + then.drop_last());
        assert((first + then).last() == then.last());
    }
}

/// The attachments on disk after those of a note have been written, one after
/// the other.
pub open spec fn with_attachments(
    attachments: Map<(Seq<char>, Seq<char>), Seq<u8>>,
    note_id: Seq<char>,
    items: Seq<AttachmentView>,
) -> Map<(Seq<char>, Seq<char>), Seq<u8>>
    decreases items.len(),
{
    if items.len() == 0 {
        attachments
    } else {
        with_attachments(attachments, note_id, items.drop_last()).insert(
            (note_id, items.last().name),
            items.last().data,
        )
    }
}

/// Each attachment that was written is there, with its own bytes unless a
/// later one has the same name.
proof fn lemma_with_attachments_at(
    attachments: Map<(Seq<char>, Seq<char>), Seq<u8>>,
    note_id: Seq<char>,
    items: Seq<AttachmentView>,
    i: int,
)
    requires
        0 <= i < items.len(),
    ensures
        with_attachments(attachments, note_id, items).contains_key((note_id, items[i].name)),
        (forall|j: int| i < j < items.len() ==> items[j].name != items[i].name)
            ==> with_attachments(attachments, note_id, items)[(note_id, items[i].name)]
            == items[i].data,
    decreases items.len(),
{
    let fewer = items.drop_last();
    if i < items.len() - 1 {
        lemma_with_attachments_at(attachments, note_id, fewer, i);
        assert(fewer[i] == items[i]);
        if forall|j: int| i < j < items.len() ==> items[j].name != items[i].name {
            assert(items[items.len() - 1].name != items[i].name);
            assert forall|j: int| i < j < fewer.len() implies fewer[j].name != fewer[i].name by {
                assert(fewer[j] == items[j]);
            }
        }
    }
}

/// Writing the attachments of a note touches no document.
proof fn lemma_attachments_written(disk: DiskModel, note_id: Seq<char>, items: Seq<AttachmentView>)
    ensures
        disk.run(items.map_values(|a: AttachmentView| attachment_step(note_id, a))) == (DiskModel {
            files: disk.files,
            attachments: with_attachments(disk.attachments, note_id, items),
        }),
    decreases items.len(),
{
    let steps = items.map_values(|a: AttachmentView| attachment_step(note_id, a));
    if items.len() > 0 {
        let fewer = items.drop_last();
        let fewer_steps = fewer.map_values(|a: AttachmentView| attachment_step(note_id, a));
        lemma_attachments_written(disk, note_id, fewer);
        assert(steps.drop_last() =~= fewer_steps);
        assert(steps.last() == attachment_step(note_id, items.last()));
    }
}

/// Staging a proposal writes the note's document under its staged name and
/// nowhere else, and puts every attachment under the note with the bytes that
/// came in.
pub proof fn lemma_staging(disk: DiskModel, request: SyncRequestView)
    ensures
        ({
            let id = request.note.id;
            let items = request.attachments_data;
            let staged = disk.run(staging_steps(request));
            &&& staged.files == disk.files.insert(
                staged_file_name(id),
                note_document(request.note.title, request.note.content),
            )
            &&& forall|i: int|
                0 <= i < items.len() ==> staged.has_attachment(id, #[trigger] items[i].name)
            &&& forall|i: int|
                0 <= i < items.len() && (forall|j: int|
                    i < j < items.len() ==> items[j].name != items[i].name)
                    ==> staged.attachments[(id, #[trigger] items[i].name)] == items[i].data
        }),
{
    let id = request.note.id;
    let write = seq![
        DiskStepView::WriteFile {
            name: staged_file_name(id),
            document: note_document(request.note.title, request.note.content),
        },
    ];
    let rest = request.attachments_data.map_values(|a: AttachmentView| attachment_step(id, a));
    assert(staging_steps(request) == write + rest);
    lemma_run_in_a_row(disk, write, rest);
    assert(write.drop_last() =~= Seq::<DiskStepView>::empty());
    assert(disk.run(write.drop_last()) == disk);
    assert(disk.run(write) == disk.step(write[0]));
    lemma_attachments_written(disk.run(write), id, request.attachments_data);
    let items = request.attachments_data;
    let staged = disk.run(staging_steps(request));
    assert forall|i: int| 0 <= i < items.len() implies staged.has_attachment(
        id,
        #[trigger] items[i].name,
    ) by {
        lemma_with_attachments_at(disk.attachments, id, items, i);
    }
    assert forall|i: int|
        0 <= i < items.len() && (forall|j: int|
            i < j < items.len() ==> items[j].name != items[i].name) implies staged.attachments[(
        id,
        #[trigger] items[i].name,
    )] == items[i].data by {
        lemma_with_attachments_at(disk.attachments, id, items, i);
    }
}

/// A proposal that is staged and then accepted ends up among the committed
/// notes as it was sent: the note is committed with the document made of its
/// title and content, nothing of it is left in staging, and each attachment can
/// be read under the note with the very bytes that came in.
pub proof fn lemma_accepted_proposal(disk: DiskModel, request: SyncRequestView)
    requires
        request.note.id.len() > 0,
    ensures
        ({
            let id = request.note.id;
            let items = request.attachments_data;
            let after = disk.run(staging_steps(request)).run(resolution_steps(id, true));
            &&& after.is_committed(id)
            &&& after.files[note_file_name(id)] == note_document(
                request.note.title,
                request.note.content,
            )
            &&& !after.is_staged(id)
            &&& forall|i: int|
                0 <= i < items.len() ==> after.has_attachment(id, #[trigger] items[i].name)
            &&& forall|i: int|
                0 <= i < items.len() && (forall|j: int|
                    i < j < items.len() ==> items[j].name != items[i].name)
                    ==> after.attachments[(id, #[trigger] items[i].name)] == items[i].data
        }),
{
    let staged = disk.run(staging_steps(request));
    lemma_staging(disk, request);
    lemma_accept_commits(staged, request.note.id);
}

/// A proposal that is staged and then rejected leaves the committed notes as
/// they were, nothing in staging, and no attachment under the note.
pub proof fn lemma_rejected_proposal(disk: DiskModel, request: SyncRequestView)
    ensures
        ({
            let id = request.note.id;
            let after = disk.run(staging_steps(request)).run(resolution_steps(id, false));
            &&& !after.is_staged(id)
            &&& after.has_no_attachment(id)
            &&& !disk.is_committed(id) ==> !after.is_committed(id)
            &&& forall|other: Seq<char>| after.is_committed(other) == disk.is_committed(other)
            &&& forall|other: Seq<char>|
                disk.is_committed(other) ==> after.files[note_file_name(other)]
                    == disk.files[note_file_name(other)]
        }),
{
    let id = request.note.id;
    let staged = disk.run(staging_steps(request));
    lemma_staging(disk, request);
    lemma_reject_discards(staged, id);
    assert forall|other: Seq<char>| staged.is_committed(other) == disk.is_committed(other) by {
        lemma_staged_name_is_not_committed(id, other);
    }
    assert forall|other: Seq<char>| disk.is_committed(other) implies staged.files[note_file_name(
        other,
    )] == disk.files[note_file_name(other)] by {
        lemma_staged_name_is_not_committed(id, other);
    }
}

/// Of two proposals for the same note that are staged one after the other, the
/// later one is what waits for the decision.
pub proof fn lemma_later_proposal_wins(
    disk: DiskModel,
    first: SyncRequestView,
    second: SyncRequestView,
)
    requires
        first.note.id == second.note.id,
    ensures
        ({
            let staged = disk.run(staging_steps(first)).run(staging_steps(second));
            &&& staged.is_staged(second.note.id)
            &&& staged.files[staged_file_name(second.note.id)] == note_document(
                second.note.title,
                second.note.content,
            )
        }),
{
    lemma_staging(disk.run(staging_steps(first)), second);
}

} // verus!
