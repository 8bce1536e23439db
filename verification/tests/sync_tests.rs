use std::collections::BTreeMap;

use notes_sync::discovery::{handle_discovery_event, DiscoveryEvent, ResolvedService};
use notes_sync::inbound::{handle_sync_request, handle_sync_response, receive_proposal};
use notes_sync::model::{
    Attachment, Ipv4Address, Missing, Note, PeerDevice, SyncError, SyncRequest, SyncStatus,
};
use notes_sync::outbound::{
    batch_proposal, collect_attachments, note_to_share, notes_to_share, share_target,
    single_proposal, AttachmentRead,
};
use notes_sync::registry::AppState;
use notes_sync::resolver::respond_to_sync;
use notes_sync::store::{parse_note_file_name, recovery_for, DiskStep};
use notes_sync::transport::{
    format_endpoint_url, format_ipv4, sync_request_url, sync_response_url, DeliveryPolicy,
    BULK_TIMEOUT_SECS, MAX_BODY_BYTES, QUICK_TIMEOUT_SECS,
};

/// A directory of notes held in memory, on which the steps are carried out.
struct Disk {
    files: BTreeMap<String, String>,
    attachments: BTreeMap<(String, String), Vec<u8>>,
}

impl Disk {
    fn new() -> Disk {
        Disk { files: BTreeMap::new(), attachments: BTreeMap::new() }
    }

    fn run(&mut self, steps: &[DiskStep]) {
        for step in steps {
            match step {
                DiskStep::WriteFile { name, document } => {
                    self.files.insert(name.clone(), document.clone());
                }
                DiskStep::WriteAttachment { note_id, name, data } => {
                    self.attachments.insert((note_id.clone(), name.clone()), data.clone());
                }
                DiskStep::MoveFile { from, to } => {
                    if let Some(doc) = self.files.remove(from) {
                        self.files.insert(to.clone(), doc);
                    }
                }
                DiskStep::CopyThenRemove { from, to } => {
                    if let Some(doc) = self.files.get(from).cloned() {
                        self.files.insert(to.clone(), doc);
                        self.files.remove(from);
                    }
                }
                DiskStep::RemoveFile { name } => {
                    self.files.remove(name);
                }
                DiskStep::RemoveAttachments { note_id } => {
                    self.attachments.retain(|k, _| &k.0 != note_id);
                }
            }
        }
    }

    /// The ids of the committed notes.
    fn list_all(&self) -> Vec<String> {
        self.files.keys().filter_map(|name| parse_note_file_name(name)).collect()
    }

    fn read_attachment(&self, note_id: &str, name: &str) -> Option<Vec<u8>> {
        self.attachments.get(&(note_id.to_string(), name.to_string())).cloned()
    }
}

fn note(id: &str, title: &str, content: &str, attachments: &[&str]) -> Note {
    Note {
        id: id.to_string(),
        title: title.to_string(),
        content: content.to_string(),
        datetime: "1700000000".to_string(),
        attachments: attachments.iter().map(|s| s.to_string()).collect(),
    }
}

fn peer(id: &str, name: &str, last: u8, port: u16) -> PeerDevice {
    PeerDevice {
        id: id.to_string(),
        name: name.to_string(),
        ip: Ipv4Address::new(192, 168, 1, last),
        port,
    }
}

fn request(sender_id: &str, sender_name: &str, n: Note, attachments: Vec<(&str, Vec<u8>)>) -> SyncRequest {
    SyncRequest {
        peer_id: sender_id.to_string(),
        peer_name: sender_name.to_string(),
        note: n,
        attachments_data: attachments
            .into_iter()
            .map(|(name, data)| Attachment { name: name.to_string(), data })
            .collect(),
    }
}

#[test]
fn urls_of_a_peer() {
    let p = peer("A1", "Alice", 20, 8003);
    assert_eq!(sync_request_url(&p), "http://192.168.1.20:8003/sync/request");
    assert_eq!(sync_response_url(&p), "http://192.168.1.20:8003/sync/response");
    assert_eq!(format_ipv4(Ipv4Address::new(0, 0, 0, 0)), "0.0.0.0");
    assert_eq!(format_ipv4(Ipv4Address::new(255, 255, 255, 255)), "255.255.255.255");
    assert_eq!(format_ipv4(Ipv4Address::localhost()), "127.0.0.1");
    assert_eq!(format_endpoint_url(Ipv4Address::localhost(), 0, "/sync/response"), "http://127.0.0.1:0/sync/response");
    assert_eq!(format_endpoint_url(Ipv4Address::new(10, 0, 0, 1), 65535, "/x"), "http://10.0.0.1:65535/x");
}

#[test]
fn delivery_policies() {
    assert_eq!(QUICK_TIMEOUT_SECS, 5);
    assert_eq!(BULK_TIMEOUT_SECS, 60);
    assert_eq!(MAX_BODY_BYTES, 50 * 1024 * 1024);
    assert_eq!(DeliveryPolicy::quick(), DeliveryPolicy { timeout_secs: 5, own_connection: false });
    assert_eq!(DeliveryPolicy::bulk(), DeliveryPolicy { timeout_secs: 60, own_connection: true });
}

#[test]
fn share_with_unknown_peer_fails() {
    let state = AppState::new("B-id".to_string(), "Bob".to_string());
    let err = share_target(&state, &"A1".to_string()).unwrap_err();
    assert_eq!(err, SyncError::NotFound(Missing::Peer));
}

#[test]
fn share_target_uses_own_identity() {
    let mut state = AppState::new("B-id".to_string(), "Bob".to_string());
    state.upsert_peer(peer("A1", "Alice", 20, 8003));
    let target = share_target(&state, &"A1".to_string()).unwrap();
    assert_eq!(target.peer.id, "A1");
    assert_eq!(target.peer.name, "Alice");
    assert_eq!(target.url, "http://192.168.1.20:8003/sync/request");
    assert_eq!(target.sender_id, "B-id");
    assert_eq!(target.sender_name, "Bob");
}

#[test]
fn missing_notes_are_passed_over() {
    let all = vec![note("n1", "One", "1", &[]), note("n2", "Two", "2", &[]), note("n3", "Three", "3", &[])];
    let ids = vec!["n3".to_string(), "nope".to_string(), "n1".to_string()];
    let picked = notes_to_share(&all, &ids);
    assert_eq!(picked.len(), 2);
    assert_eq!(picked[0].id, "n3");
    assert_eq!(picked[0].title, "Three");
    assert_eq!(picked[1].id, "n1");
    assert!(notes_to_share(&all, &vec![]).is_empty());
    assert!(notes_to_share(&vec![], &ids).is_empty());
}

#[test]
fn an_id_asked_for_twice_is_shared_twice() {
    let all = vec![note("n1", "One", "1", &[])];
    let ids = vec!["n1".to_string(), "n1".to_string()];
    assert_eq!(notes_to_share(&all, &ids).len(), 2);
}

#[test]
fn single_share_of_missing_note_is_an_error() {
    let all = vec![note("n1", "One", "1", &[])];
    assert_eq!(note_to_share(&all, &"n2".to_string()).unwrap_err(), SyncError::NotFound(Missing::Note));
    let found = note_to_share(&all, &"n1".to_string()).unwrap();
    assert_eq!(found.title, "One");
    assert_eq!(found.content, "1");
}

#[test]
fn first_note_with_the_id_is_taken() {
    let all = vec![note("n1", "First", "1", &[]), note("n1", "Second", "2", &[])];
    assert_eq!(note_to_share(&all, &"n1".to_string()).unwrap().title, "First");
}

#[test]
fn unreadable_attachments_are_left_out() {
    let reads = vec![
        AttachmentRead { name: "a.png".to_string(), data: Some(vec![1, 2]) },
        AttachmentRead { name: "gone.png".to_string(), data: None },
        AttachmentRead { name: "b.png".to_string(), data: Some(vec![]) },
    ];
    let kept = collect_attachments(reads);
    assert_eq!(kept.len(), 2);
    assert_eq!(kept[0].name, "a.png");
    assert_eq!(kept[0].data, vec![1, 2]);
    assert_eq!(kept[1].name, "b.png");
    assert!(kept[1].data.is_empty());
}

#[test]
fn a_name_read_twice_travels_once_with_the_last_bytes() {
    let reads = vec![
        AttachmentRead { name: "a.png".to_string(), data: Some(vec![1]) },
        AttachmentRead { name: "b.png".to_string(), data: Some(vec![2]) },
        AttachmentRead { name: "a.png".to_string(), data: Some(vec![3, 3]) },
        AttachmentRead { name: "b.png".to_string(), data: None },
        AttachmentRead { name: "c.png".to_string(), data: None },
    ];
    let kept = collect_attachments(reads);
    assert_eq!(kept.len(), 2);
    assert_eq!(kept[0].name, "a.png");
    assert_eq!(kept[0].data, vec![3, 3]);
    assert_eq!(kept[1].name, "b.png");
    assert_eq!(kept[1].data, vec![2]);
}

#[test]
fn collected_attachments_are_what_a_map_would_hold() {
    let names = ["x", "y", "x", "z", "y", "x", "w"];
    let mut reads = Vec::new();
    let mut expected: BTreeMap<String, Vec<u8>> = BTreeMap::new();
    for (i, name) in names.iter().enumerate() {
        let data = if i % 3 == 1 { None } else { Some(vec![i as u8; i]) };
        if let Some(bytes) = &data {
            expected.insert(name.to_string(), bytes.clone());
        }
        reads.push(AttachmentRead { name: name.to_string(), data });
    }
    let kept = collect_attachments(reads);
    let mut held: BTreeMap<String, Vec<u8>> = BTreeMap::new();
    for a in &kept {
        assert!(held.insert(a.name.clone(), a.data.clone()).is_none());
    }
    assert_eq!(held, expected);
}

#[test]
fn proposal_carries_note_and_attachments() {
    let mut state = AppState::new("B-id".to_string(), "Bob".to_string());
    state.upsert_peer(peer("A1", "Alice", 20, 8003));
    let target = share_target(&state, &"A1".to_string()).unwrap();
    let reads = vec![AttachmentRead { name: "img.png".to_string(), data: Some(vec![9, 8, 7]) }];
    let t = batch_proposal(&target, note("n1", "One", "text", &["img.png"]), reads);
    assert_eq!(t.url, "http://192.168.1.20:8003/sync/request");
    assert_eq!(t.policy.timeout_secs, 60);
    assert!(t.policy.own_connection);
    assert_eq!(t.request.peer_id, "B-id");
    assert_eq!(t.request.peer_name, "Bob");
    assert_eq!(t.request.note.id, "n1");
    assert_eq!(t.request.note.attachments, vec!["img.png".to_string()]);
    assert_eq!(t.request.attachments_data.len(), 1);
    assert_eq!(t.request.attachments_data[0].name, "img.png");
    assert_eq!(t.request.attachments_data[0].data, vec![9, 8, 7]);
}

#[test]
fn single_proposal_is_a_short_message() {
    let mut state = AppState::new("B-id".to_string(), "Bob".to_string());
    state.upsert_peer(peer("A1", "Alice", 20, 8003));
    let target = share_target(&state, &"A1".to_string()).unwrap();
    let t = single_proposal(&target, note("n1", "One", "text", &[]), vec![]);
    assert_eq!(t.url, "http://192.168.1.20:8003/sync/request");
    assert_eq!(t.policy, DeliveryPolicy::quick());
    assert_eq!(t.request.peer_id, "B-id");
    assert!(t.request.attachments_data.is_empty());
}

#[test]
fn three_notes_to_two_peers_make_six_proposals() {
    let mut state = AppState::new("me".to_string(), "Me".to_string());
    state.upsert_peer(peer("A1", "Alice", 20, 8003));
    state.upsert_peer(peer("C1", "Carol", 30, 8004));
    let all = vec![note("n1", "One", "1", &[]), note("n2", "Two", "2", &[]), note("n3", "Three", "3", &[])];
    let ids = vec!["n1".to_string(), "n2".to_string(), "n3".to_string()];
    let mut sent = Vec::new();
    for peer_id in ["A1", "C1"] {
        let target = share_target(&state, &peer_id.to_string()).unwrap();
        for n in notes_to_share(&all, &ids) {
            sent.push(batch_proposal(&target, n, vec![]));
        }
    }
    assert_eq!(sent.len(), 6);
    let to_alice = sent.iter().filter(|t| t.url == "http://192.168.1.20:8003/sync/request").count();
    let to_carol = sent.iter().filter(|t| t.url == "http://192.168.1.30:8004/sync/request").count();
    assert_eq!(to_alice, 3);
    assert_eq!(to_carol, 3);
    for t in &sent {
        assert!(t.policy.own_connection);
        assert_eq!(t.request.peer_id, "me");
    }
}

#[test]
fn proposal_from_known_peer_is_recorded_with_its_address() {
    let mut a = AppState::new("A1".to_string(), "Alice".to_string());
    a.upsert_peer(peer("B-id", "Bob", 40, 8005));
    let plan = receive_proposal(
        &mut a,
        request("B-id", "Bob as he calls himself", note("n1", "One", "text", &[]), vec![]),
        "notif-1".to_string(),
    );
    assert!(plan.success);
    assert_eq!(plan.notification.id, "notif-1");
    assert_eq!(plan.notification.from_peer.id, "B-id");
    assert_eq!(plan.notification.from_peer.name, "Bob");
    assert_eq!(plan.notification.from_peer.port, 8005);
    assert_eq!(plan.notification.note_id, "n1");
    assert_eq!(plan.notification.note_title, "One");
    assert_eq!(plan.notification.status, SyncStatus::Pending);
    let log = a.list_notifications();
    assert_eq!(log.len(), 1);
    assert_eq!(log[0].id, "notif-1");
    assert_eq!(log[0].status, SyncStatus::Pending);
}

#[test]
fn proposal_from_unknown_peer_gets_a_stand_in() {
    let mut a = AppState::new("A1".to_string(), "Alice".to_string());
    let plan = receive_proposal(
        &mut a,
        request("X9", "Stranger", note("n1", "One", "text", &[]), vec![]),
        "notif-1".to_string(),
    );
    assert_eq!(plan.notification.from_peer.id, "X9");
    assert_eq!(plan.notification.from_peer.name, "Stranger");
    assert_eq!(plan.notification.from_peer.ip, Ipv4Address::new(127, 0, 0, 1));
    assert_eq!(plan.notification.from_peer.port, 0);
    assert!(a.list_peers().is_empty());
}

#[test]
fn a_proposal_is_appended_to_the_log() {
    let mut a = AppState::new("A1".to_string(), "Alice".to_string());
    a.upsert_peer(peer("B-id", "Bob", 40, 8005));
    handle_sync_request(&mut a, request("B-id", "Bob", note("n0", "Zero", "t", &[]), vec![]));
    handle_sync_request(&mut a, request("X9", "Stranger", note("n1", "One", "t", &[]), vec![]));
    let first_id = a.list_notifications()[0].id.clone();
    assert!(respond_to_sync(&mut a, &first_id, true).is_ok());
    let old = a.list_notifications();

    let plan = handle_sync_request(
        &mut a,
        request("B-id", "Bob", note("n2", "Two", "text", &[]), vec![]),
    );
    let log = a.list_notifications();
    assert_eq!(log.len(), old.len() + 1);
    for (before, after) in old.iter().zip(log.iter()) {
        assert_eq!(before.id, after.id);
        assert_eq!(before.status, after.status);
        assert_eq!(before.from_peer.id, after.from_peer.id);
        assert_eq!(before.note_id, after.note_id);
        assert_eq!(before.note_title, after.note_title);
    }
    let n = &log[log.len() - 1];
    assert_eq!(n.id, plan.notification.id);
    assert_eq!(n.status, SyncStatus::Pending);
    assert_eq!(n.from_peer.id, "B-id");
    assert_eq!(n.note_id, "n2");
    assert_eq!(n.note_title, "Two");
    for earlier in &old {
        assert_ne!(earlier.id, n.id);
    }
    assert_eq!(old[0].status, SyncStatus::Accepted);
    assert_eq!(old[1].from_peer.id, "X9");
}

#[test]
fn staging_writes_document_then_attachments() {
    let mut a = AppState::new("A1".to_string(), "Alice".to_string());
    let plan = receive_proposal(
        &mut a,
        request(
            "B-id",
            "Bob",
            note("n1", "One", "text", &["a.png", "b.png"]),
            vec![("a.png", vec![1]), ("b.png", vec![2, 3])],
        ),
        "notif-1".to_string(),
    );
    assert_eq!(plan.steps.len(), 3);
    match &plan.steps[0] {
        DiskStep::WriteFile { name, document } => {
            assert_eq!(name, "n1.md.sync");
            assert_eq!(document, "# One\n\ntext");
        }
        other => panic!("unexpected first step {:?}", other),
    }
    match &plan.steps[1] {
        DiskStep::WriteAttachment { note_id, name, data } => {
            assert_eq!(note_id, "n1");
            assert_eq!(name, "a.png");
            assert_eq!(data, &vec![1]);
        }
        other => panic!("unexpected second step {:?}", other),
    }
    match &plan.steps[2] {
        DiskStep::WriteAttachment { note_id, name, data } => {
            assert_eq!(note_id, "n1");
            assert_eq!(name, "b.png");
            assert_eq!(data, &vec![2, 3]);
        }
        other => panic!("unexpected third step {:?}", other),
    }
}

#[test]
fn fresh_notification_ids_are_uuids() {
    let mut a = AppState::new("A1".to_string(), "Alice".to_string());
    let first = handle_sync_request(&mut a, request("B-id", "Bob", note("n1", "One", "t", &[]), vec![]));
    let second = handle_sync_request(&mut a, request("B-id", "Bob", note("n2", "Two", "t", &[]), vec![]));
    assert_eq!(first.notification.id.len(), 36);
    assert_eq!(first.notification.id.matches('-').count(), 4);
    assert!(!first.notification.id.contains('_'));
    assert_ne!(first.notification.id, second.notification.id);
    let log = a.list_notifications();
    assert_eq!(log.len(), 2);
    assert_eq!(log[0].id, first.notification.id);
    assert_eq!(log[1].id, second.notification.id);
    assert_eq!(log[1].note_id, "n2");
}

#[test]
fn response_is_read_leniently() {
    let full = handle_sync_response(Some("notif-1".to_string()), Some(true));
    assert_eq!(full.notification_id, "notif-1");
    assert!(full.accepted);
    let empty = handle_sync_response(None, None);
    assert_eq!(empty.notification_id, "");
    assert!(!empty.accepted);
    let half = handle_sync_response(Some("notif-2".to_string()), None);
    assert_eq!(half.notification_id, "notif-2");
    assert!(!half.accepted);
}

#[test]
fn respond_to_unknown_notification_is_not_found() {
    let mut a = AppState::new("A1".to_string(), "Alice".to_string());
    let err = respond_to_sync(&mut a, &"nope".to_string(), true).unwrap_err();
    assert_eq!(err, SyncError::NotFound(Missing::Notification));
}

#[test]
fn respond_twice_is_a_conflict() {
    let mut a = AppState::new("A1".to_string(), "Alice".to_string());
    receive_proposal(
        &mut a,
        request("B-id", "Bob", note("n1", "One", "text", &[]), vec![]),
        "notif-1".to_string(),
    );
    assert!(respond_to_sync(&mut a, &"notif-1".to_string(), false).is_ok());
    let err = respond_to_sync(&mut a, &"notif-1".to_string(), true).unwrap_err();
    assert_eq!(err, SyncError::Conflict);
    assert_eq!(a.list_notifications()[0].status, SyncStatus::Rejected);
}

#[test]
fn accept_moves_the_staged_note_and_replies() {
    let mut a = AppState::new("A1".to_string(), "Alice".to_string());
    a.upsert_peer(peer("B-id", "Bob", 40, 8005));
    receive_proposal(
        &mut a,
        request("B-id", "Bob", note("n1", "One", "text", &[]), vec![]),
        "notif-1".to_string(),
    );
    let res = respond_to_sync(&mut a, &"notif-1".to_string(), true).unwrap();
    assert_eq!(res.notification.status, SyncStatus::Pending);
    assert_eq!(res.notification.note_id, "n1");
    assert!(res.notes_changed);
    assert_eq!(res.steps.len(), 1);
    match &res.steps[0] {
        DiskStep::MoveFile { from, to } => {
            assert_eq!(from, "n1.md.sync");
            assert_eq!(to, "n1.md");
        }
        other => panic!("unexpected step {:?}", other),
    }
    assert_eq!(res.reply.url, "http://192.168.1.40:8005/sync/response");
    assert_eq!(res.reply.policy, DeliveryPolicy::quick());
    assert_eq!(res.reply.response.notification_id, "notif-1");
    assert!(res.reply.response.accepted);
    assert_eq!(a.list_notifications()[0].status, SyncStatus::Accepted);
}

#[test]
fn reject_removes_staged_note_and_attachments() {
    let mut a = AppState::new("A1".to_string(), "Alice".to_string());
    receive_proposal(
        &mut a,
        request("B-id", "Bob", note("n1", "One", "text", &[]), vec![]),
        "notif-1".to_string(),
    );
    let res = respond_to_sync(&mut a, &"notif-1".to_string(), false).unwrap();
    assert!(!res.notes_changed);
    assert_eq!(res.steps.len(), 2);
    match &res.steps[0] {
        DiskStep::RemoveFile { name } => assert_eq!(name, "n1.md.sync"),
        other => panic!("unexpected step {:?}", other),
    }
    match &res.steps[1] {
        DiskStep::RemoveAttachments { note_id } => assert_eq!(note_id, "n1"),
        other => panic!("unexpected step {:?}", other),
    }
    assert_eq!(res.reply.url, "http://127.0.0.1:0/sync/response");
    assert!(!res.reply.response.accepted);
    assert_eq!(a.list_notifications()[0].status, SyncStatus::Rejected);
}

#[test]
fn accept_path_round_trip() {
    let mut disk = Disk::new();
    disk.files.insert("old.md".to_string(), "# Old\n\nkept".to_string());
    let mut a = AppState::new("A1".to_string(), "Alice".to_string());
    let plan = receive_proposal(
        &mut a,
        request(
            "B-id",
            "Bob",
            note("R", "Recipe", "flour", &["a", "b"]),
            vec![("a", vec![1, 2, 3]), ("b", vec![4])],
        ),
        "notif-1".to_string(),
    );
    disk.run(&plan.steps);
    assert_eq!(disk.list_all(), vec!["old".to_string()]);
    assert!(disk.files.contains_key("R.md.sync"));

    let res = respond_to_sync(&mut a, &"notif-1".to_string(), true).unwrap();
    disk.run(&res.steps);
    assert_eq!(disk.list_all(), vec!["R".to_string(), "old".to_string()]);
    assert_eq!(disk.files.get("R.md").unwrap(), "# Recipe\n\nflour");
    assert_eq!(disk.read_attachment("R", "a"), Some(vec![1, 2, 3]));
    assert_eq!(disk.read_attachment("R", "b"), Some(vec![4]));
    assert!(!disk.files.contains_key("R.md.sync"));
    assert_eq!(disk.files.get("old.md").unwrap(), "# Old\n\nkept");
}

#[test]
fn reject_path_leaves_nothing_behind() {
    let mut disk = Disk::new();
    disk.files.insert("old.md".to_string(), "# Old\n\nkept".to_string());
    disk.attachments.insert(("old".to_string(), "x".to_string()), vec![7]);
    let mut a = AppState::new("A1".to_string(), "Alice".to_string());
    let plan = receive_proposal(
        &mut a,
        request("B-id", "Bob", note("R", "Recipe", "flour", &["a"]), vec![("a", vec![1, 2, 3])]),
        "notif-1".to_string(),
    );
    disk.run(&plan.steps);
    let res = respond_to_sync(&mut a, &"notif-1".to_string(), false).unwrap();
    disk.run(&res.steps);
    assert_eq!(disk.list_all(), vec!["old".to_string()]);
    assert!(!disk.files.contains_key("R.md.sync"));
    assert_eq!(disk.read_attachment("R", "a"), None);
    assert_eq!(disk.read_attachment("old", "x"), Some(vec![7]));
}

#[test]
fn a_failed_move_is_recovered_by_copying() {
    let mut a = AppState::new("A1".to_string(), "Alice".to_string());
    let plan = receive_proposal(
        &mut a,
        request("B-id", "Bob", note("R", "Recipe", "flour", &[]), vec![]),
        "notif-1".to_string(),
    );
    let res = respond_to_sync(&mut a, &"notif-1".to_string(), true).unwrap();
    let instead = recovery_for(&res.steps[0]).unwrap();
    match &instead {
        DiskStep::CopyThenRemove { from, to } => {
            assert_eq!(from, "R.md.sync");
            assert_eq!(to, "R.md");
        }
        other => panic!("unexpected recovery {:?}", other),
    }
    for step in &plan.steps {
        assert!(recovery_for(step).is_none());
    }
    assert!(recovery_for(&instead).is_none());

    let mut moved = Disk::new();
    moved.run(&plan.steps);
    moved.run(&res.steps);
    let mut copied = Disk::new();
    copied.run(&plan.steps);
    copied.run(&[instead]);
    assert_eq!(moved.files, copied.files);
    assert_eq!(copied.list_all(), vec!["R".to_string()]);
}

#[test]
fn nothing_is_recovered_for_a_rejection() {
    let mut a = AppState::new("A1".to_string(), "Alice".to_string());
    receive_proposal(
        &mut a,
        request("B-id", "Bob", note("R", "Recipe", "flour", &[]), vec![]),
        "notif-1".to_string(),
    );
    let res = respond_to_sync(&mut a, &"notif-1".to_string(), false).unwrap();
    for step in &res.steps {
        assert!(recovery_for(step).is_none());
    }
}

#[test]
fn second_proposal_for_a_note_overwrites_the_staged_one() {
    let mut disk = Disk::new();
    let mut a = AppState::new("A1".to_string(), "Alice".to_string());
    let first = receive_proposal(
        &mut a,
        request("B-id", "Bob", note("R", "Recipe", "flour", &[]), vec![]),
        "notif-1".to_string(),
    );
    disk.run(&first.steps);
    let second = receive_proposal(
        &mut a,
        request("C-id", "Carol", note("R", "Recipe", "sugar", &[]), vec![]),
        "notif-2".to_string(),
    );
    disk.run(&second.steps);
    assert_eq!(disk.files.get("R.md.sync").unwrap(), "# Recipe\n\nsugar");
    assert_eq!(a.list_notifications().len(), 2);
}

#[test]
fn share_accept_scenario() {
    // B knows A through discovery and shares the note n1 with one attachment.
    let mut b = AppState::new("B-id".to_string(), "Bob".to_string());
    handle_discovery_event(
        &mut b,
        &DiscoveryEvent::Resolved(ResolvedService {
            id: Some("A1".to_string()),
            name: Some("Alice".to_string()),
            addresses: vec![Ipv4Address::new(192, 168, 1, 20)],
            port: 8003,
        }),
    );
    let image: Vec<u8> = (0..=255).collect();
    let b_notes = vec![note("n1", "Shared", "hello", &["img.png"])];
    let target = share_target(&b, &"A1".to_string()).unwrap();
    let picked = notes_to_share(&b_notes, &vec!["n1".to_string()]);
    assert_eq!(picked.len(), 1);
    let mut sent = Vec::new();
    for n in picked {
        let reads = n
            .attachments
            .iter()
            .map(|name| AttachmentRead { name: name.clone(), data: Some(image.clone()) })
            .collect();
        sent.push(batch_proposal(&target, n, reads));
    }
    assert_eq!(sent.len(), 1);
    let transmission = sent.pop().unwrap();
    assert_eq!(transmission.url, "http://192.168.1.20:8003/sync/request");

    // A receives the proposal and stages it.
    let mut a = AppState::new("A1".to_string(), "Alice".to_string());
    let mut a_disk = Disk::new();
    let plan = handle_sync_request(&mut a, transmission.request);
    assert!(plan.success);
    a_disk.run(&plan.steps);
    let log = a.list_notifications();
    assert_eq!(log.len(), 1);
    assert_eq!(log[0].status, SyncStatus::Pending);
    assert_eq!(log[0].from_peer.id, "B-id");
    assert!(a_disk.list_all().is_empty());

    // The user on A accepts.
    let res = respond_to_sync(&mut a, &log[0].id, true).unwrap();
    a_disk.run(&res.steps);
    assert_eq!(a_disk.list_all(), vec!["n1".to_string()]);
    assert_eq!(a_disk.files.get("n1.md").unwrap(), "# Shared\n\nhello");
    assert_eq!(a_disk.read_attachment("n1", "img.png"), Some(image));
    assert_eq!(res.reply.response.notification_id, log[0].id);
    assert!(res.reply.response.accepted);
}
