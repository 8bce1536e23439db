//! The peer registry: the peers that discovery has seen, the log of proposals
//! that came in, and this device's own identity.
//!
//! The registry is a plain value. A caller that shares it between tasks puts it
//! behind its own lock, takes what it needs while holding the lock, and performs
//! no I/O until the lock is released.

use vstd::prelude::*;
use crate::model::{
    Missing, PeerDevice, PeerDeviceView, SyncError, SyncNotification, SyncNotificationView,
    SyncStatus,
};
use crate::search::{first_index_of, lemma_first_index_in_prefix, lemma_first_index_of};

verus! {

/// The map from peer id to peer that a list of peers stands for. Where an id
/// occurs twice the later entry wins; a registry never holds such a list.
spec fn peer_map(peers: Seq<PeerDevice>) -> Map<Seq<char>, PeerDeviceView>
    decreases peers.len(),
{
    if peers.len() == 0 {
        Map::empty()
    } else {
        peer_map(peers.drop_last()).insert(peers.last().id@, peers.last()@)
    }
}

/// No id occurs twice among `peers`.
spec fn distinct_ids(peers: Seq<PeerDevice>) -> bool {
    forall|i: int, j: int| 0 <= i < j < peers.len() ==> peers[i].id@ != peers[j].id@
}

/// Views of a list of notifications.
pub open spec fn notifications_view(log: Seq<SyncNotification>) -> Seq<SyncNotificationView> {
    log.map_values(|n: SyncNotification| n@)
}

/// Views of a list of peers.
pub open spec fn peers_view(peers: Seq<PeerDevice>) -> Seq<PeerDeviceView> {
    peers.map_values(|p: PeerDevice| p@)
}

/// `list` holds each peer of `peers` once, and nothing else.
pub open spec fn lists_peers(
    list: Seq<PeerDeviceView>,
    peers: Map<Seq<char>, PeerDeviceView>,
) -> bool {
    &&& forall|i: int|
        0 <= i < list.len() ==> peers.contains_key(#[trigger] list[i].id) && peers[list[i].id]
            == list[i]
    &&& forall|id: Seq<char>| #[trigger]
        peers.contains_key(id) ==> exists|i: int| 0 <= i < list.len() && #[trigger] list[i].id == id
    &&& forall|i: int, j: int|
        0 <= i < j < list.len() ==> (#[trigger] list[i]).id != (#[trigger] list[j]).id
}

/// Every peer is known under its own id.
pub open spec fn keyed_by_id(peers: Map<Seq<char>, PeerDeviceView>) -> bool {
    forall|id: Seq<char>| peers.contains_key(id) ==> (#[trigger] peers[id]).id == id
}

/// The ids of the notifications in a log, in order.
pub open spec fn notification_ids(log: Seq<SyncNotificationView>) -> Seq<Seq<char>> {
    log.map_values(|n: SyncNotificationView| n.id)
}

/// Position of the first notification in `log` with the given id, or -1.
pub open spec fn first_with_id(log: Seq<SyncNotificationView>, id: Seq<char>) -> int {
    first_index_of(notification_ids(log), id)
}

/// `first_with_id` is the least position whose notification has the id.
pub proof fn lemma_first_with_id(log: Seq<SyncNotificationView>, id: Seq<char>)
    ensures
        -1 <= first_with_id(log, id) < log.len(),
        first_with_id(log, id) >= 0 ==> log[first_with_id(log, id)].id == id,
        first_with_id(log, id) >= 0 ==> forall|j: int|
            0 <= j < first_with_id(log, id) ==> log[j].id != id,
        first_with_id(log, id) < 0 ==> forall|j: int| 0 <= j < log.len() ==> log[j].id != id,
{
    let ids = notification_ids(log);
    let k = first_index_of(ids, id);
    lemma_first_index_of(ids, id);
    if k >= 0 {
        assert(ids[k] == log[k].id);
        assert forall|j: int| 0 <= j < k implies log[j].id != id by {
            assert(ids[j] == log[j].id);
        }
    } else {
        assert forall|j: int| 0 <= j < log.len() implies log[j].id != id by {
            assert(ids[j] == log[j].id);
        }
    }
}

/// A notification after the decision `accept` has been recorded on it.
pub open spec fn decided(n: SyncNotificationView, accept: bool) -> SyncNotificationView {
    SyncNotificationView { status: SyncStatus::of_decision(accept), ..n }
}

/// Which notification a decision on `id` applies to: the first one with that
/// id, if it is still pending.
pub open spec fn resolution_target(log: Seq<SyncNotificationView>, id: Seq<char>) -> Result<
    int,
    SyncError,
> {
    let k = first_with_id(log, id);
    if k < 0 {
        Err(SyncError::NotFound(Missing::Notification))
    } else if log[k].status != SyncStatus::Pending {
        Err(SyncError::Conflict)
    } else {
        Ok(k)
    }
}

/// The log after a decision on `id`: the notification it applies to carries the
/// decision, everything else is as before. A refused decision changes nothing.
pub open spec fn log_after_decision(
    log: Seq<SyncNotificationView>,
    id: Seq<char>,
    accept: bool,
) -> Seq<SyncNotificationView> {
    match resolution_target(log, id) {
        Ok(k) => log.update(k, decided(log[k], accept)),
        Err(_) => log,
    }
}

proof fn lemma_peer_map_dom(peers: Seq<PeerDevice>, id: Seq<char>)
    ensures
        peer_map(peers).contains_key(id) <==> exists|i: int|
            0 <= i < peers.len() && peers[i].id@ == id,
    decreases peers.len(),
{
    if peers.len() > 0 {
        let t = peers.drop_last();
        lemma_peer_map_dom(t, id);
        if peer_map(peers).contains_key(id) {
            if peers.last().id@ == id {
                assert(peers[peers.len() - 1].id@ == id);
            } else {
                let i = choose|i: int| 0 <= i < t.len() && t[i].id@ == id;
                assert(peers[i].id@ == id);
            }
        }
        if exists|i: int| 0 <= i < peers.len() && peers[i].id@ == id {
            let i = choose|i: int| 0 <= i < peers.len() && peers[i].id@ == id;
            if i < t.len() {
                assert(t[i].id@ == id);
            }
        }
    }
}

proof fn lemma_peer_map_keyed(peers: Seq<PeerDevice>)
    ensures
        keyed_by_id(peer_map(peers)),
    decreases peers.len(),
{
    if peers.len() > 0 {
        lemma_peer_map_keyed(peers.drop_last());
    }
}

proof fn lemma_peer_map_absent(peers: Seq<PeerDevice>, id: Seq<char>)
    requires
        forall|i: int| 0 <= i < peers.len() ==> peers[i].id@ != id,
    ensures
        !peer_map(peers).contains_key(id),
{
    lemma_peer_map_dom(peers, id);
}

proof fn lemma_peer_map_at(peers: Seq<PeerDevice>, i: int)
    requires
        distinct_ids(peers),
        0 <= i < peers.len(),
    ensures
        peer_map(peers).contains_key(peers[i].id@),
        peer_map(peers)[peers[i].id@] == peers[i]@,
    decreases peers.len(),
{
    let t = peers.drop_last();
    if i < peers.len() - 1 {
        assert(distinct_ids(t)) by {
            assert forall|a: int, b: int| 0 <= a < b < t.len() implies t[a].id@ != t[b].id@ by {
                assert(t[a] == peers[a] && t[b] == peers[b]);
            }
        }
        lemma_peer_map_at(t, i);
        assert(t[i] == peers[i]);
        assert(peers[i].id@ != peers[peers.len() - 1].id@);
    }
}

proof fn lemma_distinct_drop_last(peers: Seq<PeerDevice>)
    requires
        distinct_ids(peers),
        peers.len() > 0,
    ensures
        distinct_ids(peers.drop_last()),
        !peer_map(peers.drop_last()).contains_key(peers.last().id@),
{
    let t = peers.drop_last();
    assert forall|a: int, b: int| 0 <= a < b < t.len() implies t[a].id@ != t[b].id@ by {
        assert(t[a] == peers[a] && t[b] == peers[b]);
    }
    assert forall|a: int| 0 <= a < t.len() implies t[a].id@ != peers.last().id@ by {
        assert(t[a] == peers[a]);
        assert(peers[a].id@ != peers[peers.len() - 1].id@);
    }
    lemma_peer_map_absent(t, peers.last().id@);
}

proof fn lemma_peer_map_update(peers: Seq<PeerDevice>, i: int, peer: PeerDevice)
    requires
        distinct_ids(peers),
        0 <= i < peers.len(),
        peers[i].id@ == peer.id@,
    ensures
        peer_map(peers.update(i, peer)) == peer_map(peers).insert(peer.id@, peer@),
        distinct_ids(peers.update(i, peer)),
    decreases peers.len(),
{
    let t = peers.drop_last();
    let u = peers.update(i, peer);
    assert(distinct_ids(u)) by {
        assert forall|a: int, b: int| 0 <= a < b < u.len() implies u[a].id@ != u[b].id@ by {
            assert(u[a].id@ == peers[a].id@);
            assert(u[b].id@ == peers[b].id@);
        }
    }
    lemma_distinct_drop_last(peers);
    if i == peers.len() - 1 {
        assert(u.drop_last() =~= t);
        assert(u.last() == peer);
        assert(peer_map(u) =~= peer_map(peers).insert(peer.id@, peer@));
    } else {
        lemma_peer_map_update(t, i, peer);
        assert(u.drop_last() =~= t.update(i, peer));
        assert(u.last() == peers.last());
        assert(peers[i].id@ != peers[peers.len() - 1].id@);
        assert(peer_map(u) =~= peer_map(peers).insert(peer.id@, peer@));
    }
}

proof fn lemma_peer_map_push(peers: Seq<PeerDevice>, peer: PeerDevice)
    requires
        distinct_ids(peers),
        forall|i: int| 0 <= i < peers.len() ==> peers[i].id@ != peer.id@,
    ensures
        peer_map(peers.push(peer)) == peer_map(peers).insert(peer.id@, peer@),
        distinct_ids(peers.push(peer)),
{
    let u = peers.push(peer);
    assert(u.drop_last() =~= peers);
    assert(u.last() == peer);
    assert forall|a: int, b: int| 0 <= a < b < u.len() implies u[a].id@ != u[b].id@ by {
        assert(u[a] == peers[a]);
        if b < peers.len() {
            assert(u[b] == peers[b]);
        }
    }
}

proof fn lemma_peer_map_remove(peers: Seq<PeerDevice>, i: int)
    requires
        distinct_ids(peers),
        0 <= i < peers.len(),
    ensures
        peer_map(peers.remove(i)) == peer_map(peers).remove(peers[i].id@),
        distinct_ids(peers.remove(i)),
    decreases peers.len(),
{
    let t = peers.drop_last();
    let u = peers.remove(i);
    assert(distinct_ids(u)) by {
        assert forall|a: int, b: int| 0 <= a < b < u.len() implies u[a].id@ != u[b].id@ by {
            let a2 = if a < i { a } else { a + 1 };
            let b2 = if b < i { b } else { b + 1 };
            assert(u[a] == peers[a2] && u[b] == peers[b2]);
        }
    }
    lemma_distinct_drop_last(peers);
    if i == peers.len() - 1 {
        assert(u =~= t);
        assert(peer_map(u) =~= peer_map(peers).remove(peers[i].id@));
    } else {
        lemma_peer_map_remove(t, i);
        assert(u.drop_last() =~= t.remove(i));
        assert(u.last() == peers.last());
        assert(t[i] == peers[i]);
        assert(peers[i].id@ != peers[peers.len() - 1].id@);
        assert(peer_map(u) =~= peer_map(peers).remove(peers[i].id@));
    }
}

/// The registry as a mathematical value.
pub struct AppStateView {
    pub device_id: Seq<char>,
    pub device_name: Seq<char>,
    pub peers: Map<Seq<char>, PeerDeviceView>,
    pub notifications: Seq<SyncNotificationView>,
}

/// The state that every component works on: who this device is, which peers are
/// known, and which proposals have come in.
pub struct AppState {
    device_id: String,
    device_name: String,
    peers: Vec<PeerDevice>,
    sync_notifications: Vec<SyncNotification>,
}

impl View for AppState {
    type V = AppStateView;

    closed spec fn view(&self) -> AppStateView {
        AppStateView {
            device_id: self.device_id@,
            device_name: self.device_name@,
            peers: peer_map(self.peers@),
            notifications: notifications_view(self.sync_notifications@),
        }
    }
}

impl AppState {
    #[verifier::type_invariant]
    spec fn well_formed(self) -> bool {
        distinct_ids(self.peers@)
    }

    /// A registry that knows no peer and holds no notification.
    pub fn new(device_id: String, device_name: String) -> (r: AppState)
        ensures
            r@ == (AppStateView {
                device_id: device_id@,
                device_name: device_name@,
                peers: Map::empty(),
                notifications: Seq::empty(),
            }),
    {
        let r = AppState {
            device_id,
            device_name,
            peers: Vec::new(),
            sync_notifications: Vec::new(),
        };
        assert(notifications_view(r.sync_notifications@) =~= Seq::empty());
        r
    }

    /// In every registry each peer is known under its own id.
    pub proof fn lemma_peers_keyed_by_id(&self)
        ensures
            keyed_by_id(self@.peers),
    {
        lemma_peer_map_keyed(self.peers@);
    }

    /// This device's id.
    pub fn device_id(&self) -> (r: &String)
        ensures
            r@ == self@.device_id,
    {
        &self.device_id
    }

    /// This device's display name.
    pub fn device_name(&self) -> (r: &String)
        ensures
            r@ == self@.device_name,
    {
        &self.device_name
    }

    /// Moves the list of peers out, leaving an empty one behind.
    fn take_peers(&mut self) -> (peers: Vec<PeerDevice>)
        ensures
            peers == old(self).peers,
            final(self).peers@ == Seq::<PeerDevice>::empty(),
            final(self).device_id == old(self).device_id,
            final(self).device_name == old(self).device_name,
            final(self).sync_notifications == old(self).sync_notifications,
    {
        let mut peers: Vec<PeerDevice> = Vec::new();
        std::mem::swap(&mut self.peers, &mut peers);
        peers
    }

    /// Puts a list of peers in place of the current one.
    fn put_peers(&mut self, peers: Vec<PeerDevice>)
        requires
            distinct_ids(peers@),
        ensures
            final(self).peers == peers,
            final(self).device_id == old(self).device_id,
            final(self).device_name == old(self).device_name,
            final(self).sync_notifications == old(self).sync_notifications,
    {
        let mut peers = peers;
        std::mem::swap(&mut self.peers, &mut peers);
    }

    /// Moves the log out, leaving an empty one behind.
    fn take_log(&mut self) -> (log: Vec<SyncNotification>)
        ensures
            log == old(self).sync_notifications,
            final(self).sync_notifications@ == Seq::<SyncNotification>::empty(),
            final(self).device_id == old(self).device_id,
            final(self).device_name == old(self).device_name,
            final(self).peers == old(self).peers,
    {
        proof {
            use_type_invariant(&*self);
        }
        let mut log: Vec<SyncNotification> = Vec::new();
        std::mem::swap(&mut self.sync_notifications, &mut log);
        log
    }

    /// Puts a log in place of the current one.
    fn put_log(&mut self, log: Vec<SyncNotification>)
        ensures
            final(self).sync_notifications == log,
            final(self).device_id == old(self).device_id,
            final(self).device_name == old(self).device_name,
            final(self).peers == old(self).peers,
    {
        proof {
            use_type_invariant(&*self);
        }
        let mut log = log;
        std::mem::swap(&mut self.sync_notifications, &mut log);
    }

    fn position_of_peer(&self, id: &String) -> (r: Option<usize>)
        ensures
            match r {
                Some(i) => i < self.peers@.len() && self.peers@[i as int].id@ == id@,
                None => forall|j: int| 0 <= j < self.peers@.len() ==> self.peers@[j].id@ != id@,
            },
    {
        let mut i: usize = 0;
        while i < self.peers.len()
            invariant
                i <= self.peers@.len(),
                forall|j: int| 0 <= j < i ==> self.peers@[j].id@ != id@,
            decreases self.peers@.len() - i,
        {
            if self.peers[i].id == *id {
                return Some(i);
            }
            i = i + 1;
        }
        None
    }

    /// Records `peer`, in place of whatever was known under its id.
    pub fn upsert_peer(&mut self, peer: PeerDevice)
        ensures
            final(self)@ == (AppStateView {
                peers: old(self)@.peers.insert(peer@.id, peer@),
                ..old(self)@
            }),
    {
        proof {
            use_type_invariant(&*self);
        }
        match self.position_of_peer(&peer.id) {
            Some(i) => {
                proof {
                    lemma_peer_map_update(self.peers@, i as int, peer);
                }
                let mut peers = self.take_peers();
                peers.set(i, peer);
                self.put_peers(peers);
            },
            None => {
                proof {
                    lemma_peer_map_push(self.peers@, peer);
                }
                let mut peers = self.take_peers();
                peers.push(peer);
                self.put_peers(peers);
            },
        }
    }

    /// Forgets the peer with the given id. Says whether there was one.
    pub fn remove_peer(&mut self, id: &String) -> (removed: bool)
        ensures
            removed == old(self)@.peers.contains_key(id@),
            final(self)@ == (AppStateView { peers: old(self)@.peers.remove(id@), ..old(self)@ }),
    {
        proof {
            use_type_invariant(&*self);
        }
        match self.position_of_peer(id) {
            Some(i) => {
                proof {
                    lemma_peer_map_remove(self.peers@, i as int);
                    lemma_peer_map_at(self.peers@, i as int);
                }
                let mut peers = self.take_peers();
                let _ = peers.remove(i);
                self.put_peers(peers);
                true
            },
            None => {
                proof {
                    lemma_peer_map_absent(self.peers@, id@);
                    assert(peer_map(self.peers@).remove(id@) =~= peer_map(self.peers@));
                }
                false
            },
        }
    }

    /// The peer known under `id`.
    pub fn find_peer(&self, id: &String) -> (r: Option<PeerDevice>)
        ensures
            match r {
                Some(p) => self@.peers.contains_key(id@) && p@ == self@.peers[id@] && p@.id == id@,
                None => !self@.peers.contains_key(id@),
            },
    {
        proof {
            use_type_invariant(self);
        }
        match self.position_of_peer(id) {
            Some(i) => {
                proof {
                    lemma_peer_map_at(self.peers@, i as int);
                }
                Some(self.peers[i].clone())
            },
            None => {
                proof {
                    lemma_peer_map_absent(self.peers@, id@);
                }
                None
            },
        }
    }

    /// A snapshot of the known peers, each once, in no particular order.
    pub fn list_peers(&self) -> (r: Vec<PeerDevice>)
        ensures
            lists_peers(peers_view(r@), self@.peers),
    {
        proof {
            use_type_invariant(self);
        }
        let mut out: Vec<PeerDevice> = Vec::new();
        let mut i: usize = 0;
        while i < self.peers.len()
            invariant
                i <= self.peers@.len(),
                out@.len() == i,
                forall|j: int| 0 <= j < i ==> out@[j]@ == self.peers@[j]@,
            decreases self.peers@.len() - i,
        {
            out.push(self.peers[i].clone());
            i = i + 1;
        }
        proof {
            let list = peers_view(out@);
            let src = self.peers@;
            assert forall|j: int| 0 <= j < list.len() implies self@.peers.contains_key(
                #[trigger] list[j].id,
            ) && self@.peers[list[j].id] == list[j] by {
                lemma_peer_map_at(src, j);
            }
            assert forall|id: Seq<char>| #[trigger] self@.peers.contains_key(id) implies exists|
                j: int,
            |
                0 <= j < list.len() && #[trigger] list[j].id == id by {
                lemma_peer_map_dom(src, id);
                let k = choose|k: int| 0 <= k < src.len() && src[k].id@ == id;
                assert(list[k].id == id);
            }
            assert forall|a: int, b: int| 0 <= a < b < list.len() implies (#[trigger] list[a]).id
                != (#[trigger] list[b]).id by {
                assert(list[a].id == src[a].id@);
                assert(list[b].id == src[b].id@);
            }
        }
        out
    }

    /// Appends a notification to the log.
    pub fn add_notification(&mut self, notification: SyncNotification)
        ensures
            final(self)@ == (AppStateView {
                notifications: old(self)@.notifications.push(notification@),
                ..old(self)@
            }),
    {
        let mut log = self.take_log();
        log.push(notification);
        self.put_log(log);
        assert(notifications_view(self.sync_notifications@) =~= notifications_view(
            old(self).sync_notifications@,
        ).push(notification@));
    }

    /// A snapshot of the log, oldest first.
    pub fn list_notifications(&self) -> (r: Vec<SyncNotification>)
        ensures
            notifications_view(r@) == self@.notifications,
    {
        let mut out: Vec<SyncNotification> = Vec::new();
        let mut i: usize = 0;
        while i < self.sync_notifications.len()
            invariant
                i <= self.sync_notifications@.len(),
                out@.len() == i,
                forall|j: int| 0 <= j < i ==> out@[j]@ == self.sync_notifications@[j]@,
            decreases self.sync_notifications@.len() - i,
        {
            out.push(self.sync_notifications[i].clone());
            i = i + 1;
        }
        assert(notifications_view(out@) =~= notifications_view(self.sync_notifications@));
        out
    }

    fn position_of_notification(&self, id: &String) -> (r: Option<usize>)
        ensures
            match r {
                Some(i) => i as int == first_with_id(self@.notifications, id@),
                None => first_with_id(self@.notifications, id@) == -1,
            },
    {
        let ghost ids = notification_ids(self@.notifications);
        let mut i: usize = 0;
        while i < self.sync_notifications.len()
            invariant
                i <= self.sync_notifications@.len(),
                ids == notification_ids(notifications_view(self.sync_notifications@)),
                first_index_of(ids.take(i as int), id@) == -1,
            decreases self.sync_notifications@.len() - i,
        {
            assert(ids.take(i + 1).drop_last() == ids.take(i as int));
            assert(ids.take(i + 1).last() == self.sync_notifications@[i as int]@.id);
            if self.sync_notifications[i].id == *id {
                proof {
                    lemma_first_index_in_prefix(ids, id@, i + 1);
                }
                return Some(i);
            }
            i = i + 1;
        }
        assert(ids.take(i as int) == ids);
        None
    }

    /// Records the user's decision on the notification with the given id and
    /// hands back the notification as it was before. A decision is recorded once:
    /// an unknown id is `NotFound`, a notification that is already decided is
    /// `Conflict`, and in both cases nothing changes.
    pub fn resolve_notification(&mut self, id: &String, accept: bool) -> (r: Result<
        SyncNotification,
        SyncError,
    >)
        ensures
            final(self)@ == (AppStateView {
                notifications: log_after_decision(old(self)@.notifications, id@, accept),
                ..old(self)@
            }),
            match r {
                Ok(previous) => resolution_target(old(self)@.notifications, id@) matches Ok(k)
                    && previous@ == old(self)@.notifications[k],
                Err(e) => resolution_target(old(self)@.notifications, id@) == Err::<int, SyncError>(
                    e,
                ),
            },
    {
        proof {
            use_type_invariant(&*self);
            lemma_first_with_id(self@.notifications, id@);
        }
        match self.position_of_notification(id) {
            None => Err(SyncError::NotFound(Missing::Notification)),
            Some(i) => {
                let previous: SyncNotification = self.sync_notifications[i].clone();
                if previous.status != SyncStatus::Pending {
                    Err(SyncError::Conflict)
                } else {
                    let updated = SyncNotification {
                        id: previous.id.clone(),
                        from_peer: previous.from_peer.clone(),
                        note_id: previous.note_id.clone(),
                        note_title: previous.note_title.clone(),
                        status: SyncStatus::from_decision(accept),
                    };
                    let mut log = self.take_log();
                    log.set(i, updated);
                    self.put_log(log);
                    assert(notifications_view(self.sync_notifications@) =~= notifications_view(
                        old(self).sync_notifications@,
                    ).update(i as int, decided(previous@, accept)));
                    Ok(previous)
                }
            },
        }
    }
}

/// One change to the set of known peers.
pub enum PeerOp {
    /// Record the peer, in place of whatever was known under its id.
    Upsert(PeerDeviceView),
    /// Forget the peer with the id.
    Remove(Seq<char>),
}

impl PeerOp {
    /// The id that the change is about.
    pub open spec fn id(self) -> Seq<char> {
        match self {
            PeerOp::Upsert(peer) => peer.id,
            PeerOp::Remove(id) => id,
        }
    }
}

/// The known peers after one change, as `upsert_peer` and `remove_peer` make it.
pub open spec fn apply_peer_op(peers: Map<Seq<char>, PeerDeviceView>, op: PeerOp) -> Map<
    Seq<char>,
    PeerDeviceView,
> {
    match op {
        PeerOp::Upsert(peer) => peers.insert(peer.id, peer),
        PeerOp::Remove(id) => peers.remove(id),
    }
}

/// The known peers after a sequence of changes.
pub open spec fn apply_peer_ops(peers: Map<Seq<char>, PeerDeviceView>, ops: Seq<PeerOp>) -> Map<
    Seq<char>,
    PeerDeviceView,
>
    decreases ops.len(),
{
    if ops.len() == 0 {
        peers
    } else {
        apply_peer_op(apply_peer_ops(peers, ops.drop_last()), ops.last())
    }
}

/// The most recent change in `ops` that is about `id`, if there is one.
pub open spec fn last_op_on(ops: Seq<PeerOp>, id: Seq<char>) -> Option<PeerOp>
    decreases ops.len(),
{
    if ops.len() == 0 {
        None
    } else if ops.last().id() == id {
        Some(ops.last())
    } else {
        last_op_on(ops.drop_last(), id)
    }
}

/// After any sequence of upserts and removals the registry knows exactly the
/// peers whose most recent change was an upsert, each as that upsert gave it. A
/// peer that no change was about is known as it was before.
pub proof fn lemma_peers_reflect_last_op(
    peers: Map<Seq<char>, PeerDeviceView>,
    ops: Seq<PeerOp>,
    id: Seq<char>,
)
    ensures
        match last_op_on(ops, id) {
            Some(PeerOp::Upsert(peer)) => apply_peer_ops(peers, ops).contains_key(id)
                && apply_peer_ops(peers, ops)[id] == peer,
            Some(PeerOp::Remove(_)) => !apply_peer_ops(peers, ops).contains_key(id),
            None => apply_peer_ops(peers, ops).contains_key(id) == peers.contains_key(id) && (
            peers.contains_key(id) ==> apply_peer_ops(peers, ops)[id] == peers[id]),
        },
    decreases ops.len(),
{
    if ops.len() > 0 {
        lemma_peers_reflect_last_op(peers, ops.drop_last(), id);
    }
}

/// Recording a peer twice is the same as recording it once.
pub proof fn lemma_upsert_is_idempotent(peers: Map<Seq<char>, PeerDeviceView>, peer: PeerDeviceView)
    ensures
        apply_peer_op(apply_peer_op(peers, PeerOp::Upsert(peer)), PeerOp::Upsert(peer))
            == apply_peer_op(peers, PeerOp::Upsert(peer)),
{
    assert(peers.insert(peer.id, peer).insert(peer.id, peer) =~= peers.insert(peer.id, peer));
}

/// Forgetting a peer that is not known changes nothing, and forgetting a peer
/// twice is the same as forgetting it once.
pub proof fn lemma_remove_is_idempotent(peers: Map<Seq<char>, PeerDeviceView>, id: Seq<char>)
    ensures
        !peers.contains_key(id) ==> apply_peer_op(peers, PeerOp::Remove(id)) == peers,
        apply_peer_op(apply_peer_op(peers, PeerOp::Remove(id)), PeerOp::Remove(id))
            == apply_peer_op(peers, PeerOp::Remove(id)),
{
    if !peers.contains_key(id) {
        assert(peers.remove(id) =~= peers);
    }
    assert(peers.remove(id).remove(id) =~= peers.remove(id));
}

/// A list that holds each known peer once has as many entries as there are
/// peers.
pub proof fn lemma_list_length(list: Seq<PeerDeviceView>, peers: Map<Seq<char>, PeerDeviceView>)
    requires
        lists_peers(list, peers),
    ensures
        peers.dom().finite(),
        peers.dom().len() == list.len(),
    decreases list.len(),
{
    if list.len() == 0 {
        assert forall|id: Seq<char>| !peers.contains_key(id) by {
            if peers.contains_key(id) {
                let i = choose|i: int| 0 <= i < list.len() && #[trigger] list[i].id == id;
            }
        }
        assert(peers.dom() =~= Set::<Seq<char>>::empty());
    } else {
        let last = list.last();
        let rest = list.drop_last();
        let fewer = peers.remove(last.id);
        assert(peers.contains_key(list[list.len() - 1].id));
        assert(lists_peers(rest, fewer)) by {
            assert forall|i: int| 0 <= i < rest.len() implies fewer.contains_key(
                #[trigger] rest[i].id,
            ) && fewer[rest[i].id] == rest[i] by {
                assert(rest[i] == list[i]);
                assert(peers.contains_key(list[i].id));
                assert(list[i].id != list[list.len() - 1].id);
            }
            assert forall|id: Seq<char>| #[trigger] fewer.contains_key(id) implies exists|i: int|
                0 <= i < rest.len() && #[trigger] rest[i].id == id by {
                assert(peers.contains_key(id));
                let i = choose|i: int| 0 <= i < list.len() && #[trigger] list[i].id == id;
                assert(i < rest.len());
                assert(rest[i].id == id);
            }
            assert forall|i: int, j: int| 0 <= i < j < rest.len() implies (#[trigger] rest[i]).id
                != (#[trigger] rest[j]).id by {
                assert(rest[i] == list[i] && rest[j] == list[j]);
            }
        }
        lemma_list_length(rest, fewer);
        assert(peers.dom() =~= fewer.dom().insert(last.id));
    }
}

/// A notification is decided once. Where a decision on `id` is taken, the
/// notification it applies to was pending and now carries the decision; every
/// other notification is as before. Any further decision on `id`, either way,
/// is a `Conflict` and leaves the log as it is.
pub proof fn lemma_decided_once(
    log: Seq<SyncNotificationView>,
    id: Seq<char>,
    first: bool,
    second: bool,
)
    requires
        resolution_target(log, id) is Ok,
    ensures
        ({
            let k = resolution_target(log, id)->Ok_0;
            let after = log_after_decision(log, id, first);
            &&& 0 <= k < log.len()
            &&& log[k].id == id
            &&& log[k].status == SyncStatus::Pending
            &&& after.len() == log.len()
            &&& after[k] == decided(log[k], first)
            &&& after[k].status != SyncStatus::Pending
            &&& forall|j: int| 0 <= j < log.len() && j != k ==> after[j] == log[j]
            &&& resolution_target(after, id) == Err::<int, SyncError>(SyncError::Conflict)
            &&& log_after_decision(after, id, second) == after
        }),
{
    let k = first_with_id(log, id);
    lemma_first_with_id(log, id);
    assert(notification_ids(log.update(k, decided(log[k], first))) =~= notification_ids(log));
}

/// A decision on an id that no notification has is `NotFound` and leaves the
/// log as it is.
pub proof fn lemma_unknown_is_not_found(log: Seq<SyncNotificationView>, id: Seq<char>, accept: bool)
    requires
        forall|j: int| 0 <= j < log.len() ==> log[j].id != id,
    ensures
        resolution_target(log, id) == Err::<int, SyncError>(
            SyncError::NotFound(Missing::Notification),
        ),
        log_after_decision(log, id, accept) == log,
{
    lemma_first_with_id(log, id);
    let k = first_with_id(log, id);
    if k >= 0 {
        assert(log[k].id != id);
    }
}

} // verus!
