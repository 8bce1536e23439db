//! The data that the protocol speaks of, each type with its mathematical view.

use vstd::prelude::*;
use vstd::string::*;

verus! {

/// An IPv4 address, by its four octets.
#[derive(Clone, Copy, Debug, PartialEq, Eq, Structural)]
pub struct Ipv4Address {
    pub a: u8,
    pub b: u8,
    pub c: u8,
    pub d: u8,
}

impl Ipv4Address {
    /// 127.0.0.1
    pub open spec fn loopback() -> Ipv4Address {
        Ipv4Address { a: 127, b: 0, c: 0, d: 1 }
    }

    /// 0.0.0.0, which stands for every interface of the machine.
    pub open spec fn unspecified() -> Ipv4Address {
        Ipv4Address { a: 0, b: 0, c: 0, d: 0 }
    }

    pub fn new(a: u8, b: u8, c: u8, d: u8) -> (r: Ipv4Address)
        ensures
            r == (Ipv4Address { a, b, c, d }),
    {
        Ipv4Address { a, b, c, d }
    }

    pub fn localhost() -> (r: Ipv4Address)
        ensures
            r == Ipv4Address::loopback(),
    {
        Ipv4Address { a: 127, b: 0, c: 0, d: 1 }
    }

    pub fn any() -> (r: Ipv4Address)
        ensures
            r == Ipv4Address::unspecified(),
    {
        Ipv4Address { a: 0, b: 0, c: 0, d: 0 }
    }
}

/// An IPv6 address, by its eight 16-bit groups.
#[derive(Clone, Copy, Debug, PartialEq, Eq, Structural)]
pub struct Ipv6Address {
    pub g0: u16,
    pub g1: u16,
    pub g2: u16,
    pub g3: u16,
    pub g4: u16,
    pub g5: u16,
    pub g6: u16,
    pub g7: u16,
}

/// An address a listener can be bound to.
#[derive(Clone, Copy, Debug, PartialEq, Eq, Structural)]
pub enum IpAddress {
    V4(Ipv4Address),
    V6(Ipv6Address),
}

/// The address and port that the sync endpoint listens on, as it is announced.
#[derive(Clone, Copy, Debug, PartialEq, Eq, Structural)]
pub struct BindInfo {
    pub ip: IpAddress,
    pub port: u16,
}

/// Views of a list of names.
pub open spec fn names_view(names: Seq<String>) -> Seq<Seq<char>> {
    names.map_values(|s: String| s@)
}

/// Copies a list of names.
fn clone_names(names: &Vec<String>) -> (r: Vec<String>)
    ensures
        names_view(r@) == names_view(names@),
{
    let r: Vec<String> = names.clone();
    assert(r@ =~= names@);
    r
}

/// Copies a byte buffer.
pub fn clone_bytes(data: &Vec<u8>) -> (r: Vec<u8>)
    ensures
        r@ == data@,
{
    let r: Vec<u8> = data.clone();
    assert(r@ =~= data@);
    r
}

/// A note: a markdown document with the names of the files attached to it.
#[derive(Debug)]
pub struct Note {
    pub id: String,
    pub title: String,
    pub content: String,
    pub datetime: String,
    pub attachments: Vec<String>,
}

pub struct NoteView {
    pub id: Seq<char>,
    pub title: Seq<char>,
    pub content: Seq<char>,
    pub datetime: Seq<char>,
    pub attachments: Seq<Seq<char>>,
}

impl View for Note {
    type V = NoteView;

    open spec fn view(&self) -> NoteView {
        NoteView {
            id: self.id@,
            title: self.title@,
            content: self.content@,
            datetime: self.datetime@,
            attachments: names_view(self.attachments@),
        }
    }
}

impl Clone for Note {
    fn clone(&self) -> (r: Note)
        ensures
            r@ == self@,
    {
        Note {
            id: self.id.clone(),
            title: self.title.clone(),
            content: self.content.clone(),
            datetime: self.datetime.clone(),
            attachments: clone_names(&self.attachments),
        }
    }
}

/// Views of a list of notes.
pub open spec fn notes_view(notes: Seq<Note>) -> Seq<NoteView> {
    notes.map_values(|n: Note| n@)
}

/// Another instance seen on the network. Peers are reached over IPv4 only: the
/// discovery transport hands out IPv4 addresses and nothing else.
#[derive(Debug)]
pub struct PeerDevice {
    pub id: String,
    pub name: String,
    pub ip: Ipv4Address,
    pub port: u16,
}

pub struct PeerDeviceView {
    pub id: Seq<char>,
    pub name: Seq<char>,
    pub ip: Ipv4Address,
    pub port: u16,
}

impl View for PeerDevice {
    type V = PeerDeviceView;

    open spec fn view(&self) -> PeerDeviceView {
        PeerDeviceView { id: self.id@, name: self.name@, ip: self.ip, port: self.port }
    }
}

impl Clone for PeerDevice {
    fn clone(&self) -> (r: PeerDevice)
        ensures
            r@ == self@,
    {
        PeerDevice { id: self.id.clone(), name: self.name.clone(), ip: self.ip, port: self.port }
    }
}

/// Where a proposal stands: waiting for the user, or decided one way or the other.
#[derive(Clone, Copy, Debug, PartialEq, Eq, Structural)]
pub enum SyncStatus {
    Pending,
    Accepted,
    Rejected,
}

impl SyncStatus {
    /// The status that a decision leads to.
    pub open spec fn of_decision(accept: bool) -> SyncStatus {
        if accept {
            SyncStatus::Accepted
        } else {
            SyncStatus::Rejected
        }
    }

    pub fn from_decision(accept: bool) -> (r: SyncStatus)
        ensures
            r == SyncStatus::of_decision(accept),
    {
        if accept {
            SyncStatus::Accepted
        } else {
            SyncStatus::Rejected
        }
    }
}

/// What the user sees of a proposal that came in: who sent it, which note it
/// carries, and what has been decided.
#[derive(Debug)]
pub struct SyncNotification {
    pub id: String,
    pub from_peer: PeerDevice,
    pub note_id: String,
    pub note_title: String,
    pub status: SyncStatus,
}

pub struct SyncNotificationView {
    pub id: Seq<char>,
    pub from_peer: PeerDeviceView,
    pub note_id: Seq<char>,
    pub note_title: Seq<char>,
    pub status: SyncStatus,
}

impl View for SyncNotification {
    type V = SyncNotificationView;

    open spec fn view(&self) -> SyncNotificationView {
        SyncNotificationView {
            id: self.id@,
            from_peer: self.from_peer@,
            note_id: self.note_id@,
            note_title: self.note_title@,
            status: self.status,
        }
    }
}

impl Clone for SyncNotification {
    fn clone(&self) -> (r: SyncNotification)
        ensures
            r@ == self@,
    {
        SyncNotification {
            id: self.id.clone(),
            from_peer: self.from_peer.clone(),
            note_id: self.note_id.clone(),
            note_title: self.note_title.clone(),
            status: self.status,
        }
    }
}

/// One attached file: its name and its bytes.
#[derive(Debug)]
pub struct Attachment {
    pub name: String,
    pub data: Vec<u8>,
}

pub struct AttachmentView {
    pub name: Seq<char>,
    pub data: Seq<u8>,
}

impl View for Attachment {
    type V = AttachmentView;

    open spec fn view(&self) -> AttachmentView {
        AttachmentView { name: self.name@, data: self.data@ }
    }
}

impl Clone for Attachment {
    fn clone(&self) -> (r: Attachment)
        ensures
            r@ == self@,
    {
        Attachment { name: self.name.clone(), data: clone_bytes(&self.data) }
    }
}

/// Views of a list of attachments.
pub open spec fn attachments_view(items: Seq<Attachment>) -> Seq<AttachmentView> {
    items.map_values(|a: Attachment| a@)
}

/// The names of the attachments in a list, in order.
pub open spec fn attachment_names(items: Seq<AttachmentView>) -> Seq<Seq<char>> {
    items.map_values(|a: AttachmentView| a.name)
}

/// A proposal as it travels: the sender's identity, the note, and the bytes of
/// its attachments.
#[derive(Debug)]
pub struct SyncRequest {
    pub peer_id: String,
    pub peer_name: String,
    pub note: Note,
    /// The attachments by name. A proposal that this library builds has each
    /// name once; where one that came in has a name twice, the later entry is
    /// the one that counts.
    pub attachments_data: Vec<Attachment>,
}

pub struct SyncRequestView {
    pub peer_id: Seq<char>,
    pub peer_name: Seq<char>,
    pub note: NoteView,
    pub attachments_data: Seq<AttachmentView>,
}

impl SyncRequestView {
    /// No two attachments of the proposal have the same name.
    pub open spec fn one_per_name(self) -> bool {
        attachment_names(self.attachments_data).no_duplicates()
    }
}

impl View for SyncRequest {
    type V = SyncRequestView;

    open spec fn view(&self) -> SyncRequestView {
        SyncRequestView {
            peer_id: self.peer_id@,
            peer_name: self.peer_name@,
            note: self.note@,
            attachments_data: attachments_view(self.attachments_data@),
        }
    }
}

/// The decision on a proposal, as it is reported back to the sender.
#[derive(Debug)]
pub struct SyncResponse {
    pub notification_id: String,
    pub accepted: bool,
}

pub struct SyncResponseView {
    pub notification_id: Seq<char>,
    pub accepted: bool,
}

impl View for SyncResponse {
    type V = SyncResponseView;

    open spec fn view(&self) -> SyncResponseView {
        SyncResponseView { notification_id: self.notification_id@, accepted: self.accepted }
    }
}

/// What a lookup did not find.
#[derive(Clone, Copy, Debug, PartialEq, Eq, Structural)]
pub enum Missing {
    Peer,
    Note,
    Notification,
}

/// Why an operation was refused.
#[derive(Clone, Copy, Debug, PartialEq, Eq, Structural)]
pub enum SyncError {
    /// The peer, note or notification asked for is not known.
    NotFound(Missing),
    /// The notification has been decided already.
    Conflict,
    /// No candidate address and port could be bound.
    BindFailure,
    /// The listener's address is not IPv4, which the announcement needs.
    UnsupportedAddressFamily,
    /// The discovery transport would not take the announcement. It takes every
    /// announcement that this library builds.
    InvalidAnnouncement,
    /// Neither a file nor image bytes were given for an attachment.
    NoImageSource,
}

impl SyncError {
    /// What the user is told.
    pub open spec fn message_text(self) -> Seq<char> {
        match self {
            SyncError::NotFound(Missing::Peer) => "Peer not found"@,
            SyncError::NotFound(Missing::Note) => "Note not found"@,
            SyncError::NotFound(Missing::Notification) => "Notification not found"@,
            SyncError::Conflict => "Notification already resolved"@,
            SyncError::BindFailure => "Failed to bind to any port"@,
            SyncError::UnsupportedAddressFamily => "IPv6 not supported for mDNS"@,
            SyncError::InvalidAnnouncement => "Failed to create mDNS service info"@,
            SyncError::NoImageSource => "No valid image source provided"@,
        }
    }

    /// What the user is told.
    pub fn message(&self) -> (r: String)
        ensures
            r@ == self.message_text(),
    {
        let text: &'static str = match self {
            SyncError::NotFound(Missing::Peer) => "Peer not found",
            SyncError::NotFound(Missing::Note) => "Note not found",
            SyncError::NotFound(Missing::Notification) => "Notification not found",
            SyncError::Conflict => "Notification already resolved",
            SyncError::BindFailure => "Failed to bind to any port",
            SyncError::UnsupportedAddressFamily => "IPv6 not supported for mDNS",
            SyncError::InvalidAnnouncement => "Failed to create mDNS service info",
            SyncError::NoImageSource => "No valid image source provided",
        };
        String::from_str(text)
    }
}

} // verus!
