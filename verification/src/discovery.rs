//! Announcing this instance on the local network and keeping track of the
//! others. The announcement and the handling of each event are decided here;
//! the caller owns the sockets, waits for the next event and hands it in.

use vstd::prelude::*;
use vstd::string::*;
use crate::model::{
    BindInfo, IpAddress, Ipv4Address, PeerDevice, PeerDeviceView, SyncError,
};
use crate::identity::{is_uuid_text, lemma_uuid_text_is_plain};
use crate::registry::{AppState, AppStateView};
use crate::transport::{format_ipv4, ipv4_text};
use crate::search::last_index_of;
use crate::text::{after_last, ends_with, strip_suffix, text_after_last, without_suffix};

verus! {

/// The service type under which instances announce themselves.
pub open spec fn service_type() -> Seq<char> {
    "_notes-sync._tcp.local."@
}

/// What ends the full name of every instance: a dot and the service type.
pub open spec fn service_suffix() -> Seq<char> {
    "._notes-sync._tcp.local."@
}

/// The host name that instances announce.
pub open spec fn announced_host() -> Seq<char> {
    "local."@
}

/// The name a peer goes by where its announcement gives none.
pub open spec fn unknown_peer() -> Seq<char> {
    "Unknown"@
}

/// The name of the instance that a device announces: its display name, an
/// underscore, and its id.
pub open spec fn instance_name(device_name: Seq<char>, device_id: Seq<char>) -> Seq<char> {
    device_name + "_"@ + device_id
}

/// The full name under which the network knows an instance.
pub open spec fn full_name(instance: Seq<char>) -> Seq<char> {
    instance + service_suffix()
}

/// The peer id that the name of a departed instance stands for: what follows
/// the last underscore of the instance name. The name may be given in full,
/// with the service type at its end, or bare.
pub open spec fn departed_peer_id(name: Seq<char>) -> Seq<char> {
    after_last(without_suffix(name, service_suffix()), '_')
}

pub fn service_type_name() -> (r: &'static str)
    ensures
        r@ == service_type(),
{
    "_notes-sync._tcp.local."
}

pub fn make_instance_name(device_name: &str, device_id: &str) -> (r: String)
    ensures
        r@ == instance_name(device_name@, device_id@),
{
    let mut r: String = String::from_str(device_name);
    r.append("_");
    r.append(device_id);
    r
}

/// Reads the peer id off the name of a departed instance.
pub fn parse_departed_peer_id(name: &str) -> (r: String)
    ensures
        r@ == departed_peer_id(name@),
{
    let instance: String = strip_suffix(name, "._notes-sync._tcp.local.");
    text_after_last(instance.as_str(), '_')
}

/// One property of an announcement.
#[derive(Debug)]
pub struct TxtProperty {
    pub key: String,
    pub value: String,
}

/// What this instance announces of itself.
#[derive(Debug)]
pub struct Advertisement {
    pub service_type: String,
    pub instance_name: String,
    pub host_name: String,
    pub ip: Ipv4Address,
    pub port: u16,
    pub properties: Vec<TxtProperty>,
}

pub struct AdvertisementView {
    pub service_type: Seq<char>,
    pub instance_name: Seq<char>,
    pub host_name: Seq<char>,
    pub ip: Ipv4Address,
    pub port: u16,
    pub properties: Seq<(Seq<char>, Seq<char>)>,
}

impl View for Advertisement {
    type V = AdvertisementView;

    open spec fn view(&self) -> AdvertisementView {
        AdvertisementView {
            service_type: self.service_type@,
            instance_name: self.instance_name@,
            host_name: self.host_name@,
            ip: self.ip,
            port: self.port,
            properties: self.properties@.map_values(|p: TxtProperty| (p.key@, p.value@)),
        }
    }
}

/// The announcement of a device that listens at `bind`: its id and display name
/// as the properties `id` and `name`, under an instance name made of both.
pub open spec fn advertisement_of(
    device_id: Seq<char>,
    device_name: Seq<char>,
    ip: Ipv4Address,
    port: u16,
) -> AdvertisementView {
    AdvertisementView {
        service_type: service_type(),
        instance_name: instance_name(device_name, device_id),
        host_name: announced_host(),
        ip,
        port,
        properties: seq![("id"@, device_id), ("name"@, device_name)],
    }
}

/// Puts together what this instance announces. The announcement carries an
/// IPv4 address; a listener on any other kind of address cannot be announced.
pub fn advertisement(state: &AppState, bind: &BindInfo) -> (r: Result<Advertisement, SyncError>)
    ensures
        match r {
            Ok(ad) => bind.ip matches IpAddress::V4(ip) && ad@ == advertisement_of(
                state@.device_id,
                state@.device_name,
                ip,
                bind.port,
            ),
            Err(e) => bind.ip is V6 && e == SyncError::UnsupportedAddressFamily,
        },
{
    match bind.ip {
        IpAddress::V6(_) => Err(SyncError::UnsupportedAddressFamily),
        IpAddress::V4(ip) => {
            let mut properties: Vec<TxtProperty> = Vec::new();
            properties.push(
                TxtProperty { key: String::from_str("id"), value: state.device_id().clone() },
            );
            properties.push(
                TxtProperty { key: String::from_str("name"), value: state.device_name().clone() },
            );
            let ad = Advertisement {
                service_type: String::from_str(service_type_name()),
                instance_name: make_instance_name(
                    state.device_name().as_str(),
                    state.device_id().as_str(),
                ),
                host_name: String::from_str("local."),
                ip,
                port: bind.port,
                properties,
            };
            assert(ad@.properties =~= seq![
                ("id"@, state@.device_id),
                ("name"@, state@.device_name),
            ]);
            Ok(ad)
        },
    }
}

/// An announcement in the form in which the discovery transport takes it.
#[verifier::external_type_specification]
#[verifier::external_body]
pub struct ExServiceInfo(mdns_sd::ServiceInfo);

/// Why the discovery transport refused something.
#[verifier::external_type_specification]
#[verifier::external_body]
pub struct ExDiscoveryError(mdns_sd::Error);

/// What holds of an announcement that the transport has built from `ad` and
/// from `address` as the text of its one address. Where the address is the
/// announcement's own in dotted decimal and the properties are `id` and `name`,
/// in that order, the transport takes the announcement, and what it built
/// reads back as given: each property under its key, the port, and the one
/// address. Of any other announcement nothing is said.
pub open spec fn built_as_given(
    r: Result<mdns_sd::ServiceInfo, mdns_sd::Error>,
    ad: AdvertisementView,
    address: Seq<char>,
) -> bool {
    (address == ipv4_text(ad.ip) && ad.properties.len() == 2 && ad.properties[0].0 == "id"@
        && ad.properties[1].0 == "name"@) ==> {
        &&& r matches Ok(info)
        &&& service_property(info, "id"@) == Some(ad.properties[0].1)
        &&& service_property(info, "name"@) == Some(ad.properties[1].1)
        &&& service_port(info) == ad.port
        &&& service_addresses(info) == set![ad.ip]
    }
}

/// Calls `mdns_sd::ServiceInfo::new` with the service type, instance name,
/// host name and port of the announcement, with `address` as its one address,
/// and with its properties as pairs of key and value. The crate refuses an
/// address that it cannot read and a property key that is not ASCII or holds
/// an equals sign; neither is the case for a dotted decimal address and the
/// keys `id` and `name`. It keeps the port, the address that the text stands
/// for, and each value under its key, which is what the contract claims for
/// such an announcement. For any other announcement nothing is claimed.
#[verifier::external_body]
fn new_service_info(ad: &Advertisement, address: &str) -> (r: Result<
    mdns_sd::ServiceInfo,
    mdns_sd::Error,
>)
    ensures
        built_as_given(r, ad@, address@),
{
    let pairs: Vec<(String, String)> =
        ad.properties.iter().map(|p| (p.key.clone(), p.value.clone())).collect();
    mdns_sd::ServiceInfo::new(
        &ad.service_type,
        &ad.instance_name,
        &ad.host_name,
        address,
        ad.port,
        &pairs[..],
    )
}

/// What a service says of a device that listens at `ip` and `port`: its id and
/// display name under the properties `id` and `name`, the port, and the one
/// address.
pub open spec fn announces(
    info: mdns_sd::ServiceInfo,
    device_id: Seq<char>,
    device_name: Seq<char>,
    ip: Ipv4Address,
    port: u16,
) -> bool {
    &&& service_property(info, "id"@) == Some(device_id)
    &&& service_property(info, "name"@) == Some(device_name)
    &&& service_port(info) == port
    &&& service_addresses(info) == set![ip]
}

/// Puts together what this instance announces, in the form in which the
/// discovery transport takes it. What goes into it is what `advertisement`
/// gives, with the address in dotted decimal. A listener on an IPv4 address is
/// always announced, and the announcement reads back as this device's id,
/// name, address and port. A listener on any other address cannot be
/// announced.
pub fn service_info(state: &AppState, bind: &BindInfo) -> (r: Result<
    mdns_sd::ServiceInfo,
    SyncError,
>)
    ensures
        match r {
            Ok(info) => bind.ip matches IpAddress::V4(ip) && announces(
                info,
                state@.device_id,
                state@.device_name,
                ip,
                bind.port,
            ),
            Err(e) => bind.ip is V6 && e == SyncError::UnsupportedAddressFamily,
        },
{
    match advertisement(state, bind) {
        Err(e) => Err(e),
        Ok(ad) => {
            let address: String = format_ipv4(ad.ip);
            match new_service_info(&ad, address.as_str()) {
                Ok(info) => Ok(info),
                Err(_) => Err(SyncError::InvalidAnnouncement),
            }
        },
    }
}

/// A service that was resolved on the network, as far as it matters here: the
/// properties `id` and `name` of its announcement, where it has them, its
/// addresses in the order in which the transport gave them, and its port.
#[derive(Debug)]
pub struct ResolvedService {
    pub id: Option<String>,
    pub name: Option<String>,
    pub addresses: Vec<Ipv4Address>,
    pub port: u16,
}

pub struct ResolvedServiceView {
    pub id: Option<Seq<char>>,
    pub name: Option<Seq<char>>,
    pub addresses: Seq<Ipv4Address>,
    pub port: u16,
}

impl View for ResolvedService {
    type V = ResolvedServiceView;

    open spec fn view(&self) -> ResolvedServiceView {
        ResolvedServiceView {
            id: match self.id {
                Some(s) => Some(s@),
                None => None,
            },
            name: match self.name {
                Some(s) => Some(s@),
                None => None,
            },
            addresses: self.addresses@,
            port: self.port,
        }
    }
}

/// What the discovery transport reports.
#[derive(Debug)]
pub enum DiscoveryEvent {
    /// An instance was resolved.
    Resolved(ResolvedService),
    /// The instance of the given name is gone.
    Removed(String),
    /// Anything else that the transport reports in passing.
    Other,
    /// The transport failed; no further event will come.
    Failed,
}

pub enum DiscoveryEventView {
    Resolved(ResolvedServiceView),
    Removed(Seq<char>),
    Other,
    Failed,
}

impl View for DiscoveryEvent {
    type V = DiscoveryEventView;

    open spec fn view(&self) -> DiscoveryEventView {
        match *self {
            DiscoveryEvent::Resolved(s) => DiscoveryEventView::Resolved(s@),
            DiscoveryEvent::Removed(name) => DiscoveryEventView::Removed(name@),
            DiscoveryEvent::Other => DiscoveryEventView::Other,
            DiscoveryEvent::Failed => DiscoveryEventView::Failed,
        }
    }
}

/// What the discovery transport reports, in its own form.
#[verifier::external_type_specification]
#[verifier::external_body]
pub struct ExServiceEvent(mdns_sd::ServiceEvent);

/// A report of the transport, told apart by its kind.
enum Report {
    Resolved(mdns_sd::ServiceInfo),
    Removed(String),
    Other,
}

/// A report of the transport as a mathematical value: a service that was
/// resolved, the full name of one that was removed, or anything else.
pub enum ReportView {
    Resolved(mdns_sd::ServiceInfo),
    Removed(Seq<char>),
    Other,
}

impl View for Report {
    type V = ReportView;

    closed spec fn view(&self) -> ReportView {
        match *self {
            Report::Resolved(info) => ReportView::Resolved(info),
            Report::Removed(name) => ReportView::Removed(name@),
            Report::Other => ReportView::Other,
        }
    }
}

/// What an event of `mdns_sd` reports: which of its variants it is, and what
/// that variant carries. It stands for the event itself; nothing is said of
/// which events the transport sends.
pub uninterp spec fn service_report(event: mdns_sd::ServiceEvent) -> ReportView;

/// The value, as text, that the TXT properties of a service hold under `key`,
/// as `mdns_sd::ServiceInfo::get_property_val_str` looks it up; nothing where
/// they hold no such key.
pub uninterp spec fn service_property(info: mdns_sd::ServiceInfo, key: Seq<char>) -> Option<
    Seq<char>,
>;

/// The addresses that a service holds, as `mdns_sd::ServiceInfo::get_addresses`
/// gives them, each by its four octets.
pub uninterp spec fn service_addresses(info: mdns_sd::ServiceInfo) -> Set<Ipv4Address>;

/// The port that a service holds, as `mdns_sd::ServiceInfo::get_port` gives it.
pub uninterp spec fn service_port(info: mdns_sd::ServiceInfo) -> u16;

/// Tells the variants of `mdns_sd::ServiceEvent` apart: `ServiceResolved` with
/// the service that it carries, `ServiceRemoved` with the full name that it
/// carries as its second field, and the rest. The contract gives that split
/// its name and claims nothing else.
#[verifier::external_body]
fn report_of(event: mdns_sd::ServiceEvent) -> (r: Report)
    ensures
        r@ == service_report(event),
{
    match event {
        mdns_sd::ServiceEvent::ServiceResolved(info) => Report::Resolved(info),
        mdns_sd::ServiceEvent::ServiceRemoved(_, full_name) => Report::Removed(full_name),
        _ => Report::Other,
    }
}

/// Calls `mdns_sd::ServiceInfo::get_property_val_str`, which looks `key` up
/// among the TXT properties of the service and gives the value as text. The
/// contract gives the outcome its name: the same service and key give the same
/// answer. Nothing is claimed of what the answer is.
#[verifier::external_body]
fn property_of(info: &mdns_sd::ServiceInfo, key: &str) -> (r: Option<String>)
    ensures
        service_property(*info, key@) == match r {
            Some(value) => Some(value@),
            None => None,
        },
{
    info.get_property_val_str(key).map(|v| v.to_string())
}

/// Calls `mdns_sd::ServiceInfo::get_addresses`, which gives the set of the
/// service's IPv4 addresses, and hands its members out by their octets. The
/// list holds each member of the set once and nothing else; the order is the
/// one in which the set is walked, of which nothing is claimed.
#[verifier::external_body]
fn addresses_of(info: &mdns_sd::ServiceInfo) -> (r: Vec<Ipv4Address>)
    ensures
        r@.to_set() == service_addresses(*info),
        r@.no_duplicates(),
{
    info.get_addresses().iter().map(
        |a| {
            let o = a.octets();
            Ipv4Address { a: o[0], b: o[1], c: o[2], d: o[3] }
        },
    ).collect()
}

/// Calls `mdns_sd::ServiceInfo::get_port`, which gives the port that the
/// service holds. The contract gives it its name.
#[verifier::external_body]
fn port_of(info: &mdns_sd::ServiceInfo) -> (r: u16)
    ensures
        r == service_port(*info),
{
    info.get_port()
}

/// What the caller does after an event has been handled.
#[derive(Clone, Copy, Debug, PartialEq, Eq, Structural)]
pub enum DiscoveryAction {
    /// Wait for the next event.
    Continue,
    /// Tell whoever shows the peers that they changed, then wait for the next
    /// event.
    PeersChanged,
    /// Stop listening. Peers that are known stay known; no new ones are found.
    Stop,
}

/// The peer that a resolved service is recorded as, if it is recorded at all.
/// A service is passed over where it does not say who it is, where it is this
/// device itself, and where it has no address.
pub open spec fn resolved_peer(own_id: Seq<char>, service: ResolvedServiceView) -> Option<
    PeerDeviceView,
> {
    match service.id {
        Some(id) => if id != own_id && service.addresses.len() > 0 {
            Some(
                PeerDeviceView {
                    id,
                    name: match service.name {
                        Some(name) => name,
                        None => unknown_peer(),
                    },
                    ip: service.addresses[0],
                    port: service.port,
                },
            )
        } else {
            None
        },
        None => None,
    }
}

/// The registry after an event.
pub open spec fn discovery_step(state: AppStateView, event: DiscoveryEventView) -> AppStateView {
    match event {
        DiscoveryEventView::Resolved(service) => match resolved_peer(state.device_id, service) {
            Some(peer) => AppStateView { peers: state.peers.insert(peer.id, peer), ..state },
            None => state,
        },
        DiscoveryEventView::Removed(name) => AppStateView {
            peers: state.peers.remove(departed_peer_id(name)),
            ..state
        },
        _ => state,
    }
}

/// What the caller does after an event.
pub open spec fn discovery_action(
    state: AppStateView,
    event: DiscoveryEventView,
) -> DiscoveryAction {
    match event {
        DiscoveryEventView::Resolved(service) => if resolved_peer(state.device_id, service)
            is Some {
            DiscoveryAction::PeersChanged
        } else {
            DiscoveryAction::Continue
        },
        DiscoveryEventView::Removed(name) => if state.peers.contains_key(
            departed_peer_id(name),
        ) {
            DiscoveryAction::PeersChanged
        } else {
            DiscoveryAction::Continue
        },
        DiscoveryEventView::Other => DiscoveryAction::Continue,
        DiscoveryEventView::Failed => DiscoveryAction::Stop,
    }
}

/// The registry after a sequence of events.
pub open spec fn discovery_run(state: AppStateView, events: Seq<DiscoveryEventView>) -> AppStateView
    decreases events.len(),
{
    if events.len() == 0 {
        state
    } else {
        discovery_step(discovery_run(state, events.drop_last()), events.last())
    }
}

/// Handles one event of the discovery transport: a resolved instance is
/// recorded as a peer, a departed one is forgotten.
pub fn handle_discovery_event(state: &mut AppState, event: &DiscoveryEvent) -> (r: DiscoveryAction)
    ensures
        final(state)@ == discovery_step(old(state)@, event@),
        r == discovery_action(old(state)@, event@),
{
    match event {
        DiscoveryEvent::Resolved(service) => {
            match &service.id {
                None => DiscoveryAction::Continue,
                Some(id) => {
                    if *id == *state.device_id() || service.addresses.len() == 0 {
                        DiscoveryAction::Continue
                    } else {
                        let name: String = match &service.name {
                            Some(name) => name.clone(),
                            None => String::from_str("Unknown"),
                        };
                        let peer = PeerDevice {
                            id: id.clone(),
                            name,
                            ip: service.addresses[0],
                            port: service.port,
                        };
                        state.upsert_peer(peer);
                        DiscoveryAction::PeersChanged
                    }
                },
            }
        },
        DiscoveryEvent::Removed(name) => {
            let id: String = parse_departed_peer_id(name.as_str());
            if state.remove_peer(&id) {
                DiscoveryAction::PeersChanged
            } else {
                DiscoveryAction::Continue
            }
        },
        DiscoveryEvent::Other => DiscoveryAction::Continue,
        DiscoveryEvent::Failed => DiscoveryAction::Stop,
    }
}

/// An announcement of this device itself never makes it a peer.
pub proof fn lemma_own_announcement_ignored(state: AppStateView, service: ResolvedServiceView)
    requires
        service.id == Some(state.device_id),
    ensures
        discovery_step(state, DiscoveryEventView::Resolved(service)) == state,
        discovery_action(state, DiscoveryEventView::Resolved(service)) == DiscoveryAction::Continue,
{
}

/// Whatever the network reports, this device never shows up among its own
/// peers, and its identity stays what it is.
pub proof fn lemma_never_own_peer(state: AppStateView, events: Seq<DiscoveryEventView>)
    requires
        !state.peers.contains_key(state.device_id),
    ensures
        !discovery_run(state, events).peers.contains_key(state.device_id),
        discovery_run(state, events).device_id == state.device_id,
        discovery_run(state, events).device_name == state.device_name,
        discovery_run(state, events).notifications == state.notifications,
    decreases events.len(),
{
    if events.len() > 0 {
        lemma_never_own_peer(state, events.drop_last());
    }
}

/// Where `tail` holds no `c`, the last `c` of `head`, `c`, `tail` in a row is
/// the one in the middle.
proof fn lemma_last_index_joined(head: Seq<char>, c: char, tail: Seq<char>)
    requires
        forall|i: int| 0 <= i < tail.len() ==> tail[i] != c,
    ensures
        last_index_of(head + seq![c] + tail, c) == head.len(),
    decreases tail.len(),
{
    let s = head + seq![c] + tail;
    if tail.len() == 0 {
        assert(s.last() == c);
    } else {
        let t = tail.drop_last();
        assert(s.last() == tail.last());
        assert(s.drop_last() =~= head + seq![c] + t);
        assert forall|i: int| 0 <= i < t.len() implies t[i] != c by {
            assert(t[i] == tail[i]);
        }
        lemma_last_index_joined(head, c, t);
    }
}

/// The id of a device can be read back from the name of its instance, in full
/// or bare, where the id holds neither an underscore nor a dot.
pub proof fn lemma_departed_peer_id(device_name: Seq<char>, device_id: Seq<char>)
    requires
        forall|i: int| 0 <= i < device_id.len() ==> device_id[i] != '_' && device_id[i] != '.',
    ensures
        departed_peer_id(instance_name(device_name, device_id)) == device_id,
        departed_peer_id(full_name(instance_name(device_name, device_id))) == device_id,
{
    reveal_strlit("_");
    reveal_strlit("._notes-sync._tcp.local.");
    let suffix = service_suffix();
    let bare = instance_name(device_name, device_id);
    let full = full_name(bare);
    assert("_"@ =~= seq!['_']);
    lemma_last_index_joined(device_name, '_', device_id);
    assert(after_last(bare, '_') =~= device_id);

    assert(full.subrange(full.len() - suffix.len(), full.len() as int) =~= suffix);
    assert(ends_with(full, suffix));
    assert(without_suffix(full, suffix) =~= bare);

    assert(suffix.last() == '.');
    if ends_with(bare, suffix) {
        assert(bare.subrange(bare.len() - suffix.len(), bare.len() as int).last() == bare.last());
        if device_id.len() > 0 {
            assert(bare.last() == device_id.last());
            assert(device_id[device_id.len() - 1] != '.');
        } else {
            assert(bare.last() == '_');
        }
    }
    assert(without_suffix(bare, suffix) == bare);
}

/// A device whose id was drawn as a UUID is recognised when it departs: the id
/// read off the name of its instance is its own, whatever its display name.
pub proof fn lemma_departed_uuid(device_name: Seq<char>, device_id: Seq<char>)
    requires
        is_uuid_text(device_id),
    ensures
        departed_peer_id(instance_name(device_name, device_id)) == device_id,
        departed_peer_id(full_name(instance_name(device_name, device_id))) == device_id,
{
    lemma_uuid_text_is_plain(device_id);
    lemma_departed_peer_id(device_name, device_id);
}

/// A peer that was resolved and whose instance then departs is known no more:
/// the registry is as if it had never been known. This holds for every peer
/// that announces itself under a name made of its display name and its id,
/// where the id holds neither an underscore nor a dot.
pub proof fn lemma_resolved_then_departed(
    state: AppStateView,
    service: ResolvedServiceView,
    device_name: Seq<char>,
)
    requires
        resolved_peer(state.device_id, service) is Some,
        forall|i: int|
            0 <= i < service.id->0.len() ==> service.id->0[i] != '_' && service.id->0[i] != '.',
    ensures
        ({
            let id = service.id->0;
            let known = discovery_step(state, DiscoveryEventView::Resolved(service));
            let gone = discovery_step(
                known,
                DiscoveryEventView::Removed(full_name(instance_name(device_name, id))),
            );
            &&& known.peers.contains_key(id)
            &&& known.peers[id] == resolved_peer(state.device_id, service)->0
            &&& !gone.peers.contains_key(id)
            &&& gone.peers == state.peers.remove(id)
            &&& discovery_action(
                known,
                DiscoveryEventView::Removed(full_name(instance_name(device_name, id))),
            ) == DiscoveryAction::PeersChanged
        }),
{
    let id = service.id->0;
    lemma_departed_peer_id(device_name, id);
    let peer = resolved_peer(state.device_id, service)->0;
    assert(state.peers.insert(id, peer).remove(id) =~= state.peers.remove(id));
}

/// Whether `event` is what `report` reads as. Of a resolved service the
/// properties `id` and `name` are read for who it is and what it is called,
/// and its port is taken as it is; its addresses are all there, each once, in
/// whatever order the transport gave them. Of a removed service the name is
/// taken as it is. Anything else is passed on as such.
pub open spec fn reads_as(report: ReportView, event: DiscoveryEventView) -> bool {
    match report {
        ReportView::Resolved(info) => {
            &&& event matches DiscoveryEventView::Resolved(service)
            &&& service.id == service_property(info, "id"@)
            &&& service.name == service_property(info, "name"@)
            &&& service.addresses.to_set() == service_addresses(info)
            &&& service.addresses.no_duplicates()
            &&& service.port == service_port(info)
        },
        ReportView::Removed(name) => event == DiscoveryEventView::Removed(name),
        ReportView::Other => event == DiscoveryEventView::Other,
    }
}

/// Reads a report of the transport: of a resolved service its properties `id`
/// and `name`, its addresses and its port; of a removed one its name.
pub fn discovery_event(event: mdns_sd::ServiceEvent) -> (r: DiscoveryEvent)
    ensures
        reads_as(service_report(event), r@),
        r@ !is Failed,
{
    match report_of(event) {
        Report::Resolved(info) => DiscoveryEvent::Resolved(
            ResolvedService {
                id: property_of(&info, "id"),
                name: property_of(&info, "name"),
                addresses: addresses_of(&info),
                port: port_of(&info),
            },
        ),
        Report::Removed(full_name) => DiscoveryEvent::Removed(full_name),
        Report::Other => DiscoveryEvent::Other,
    }
}

/// Handles one report of the transport: the report is read as `reads_as` has
/// it, with the addresses in whatever order the transport gave them, and the
/// registry changes as `handle_discovery_event` has it for that event. This
/// device does not become its own peer.
pub fn handle_service_event(state: &mut AppState, event: mdns_sd::ServiceEvent) -> (r:
    DiscoveryAction)
    ensures
        exists|e: DiscoveryEventView| #[trigger]
            reads_as(service_report(event), e) && discovery_step(old(state)@, e) == final(state)@
                && r == discovery_action(old(state)@, e),
        r != DiscoveryAction::Stop,
        !old(state)@.peers.contains_key(old(state)@.device_id)
            ==> !final(state)@.peers.contains_key(final(state)@.device_id),
{
    let read: DiscoveryEvent = discovery_event(event);
    let action: DiscoveryAction = handle_discovery_event(state, &read);
    proof {
        let events = seq![read@];
        assert(events.drop_last() =~= Seq::<DiscoveryEventView>::empty());
        assert(events.last() == read@);
        assert(discovery_run(old(state)@, events.drop_last()) == old(state)@);
        assert(discovery_run(old(state)@, events) == discovery_step(old(state)@, read@));
        if !old(state)@.peers.contains_key(old(state)@.device_id) {
            lemma_never_own_peer(old(state)@, events);
        }
    }
    action
}

/// What one device announces, another reads: a report of a service that
/// announces a device reads as that device's id, name, address and port, and a
/// registry of another device records it as a peer with just these.
pub proof fn lemma_announcement_is_read(
    state: AppStateView,
    info: mdns_sd::ServiceInfo,
    event: DiscoveryEventView,
    device_id: Seq<char>,
    device_name: Seq<char>,
    ip: Ipv4Address,
    port: u16,
)
    requires
        announces(info, device_id, device_name, ip, port),
        reads_as(ReportView::Resolved(info), event),
        device_id != state.device_id,
    ensures
        event == DiscoveryEventView::Resolved(
            ResolvedServiceView {
                id: Some(device_id),
                name: Some(device_name),
                addresses: seq![ip],
                port,
            },
        ),
        discovery_step(state, event).peers == state.peers.insert(
            device_id,
            PeerDeviceView { id: device_id, name: device_name, ip, port },
        ),
        discovery_action(state, event) == DiscoveryAction::PeersChanged,
{
    let service = event->Resolved_0;
    let addresses = service.addresses;
    addresses.unique_seq_to_set();
    assert(set![ip].len() == 1) by {
        assert(set![ip] =~= Set::<Ipv4Address>::empty().insert(ip));
    }
    assert(addresses.len() == 1);
    assert(addresses.to_set().contains(addresses[0]));
    assert(addresses =~= seq![ip]);
}

} // verus!
