//! Finding an address and port for the sync endpoint to listen on.
//!
//! The ports of a fixed range are tried in turn. On each port the machine's
//! address on the local network is tried first, then the loopback address, then
//! every interface at once; an endpoint bound to every interface is still
//! announced under the loopback address. The caller does the asking and the
//! binding, one request at a time, and reports how each went.

use vstd::prelude::*;
use crate::model::{BindInfo, IpAddress, Ipv4Address, SyncError};

verus! {

/// The first port that is tried.
pub const FIRST_PORT: u16 = 8000;

/// The port at which trying ends; it is itself not tried.
pub const PORT_LIMIT: u16 = 8020;

/// Which address is being tried on the current port.
#[derive(Clone, Copy, Debug, PartialEq, Eq, Structural)]
pub enum BindStage {
    /// The machine's address on the local network.
    Lan(IpAddress),
    /// 127.0.0.1
    Loopback,
    /// 0.0.0.0
    Any,
}

/// How far the search has come.
#[derive(Clone, Copy, Debug, PartialEq, Eq, Structural)]
pub enum BindState {
    /// The machine has been asked for its address on the local network.
    AwaitLan { port: u16 },
    /// A bind has been requested.
    AwaitBind { port: u16, stage: BindStage },
    /// A bind succeeded; the endpoint is announced as given.
    Bound(BindInfo),
    /// Every candidate was refused.
    Failed,
}

/// What the caller is to do next.
#[derive(Clone, Copy, Debug, PartialEq, Eq, Structural)]
pub enum BindAction {
    /// Ask the machine for its address on the local network.
    QueryLanAddress,
    /// Try to listen on this address and port.
    Bind { ip: IpAddress, port: u16 },
    /// Serve on the listener that was bound last, and announce this.
    Serve(BindInfo),
    /// Give up: no endpoint, no discovery and no sync for this run. The rest of
    /// the application goes on.
    GiveUp,
}

/// What the caller reports back.
#[derive(Clone, Copy, Debug, PartialEq, Eq, Structural)]
pub enum BindEvent {
    /// The machine's address on the local network, or none where it has none to
    /// give.
    LanAddress(Option<IpAddress>),
    /// The bind that was requested succeeded.
    Bound,
    /// The bind that was requested was refused.
    Refused,
}

/// The address that a stage binds to.
pub open spec fn stage_address(stage: BindStage) -> IpAddress {
    match stage {
        BindStage::Lan(ip) => ip,
        BindStage::Loopback => IpAddress::V4(Ipv4Address::loopback()),
        BindStage::Any => IpAddress::V4(Ipv4Address::unspecified()),
    }
}

/// The address under which an endpoint bound at a stage is announced.
pub open spec fn announced_address(stage: BindStage) -> IpAddress {
    match stage {
        BindStage::Lan(ip) => ip,
        BindStage::Loopback => IpAddress::V4(Ipv4Address::loopback()),
        BindStage::Any => IpAddress::V4(Ipv4Address::loopback()),
    }
}

/// What the caller is to do in a state.
pub open spec fn pending_action(state: BindState) -> BindAction {
    match state {
        BindState::AwaitLan { port } => BindAction::QueryLanAddress,
        BindState::AwaitBind { port, stage } => BindAction::Bind { ip: stage_address(stage), port },
        BindState::Bound(info) => BindAction::Serve(info),
        BindState::Failed => BindAction::GiveUp,
    }
}

/// The state in which the search begins.
pub open spec fn initial_bind_state() -> BindState {
    BindState::AwaitLan { port: FIRST_PORT }
}

/// The state after an event. An event that does not answer what was asked
/// changes nothing.
pub open spec fn bind_step(state: BindState, event: BindEvent) -> BindState {
    match (state, event) {
        (BindState::AwaitLan { port }, BindEvent::LanAddress(Some(ip))) => BindState::AwaitBind {
            port,
            stage: BindStage::Lan(ip),
        },
        (BindState::AwaitLan { port }, BindEvent::LanAddress(None)) => BindState::AwaitBind {
            port,
            stage: BindStage::Loopback,
        },
        (BindState::AwaitBind { port, stage }, BindEvent::Bound) => BindState::Bound(
            BindInfo { ip: announced_address(stage), port },
        ),
        (BindState::AwaitBind { port, stage: BindStage::Lan(_) }, BindEvent::Refused) => {
            BindState::AwaitBind { port, stage: BindStage::Loopback }
        },
        (BindState::AwaitBind { port, stage: BindStage::Loopback }, BindEvent::Refused) => {
            BindState::AwaitBind { port, stage: BindStage::Any }
        },
        (BindState::AwaitBind { port, stage: BindStage::Any }, BindEvent::Refused) => {
            if port + 1 < PORT_LIMIT {
                BindState::AwaitLan { port: (port + 1) as u16 }
            } else {
                BindState::Failed
            }
        },
        _ => state,
    }
}

/// Whether an event answers what a state asks for.
pub open spec fn answers(state: BindState, event: BindEvent) -> bool {
    match state {
        BindState::AwaitLan { .. } => event is LanAddress,
        BindState::AwaitBind { .. } => event is Bound || event is Refused,
        _ => false,
    }
}

/// How the search ended, once it has.
pub open spec fn bind_result(state: BindState) -> Option<Result<BindInfo, SyncError>> {
    match state {
        BindState::Bound(info) => Some(Ok(info)),
        BindState::Failed => Some(Err(SyncError::BindFailure)),
        _ => None,
    }
}

/// A state of a search that began at the first port.
pub open spec fn in_range(state: BindState) -> bool {
    match state {
        BindState::AwaitLan { port } => FIRST_PORT <= port < PORT_LIMIT,
        BindState::AwaitBind { port, .. } => FIRST_PORT <= port < PORT_LIMIT,
        BindState::Bound(info) => FIRST_PORT <= info.port < PORT_LIMIT,
        BindState::Failed => true,
    }
}

/// An upper bound on the answers that a state still waits for.
pub open spec fn steps_left(state: BindState) -> int {
    match state {
        BindState::AwaitLan { port } => 4 * (PORT_LIMIT - port),
        BindState::AwaitBind { port, stage: BindStage::Lan(_) } => 4 * (PORT_LIMIT - port) - 1,
        BindState::AwaitBind { port, stage: BindStage::Loopback } => 4 * (PORT_LIMIT - port) - 2,
        BindState::AwaitBind { port, stage: BindStage::Any } => 4 * (PORT_LIMIT - port) - 3,
        BindState::Bound(_) => 0,
        BindState::Failed => 0,
    }
}

/// Begins the search.
pub fn start_binding() -> (r: (BindState, BindAction))
    ensures
        r.0 == initial_bind_state(),
        r.1 == pending_action(r.0),
{
    (BindState::AwaitLan { port: FIRST_PORT }, BindAction::QueryLanAddress)
}

fn action_for(state: BindState) -> (r: BindAction)
    ensures
        r == pending_action(state),
{
    match state {
        BindState::AwaitLan { port } => BindAction::QueryLanAddress,
        BindState::AwaitBind { port, stage } => {
            let ip: IpAddress = match stage {
                BindStage::Lan(ip) => ip,
                BindStage::Loopback => IpAddress::V4(Ipv4Address::localhost()),
                BindStage::Any => IpAddress::V4(Ipv4Address::any()),
            };
            BindAction::Bind { ip, port }
        },
        BindState::Bound(info) => BindAction::Serve(info),
        BindState::Failed => BindAction::GiveUp,
    }
}

/// Takes the caller's report and says what to do next.
pub fn continue_binding(state: BindState, event: BindEvent) -> (r: (BindState, BindAction))
    ensures
        r.0 == bind_step(state, event),
        r.1 == pending_action(r.0),
{
    let next: BindState = match state {
        BindState::AwaitLan { port } => match event {
            BindEvent::LanAddress(Some(ip)) => BindState::AwaitBind {
                port,
                stage: BindStage::Lan(ip),
            },
            BindEvent::LanAddress(None) => BindState::AwaitBind {
                port,
                stage: BindStage::Loopback,
            },
            _ => state,
        },
        BindState::AwaitBind { port, stage } => match event {
            BindEvent::Bound => {
                let ip: IpAddress = match stage {
                    BindStage::Lan(ip) => ip,
                    _ => IpAddress::V4(Ipv4Address::localhost()),
                };
                BindState::Bound(BindInfo { ip, port })
            },
            BindEvent::Refused => match stage {
                BindStage::Lan(_) => BindState::AwaitBind { port, stage: BindStage::Loopback },
                BindStage::Loopback => BindState::AwaitBind { port, stage: BindStage::Any },
                BindStage::Any => {
                    if port < PORT_LIMIT - 1 {
                        BindState::AwaitLan { port: port + 1 }
                    } else {
                        BindState::Failed
                    }
                },
            },
            _ => state,
        },
        _ => state,
    };
    (next, action_for(next))
}

/// How the search ended: the endpoint to announce, or `BindFailure`. Nothing
/// while the search is still on.
pub fn binding_result(state: BindState) -> (r: Option<Result<BindInfo, SyncError>>)
    ensures
        r == bind_result(state),
{
    match state {
        BindState::Bound(info) => Some(Ok(info)),
        BindState::Failed => Some(Err(SyncError::BindFailure)),
        _ => None,
    }
}

/// Every answer brings the search closer to its end: it stays within the range
/// of ports, and the number of answers it may still wait for goes down. A
/// search is over after at most 80 answers.
pub proof fn lemma_binding_progress(state: BindState, event: BindEvent)
    requires
        in_range(state),
        answers(state, event),
    ensures
        in_range(bind_step(state, event)),
        0 <= steps_left(bind_step(state, event)) < steps_left(state) <= 80,
{
}

/// A search that is over stays over, whatever is reported.
pub proof fn lemma_binding_is_final(state: BindState, event: BindEvent)
    requires
        bind_result(state) is Some,
    ensures
        bind_step(state, event) == state,
{
}

} // verus!
