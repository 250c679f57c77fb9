//! Sessions with neighbors: connections, messages and timers, and the events
//! that they are for the finite state machine.
use crate::bgp::AfiSafi;
use crate::events::neighbors_wf;
use crate::ip::AddressFamily;
use crate::ip::IpAddr;
use crate::message::afi_value;
use crate::message::safi_value;
use crate::message::Afi;
use crate::message::CeaseSubcode;
use crate::message::ErrorCode;
use crate::message::NotificationMsg;
use crate::message::RouteRefreshMsg;
use crate::message::Safi;
use crate::message::UpdateMsg;
use crate::nbr_update::process_nbr_update;
use crate::nbr_update::session_state;
use crate::nbr_update::update_effect;
use crate::nbr_update::UpdateEffects;
use crate::neighbor::Neighbor;
use crate::neighbor::Neighbors;
use crate::neighbor::State;
use crate::neighbor::TcpConnInfo;
use crate::rib::same_tracking;
use crate::rib::RoutingTables;
use crate::shared::InstanceShared;
use vstd::prelude::*;

verus! {

#[derive(Clone, Copy, Debug, PartialEq, Eq, Structural)]
pub enum Timer {
    ConnectRetry,
    Hold,
    AutoStart,
}

/// The events of the finite state machine of a session.
#[derive(Clone, Copy, Debug, PartialEq, Eq, Structural)]
pub enum FsmEvent {
    Connected(TcpConnInfo),
    ConnFail,
    RcvdOpen,
    RcvdUpdate,
    RcvdNotif(NotificationMsg),
    RcvdKalive,
    RcvdError,
    Timer(Timer),
    Stop(Option<NotificationMsg>),
}

/// How an accepted connection is set up.
#[derive(Clone, Copy, Debug, PartialEq, Eq, Structural)]
pub struct StreamInit {
    pub af: AddressFamily,
    pub tx_ttl: u8,
    pub ttl_security: Option<u8>,
    pub tcp_mss: Option<u16>,
}

/// A received message.
pub enum Message {
    Open,
    Update(UpdateMsg),
    Notification(NotificationMsg),
    Keepalive,
    RouteRefresh(RouteRefreshMsg),
}

/// Why no message was received.
#[derive(Clone, Copy, Debug, PartialEq, Eq, Structural)]
pub enum NbrRxError {
    TcpConnClosed,
    MsgDecodeError,
}

/// Whether a connection with a neighbor is wanted: the neighbor is known, and
/// there is no other connection with it.
pub open spec fn wants_connection(neighbors: Neighbors, remote_addr: IpAddr) -> bool {
    neighbors@.contains_key(remote_addr) && neighbors@[remote_addr].conn_info is None
}

pub open spec fn addr_family(a: IpAddr) -> AddressFamily {
    match a {
        IpAddr::V4(_) => AddressFamily::Ipv4,
        IpAddr::V6(_) => AddressFamily::Ipv6,
    }
}

/// Decides on a connection that a neighbor opened. If it is wanted, it is set
/// up as returned, and is then an event of the session. `tx_ttl` is the TTL with
/// which packets are sent to the neighbor.
pub fn process_tcp_accept(neighbors: &Neighbors, conn_info: &TcpConnInfo, tx_ttl: u8) -> (r: Option<
    (StreamInit, FsmEvent),
>)
    requires
        neighbors_wf(*neighbors),
    ensures
        r == if wants_connection(*neighbors, conn_info.remote_addr) {
            Some(
                (
                    StreamInit {
                        af: addr_family(conn_info.remote_addr),
                        tx_ttl,
                        ttl_security: neighbors@[conn_info.remote_addr].config.transport.ttl_security,
                        tcp_mss: neighbors@[conn_info.remote_addr].config.transport.tcp_mss,
                    },
                    FsmEvent::Connected(*conn_info),
                ),
            )
        } else {
            None
        },
{
    // Lookup neighbor.
    let nbr = match neighbors.get(&conn_info.remote_addr) {
        Some(nbr) => nbr,
        None => {
            return None;
        },
    };
    // There is no resolution of connection collisions.
    if nbr.conn_info.is_some() {
        return None;
    }
    let init = StreamInit {
        af: match nbr.remote_addr {
            IpAddr::V4(_) => AddressFamily::Ipv4,
            IpAddr::V6(_) => AddressFamily::Ipv6,
        },
        tx_ttl,
        ttl_security: nbr.config.transport.ttl_security,
        tcp_mss: nbr.config.transport.tcp_mss,
    };
    Some((init, FsmEvent::Connected(*conn_info)))
}

/// Takes note of a connection that was opened to a neighbor, and returns the
/// event that it is for the session, if it is wanted.
pub fn process_tcp_connect(neighbors: &mut Neighbors, conn_info: &TcpConnInfo) -> (r: Option<FsmEvent>)
    requires
        neighbors_wf(*old(neighbors)),
    ensures
        neighbors_wf(*final(neighbors)),
        r == if wants_connection(*old(neighbors), conn_info.remote_addr) {
            Some(FsmEvent::Connected(*conn_info))
        } else {
            None
        },
        final(neighbors)@ == if old(neighbors)@.contains_key(conn_info.remote_addr) {
            old(neighbors)@.insert(
                conn_info.remote_addr,
                Neighbor { connecting: false, ..old(neighbors)@[conn_info.remote_addr] },
            )
        } else {
            old(neighbors)@
        },
{
    // Lookup neighbor.
    let nbr = match neighbors.get_mut(&conn_info.remote_addr) {
        Some(nbr) => nbr,
        None => {
            return None;
        },
    };
    nbr.connecting = false;
    // There is no resolution of connection collisions.
    if nbr.conn_info.is_some() {
        return None;
    }
    Some(FsmEvent::Connected(*conn_info))
}

/// The event that a received message is for the session; a request to refresh
/// routes is none.
pub open spec fn msg_event(msg: Result<Message, NbrRxError>) -> Option<FsmEvent> {
    match msg {
        Ok(Message::Open) => Some(FsmEvent::RcvdOpen),
        Ok(Message::Update(_)) => Some(FsmEvent::RcvdUpdate),
        Ok(Message::Notification(n)) => Some(FsmEvent::RcvdNotif(n)),
        Ok(Message::Keepalive) => Some(FsmEvent::RcvdKalive),
        Ok(Message::RouteRefresh(_)) => None,
        Err(NbrRxError::TcpConnClosed) => Some(FsmEvent::ConnFail),
        Err(NbrRxError::MsgDecodeError) => Some(FsmEvent::RcvdError),
    }
}

/// Starts to process a received message: returns the event that it is for the
/// session. What else there is to do comes after the event.
pub fn process_nbr_msg(neighbors: &Neighbors, nbr_addr: IpAddr, msg: &Result<Message, NbrRxError>) -> (r: Option<
    FsmEvent,
>)
    requires
        neighbors_wf(*neighbors),
    ensures
        r == if neighbors@.contains_key(nbr_addr) {
            msg_event(*msg)
        } else {
            None
        },
{
    // Lookup neighbor.
    if !neighbors.contains_key(&nbr_addr) {
        return None;
    }
    match msg {
        Ok(msg) => match msg {
            Message::Open => Some(FsmEvent::RcvdOpen),
            Message::Update(_) => Some(FsmEvent::RcvdUpdate),
            Message::Notification(msg) => Some(FsmEvent::RcvdNotif(*msg)),
            Message::Keepalive => Some(FsmEvent::RcvdKalive),
            Message::RouteRefresh(_) => None,
        },
        Err(error) => match error {
            NbrRxError::TcpConnClosed => Some(FsmEvent::ConnFail),
            NbrRxError::MsgDecodeError => Some(FsmEvent::RcvdError),
        },
    }
}

/// What is left to do after a message is processed.
#[derive(Clone, Copy, Debug, PartialEq, Eq, Structural)]
pub enum NbrMsgNext {
    Nothing,
    /// Run the decision process.
    ScheduleDecision,
    /// Tear the session down.
    Event(FsmEvent),
    /// Send the routes of an address family again.
    Resend(AfiSafi),
}

/// The event that ends a session with too many prefixes.
pub open spec fn too_many_prefixes() -> FsmEvent {
    FsmEvent::Stop(Some(NotificationMsg { error_code: 6, error_subcode: 1 }))
}

/// Goes on to process a received message, after the session has seen the event
/// that it is. UPDATE messages are processed on established sessions only, and
/// the last received NOTIFICATION message is kept.
pub fn process_nbr_msg_next(
    nbr: &mut Neighbor,
    tables: &mut RoutingTables,
    msg: &Result<Message, NbrRxError>,
    shared: &InstanceShared,
    fx: &mut UpdateEffects,
) -> (r: NbrMsgNext)
    requires
        old(nbr).wf(),
        old(tables).wf(),
        shared.wf(),
        msg matches Ok(Message::Update(update)) ==> (update.attrs matches Some(a) ==> a.wf()),
    ensures
        final(nbr).wf(),
        final(tables).wf(),
        same_tracking(*final(tables), *old(tables)),
        match *msg {
            Ok(Message::Update(update)) => {
                &&& *final(nbr) == *old(nbr)
                &&& if old(nbr).state == State::Established {
                    let (s, exceeded) = update_effect(
                        session_state(*old(tables), *old(fx)),
                        *old(nbr),
                        update@,
                        *shared,
                    );
                    session_state(*final(tables), *final(fx)) == s && r == if exceeded {
                        NbrMsgNext::Event(too_many_prefixes())
                    } else {
                        NbrMsgNext::ScheduleDecision
                    }
                } else {
                    *final(tables) == *old(tables) && *final(fx) == *old(fx) && r == NbrMsgNext::Nothing
                }
            },
            Ok(Message::Notification(n)) => {
                &&& *final(nbr) == (Neighbor { notification_rcvd: Some(n), ..*old(nbr) })
                &&& *final(tables) == *old(tables)
                &&& *final(fx) == *old(fx)
                &&& r == NbrMsgNext::Nothing
            },
            Ok(Message::RouteRefresh(refresh)) => {
                &&& *final(nbr) == *old(nbr)
                &&& *final(tables) == *old(tables)
                &&& *final(fx) == *old(fx)
                &&& r == match refreshed_family(*old(nbr), refresh) {
                    Some(afi_safi) => NbrMsgNext::Resend(afi_safi),
                    None => NbrMsgNext::Nothing,
                }
            },
            _ => {
                &&& *final(nbr) == *old(nbr)
                &&& *final(tables) == *old(tables)
                &&& *final(fx) == *old(fx)
                &&& r == NbrMsgNext::Nothing
            },
        },
{
    match msg {
        Ok(Message::Update(update)) => {
            if nbr.state != State::Established {
                return NbrMsgNext::Nothing;
            }
            if process_nbr_update(nbr, tables, update, shared, fx) {
                let msg = NotificationMsg::new(ErrorCode::Cease, CeaseSubcode::MaximumNumberofPrefixesReached);
                NbrMsgNext::Event(FsmEvent::Stop(Some(msg)))
            } else {
                NbrMsgNext::ScheduleDecision
            }
        },
        Ok(Message::Notification(msg)) => {
            // Keep track of the last received notification.
            nbr.notification_rcvd = Some(*msg);
            NbrMsgNext::Nothing
        },
        Ok(Message::RouteRefresh(msg)) => match process_nbr_route_refresh(nbr, msg) {
            Some(afi_safi) => NbrMsgNext::Resend(afi_safi),
            None => NbrMsgNext::Nothing,
        },
        _ => NbrMsgNext::Nothing,
    }
}

/// The address family whose routes are to be sent again on a request: one that
/// was advertised to the neighbor.
pub open spec fn refreshed_family(nbr: Neighbor, msg: RouteRefreshMsg) -> Option<AfiSafi> {
    if msg.afi == afi_value(Afi::Ipv4) && msg.safi == safi_value(Safi::Unicast) && nbr.advertised_afs@.contains(
        AfiSafi::Ipv4Unicast,
    ) {
        Some(AfiSafi::Ipv4Unicast)
    } else if msg.afi == afi_value(Afi::Ipv6) && msg.safi == safi_value(Safi::Unicast) && nbr.advertised_afs@.contains(
        AfiSafi::Ipv6Unicast,
    ) {
        Some(AfiSafi::Ipv6Unicast)
    } else {
        None
    }
}

/// Decides on a request to send routes again. Requests for address families
/// that are unknown, were not advertised or are not supported are ignored.
pub fn process_nbr_route_refresh(nbr: &Neighbor, msg: &RouteRefreshMsg) -> (r: Option<AfiSafi>)
    requires
        nbr.wf(),
    ensures
        r == refreshed_family(*nbr, *msg),
{
    let afi = match Afi::from_u16(msg.afi) {
        Some(afi) => afi,
        None => {
            assert(msg.afi != afi_value(Afi::Ipv4) && msg.afi != afi_value(Afi::Ipv6));
            return None;
        },
    };
    let safi = match Safi::from_u8(msg.safi) {
        Some(safi) => safi,
        None => {
            assert(msg.safi != safi_value(Safi::Unicast));
            return None;
        },
    };
    match (afi, safi) {
        (Afi::Ipv4, Safi::Unicast) => if nbr.advertised_afs.contains(&AfiSafi::Ipv4Unicast) {
            Some(AfiSafi::Ipv4Unicast)
        } else {
            None
        },
        (Afi::Ipv6, Safi::Unicast) => if nbr.advertised_afs.contains(&AfiSafi::Ipv6Unicast) {
            Some(AfiSafi::Ipv6Unicast)
        } else {
            None
        },
        _ => None,
    }
}

/// The event that an expired timer of a neighbor is, if the neighbor is known.
pub fn process_nbr_timer(neighbors: &Neighbors, nbr_addr: IpAddr, timer: Timer) -> (r: Option<FsmEvent>)
    requires
        neighbors_wf(*neighbors),
    ensures
        r == if neighbors@.contains_key(nbr_addr) {
            Some(FsmEvent::Timer(timer))
        } else {
            None
        },
{
    if neighbors.contains_key(&nbr_addr) {
        Some(FsmEvent::Timer(timer))
    } else {
        None
    }
}

}
