//! What holds of sessions with neighbors and of what is configured for them.
use crate::bgp::AfiSafi;
use crate::ip::AddressFamily;
use crate::ip::IpAddr;
use crate::message::Afi;
use crate::message::AddPathMode;
use crate::message::AddPathTuple;
use crate::message::NotificationMsg;
use crate::message::RouteRefreshMsg;
use crate::message::Safi;
use crate::nbr_update::UpdateEffects;
use crate::neighbor::family;
use crate::neighbor::peer_receives;
use crate::neighbor::peer_sends;
use crate::neighbor::ApplyPolicyCfg;
use crate::neighbor::Neighbor;
use crate::neighbor::Neighbors;
use crate::neighbor::PrefixLimitCfg;
use crate::neighbor::State;
use crate::neighbor::TcpConnInfo;
use crate::rib::RoutingTables;
use crate::session::process_nbr_msg;
use crate::session::process_nbr_msg_next;
use crate::session::process_nbr_route_refresh;
use crate::session::process_nbr_timer;
use crate::session::process_tcp_accept;
use crate::session::process_tcp_connect;
use crate::session::FsmEvent;
use crate::session::Message;
use crate::session::NbrMsgNext;
use crate::session::NbrRxError;
use crate::session::StreamInit;
use crate::session::Timer;
use crate::shared::InstanceShared;
use vstd::prelude::*;

verus! {

/// A connection that a neighbor opens is taken up only if the neighbor is known
/// and has no connection yet. It is then set up for the address family of the
/// neighbor, as configured for it, and the session learns of this connection.
pub proof fn accepted_connections_are_wanted(
    neighbors: &Neighbors,
    conn_info: &TcpConnInfo,
    tx_ttl: u8,
    r: Option<(StreamInit, FsmEvent)>,
)
    requires
        call_ensures(process_tcp_accept, (neighbors, conn_info, tx_ttl), r),
    ensures
        r is Some ==> neighbors@.contains_key(conn_info.remote_addr),
        r is Some ==> neighbors@[conn_info.remote_addr].conn_info is None,
        neighbors@.contains_key(conn_info.remote_addr) && neighbors@[conn_info.remote_addr].conn_info is None
            ==> r is Some,
        r matches Some((init, event)) ==> {
            &&& event == FsmEvent::Connected(*conn_info)
            &&& init.af == AddressFamily::Ipv4 <==> conn_info.remote_addr is V4
            &&& init.tx_ttl == tx_ttl
            &&& init.ttl_security == neighbors@[conn_info.remote_addr].config.transport.ttl_security
            &&& init.tcp_mss == neighbors@[conn_info.remote_addr].config.transport.tcp_mss
        },
{
}

/// A connection that was opened to a neighbor ends the attempt to connect,
/// whether it is still wanted or not, and touches no other neighbor. The session
/// learns of it only if there is no connection yet.
pub proof fn opened_connections_end_attempts(
    neighbors: &mut Neighbors,
    conn_info: &TcpConnInfo,
    r: Option<FsmEvent>,
    other: IpAddr,
)
    requires
        call_ensures(process_tcp_connect, (neighbors, conn_info), r),
    ensures
        ({
            let addr = conn_info.remote_addr;
            &&& final(neighbors)@.contains_key(other) <==> old(neighbors)@.contains_key(other)
            &&& other != addr && old(neighbors)@.contains_key(other) ==> final(neighbors)@[other] == old(
                neighbors
            )@[other]
            &&& !old(neighbors)@.contains_key(addr) ==> r is None
            &&& old(neighbors)@.contains_key(addr) ==> {
                &&& !final(neighbors)@[addr].connecting
                &&& final(neighbors)@[addr].conn_info == old(neighbors)@[addr].conn_info
                &&& final(neighbors)@[addr].state == old(neighbors)@[addr].state
                &&& final(neighbors)@[addr].config == old(neighbors)@[addr].config
                &&& final(neighbors)@[addr].remote_addr == old(neighbors)@[addr].remote_addr
                &&& old(neighbors)@[addr].conn_info is None ==> r == Some(FsmEvent::Connected(*conn_info))
                &&& old(neighbors)@[addr].conn_info is Some ==> r is None
            }
        }),
{
}

/// What a session learns of what was received from a known neighbor: each kind
/// of message and each failure by itself, and a notification as it was sent. A
/// request for routes is nothing to it, and neither is what comes from an unknown
/// neighbor.
pub proof fn messages_are_events(
    neighbors: &Neighbors,
    nbr_addr: IpAddr,
    msg: &Result<Message, NbrRxError>,
    r: Option<FsmEvent>,
    n: NotificationMsg,
)
    requires
        call_ensures(process_nbr_msg, (neighbors, nbr_addr, msg), r),
    ensures
        !neighbors@.contains_key(nbr_addr) ==> r is None,
        neighbors@.contains_key(nbr_addr) ==> {
            &&& msg is Ok && msg->Ok_0 is Open <==> r == Some(FsmEvent::RcvdOpen)
            &&& msg is Ok && msg->Ok_0 is Update <==> r == Some(FsmEvent::RcvdUpdate)
            &&& msg is Ok && msg->Ok_0 is Keepalive <==> r == Some(FsmEvent::RcvdKalive)
            &&& msg is Ok && msg->Ok_0 is RouteRefresh <==> r is None
            &&& *msg == Err::<Message, NbrRxError>(NbrRxError::TcpConnClosed) <==> r == Some(FsmEvent::ConnFail)
            &&& *msg == Err::<Message, NbrRxError>(NbrRxError::MsgDecodeError) <==> r == Some(FsmEvent::RcvdError)
        },
        neighbors@.contains_key(nbr_addr) ==> (*msg == Ok::<Message, NbrRxError>(Message::Notification(n)) <==> r
            == Some(FsmEvent::RcvdNotif(n))),
{
}

/// A timer that expires is an event of the session that it belongs to, if there
/// is one.
pub proof fn expired_timers_are_events(neighbors: &Neighbors, nbr_addr: IpAddr, timer: Timer, r: Option<FsmEvent>)
    requires
        call_ensures(process_nbr_timer, (neighbors, nbr_addr, timer), r),
    ensures
        r is Some <==> neighbors@.contains_key(nbr_addr),
        r is Some ==> r == Some(FsmEvent::Timer(timer)),
{
}

/// A neighbor that asks for its routes gets those of an address family that was
/// advertised to it: by the numbers 1 or 2 of the family, and 1 for unicast. It
/// gets no others.
pub proof fn refreshes_are_for_advertised_families(nbr: &Neighbor, msg: &RouteRefreshMsg, r: Option<AfiSafi>)
    requires
        call_ensures(process_nbr_route_refresh, (nbr, msg), r),
    ensures
        r matches Some(a) ==> nbr.advertised_afs@.contains(a) && msg.safi == 1,
        r == Some(AfiSafi::Ipv4Unicast) ==> msg.afi == 1,
        r == Some(AfiSafi::Ipv6Unicast) ==> msg.afi == 2,
        r matches Some(a) ==> a == AfiSafi::Ipv4Unicast || a == AfiSafi::Ipv6Unicast,
        msg.safi == 1 && msg.afi == 1 && nbr.advertised_afs@.contains(AfiSafi::Ipv4Unicast) ==> r is Some,
        msg.safi == 1 && msg.afi == 2 && nbr.advertised_afs@.contains(AfiSafi::Ipv6Unicast) ==> r is Some,
{
}

/// What follows on a message. Only an UPDATE message of an established session
/// touches routes, and it is followed by the decision process or, with too many
/// prefixes, by the end of the session with a notification of code 6 and subcode
/// 1. A notification is kept, in place of an earlier one. A request for routes
/// is answered with those of the address family that is asked for. Everything else
/// is followed by nothing.
pub proof fn messages_are_followed_up(
    nbr: &mut Neighbor,
    tables: &mut RoutingTables,
    msg: &Result<Message, NbrRxError>,
    shared: &InstanceShared,
    fx: &mut UpdateEffects,
    r: NbrMsgNext,
    a: AfiSafi,
)
    requires
        call_ensures(process_nbr_msg_next, (nbr, tables, msg, shared, fx), r),
    ensures
        !(msg is Ok && msg->Ok_0 is Update && old(nbr).state == State::Established) ==> *final(tables) == *old(
            tables
        ) && *final(fx) == *old(fx) && r != NbrMsgNext::ScheduleDecision && !(r is Event),
        msg is Ok && msg->Ok_0 is Update && old(nbr).state == State::Established ==> r
            == NbrMsgNext::ScheduleDecision || r is Event,
        r matches NbrMsgNext::Event(event) ==> (event matches FsmEvent::Stop(Some(n)) && n.error_code == 6
            && n.error_subcode == 1),
        *msg matches Ok(Message::Notification(n)) ==> final(nbr).notification_rcvd == Some(n),
        !(msg is Ok && msg->Ok_0 is Notification) ==> *final(nbr) == *old(nbr),
        *final(nbr) == (Neighbor { notification_rcvd: final(nbr).notification_rcvd, ..*old(nbr) }),
        r is Resend ==> (msg is Ok && msg->Ok_0 is RouteRefresh),
        *msg matches Ok(Message::RouteRefresh(m)) ==> (r == NbrMsgNext::Resend(AfiSafi::Ipv4Unicast) <==> m.afi == 1
            && m.safi == 1 && old(nbr).advertised_afs@.contains(AfiSafi::Ipv4Unicast)),
        *msg matches Ok(Message::RouteRefresh(m)) ==> (r == NbrMsgNext::Resend(AfiSafi::Ipv6Unicast) <==> m.afi == 2
            && m.safi == 1 && old(nbr).advertised_afs@.contains(AfiSafi::Ipv6Unicast)),
        r == NbrMsgNext::Resend(a) ==> old(nbr).advertised_afs@.contains(a),
{
}

/// Path identifiers are used in one direction only if the side that sends is
/// willing to send them and the other to receive them, as each says of itself.
pub proof fn path_identifiers_are_agreed_upon(nbr: &mut Neighbor, peer: &Vec<AddPathTuple>, r: (), i: int)
    requires
        call_ensures(Neighbor::negotiate_add_path, (nbr, peer), r),
        0 <= i < peer@.len(),
        peer@[i].afi == Afi::Ipv4 && peer@[i].safi == Safi::Unicast,
        forall|j: int|
            0 <= j < peer@.len() && j != i ==> !((#[trigger] peer@[j]).afi == Afi::Ipv4 && peer@[j].safi
                == Safi::Unicast),
    ensures
        final(nbr).add_path_rx@.contains(AfiSafi::Ipv4Unicast) <==> old(nbr).config.add_paths.receive && (peer@[i].mode
            == AddPathMode::Send || peer@[i].mode == AddPathMode::ReceiveSend),
        final(nbr).add_path_tx@.contains(AfiSafi::Ipv4Unicast) <==> old(nbr).config.add_paths.send_all && (
        peer@[i].mode == AddPathMode::Receive || peer@[i].mode == AddPathMode::ReceiveSend),
        final(nbr).config == old(nbr).config,
        final(nbr).state == old(nbr).state,
{
    let a = AfiSafi::Ipv4Unicast;
    assert(final(nbr).receives_paths(a) <==> old(nbr).config.add_paths.receive && peer_sends(peer@, a));
    assert(final(nbr).sends_paths(a) <==> old(nbr).config.add_paths.send_all && peer_receives(peer@, a));
    assert(family(peer@[i].afi, peer@[i].safi) == Some(a));
}

/// No path identifiers are used in an address family that the neighbor does not
/// name, nor in a direction that is not configured.
pub proof fn unnamed_families_have_no_identifiers(nbr: &mut Neighbor, peer: &Vec<AddPathTuple>, r: (), a: AfiSafi)
    requires
        call_ensures(Neighbor::negotiate_add_path, (nbr, peer), r),
    ensures
        !old(nbr).config.add_paths.receive ==> !final(nbr).add_path_rx@.contains(a),
        !old(nbr).config.add_paths.send_all ==> !final(nbr).add_path_tx@.contains(a),
        (forall|j: int| 0 <= j < peer@.len() ==> !names_family(#[trigger] peer@[j], a)) ==> !final(
            nbr
        ).add_path_rx@.contains(a) && !final(nbr).add_path_tx@.contains(a),
        (exists|j: int|
            0 <= j < peer@.len() && names_family(#[trigger] peer@[j], a) && peer@[j].mode
                == AddPathMode::ReceiveSend) ==> final(nbr).add_path_rx@.contains(a) == old(
            nbr
        ).config.add_paths.receive && final(nbr).add_path_tx@.contains(a) == old(nbr).config.add_paths.send_all,
{
    assert(final(nbr).receives_paths(a) <==> old(nbr).config.add_paths.receive && peer_sends(peer@, a));
    assert(final(nbr).sends_paths(a) <==> old(nbr).config.add_paths.send_all && peer_receives(peer@, a));
    assert forall|j: int| 0 <= j < peer@.len() implies (names_family(#[trigger] peer@[j], a) <==> family(
        peer@[j].afi,
        peer@[j].safi,
    ) == Some(a)) by {}
}

/// Whether what a neighbor says is about an address family.
pub open spec fn names_family(tuple: AddPathTuple, a: AfiSafi) -> bool {
    &&& a == AfiSafi::Ipv4Unicast ==> tuple.afi == Afi::Ipv4 && tuple.safi == Safi::Unicast
    &&& a == AfiSafi::Ipv6Unicast ==> tuple.afi == Afi::Ipv6 && tuple.safi == Safi::Unicast
    &&& a == AfiSafi::L3vpnIpv4Unicast ==> tuple.afi == Afi::Ipv4 && tuple.safi == Safi::LabeledVpn
    &&& a == AfiSafi::L3vpnIpv6Unicast ==> tuple.afi == Afi::Ipv6 && tuple.safi == Safi::LabeledVpn
    &&& a == AfiSafi::L2vpnEvpn ==> tuple.afi == Afi::L2vpn && tuple.safi == Safi::Evpn
}

/// An address family has the policies that are configured for it, and those of
/// the neighbor only if nothing is.
pub proof fn policies_of_a_family(nbr: &Neighbor, a: AfiSafi, r: &ApplyPolicyCfg)
    requires
        call_ensures(Neighbor::apply_policy, (nbr, a), r),
    ensures
        nbr.config.afi_safi@.contains_key(a) ==> *r == nbr.config.afi_safi@[a].apply_policy,
        !nbr.config.afi_safi@.contains_key(a) ==> *r == nbr.config.apply_policy,
{
}

/// An address family has the prefix limit that is configured for it, and that of
/// the neighbor only if none is.
pub proof fn limit_of_a_family(nbr: &Neighbor, a: AfiSafi, r: PrefixLimitCfg)
    requires
        call_ensures(Neighbor::prefix_limit, (nbr, a), r),
    ensures
        nbr.config.afi_safi@.contains_key(a) && nbr.config.afi_safi@[a].prefix_limit.max_prefixes is Some ==> r
            == nbr.config.afi_safi@[a].prefix_limit,
        nbr.config.afi_safi@.contains_key(a) && nbr.config.afi_safi@[a].prefix_limit.max_prefixes is None ==> r
            == nbr.config.prefix_limit,
        !nbr.config.afi_safi@.contains_key(a) ==> r == nbr.config.prefix_limit,
{
}

/// The address families in use are those that were negotiated; where none was,
/// IPv4 unicast alone.
pub proof fn families_in_use(nbr: &Neighbor, a: AfiSafi, r: bool, rx: bool, tx: bool)
    requires
        call_ensures(Neighbor::is_af_enabled, (nbr, a), r),
        call_ensures(Neighbor::is_add_path_rx, (nbr, a), rx),
        call_ensures(Neighbor::is_add_path_tx, (nbr, a), tx),
    ensures
        nbr.negotiated_afs matches Some(afs) ==> r == afs@.contains(a),
        nbr.negotiated_afs is None ==> r == (a == AfiSafi::Ipv4Unicast),
        rx == nbr.add_path_rx@.contains(a),
        tx == nbr.add_path_tx@.contains(a),
{
}

}
