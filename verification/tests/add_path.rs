use holo::af::Ipv4Unicast;
use holo::attribute::AsPath;
use holo::attribute::AsPathSegment;
use holo::attribute::AsPathSegmentType;
use holo::attribute::Attrs;
use holo::bgp::AfiSafi;
use holo::bgp::RouteType;
use holo::decision::decision_process;
use holo::decision::decision_start;
use holo::decision::list_accepted;
use holo::decision::list_advertised;
use holo::decision::process_nbr_policy_export;
use holo::decision::process_nbr_policy_import;
use holo::decision::resend_adj_rib_out;
use holo::decision::Answer;
use holo::decision::NbrOutput;
use holo::decision::Selection;
use holo::events::PolicyApplyMsg;
use holo::ibus_rx::process_nht_update;
use holo::ip::IpAddr;
use holo::ip::IpNetwork;
use holo::ip::Ipv4Addr;
use holo::ip::Ipv4Network;
use holo::message::AddPathMode;
use holo::message::AddPathTuple;
use holo::message::Afi;
use holo::message::ReachNlri;
use holo::message::RouteRefreshMsg;
use holo::message::Safi;
use holo::message::UnreachNlri;
use holo::message::UpdateMsg;
use holo::nbr_update::process_nbr_update;
use holo::nbr_update::UpdateEffects;
use holo::neighbor::AddPathsCfg;
use holo::neighbor::Neighbor;
use holo::neighbor::NeighborUpdateQueue;
use holo::neighbor::Neighbors;
use holo::neighbor::PeerType;
use holo::neighbor::State;
use holo::ord::SortedMap;
use holo::ord::SortedSet;
use holo::path::Path;
use holo::path::PathIds;
use holo::path::PeerPath;
use holo::path::LOCAL_PATH_ID;
use holo::policy::RoutePolicyInfo;
use holo::policy_types::PolicyResult;
use holo::rib::list_routes;
use holo::rib::AdjSide;
use holo::rib::LocalRoute;
use holo::rib::NexthopOp;
use holo::rib::NhtEntry;
use holo::rib::Route;
use holo::rib::RouteOrigin;
use holo::rib::RoutingTable;
use holo::rib::RoutingTables;
use holo::session::process_nbr_msg_next;
use holo::session::Message;
use holo::session::NbrMsgNext;
use holo::shared::InstanceShared;
use std::sync::Arc;

fn addr(last: u8) -> IpAddr {
    IpAddr::V4(Ipv4Addr::new(192, 0, 2, last))
}

fn prefix() -> Ipv4Network {
    Ipv4Network { addr: Ipv4Addr::new(203, 0, 113, 0), prefix: 24 }
}

fn attrs(nexthop: u8, as_path: &[u32]) -> Attrs {
    let mut attrs = Attrs::default();
    let segment = AsPathSegment { seg_type: AsPathSegmentType::AsSequence, members: as_path.to_vec() };
    attrs.base.as_path = Arc::new(AsPath { segments: vec![segment] });
    attrs.base.nexthop = Some(addr(nexthop));
    attrs
}

fn as_path(attrs: &Attrs) -> Vec<u32> {
    attrs.base.as_path.segments[0].members.clone()
}

struct Router {
    neighbors: Neighbors,
    tables: RoutingTables,
    queues: Vec<NeighborUpdateQueue<Ipv4Network>>,
    ids: PathIds,
    shared: InstanceShared,
}

impl Router {
    fn new() -> Router {
        Router {
            neighbors: SortedMap::new(),
            tables: RoutingTables {
                ipv4_unicast: RoutingTable::new(),
                ipv6_unicast: RoutingTable::new(),
                vpnv4_unicast: RoutingTable::new(),
                vpnv6_unicast: RoutingTable::new(),
                l2vpn_evpn: RoutingTable::new(),
            },
            queues: vec![],
            ids: PathIds::new(),
            shared: InstanceShared::default(),
        }
    }

    /// Neighbors are added in the order of their addresses.
    fn establish(&mut self, last: u8, receive: bool, send_all: bool, peer: Option<AddPathMode>) {
        let mut nbr = Neighbor::new(addr(last), PeerType::External);
        nbr.state = State::Established;
        nbr.identifier = Some(Ipv4Addr::new(192, 0, 2, last));
        nbr.config.add_paths = AddPathsCfg { receive, send_all };
        nbr.advertised_afs = SortedSet::new();
        nbr.advertised_afs.insert(AfiSafi::Ipv4Unicast);
        let tuples: Vec<AddPathTuple> = peer
            .into_iter()
            .map(|mode| AddPathTuple { afi: Afi::Ipv4, safi: Safi::Unicast, mode })
            .collect();
        nbr.negotiate_add_path(&tuples);
        self.queues.push(NeighborUpdateQueue::new(nbr.is_add_path_tx(AfiSafi::Ipv4Unicast)));
        self.neighbors.insert(addr(last), nbr);
    }

    fn recv(&mut self, last: u8, msg: &UpdateMsg) {
        let nbr = self.neighbors.get(&addr(last)).unwrap();
        let mut fx = UpdateEffects::new();
        assert!(!process_nbr_update(nbr, &mut self.tables, msg, &self.shared, &mut fx));
    }

    fn inject_path(&mut self, last: u8, path_id: u32, path: &[u32]) {
        self.recv(
            last,
            &UpdateMsg {
                reach: Some(ReachNlri {
                    prefixes: vec![prefix()],
                    path_ids: vec![path_id],
                    nexthop: Ipv4Addr::new(192, 0, 2, last),
                }),
                unreach: None,
                mp_reach: None,
                mp_unreach: None,
                attrs: Some(attrs(last, path)),
            },
        );
    }

    fn withdraw_path(&mut self, last: u8, path_id: u32) {
        self.recv(
            last,
            &UpdateMsg {
                reach: None,
                unreach: Some(UnreachNlri { prefixes: vec![prefix()], path_ids: vec![path_id] }),
                mp_reach: None,
                mp_unreach: None,
                attrs: None,
            },
        );
    }

    fn accept_import(&mut self, last: u8, path_id: u32, path: &[u32]) {
        let results = vec![accepted(last, last, path)];
        let mut ops = vec![];
        assert!(process_nbr_policy_import::<Ipv4Unicast>(
            &self.neighbors,
            addr(last),
            &mut self.tables.ipv4_unicast,
            &results,
            &vec![path_id],
            &mut ops,
        ));
        for op in ops {
            if let NexthopOp::Track { prefix, route } = op {
                let mut entry = NhtEntry { metric: None, prefixes: SortedMap::new() };
                entry.prefixes.insert(prefix, 1);
                self.tables.ipv4_unicast.nht.insert(route.attrs.base.nexthop.unwrap(), entry);
            }
        }
    }

    fn nexthop_update(&mut self, last: u8) {
        assert!(process_nht_update(&mut self.tables, addr(last), Some(0)));
    }

    /// The route with the shortest AS path is the best.
    fn decide(&mut self) -> Vec<NbrOutput> {
        let table = &mut self.tables.ipv4_unicast;
        let prefixes = decision_start::<Ipv4Unicast>(table, &self.neighbors, &mut self.ids);
        let mut selections = vec![];
        let mut best_count = 0;
        for p in &prefixes {
            let routes = list_routes(table, &vec![*p], AdjSide::InPost, None);
            let best = routes.into_iter().map(|r| r.route).min_by_key(|r| as_path(&r.attrs).len());
            best_count += best.is_some() as usize;
            let local = best.as_ref().map(|route| {
                Arc::new(LocalRoute {
                    origin: route.origin,
                    attrs: route.attrs.duplicate(),
                    route_type: route.route_type,
                    nexthops: None,
                    label: None,
                    nexthop_label: None,
                })
            });
            selections.push(Selection { best, local });
        }
        let all_count = list_accepted(table, &prefixes, &self.ids).len();
        let answers: Vec<Vec<Answer>> = self
            .neighbors
            .entries
            .iter()
            .map(|(_, nbr)| {
                let n = if nbr.is_add_path_tx(AfiSafi::Ipv4Unicast) { all_count } else { best_count };
                (0..n).map(|_| Answer { eligible: true, attrs: attrs(254, &[65000]) }).collect()
            })
            .collect();
        decision_process::<Ipv4Unicast>(
            table,
            &self.neighbors,
            &mut self.queues,
            &selections,
            &answers,
            &self.ids,
            &self.shared,
        )
    }

    fn accept_export(&mut self, last: u8, path_id: u32, path: &[u32]) -> Vec<u32> {
        let i = self.neighbors.position(&addr(last)).unwrap();
        let mut sent = attrs(254, &[65000]);
        sent.base.med = Some(path.len() as u32);
        let msgs = process_nbr_policy_export::<Ipv4Unicast>(
            &self.neighbors,
            addr(last),
            &mut self.tables.ipv4_unicast,
            &mut self.queues[i],
            &vec![accepted(1, 1, path)],
            &vec![path_id],
            &vec![sent],
        );
        reach_path_ids(&msgs)
    }

    fn route_refresh(&mut self, last: u8) -> Vec<u32> {
        let i = self.neighbors.position(&addr(last)).unwrap();
        let nbr = self.neighbors.get_mut(&addr(last)).unwrap();
        let refresh = RouteRefreshMsg { afi: 1, safi: 1 };
        let next = process_nbr_msg_next(
            nbr,
            &mut self.tables,
            &Ok(Message::RouteRefresh(refresh)),
            &self.shared,
            &mut UpdateEffects::new(),
        );
        assert!(matches!(next, NbrMsgNext::Resend(AfiSafi::Ipv4Unicast)));
        let table = &self.tables.ipv4_unicast;
        let n = list_advertised(table, addr(last)).len();
        let tx_attrs: Vec<Attrs> = (0..n).map(|_| attrs(254, &[65000])).collect();
        reach_path_ids(&resend_adj_rib_out::<Ipv4Unicast>(nbr, table, &mut self.queues[i], &tx_attrs))
    }

    fn path_id_present(&self, last: u8, path_id: u32) -> bool {
        let table = &self.tables.ipv4_unicast;
        match table.adj_get(Path { prefix: prefix(), path_id }, addr(last)) {
            Some(adj) => adj.in_pre.is_some() || adj.in_post.is_some(),
            None => false,
        }
    }

    fn local_as_path(&self) -> Vec<u32> {
        as_path(&self.tables.ipv4_unicast.prefixes.get(&prefix()).unwrap().local.as_ref().unwrap().attrs)
    }

    fn advertised_path_id(&self, last: u8, path_id: u32) -> u32 {
        self.ids.get(PeerPath { addr: addr(last), path_id }).unwrap()
    }
}

fn accepted(origin: u8, nexthop: u8, path: &[u32]) -> (IpNetwork, PolicyResult<RoutePolicyInfo>) {
    let origin = RouteOrigin::Neighbor { identifier: Ipv4Addr::new(192, 0, 2, 1), remote_addr: addr(origin) };
    let route = Route::new(origin, attrs(nexthop, path), RouteType::External);
    (IpNetwork::V4(prefix()), PolicyResult::Accept(route.policy_info()))
}

fn reach_path_ids(msgs: &[UpdateMsg]) -> Vec<u32> {
    let mut path_ids = vec![];
    for msg in msgs {
        if let Some(reach) = &msg.reach {
            assert_eq!(reach.prefixes.len(), reach.path_ids.len());
            assert!(reach.prefixes.iter().all(|p| *p == prefix()));
            path_ids.extend(reach.path_ids.iter().copied());
        }
    }
    path_ids
}

fn export_path_ids(output: &NbrOutput) -> Vec<u32> {
    match &output.policy {
        Some(PolicyApplyMsg::Neighbor { path_ids, routes, .. }) => {
            assert_eq!(path_ids.len(), routes.len());
            path_ids.clone()
        }
        _ => vec![],
    }
}

#[test]
fn rx_multiple_paths_are_keyed_by_path_id() {
    let mut router = Router::new();
    router.establish(1, true, false, Some(AddPathMode::Send));

    router.inject_path(1, 1, &[65001, 65002]);
    router.accept_import(1, 1, &[65001, 65002]);
    router.inject_path(1, 2, &[65001]);
    router.accept_import(1, 2, &[65001]);
    router.nexthop_update(1);
    router.decide();

    assert!(router.path_id_present(1, 1));
    assert!(router.path_id_present(1, 2));
    assert_eq!(router.local_as_path(), vec![65001]);

    router.withdraw_path(1, 2);
    router.decide();

    assert!(router.path_id_present(1, 1));
    assert!(!router.path_id_present(1, 2));
    assert_eq!(router.local_as_path(), vec![65001, 65002]);
}

#[test]
fn tx_all_paths_and_non_add_path_peer_behavior() {
    let mut router = Router::new();
    router.establish(1, true, false, Some(AddPathMode::Send));
    router.establish(2, false, true, Some(AddPathMode::Receive));
    router.establish(3, false, false, None);

    router.inject_path(1, 1, &[65001, 65011]);
    router.accept_import(1, 1, &[65001, 65011]);
    router.inject_path(1, 2, &[65001]);
    router.accept_import(1, 2, &[65001]);
    router.nexthop_update(1);
    let outputs = router.decide();

    let add_path_ids = [router.advertised_path_id(1, 1), router.advertised_path_id(1, 2)];
    assert_eq!(export_path_ids(&outputs[1]), add_path_ids.to_vec());
    assert_eq!(export_path_ids(&outputs[2]), vec![0]);

    let mut add_path_reach = router.accept_export(2, add_path_ids[0], &[65001, 65011]);
    add_path_reach.extend(router.accept_export(2, add_path_ids[1], &[65001]));
    let non_add_path_reach = router.accept_export(3, 0, &[65001]);

    assert_eq!(add_path_reach.len(), 2);
    assert!(add_path_reach.contains(&add_path_ids[0]));
    assert!(add_path_reach.contains(&add_path_ids[1]));
    assert_ne!(add_path_ids[0], add_path_ids[1]);
    assert_eq!(non_add_path_reach, vec![0]);

    let mut refresh_path_ids = router.route_refresh(2);
    let mut add_path_reach_sorted = add_path_reach;
    refresh_path_ids.sort();
    add_path_reach_sorted.sort();
    assert_eq!(refresh_path_ids, add_path_reach_sorted);
    assert_eq!(router.route_refresh(3), vec![0]);
}

#[test]
fn negotiation_direction_controls_rx_and_tx() {
    let mut router = Router::new();
    router.establish(1, true, false, Some(AddPathMode::Send));
    router.establish(2, false, true, Some(AddPathMode::Receive));

    router.inject_path(1, 7, &[65001]);
    router.accept_import(1, 7, &[65001]);
    router.inject_path(2, 0, &[65002]);
    router.accept_import(2, 0, &[65002]);
    router.nexthop_update(1);
    router.nexthop_update(2);
    router.decide();

    assert!(router.path_id_present(1, 7));
    assert!(router.path_id_present(2, 0));

    let to_first = router.accept_export(1, 0, &[65001]);
    let advertised_id = router.advertised_path_id(1, 7);
    let to_second = router.accept_export(2, advertised_id, &[65001]);

    assert_eq!(to_first, vec![0]);
    assert_eq!(to_second, vec![advertised_id]);
}

#[test]
fn identifiers_count_only_in_the_negotiated_direction() {
    let mut router = Router::new();
    router.establish(1, false, true, Some(AddPathMode::ReceiveSend));
    router.establish(2, true, false, Some(AddPathMode::ReceiveSend));
    router.establish(3, true, true, Some(AddPathMode::ReceiveSend));
    for (last, rx, tx) in [(1, false, true), (2, true, false), (3, true, true)] {
        let nbr = router.neighbors.get(&addr(last)).unwrap();
        assert_eq!(nbr.is_add_path_rx(AfiSafi::Ipv4Unicast), rx);
        assert_eq!(nbr.is_add_path_tx(AfiSafi::Ipv4Unicast), tx);
        assert!(!nbr.is_add_path_rx(AfiSafi::Ipv6Unicast));
        assert!(!nbr.is_add_path_tx(AfiSafi::Ipv6Unicast));
    }

    // Received identifiers count only if the neighbor is known to send them.
    router.inject_path(1, 9, &[65001]);
    assert!(router.path_id_present(1, 0));
    assert!(!router.path_id_present(1, 9));
    router.inject_path(2, 9, &[65002]);
    assert!(router.path_id_present(2, 9));
    assert!(!router.path_id_present(2, 0));

    // The same holds of those that are sent.
    assert_eq!(router.accept_export(2, 9, &[65001]), vec![0]);
    assert_eq!(router.accept_export(1, 9, &[65001]), vec![9]);
}

#[test]
fn accepted_paths_keep_their_identifiers_and_lost_ones_are_withdrawn() {
    let mut router = Router::new();
    router.establish(1, true, false, Some(AddPathMode::Send));
    router.establish(2, false, true, Some(AddPathMode::Receive));
    for (path_id, path) in [(1, vec![65001, 65011]), (2, vec![65001])] {
        router.inject_path(1, path_id, &path);
        router.accept_import(1, path_id, &path);
    }
    router.decide();
    let first = router.advertised_path_id(1, 1);
    let second = router.advertised_path_id(1, 2);
    assert!(first > LOCAL_PATH_ID && second > LOCAL_PATH_ID && first != second);
    router.accept_export(2, first, &[65001, 65011]);
    router.accept_export(2, second, &[65001]);

    router.withdraw_path(1, 2);
    let outputs = router.decide();
    let unreach = outputs[1].msgs[0].unreach.as_ref().unwrap();
    assert_eq!((unreach.prefixes.clone(), unreach.path_ids.clone()), (vec![prefix()], vec![second]));
    assert_eq!(export_path_ids(&outputs[1]), vec![first]);
    assert_eq!(router.route_refresh(2), vec![first]);
    assert_eq!(router.advertised_path_id(1, 1), first);
}

#[test]
fn identifiers_take_room_in_messages() {
    let mut queue: NeighborUpdateQueue<Ipv4Network> = NeighborUpdateQueue::new(true);
    for i in 0..1000u32 {
        queue.unreach.insert(Path { prefix: prefix(), path_id: i });
    }
    let msgs = Ipv4Unicast::build_updates(&mut queue);
    let sizes: Vec<usize> = msgs.iter().map(|m| m.unreach.as_ref().unwrap().path_ids.len()).collect();
    assert_eq!(sizes, vec![452, 452, 96]);
    assert_eq!(msgs[1].unreach.as_ref().unwrap().path_ids[0], 452);
}
