//! What holds of the configuration of the routing core.
use crate::bgp::RouteTarget;
use crate::ip::AddressFamily;
use crate::ip::IpNetwork;
use crate::ord::entries_map_get;
use crate::protocol::Protocol;
use crate::routing::InstanceId;
use crate::routing::Interfaces;
use crate::routing::StaticRouteKey;
use crate::routing::StaticRouteNexthop;
use crate::routing_cfg::bier_apply;
use crate::routing_cfg::change_target;
use crate::routing_cfg::changes_for;
use crate::routing_cfg::network_instance_apply;
use crate::routing_cfg::network_instance_delete;
use crate::routing_cfg::own_changes_in_order;
use crate::routing_cfg::process_event;
use crate::routing_cfg::protocol_bind;
use crate::routing_cfg::protocol_create_prepare;
use crate::routing_cfg::protocol_remove;
use crate::routing_cfg::relay_changes;
use crate::routing_cfg::relay_models;
use crate::routing_cfg::relays;
use crate::routing_cfg::sr_apply;
use crate::routing_cfg::static_route_apply;
use crate::routing_cfg::static_route_create;
use crate::routing_cfg::static_route_delete;
use crate::routing_cfg::validate_protocol;
use crate::routing_cfg::Event;
use crate::routing_cfg::EventOutput;
use crate::routing_cfg::InstanceError;
use crate::routing_cfg::NetworkInstanceChange;
use crate::routing_cfg::StaticRouteChange;
use crate::routing_cfg::ValidationError;
use crate::routing_laws::table_is;
use crate::routing_master::instance_index;
use crate::routing_master::remove_instance;
use crate::routing_master::static_nexthop_get;
use crate::routing_master::InstanceHandle;
use crate::routing_master::Master;
use crate::routing_master::StaticNexthop;
use crate::sr_bier::in_bift_id;
use crate::sr_bier::out_bift_id;
use crate::sr_bier::validate_sub_domain;
use crate::sr_bier::BierChange;
use crate::sr_bier::BierInBiftId;
use crate::sr_bier::BierOutBiftId;
use crate::sr_bier::BiftChange;
use crate::sr_bier::EncapKey;
use crate::sr_bier::LabelRange;
use crate::sr_bier::PrefixSidKey;
use crate::sr_bier::SrChange;
use crate::sr_bier::SubDomainChange;
use crate::sr_bier::SubDomainError;
use crate::sr_bier::SubDomainKey;
use vstd::prelude::*;

verus! {

/// A protocol instance is bound, when it is created, to the network instance that
/// is given, or to the default one, and is then to be started there. BFD is not,
/// and neither an unknown protocol nor that of connected routes can be created.
/// Bindings of other instances stay.
pub proof fn created_protocols_are_bound(
    master: &mut Master,
    ptype: Option<Protocol>,
    name: String,
    network_instance: Option<String>,
    r: Result<Option<Event>, InstanceError>,
    other: (Protocol, Seq<char>, Seq<char>),
)
    requires
        call_ensures(protocol_create_prepare, (master, ptype, name, network_instance), r),
    ensures
        ptype is None <==> r == Err::<Option<Event>, InstanceError>(InstanceError::UnknownProtocolType),
        ptype == Some(Protocol::DIRECT) <==> r == Err::<Option<Event>, InstanceError>(
            InstanceError::InvalidProtocolType,
        ),
        ptype == Some(Protocol::BFD) <==> r == Ok::<Option<Event>, InstanceError>(None),
        !(r matches Ok(Some(_))) ==> *final(master) == *old(master),
        r matches Ok(Some(event)) ==> {
            let id = (ptype->0, name@, "default"@);
            &&& event matches Event::InstanceStart { protocol, name: n, network_instance: ni } && Some(protocol)
                == ptype && n@ == name@ && (network_instance matches Some(given) ==> ni@ == given@) && (
            network_instance is None ==> ni@ == "default"@)
            &&& final(master).instance_ni@.contains_key(id)
            &&& network_instance matches Some(given) ==> final(master).instance_ni@[id]@ == given@
            &&& network_instance is None ==> final(master).instance_ni@[id]@ == "default"@
            &&& other != id ==> final(master).instance_ni@.contains_key(other) == old(
                master
            ).instance_ni@.contains_key(other) && final(master).instance_ni@[other] == old(master).instance_ni@[other]
            &&& final(master).instances == old(master).instances
            &&& final(master).network_instances == old(master).network_instances
            &&& final(master).static_routes == old(master).static_routes
        },
{
}

/// A protocol instance that is removed is no longer known under its identity, nor
/// bound; all others stay bound. BFD is never removed.
pub proof fn removed_protocols_are_forgotten(
    master: &mut Master,
    id: InstanceId,
    r: (),
    other: (Protocol, Seq<char>, Seq<char>),
)
    requires
        call_ensures(protocol_remove, (master, id), r),
    ensures
        id.protocol == Protocol::BFD ==> *final(master) == *old(master),
        id.protocol != Protocol::BFD ==> {
            let base = (id.protocol, id.name@, "default"@);
            &&& !final(master).instances@.contains_key(id@)
            &&& !final(master).instance_ni@.contains_key(base)
            &&& other != base ==> final(master).instance_ni@.contains_key(other) == old(
                master
            ).instance_ni@.contains_key(other) && (old(master).instance_ni@.contains_key(other) ==> final(
                master
            ).instance_ni@[other] == old(master).instance_ni@[other])
            &&& final(master).instances@.contains_key(other) ==> old(master).instances@.contains_key(other) && final(
                master
            ).instances@[other] == old(master).instances@[other]
            &&& old(master).instances@.contains_key(id@) && other != id@ && old(master).instances@.contains_key(other)
                ==> final(master).instances@.contains_key(other)
            &&& final(master).network_instances == old(master).network_instances
            &&& final(master).static_routes == old(master).static_routes
        },
{
}

/// An instance is bound to the network instance that is named, and to none if
/// none is; nothing else changes.
pub proof fn bindings_are_kept(
    master: &mut Master,
    id: InstanceId,
    ni: Option<String>,
    r: (),
    other: (Protocol, Seq<char>, Seq<char>),
)
    requires
        call_ensures(protocol_bind, (master, id, ni), r),
    ensures
        ({
            let base = (id.protocol, id.name@, "default"@);
            &&& final(master).instance_ni@.contains_key(base) <==> ni is Some
            &&& ni matches Some(name) ==> final(master).instance_ni@[base] == name
            &&& other != base ==> final(master).instance_ni@.contains_key(other) == old(
                master
            ).instance_ni@.contains_key(other) && (old(master).instance_ni@.contains_key(other) ==> final(
                master
            ).instance_ni@[other] == old(master).instance_ni@[other])
            &&& final(master).instances == old(master).instances
        }),
{
}

/// The only instance of BFD is "main"; any name goes for other protocols, but the
/// protocol has to be known.
pub proof fn protocols_are_valid(ptype: Option<Protocol>, name: &str, r: Result<(), ValidationError>)
    requires
        call_ensures(validate_protocol, (ptype, name), r),
    ensures
        ptype is None <==> r == Err::<(), ValidationError>(ValidationError::UnknownProtocol),
        ptype == Some(Protocol::BFD) && name@ != "main"@ <==> r == Err::<(), ValidationError>(
            ValidationError::BfdName,
        ),
        ptype is Some && (name@ == "main"@ || ptype != Some(Protocol::BFD)) <==> r is Ok,
{
}

/// A change to a network instance sets what it names and leaves its other fields
/// and all other instances alone. The VPN imports that are shared then are those
/// of the instances as they are now; a description does not touch them.
pub proof fn network_instances_follow_changes(
    master: &mut Master,
    name: &String,
    c: NetworkInstanceChange,
    r: (),
    other: Seq<char>,
    rt: RouteTarget,
)
    requires
        call_ensures(network_instance_apply, (master, name, c), r),
    ensures
        ({
            let before = old(master).network_instances@[name@];
            let after = final(master).network_instances@[name@];
            &&& c matches NetworkInstanceChange::Enabled(e) ==> after.enabled == e
            &&& !(c is Enabled) ==> after.enabled == before.enabled
            &&& c matches NetworkInstanceChange::Description(d) ==> after.description == d
            &&& !(c is Description) ==> after.description == before.description
            &&& c matches NetworkInstanceChange::ImportRtAdd(t) ==> (after.import_rts@.contains(rt) <==> rt == t
                || before.import_rts@.contains(rt))
            &&& c matches NetworkInstanceChange::ImportRtRemove(t) ==> (after.import_rts@.contains(rt) <==> rt != t
                && before.import_rts@.contains(rt))
            &&& c is Enabled || c is Description ==> after.import_rts@ == before.import_rts@
            &&& after.table_id == before.table_id
            &&& other != name@ ==> final(master).network_instances@.contains_key(other) == old(
                master
            ).network_instances@.contains_key(other) && final(master).network_instances@[other] == old(
                master
            ).network_instances@[other]
        }),
        c is Description ==> final(master).shared == old(master).shared,
        !(c is Description) ==> imports_are_shared(*final(master), other),
        final(master).instances == old(master).instances,
        final(master).static_routes == old(master).static_routes,
{
    import_sets(*final(master), other);
}

/// Whether a network instance is among the VPN imports that are shared, with its
/// table and its route targets, exactly if it is enabled and imports something.
pub open spec fn imports_are_shared(m: Master, name: Seq<char>) -> bool {
    &&& m.shared.vpn_imports@.contains_key(name) <==> m.network_instances@.contains_key(name)
        && m.network_instances@[name].enabled && exists|rt: RouteTarget| #[trigger]
        m.network_instances@[name].import_rts@.contains(rt)
    &&& m.shared.vpn_imports@.contains_key(name) ==> m.shared.vpn_imports@[name].table_id
        == m.network_instances@[name].table_id && m.shared.vpn_imports@[name].import_rts@
        == m.network_instances@[name].import_rts@
}

proof fn import_sets(m: Master, name: Seq<char>)
    ensures
        m.network_instances@[name].import_rts@ != Set::<RouteTarget>::empty() <==> exists|rt: RouteTarget| #[trigger]
            m.network_instances@[name].import_rts@.contains(rt),
{
    let set = m.network_instances@[name].import_rts@;
    if forall|rt: RouteTarget| !(#[trigger] set.contains(rt)) {
        assert(set =~= Set::<RouteTarget>::empty());
    }
}

/// A network instance that is deleted is gone, together with its VPN import, and
/// the others stay.
pub proof fn deleted_instances_are_gone(master: &mut Master, name: &String, r: (), other: Seq<char>)
    requires
        call_ensures(network_instance_delete, (master, name), r),
    ensures
        !final(master).network_instances@.contains_key(name@),
        !final(master).shared.vpn_imports@.contains_key(name@),
        other != name@ ==> final(master).network_instances@.contains_key(other) == old(
            master
        ).network_instances@.contains_key(other) && (old(master).network_instances@.contains_key(other) ==> final(
            master
        ).network_instances@[other] == old(master).network_instances@[other]),
        imports_are_shared(*final(master), other),
        final(master).instances == old(master).instances,
        final(master).static_routes == old(master).static_routes,
{
    import_sets(*final(master), other);
}

/// A static route that is created has no next hop of any kind, and the others
/// stay.
pub proof fn created_routes_are_empty(
    master: &mut Master,
    key: StaticRouteKey,
    r: (),
    other: ((Protocol, Seq<char>, Seq<char>), IpNetwork),
    index: Seq<char>,
)
    requires
        call_ensures(static_route_create, (master, key), r),
    ensures
        final(master).static_routes@.contains_key(key@),
        ({
            let route = final(master).static_routes@[key@];
            &&& route.nexthop_single.ifname is None && route.nexthop_single.addr is None
            &&& route.nexthop_special is None
            &&& !route.nexthop_list@.contains_key(index)
        }),
        other != key@ ==> final(master).static_routes@.contains_key(other) == old(
            master
        ).static_routes@.contains_key(other) && final(master).static_routes@[other] == old(
            master
        ).static_routes@[other],
        final(master).instances == old(master).instances,
{
}

/// A static route that is deleted is no longer configured and is to be
/// uninstalled; the others stay.
pub proof fn deleted_routes_are_uninstalled(
    master: &mut Master,
    key: StaticRouteKey,
    r: Event,
    other: ((Protocol, Seq<char>, Seq<char>), IpNetwork),
)
    requires
        call_ensures(static_route_delete, (master, key), r),
    ensures
        !final(master).static_routes@.contains_key(key@),
        r matches Event::StaticRouteUninstall(k) && k@ == key@,
        other != key@ ==> final(master).static_routes@.contains_key(other) == old(
            master
        ).static_routes@.contains_key(other) && (old(master).static_routes@.contains_key(other) ==> final(
            master
        ).static_routes@[other] == old(master).static_routes@[other]),
        final(master).instances == old(master).instances,
{
}

/// A change to a static route sets the one thing that it names. The single next
/// hop, the special one and those of the list are apart from each other, and so
/// are the interface and the address of one. The route is then to be installed.
pub proof fn static_routes_follow_changes(
    master: &mut Master,
    key: StaticRouteKey,
    c: StaticRouteChange,
    r: Event,
    other: ((Protocol, Seq<char>, Seq<char>), IpNetwork),
    index: Seq<char>,
)
    requires
        call_ensures(static_route_apply, (master, key, c), r),
    ensures
        ({
            let before = old(master).static_routes@[key@];
            let after = final(master).static_routes@[key@];
            let single = c is OutgoingInterface || c is NextHopAddress;
            &&& c matches StaticRouteChange::OutgoingInterface(x) ==> after.nexthop_single.ifname == x
            &&& !(c is OutgoingInterface) ==> after.nexthop_single.ifname == before.nexthop_single.ifname
            &&& c matches StaticRouteChange::NextHopAddress(x) ==> after.nexthop_single.addr == x
            &&& !(c is NextHopAddress) ==> after.nexthop_single.addr == before.nexthop_single.addr
            &&& c matches StaticRouteChange::SpecialNextHop(x) ==> after.nexthop_special == x
            &&& !(c is SpecialNextHop) ==> after.nexthop_special == before.nexthop_special
            &&& single || c is SpecialNextHop ==> after.nexthop_list@ == before.nexthop_list@
            &&& c matches StaticRouteChange::NextHopCreate(n) ==> after.nexthop_list@.contains_key(n@)
                && after.nexthop_list@[n@].ifname is None && after.nexthop_list@[n@].addr is None
            &&& c matches StaticRouteChange::NextHopDelete(n) ==> !after.nexthop_list@.contains_key(n@)
            &&& c matches StaticRouteChange::NextHopOutgoingInterface(n, x) ==> after.nexthop_list@[n@].ifname == x
                && after.nexthop_list@[n@].addr == before.nexthop_list@[n@].addr
            &&& c matches StaticRouteChange::NextHopNextHopAddress(n, x) ==> after.nexthop_list@[n@].addr == x
                && after.nexthop_list@[n@].ifname == before.nexthop_list@[n@].ifname
            &&& is_other_hop(c, index) ==> after.nexthop_list@.contains_key(index)
                == before.nexthop_list@.contains_key(index) && (before.nexthop_list@.contains_key(index)
                ==> after.nexthop_list@[index] == before.nexthop_list@[index])
        }),
        other != key@ ==> final(master).static_routes@.contains_key(other) == old(
            master
        ).static_routes@.contains_key(other) && final(master).static_routes@[other] == old(
            master
        ).static_routes@[other],
        r matches Event::StaticRouteInstall(k) && k@ == key@,
        final(master).instances == old(master).instances,
{
}

/// Whether a change is not about the next hop of an index.
pub open spec fn is_other_hop(c: StaticRouteChange, index: Seq<char>) -> bool {
    &&& c matches StaticRouteChange::NextHopCreate(n) ==> n@ != index
    &&& c matches StaticRouteChange::NextHopDelete(n) ==> n@ != index
    &&& c matches StaticRouteChange::NextHopOutgoingInterface(n, _) ==> n@ != index
    &&& c matches StaticRouteChange::NextHopNextHopAddress(n, _) ==> n@ != index
}

/// A change to segment routing sets what it names and nothing else. Instances
/// are told of the configuration, and of what changed: label ranges, or the prefix
/// SIDs of the address family. A label range is freed exactly when it is deleted.
pub proof fn segment_routing_follows_changes(
    master: &mut Master,
    c: SrChange,
    r: (Vec<Event>, Option<LabelRange>),
    k: PrefixSidKey,
    range: LabelRange,
)
    requires
        call_ensures(sr_apply, (master, c), r),
    ensures
        ({
            let before = old(master).sr_config;
            let after = final(master).sr_config;
            let sids = c is PrefixSidCreate || c is PrefixSidDelete || c is PrefixSidIndex || c is PrefixSidLastHop;
            &&& c matches SrChange::PrefixSidCreate { key, psid } ==> after.prefix_sids@.contains_key(key)
                && after.prefix_sids@[key] == psid
            &&& c matches SrChange::PrefixSidDelete { key } ==> !after.prefix_sids@.contains_key(key)
            &&& c matches SrChange::PrefixSidIndex { key, index } ==> after.prefix_sids@[key].index == index
                && after.prefix_sids@[key].last_hop == before.prefix_sids@[key].last_hop
            &&& c matches SrChange::PrefixSidLastHop { key, last_hop } ==> after.prefix_sids@[key].last_hop == last_hop
                && after.prefix_sids@[key].index == before.prefix_sids@[key].index
            &&& !is_about(c, k) ==> after.prefix_sids@.contains_key(k) == before.prefix_sids@.contains_key(k) && (
            before.prefix_sids@.contains_key(k) ==> after.prefix_sids@[k] == before.prefix_sids@[k])
            &&& after.srgb@.contains(range) <==> c == SrChange::SrgbCreate(range) || (before.srgb@.contains(range) && c
                != SrChange::SrgbDelete(range))
            &&& after.srlb@.contains(range) <==> c == SrChange::SrlbCreate(range) || (before.srlb@.contains(range) && c
                != SrChange::SrlbDelete(range))
            &&& r.1 == Some(range) <==> c == SrChange::SrgbDelete(range) || c == SrChange::SrlbDelete(range)
            &&& r.0@.len() == 2 && r.0@[0] is SrCfgUpdate
            &&& !sids ==> r.0@[1] is SrCfgLabelRangeUpdate
            &&& sids ==> (r.0@[1] matches Event::SrCfgPrefixSidUpdate(af) && (is_about(c, k) ==> (af
                == AddressFamily::Ipv4 <==> k.prefix is V4)))
        }),
        final(master).shared == old(master).shared,
        final(master).instances == old(master).instances,
{
}

/// Whether a change is about a prefix SID.
pub open spec fn is_about(c: SrChange, k: PrefixSidKey) -> bool {
    ||| c matches SrChange::PrefixSidCreate { key, .. } && key == k
    ||| c matches SrChange::PrefixSidDelete { key } && key == k
    ||| c matches SrChange::PrefixSidIndex { key, .. } && key == k
    ||| c matches SrChange::PrefixSidLastHop { key, .. } && key == k
}

/// A sub-domain that is created is kept under its number and address family, as
/// given and without encapsulations; one that is deleted is gone. The others and
/// the forwarding tables stay.
pub proof fn sub_domains_are_created_and_deleted(
    master: &mut Master,
    c: BierChange,
    r: Vec<Event>,
    other: SubDomainKey,
    e: EncapKey,
)
    requires
        call_ensures(bier_apply, (master, c), r),
    ensures
        ({
            let before = old(master).bier_config.sd_cfg@;
            let after = final(master).bier_config.sd_cfg@;
            &&& c matches BierChange::SubDomainCreate(s) ==> {
                let key = SubDomainKey { sd_id: s.sd_id, af: s.af };
                &&& after.contains_key(key)
                &&& after[key].sd_id == s.sd_id && after[key].af == s.af && after[key].bfr_prefix == s.bfr_prefix
                &&& after[key].underlay_protocol == s.underlay_protocol && after[key].mt_id == s.mt_id
                &&& after[key].bfr_id == s.bfr_id && after[key].bsl == s.bsl && after[key].ipa == s.ipa
                &&& after[key].bar == s.bar && after[key].load_balance_num == s.load_balance_num
                &&& !after[key].encap@.contains_key(e)
                &&& other != key ==> after.contains_key(other) == before.contains_key(other) && (before.contains_key(
                    other,
                ) ==> after[other]@ == before[other]@)
                &&& r@.len() == 2 && r@[1] == Event::BierCfgSubDomainUpdate(s.af)
            }
            &&& c matches BierChange::SubDomainDelete(key) ==> {
                &&& !after.contains_key(key)
                &&& other != key ==> after.contains_key(other) == before.contains_key(other) && (before.contains_key(
                    other,
                ) ==> after[other]@ == before[other]@)
                &&& r@.len() == 2 && r@[1] == Event::BierCfgSubDomainUpdate(key.af)
            }
            &&& !(c is SubDomainCreate) && !(c is SubDomainDelete) && !(c is SubDomain) ==> after.contains_key(other)
                == before.contains_key(other) && (before.contains_key(other) ==> after[other]@ == before[other]@)
            &&& r@.len() >= 1 && r@[0] is BierCfgUpdate
        }),
        final(master).shared == old(master).shared,
        final(master).instances == old(master).instances,
{
    let b = old(master).bier_config;
    let a = final(master).bier_config;
    assert(a@.sd_cfg.contains_key(other) == a.sd_cfg@.contains_key(other));
    assert(b@.sd_cfg.contains_key(other) == b.sd_cfg@.contains_key(other));
    match c {
        BierChange::SubDomainCreate(s) => {
            let key = SubDomainKey { sd_id: s.sd_id, af: s.af };
            assert(a@.sd_cfg.contains_key(key) == a.sd_cfg@.contains_key(key));
            assert(a@.sd_cfg[key] == a.sd_cfg@[key]@);
        },
        BierChange::SubDomainDelete(key) => {
            assert(a@.sd_cfg.contains_key(key) == a.sd_cfg@.contains_key(key));
        },
        _ => {},
    }
    if b.sd_cfg@.contains_key(other) && a.sd_cfg@.contains_key(other) {
        assert(b@.sd_cfg[other] == b.sd_cfg@[other]@);
        assert(a@.sd_cfg[other] == a.sd_cfg@[other]@);
    }
}

/// A change to a sub-domain sets the one field that it names.
pub proof fn sub_domains_follow_changes(
    master: &mut Master,
    key: SubDomainKey,
    d: SubDomainChange,
    r: Vec<Event>,
    e: EncapKey,
)
    requires
        call_ensures(bier_apply, (master, BierChange::SubDomain(key, d)), r),
        old(master).bier_config.sd_cfg@.contains_key(key),
    ensures
        final(master).bier_config.sd_cfg@.contains_key(key),
        ({
            let before = old(master).bier_config.sd_cfg@[key];
            let after = final(master).bier_config.sd_cfg@[key];
            &&& after.sd_id == before.sd_id && after.af == before.af
            &&& d matches SubDomainChange::BfrPrefix(x) ==> after.bfr_prefix == x
            &&& !(d is BfrPrefix) ==> after.bfr_prefix == before.bfr_prefix
            &&& d matches SubDomainChange::UnderlayProtocol(x) ==> after.underlay_protocol == x
            &&& !(d is UnderlayProtocol) ==> after.underlay_protocol == before.underlay_protocol
            &&& d matches SubDomainChange::MtId(x) ==> after.mt_id == x
            &&& !(d is MtId) ==> after.mt_id == before.mt_id
            &&& d matches SubDomainChange::BfrId(x) ==> after.bfr_id == x
            &&& !(d is BfrId) ==> after.bfr_id == before.bfr_id
            &&& d matches SubDomainChange::BitStringLength(x) ==> after.bsl == x
            &&& !(d is BitStringLength) ==> after.bsl == before.bsl
            &&& d matches SubDomainChange::Ipa(x) ==> after.ipa == x
            &&& !(d is Ipa) ==> after.ipa == before.ipa
            &&& d matches SubDomainChange::Bar(x) ==> after.bar == x
            &&& !(d is Bar) ==> after.bar == before.bar
            &&& d matches SubDomainChange::LoadBalanceNum(x) ==> after.load_balance_num == x
            &&& !(d is LoadBalanceNum) ==> after.load_balance_num == before.load_balance_num
            &&& d matches SubDomainChange::EncapCreate(x) ==> {
                let k = EncapKey { bsl: x.bsl, encap_type: x.encap_type };
                after.encap@.contains_key(k) && after.encap@[k] == x
            }
            &&& d matches SubDomainChange::EncapDelete(k) ==> !after.encap@.contains_key(k)
            &&& d matches SubDomainChange::EncapMaxSi(k, x) ==> after.encap@[k].max_si == x
                && after.encap@[k].in_bift_id == before.encap@[k].in_bift_id
            &&& d matches SubDomainChange::EncapInBiftId(k, x) ==> after.encap@[k].in_bift_id == x
                && after.encap@[k].max_si == before.encap@[k].max_si
            &&& !is_about_encap(d, e) ==> after.encap@.contains_key(e) == before.encap@.contains_key(e) && (
            before.encap@.contains_key(e) ==> after.encap@[e] == before.encap@[e])
            &&& d is EncapDelete ==> r@.len() == 1
            &&& d is EncapCreate || d is EncapMaxSi || d is EncapInBiftId ==> (is_about_encap(d, e) ==> r@.len() == 2
                && r@[1] == Event::BierCfgEncapUpdate(key.sd_id, key.af, e.bsl, e.encap_type))
            &&& !(d is EncapCreate || d is EncapMaxSi || d is EncapInBiftId || d is EncapDelete) ==> r@.len() == 2
                && r@[1] == Event::BierCfgSubDomainUpdate(key.af)
        }),
{
    let b = old(master).bier_config;
    let a = final(master).bier_config;
    assert(a@.sd_cfg.contains_key(key));
    assert(a.sd_cfg@.contains_key(key));
    assert(b@.sd_cfg[key] == b.sd_cfg@[key]@);
    assert(a@.sd_cfg[key] == a.sd_cfg@[key]@);
}

/// Whether a change is about an encapsulation.
pub open spec fn is_about_encap(d: SubDomainChange, e: EncapKey) -> bool {
    ||| d matches SubDomainChange::EncapCreate(x) && x.bsl == e.bsl && x.encap_type == e.encap_type
    ||| d matches SubDomainChange::EncapDelete(k) && k == e
    ||| d matches SubDomainChange::EncapMaxSi(k, _) && k == e
    ||| d matches SubDomainChange::EncapInBiftId(k, _) && k == e
}

/// A forwarding table that is created is kept under its identifier and is empty;
/// one that is deleted is gone. A change to one concerns that one alone, and the
/// neighbors of the bit string length that it names.
pub proof fn forwarding_tables_follow_changes(
    master: &mut Master,
    c: BierChange,
    r: Vec<Event>,
    other: u16,
)
    requires
        call_ensures(bier_apply, (master, c), r),
    ensures
        ({
            let before = old(master).bier_config@.bift_cfg;
            let after = final(master).bier_config@.bift_cfg;
            &&& c matches BierChange::BiftCreate(id) ==> after.contains_key(id) && after[id].bfr_id == id && (
            forall|b: crate::sr_bier::Bsl| !after[id].birt.contains_key(b)) && r@.len() == 2 && r@[1]
                == Event::BierCfgBiftUpdate(id)
            &&& c matches BierChange::BiftDelete(id) ==> !after.contains_key(id) && r@.len() == 2 && r@[1]
                == Event::BierCfgBiftUpdate(id)
            &&& c matches BierChange::Bift(id, d) ==> {
                &&& after[id].bfr_id == before[id].bfr_id
                &&& r@.len() == 1
                &&& d matches BiftChange::BirtCreate(b) ==> after[id].birt.contains_key(b) && after[id].birt[b].bsl == b
                    && (forall|n: crate::ip::IpAddr| !after[id].birt[b].nbr.contains_key(n))
                &&& d matches BiftChange::BirtDelete(b) ==> !after[id].birt.contains_key(b)
                &&& d matches BiftChange::NbrCreate(b, n) ==> after[id].birt[b].nbr.contains_key(n.bfr_nbr)
                    && after[id].birt[b].nbr[n.bfr_nbr] == n
                &&& d matches BiftChange::NbrDelete(b, n) ==> !after[id].birt[b].nbr.contains_key(n)
                &&& d matches BiftChange::NbrEncapType(b, n, x) ==> after[id].birt[b].nbr[n].encap_type == x
                    && after[id].birt[b].nbr[n].out_bift_id == before[id].birt[b].nbr[n].out_bift_id
                    && after[id].birt[b].nbr[n].bfr_nbr == before[id].birt[b].nbr[n].bfr_nbr
                &&& d matches BiftChange::NbrOutBiftId(b, n, x) ==> after[id].birt[b].nbr[n].out_bift_id == x
                    && after[id].birt[b].nbr[n].encap_type == before[id].birt[b].nbr[n].encap_type
                    && after[id].birt[b].nbr[n].bfr_nbr == before[id].birt[b].nbr[n].bfr_nbr
            }
            &&& !is_about_bift(c, other) ==> after.contains_key(other) == before.contains_key(other) && (
            before.contains_key(other) ==> after[other] == before[other])
        }),
{
}

/// Whether a change is about a forwarding table.
pub open spec fn is_about_bift(c: BierChange, id: u16) -> bool {
    ||| c == BierChange::BiftCreate(id)
    ||| c == BierChange::BiftDelete(id)
    ||| c matches BierChange::Bift(x, _) && x == id
}

/// Labels come from a base or a defined identifier wherever there is one, and
/// otherwise by encoding.
pub proof fn label_sources(
    n: Option<u32>,
    encoding: Option<bool>,
    i: Option<BierInBiftId>,
    o: Option<BierOutBiftId>,
)
    requires
        call_ensures(in_bift_id, (n, encoding), i),
        call_ensures(out_bift_id, (n, encoding), o),
    ensures
        n matches Some(x) ==> i == Some(BierInBiftId::Base(x)) && o == Some(BierOutBiftId::Defined(x)),
        n is None ==> (encoding matches Some(e) ==> i == Some(BierInBiftId::Encoding(e)) && o == Some(
            BierOutBiftId::Encoding(e),
        )),
        n is None && encoding is None ==> i is None && o is None,
{
}

/// A sub-domain is valid if its prefix is of its address family and the topology
/// is at most 128; what is not given is not wrong.
pub proof fn sub_domains_are_valid(
    af: AddressFamily,
    p: Option<IpNetwork>,
    mt_id: Option<u8>,
    r: Result<(), SubDomainError>,
)
    requires
        call_ensures(validate_sub_domain, (af, p, mt_id), r),
    ensures
        r == Err::<(), SubDomainError>(SubDomainError::AddressFamily) <==> p is Some && ((p->0 is V4 && af
            == AddressFamily::Ipv6) || (p->0 is V6 && af == AddressFamily::Ipv4)),
        r == Err::<(), SubDomainError>(SubDomainError::MtId) ==> mt_id is Some && mt_id->0 > 128,
        mt_id is Some && mt_id->0 > 128 ==> r is Err,
        r is Err ==> p is Some || (mt_id is Some && mt_id->0 > 128),
        r is Ok ==> (p matches Some(x) ==> (x is V4 <==> af == AddressFamily::Ipv4)),
{
}

/// What an instance is told when the configuration that is shared changes, and
/// about what.
pub open spec fn is_notice(o: EventOutput, event: Event, m: Master, channel: u64) -> bool {
    match event {
        Event::SrCfgUpdate => o matches EventOutput::SrCfgUpd { channel: c, cfg } && c == channel && cfg
            == m.shared.sr_config,
        Event::SrCfgLabelRangeUpdate => o matches EventOutput::SrCfgLabelRangeUpdate { channel: c } && c == channel,
        Event::SrCfgPrefixSidUpdate(a) => o matches EventOutput::SrCfgPrefixSidUpdate { channel: c, af } && c
            == channel && af == a,
        Event::BierCfgUpdate => o matches EventOutput::BierCfgUpd { channel: c, cfg } && c == channel && cfg
            == m.shared.bier_config,
        Event::BierCfgEncapUpdate(_, a, _, _) => o matches EventOutput::BierCfgEncapUpdate { channel: c, af } && c
            == channel && af == a,
        Event::BierCfgSubDomainUpdate(a) => o matches EventOutput::BierCfgSubDomainUpdate { channel: c, af } && c
            == channel && af == a,
        _ => false,
    }
}

/// Every instance is told of a change to segment routing or BIER, in turn and on
/// its channel. The configuration that is shared then is the one that is
/// configured.
pub proof fn instances_are_told_of_changes(master: &mut Master, event: Event, r: Vec<EventOutput>, i: int)
    requires
        call_ensures(process_event, (master, event), r),
        event is SrCfgUpdate || event is SrCfgLabelRangeUpdate || event is SrCfgPrefixSidUpdate
            || event is BierCfgUpdate || event is BierCfgEncapUpdate || event is BierCfgSubDomainUpdate,
    ensures
        r@.len() == old(master).instances.entries@.len(),
        0 <= i < r@.len() ==> is_notice(
            r@[i],
            event,
            *final(master),
            old(master).instances.entries@[i].1.channel,
        ),
        event is SrCfgUpdate ==> final(master).shared.sr_config.prefix_sids@ == old(master).sr_config.prefix_sids@
            && final(master).shared.sr_config.srgb@ == old(master).sr_config.srgb@ && final(
            master
        ).shared.sr_config.srlb@ == old(master).sr_config.srlb@,
        event is BierCfgUpdate ==> final(master).shared.bier_config@ == old(master).bier_config@,
        !(event is SrCfgUpdate) ==> final(master).shared.sr_config == old(master).shared.sr_config,
        !(event is BierCfgUpdate) ==> final(master).shared.bier_config == old(master).shared.bier_config,
        final(master).static_routes == old(master).static_routes,
        final(master).instances == old(master).instances,
{
}

/// A protocol instance is started in the network instance that it is bound to at
/// that time, and in the one that was given only if it is not bound. Static
/// routes and BFD are not started.
pub proof fn instances_start_where_they_are_bound(
    master: &mut Master,
    protocol: Protocol,
    name: String,
    given: String,
    r: Vec<EventOutput>,
)
    requires
        call_ensures(
            process_event,
            (master, Event::InstanceStart { protocol, name, network_instance: given }),
            r,
        ),
        protocol != Protocol::DIRECT,
    ensures
        *final(master) == *old(master),
        protocol == Protocol::BFD || protocol == Protocol::STATIC <==> r@.len() == 0,
        r@.len() <= 1,
        r@.len() == 1 ==> (r@[0] matches EventOutput::StartInstance(id) && id.protocol == protocol && id.name@ == name@
            && (old(master).instance_ni@.contains_key((protocol, name@, "default"@)) ==> id.network_instance@ == old(
            master
        ).instance_ni@[(protocol, name@, "default"@)]@) && (!old(master).instance_ni@.contains_key(
            (protocol, name@, "default"@),
        ) ==> id.network_instance@ == given@)),
{
}

/// A static route that is deleted is taken out of the table of its network
/// instance, and out of the default one if that has none.
pub proof fn static_routes_are_uninstalled(
    master: &mut Master,
    key: StaticRouteKey,
    r: Vec<EventOutput>,
    table: Option<u32>,
)
    requires
        call_ensures(process_event, (master, Event::StaticRouteUninstall(key)), r),
    ensures
        *final(master) == *old(master),
        r@.len() == 1,
        r@[0] matches EventOutput::RouteIpDel(msg) && msg.protocol == Protocol::STATIC && msg.prefix == key.prefix && (
        table_is(*old(master), key.instance_id.network_instance@, Some(table)) ==> msg.table_id == table) && (table_is(
            *old(master),
            key.instance_id.network_instance@,
            None,
        ) ==> msg.table_id is None),
{
    let ni = key.instance_id.network_instance@;
    assert(table_is(*old(master), ni, crate::routing_master::static_table(*old(master), ni)));
}

/// A static route that changed is installed as it is configured now, if it can
/// be.
pub proof fn changed_static_routes_are_installed(master: &mut Master, key: StaticRouteKey, r: Vec<EventOutput>)
    requires
        call_ensures(process_event, (master, Event::StaticRouteInstall(key)), r),
    ensures
        *final(master) == *old(master),
        r@.len() == 1 <==> old(master).static_routes@.contains_key(key@) && !table_is(
            *old(master),
            key.instance_id.network_instance@,
            None,
        ),
        r@.len() <= 1,
        r@.len() == 1 ==> (r@[0] matches EventOutput::RouteIpAdd(msg) && msg.prefix == key.prefix && msg.protocol
            == Protocol::STATIC && table_is(
            *old(master),
            key.instance_id.network_instance@,
            Some(msg.table_id),
        )),
{
    let ni = key.instance_id.network_instance@;
    assert(table_is(*old(master), ni, crate::routing_master::static_table(*old(master), ni)));
}

/// Whether a change within a named protocol instance is for a running one: it has
/// the protocol and the name, and runs where that is bound, or in the default
/// network instance.
pub open spec fn is_for(m: Master, c: (Protocol, String), id: (Protocol, Seq<char>, Seq<char>)) -> bool {
    let base = (c.0, c.1@, "default"@);
    &&& id.0 == c.0
    &&& id.1 == c.1@
    &&& m.instance_ni@.contains_key(base) ==> id.2 == m.instance_ni@[base]@
    &&& !m.instance_ni@.contains_key(base) ==> id.2 == "default"@
}

/// Whether what is handed to instances holds a change for a channel.
pub open spec fn hands_over(r: Seq<(Vec<usize>, u64)>, i: usize, channel: u64) -> bool {
    exists|n: int| 0 <= n < r.len() && (#[trigger] r[n]).1 == channel && r[n].0@.contains(i)
}

proof fn relayed(m: Master, changes: Seq<(Protocol, String)>, k: int, n: int)
    requires
        0 <= n < k,
        changes_for(m, changes, m.instances.entries@[n].0@, changes.len() as int).len() > 0,
    ensures
        relays(m, changes, k).contains(
            (
                changes_for(m, changes, m.instances.entries@[n].0@, changes.len() as int),
                m.instances.entries@[n].1.nb_channel,
            ),
        ),
    decreases k,
{
    let x = (
        changes_for(m, changes, m.instances.entries@[n].0@, changes.len() as int),
        m.instances.entries@[n].1.nb_channel,
    );
    let all = relays(m, changes, k);
    let rest = relays(m, changes, k - 1);
    if n == k - 1 {
        assert(all[all.len() - 1] == x);
    } else {
        relayed(m, changes, k - 1, n);
        let j = choose|j: int| 0 <= j < rest.len() && rest[j] == x;
        assert(all[j] == x);
    }
}

proof fn relayed_from(m: Master, changes: Seq<(Protocol, String)>, k: int, j: int) -> (n: int)
    requires
        0 <= j < relays(m, changes, k).len(),
    ensures
        0 <= n < k,
        relays(m, changes, k)[j] == (
            changes_for(m, changes, m.instances.entries@[n].0@, changes.len() as int),
            m.instances.entries@[n].1.nb_channel,
        ),
    decreases k,
{
    if k <= 0 {
        0
    } else if j < relays(m, changes, k - 1).len() {
        relayed_from(m, changes, k - 1, j)
    } else {
        k - 1
    }
}

/// Every change reaches the running instance that it is for.
pub proof fn changes_reach_their_instances(
    master: &Master,
    changes: &[(Protocol, String)],
    r: Vec<(Vec<usize>, u64)>,
    i: usize,
    n: int,
)
    requires
        call_ensures(relay_changes, (master, changes), r),
        changes@.len() <= usize::MAX,
        i < changes@.len(),
        0 <= n < master.instances.entries@.len(),
        is_for(*master, changes@[i as int], master.instances.entries@[n].0@),
    ensures
        hands_over(r@, i, master.instances.entries@[n].1.nb_channel),
{
    let id = master.instances.entries@[n].0@;
    let own = changes_for(*master, changes@, id, changes@.len() as int);
    own_changes_in_order(*master, changes@, id, changes@.len() as int);
    assert(change_target(*master, changes@[i as int]) == id);
    assert(own.contains(i));
    relayed(*master, changes@, master.instances.entries@.len() as int, n);
    let all = relays(*master, changes@, master.instances.entries@.len() as int);
    let j = choose|j: int| 0 <= j < all.len() && all[j] == (own, master.instances.entries@[n].1.nb_channel);
    assert(relay_models(r@)[j] == all[j]);
    assert(r@[j].1 == master.instances.entries@[n].1.nb_channel);
}

/// Nothing else is handed over: each list goes to the channel of a running
/// instance, and holds changes for that instance, in the order in which they
/// were made.
pub proof fn instances_get_only_their_changes(
    master: &Master,
    changes: &[(Protocol, String)],
    r: Vec<(Vec<usize>, u64)>,
    j: int,
    a: int,
    b: int,
) -> (n: int)
    requires
        call_ensures(relay_changes, (master, changes), r),
        changes@.len() <= usize::MAX,
        0 <= j < r@.len(),
        0 <= a < b < r@[j].0@.len(),
    ensures
        0 <= n < master.instances.entries@.len(),
        r@[j].1 == master.instances.entries@[n].1.nb_channel,
        r@[j].0@[a] < r@[j].0@[b] < changes@.len(),
        is_for(*master, changes@[r@[j].0@[a] as int], master.instances.entries@[n].0@),
        is_for(*master, changes@[r@[j].0@[b] as int], master.instances.entries@[n].0@),
{
    let len = master.instances.entries@.len() as int;
    let all = relays(*master, changes@, len);
    assert(relay_models(r@)[j] == all[j]);
    let n = relayed_from(*master, changes@, len, j);
    let id = master.instances.entries@[n].0@;
    let own = changes_for(*master, changes@, id, changes@.len() as int);
    own_changes_in_order(*master, changes@, id, changes@.len() as int);
    assert(r@[j].0@ == own);
    assert(own.contains(own[a]) && own.contains(own[b]));
    n
}

/// An interface is known by its name as it was told of last, with the addresses
/// that it had; the others stay. A VRF device is known by its table.
pub proof fn interfaces_are_known_by_name(
    interfaces: &mut Interfaces,
    name: String,
    ifindex: u32,
    operative: bool,
    table: Option<u32>,
    r: (),
    other: &String,
    t: Option<u32>,
)
    requires
        call_ensures(Interfaces::update, (interfaces, name, ifindex, operative, table), r),
        call_ensures(Interfaces::vrf_table_id, (&*final(interfaces), other), t),
    ensures
        final(interfaces).by_name@.contains_key(name@),
        ({
            let i = final(interfaces).by_name@[name@];
            &&& i.ifindex == ifindex && i.operative == operative && i.vrf_table_id == table
            &&& old(interfaces).by_name@.contains_key(name@) ==> i.addresses@ == old(
                interfaces
            ).by_name@[name@].addresses@
            &&& !old(interfaces).by_name@.contains_key(name@) ==> forall|a: IpNetwork| !i.addresses@.contains_key(a)
        }),
        other@ != name@ ==> final(interfaces).by_name@.contains_key(other@) == old(interfaces).by_name@.contains_key(
            other@,
        ) && final(interfaces).by_name@[other@] == old(interfaces).by_name@[other@],
        other@ == name@ ==> t == table,
        !final(interfaces).by_name@.contains_key(other@) ==> t is None,
        final(interfaces).by_name@.contains_key(other@) ==> t == final(interfaces).by_name@[other@].vrf_table_id,
{
}

/// A configured next hop stands for one with the index of its interface, and with
/// its address if it has one. Without an interface, or with one that is not known,
/// it stands for none.
pub proof fn configured_nexthops_need_interfaces(
    interfaces: &Interfaces,
    n: &StaticRouteNexthop,
    r: Option<StaticNexthop>,
)
    requires
        call_ensures(static_nexthop_get, (interfaces, n), r),
    ensures
        r is Some <==> (n.ifname matches Some(name) && interfaces.by_name@.contains_key(name@)),
        r is Some ==> {
            let i = interfaces.by_name@[n.ifname->0@].ifindex;
            &&& n.addr matches Some(a) ==> r == Some(StaticNexthop::Address { ifindex: i, addr: a })
            &&& n.addr is None ==> r == Some(StaticNexthop::Interface { ifindex: i })
        },
{
}

proof fn indexed_instance(entries: Seq<(InstanceId, InstanceHandle)>, protocol: Protocol, name: Seq<char>)
    ensures
        ({
            let i = instance_index(entries, protocol, name);
            &&& -1 <= i < entries.len()
            &&& i >= 0 ==> entries[i].0.protocol == protocol && entries[i].0.name@ == name
            &&& i < 0 ==> forall|j: int|
                0 <= j < entries.len() ==> !((#[trigger] entries[j]).0.protocol == protocol && entries[j].0.name@
                    == name)
        }),
    decreases entries.len(),
{
    if entries.len() > 0 {
        let init = entries.drop_last();
        indexed_instance(init, protocol, name);
        if instance_index(entries, protocol, name) < 0 {
            assert forall|j: int| 0 <= j < entries.len() implies !((#[trigger] entries[j]).0.protocol == protocol
                && entries[j].0.name@ == name) by {
                if j < init.len() {
                    assert(init[j] == entries[j]);
                }
            }
        }
    }
}

/// An instance is removed under its identity. If there is none, one of its
/// protocol and name is, whatever network instance that runs in; any other
/// instance stays.
pub proof fn instances_are_removed_by_name(
    master: &mut Master,
    id: &InstanceId,
    r: (),
    other: (Protocol, Seq<char>, Seq<char>),
    n: int,
)
    requires
        old(master).wf(),
        call_ensures(remove_instance, (master, id), r),
    ensures
        !final(master).instances@.contains_key(id@),
        old(master).instances@.contains_key(other) && !(other.0 == id.protocol && other.1 == id.name@) ==> final(
            master
        ).instances@.contains_key(other) && final(master).instances@[other] == old(master).instances@[other],
        old(master).instances@.contains_key(id@) && other != id@ && old(master).instances@.contains_key(other) ==> final(
            master
        ).instances@.contains_key(other),
        final(master).instances@.contains_key(other) ==> old(master).instances@.contains_key(other),
        0 <= n < old(master).instances.entries@.len() && old(master).instances.entries@[n].0.protocol == id.protocol
            && old(master).instances.entries@[n].0.name@ == id.name@ ==> exists|k: (Protocol, Seq<char>, Seq<char>)|
            k.0 == id.protocol && k.1 == id.name@ && #[trigger] old(master).instances@.contains_key(k) && !final(
                master
            ).instances@.contains_key(k),
{
    let entries = old(master).instances.entries@;
    indexed_instance(entries, id.protocol, id.name@);
    let i = instance_index(entries, id.protocol, id.name@);
    if i >= 0 {
        entries_map_get(entries, i);
        assert(old(master).instances@.contains_key(entries[i].0@));
        if !old(master).instances@.contains_key(id@) {
            assert(!final(master).instances@.contains_key(entries[i].0@));
        }
    }
    if 0 <= n < entries.len() && old(master).instances@.contains_key(id@) {
        assert(!final(master).instances@.contains_key(id@));
    }
}

}
