//! Configuration of the routing core.
use crate::bgp::RouteTarget;
use crate::ip::AddressFamily;
use crate::ip::IpAddr;
use crate::ip::IpNetwork;
use crate::ord::Key;
use crate::protocol::Protocol;
use crate::routing::default_instance;
use crate::routing::InstanceId;
use crate::routing::NetworkInstance;
use crate::routing::NexthopSpecial;
use crate::routing::StaticRoute;
use crate::routing::StaticRouteKey;
use crate::routing::StaticRouteNexthop;
use crate::routing_master::imports_match;
use crate::routing_master::installs_static;
use crate::routing_master::instance_removed;
use crate::routing_master::instance_start;
use crate::routing_master::is_started;
use crate::routing_master::remove_instance;
use crate::routing_master::static_ready;
use crate::routing_master::static_route_install;
use crate::routing_master::static_route_table_id;
use crate::routing_master::static_table;
use crate::routing_master::vpn_imports_update;
use crate::routing_master::Master;
use crate::routing_master::MasterShared;
use crate::southbound::RouteKeyMsg;
use crate::southbound::RouteMsg;
use crate::sr_bier::bier_change_applies;
use crate::sr_bier::bier_changed;
use crate::sr_bier::sr_change_applies;
use crate::sr_bier::sr_changed;
use crate::sr_bier::BierCfg;
use crate::sr_bier::BierChange;
use crate::sr_bier::BierEncapsulationType;
use crate::sr_bier::Bsl;
use crate::sr_bier::EncapKey;
use crate::sr_bier::IgpAlgoType;
use crate::sr_bier::LabelRange;
use crate::sr_bier::SrCfg;
use crate::sr_bier::SrChange;
use crate::sr_bier::SubDomainChange;
use crate::sr_bier::SubDomainKey;
use crate::text::same_text;
use std::sync::Arc;
use vstd::prelude::*;
use vstd::string::StringExecFns;

verus! {

/// The list entry that a change of the configuration is within.
pub enum ListEntry {
    NoEntry,
    ProtocolInstance(InstanceId),
    NetworkInstance(String),
    StaticRoute(StaticRouteKey),
    StaticRouteNexthop(StaticRouteKey, String),
    SrCfgPrefixSid(IpNetwork, IgpAlgoType),
    BierCfgSubDomain(u8, AddressFamily),
    BierCfgEncapsulation(u8, AddressFamily, Bsl, BierEncapsulationType),
    BierCfgBift(u16),
    BierCfgBiftBsl(u16, Bsl),
    BierCfgBiftNbr(u16, Bsl, IpAddr),
}

impl ListEntry {
    pub fn into_protocol_instance(self) -> (r: Option<InstanceId>)
        ensures
            r == match self {
                ListEntry::ProtocolInstance(id) => Some(id),
                _ => None,
            },
    {
        match self {
            ListEntry::ProtocolInstance(id) => Some(id),
            _ => None,
        }
    }

    pub fn into_network_instance(self) -> (r: Option<String>)
        ensures
            r == match self {
                ListEntry::NetworkInstance(name) => Some(name),
                _ => None,
            },
    {
        match self {
            ListEntry::NetworkInstance(name) => Some(name),
            _ => None,
        }
    }

    pub fn into_static_route(self) -> (r: Option<StaticRouteKey>)
        ensures
            r == match self {
                ListEntry::StaticRoute(key) => Some(key),
                _ => None,
            },
    {
        match self {
            ListEntry::StaticRoute(key) => Some(key),
            _ => None,
        }
    }

    pub fn into_static_route_nexthop(self) -> (r: Option<(StaticRouteKey, String)>)
        ensures
            r == match self {
                ListEntry::StaticRouteNexthop(key, index) => Some((key, index)),
                _ => None,
            },
    {
        match self {
            ListEntry::StaticRouteNexthop(key, index) => Some((key, index)),
            _ => None,
        }
    }

    pub fn into_sr_cfg_prefix_sid(self) -> (r: Option<(IpNetwork, IgpAlgoType)>)
        ensures
            r == match self {
                ListEntry::SrCfgPrefixSid(prefix, algo) => Some((prefix, algo)),
                _ => None,
            },
    {
        match self {
            ListEntry::SrCfgPrefixSid(prefix, algo) => Some((prefix, algo)),
            _ => None,
        }
    }

    pub fn into_bier_cfg_sub_domain(self) -> (r: Option<SubDomainKey>)
        ensures
            r == match self {
                ListEntry::BierCfgSubDomain(sd_id, af) => Some(SubDomainKey { sd_id, af }),
                _ => None,
            },
    {
        match self {
            ListEntry::BierCfgSubDomain(sd_id, af) => Some(SubDomainKey { sd_id, af }),
            _ => None,
        }
    }

    pub fn into_bier_cfg_encapsulation(self) -> (r: Option<(SubDomainKey, EncapKey)>)
        ensures
            r == match self {
                ListEntry::BierCfgEncapsulation(sd_id, af, bsl, encap_type) => Some(
                    (SubDomainKey { sd_id, af }, EncapKey { bsl, encap_type }),
                ),
                _ => None,
            },
    {
        match self {
            ListEntry::BierCfgEncapsulation(sd_id, af, bsl, encap_type) => Some(
                (SubDomainKey { sd_id, af }, EncapKey { bsl, encap_type }),
            ),
            _ => None,
        }
    }

    pub fn into_bier_cfg_bift(self) -> (r: Option<u16>)
        ensures
            r == match self {
                ListEntry::BierCfgBift(bfr_id) => Some(bfr_id),
                _ => None,
            },
    {
        match self {
            ListEntry::BierCfgBift(bfr_id) => Some(bfr_id),
            _ => None,
        }
    }

    pub fn into_bier_cfg_bift_bsl(self) -> (r: Option<(u16, Bsl)>)
        ensures
            r == match self {
                ListEntry::BierCfgBiftBsl(bfr_id, bsl) => Some((bfr_id, bsl)),
                _ => None,
            },
    {
        match self {
            ListEntry::BierCfgBiftBsl(bfr_id, bsl) => Some((bfr_id, bsl)),
            _ => None,
        }
    }

    pub fn into_bier_cfg_bift_nbr(self) -> (r: Option<(u16, Bsl, IpAddr)>)
        ensures
            r == match self {
                ListEntry::BierCfgBiftNbr(bfr_id, bsl, nbr) => Some((bfr_id, bsl, nbr)),
                _ => None,
            },
    {
        match self {
            ListEntry::BierCfgBiftNbr(bfr_id, bsl, nbr) => Some((bfr_id, bsl, nbr)),
            _ => None,
        }
    }
}

/// What is reserved while a change is prepared.
#[derive(Clone, Copy, Debug, PartialEq, Eq, Structural)]
pub enum Resource {
    SrLabelRange(LabelRange),
}

impl Resource {
    pub fn into_sr_label_range(self) -> (r: LabelRange)
        ensures
            self == Resource::SrLabelRange(r),
    {
        match self {
            Resource::SrLabelRange(range) => range,
        }
    }
}

/// What follows from changes of the configuration.
pub enum Event {
    InstanceStart { protocol: Protocol, name: String, network_instance: String },
    StaticRouteInstall(StaticRouteKey),
    StaticRouteUninstall(StaticRouteKey),
    SrCfgUpdate,
    SrCfgLabelRangeUpdate,
    SrCfgPrefixSidUpdate(AddressFamily),
    BierCfgUpdate,
    BierCfgEncapUpdate(u8, AddressFamily, Bsl, BierEncapsulationType),
    BierCfgSubDomainUpdate(AddressFamily),
    BierCfgBiftUpdate(u16),
}

/// Why a protocol instance cannot be created.
#[derive(Clone, Copy, Debug, PartialEq, Eq, Structural)]
pub enum InstanceError {
    /// The protocol cannot be configured.
    InvalidProtocolType,
    /// The protocol is not known.
    UnknownProtocolType,
}

/// The identity under which the network instance of a protocol instance is
/// kept.
pub open spec fn base_id(protocol: Protocol, name: Seq<char>) -> (Protocol, Seq<char>, Seq<char>) {
    (protocol, name, default_instance())
}

/// Prepares the creation of a protocol instance, within the default network
/// instance unless another is given. BFD runs permanently and is not started.
pub fn protocol_create_prepare(
    master: &mut Master,
    ptype: Option<Protocol>,
    name: String,
    network_instance: Option<String>,
) -> (r: Result<Option<Event>, InstanceError>)
    requires
        old(master).wf(),
    ensures
        final(master).wf(),
        match ptype {
            None => r == Err::<Option<Event>, InstanceError>(InstanceError::UnknownProtocolType) && *final(master)
                == *old(master),
            Some(protocol) => if protocol == Protocol::DIRECT {
                r == Err::<Option<Event>, InstanceError>(InstanceError::InvalidProtocolType) && *final(master) == *old(
                    master,
                )
            } else if protocol == Protocol::BFD {
                r matches Ok(None) && *final(master) == *old(master)
            } else {
                &&& r matches Ok(Some(Event::InstanceStart { protocol: p, name: n, network_instance: ni })) && p
                    == protocol && n == name && ni@ == match network_instance {
                    Some(x) => x@,
                    None => default_instance(),
                }
                &&& final(master).instance_ni@.dom() == old(master).instance_ni@.dom().insert(base_id(protocol, name@))
                &&& final(master).instance_ni@[base_id(protocol, name@)]@ == match network_instance {
                    Some(x) => x@,
                    None => default_instance(),
                }
                &&& final(master).instance_ni@ == old(master).instance_ni@.insert(
                    base_id(protocol, name@),
                    final(master).instance_ni@[base_id(protocol, name@)],
                )
                &&& *final(master) == (Master { instance_ni: final(master).instance_ni, ..*old(master) })
            },
        },
{
    let protocol = match ptype {
        Some(Protocol::DIRECT) => {
            return Err(InstanceError::InvalidProtocolType);
        },
        Some(protocol) => protocol,
        None => {
            return Err(InstanceError::UnknownProtocolType);
        },
    };
    // The BFD task runs permanently.
    if protocol == Protocol::BFD {
        return Ok(None);
    }
    let network_instance = match network_instance {
        Some(ni) => ni,
        None => String::from_str("default"),
    };
    let id = InstanceId::new(protocol, name.clone());
    assert(id@ == base_id(protocol, name@));
    master.instance_ni.insert(id, network_instance.clone());
    assert(master.instance_ni@.dom() =~= old(master).instance_ni@.dom().insert(base_id(protocol, name@)));
    Ok(Some(Event::InstanceStart { protocol, name, network_instance }))
}

/// Removes a protocol instance, also where its creation is aborted. BFD runs
/// permanently.
pub fn protocol_remove(master: &mut Master, instance_id: InstanceId)
    requires
        old(master).wf(),
    ensures
        final(master).wf(),
        if instance_id.protocol == Protocol::BFD {
            *final(master) == *old(master)
        } else {
            &&& final(master).instances@ == instance_removed(old(master).instances, instance_id@)
            &&& final(master).instance_ni@ == old(master).instance_ni@.remove(
                base_id(instance_id.protocol, instance_id.name@),
            )
            &&& *final(master) == (Master {
                instances: final(master).instances,
                instance_ni: final(master).instance_ni,
                ..*old(master)
            })
        },
{
    // The BFD task runs permanently.
    if instance_id.protocol == Protocol::BFD {
        return;
    }
    remove_instance(master, &instance_id);
    let id = InstanceId::new(instance_id.protocol, instance_id.name);
    let _ = master.instance_ni.remove(&id);
}

/// Binds a protocol instance to a network instance, or to the default one.
pub fn protocol_bind(master: &mut Master, instance_id: InstanceId, network_instance: Option<String>)
    requires
        old(master).wf(),
    ensures
        final(master).wf(),
        final(master).instance_ni@ == match network_instance {
            Some(ni) => old(master).instance_ni@.insert(base_id(instance_id.protocol, instance_id.name@), ni),
            None => old(master).instance_ni@.remove(base_id(instance_id.protocol, instance_id.name@)),
        },
        *final(master) == (Master { instance_ni: final(master).instance_ni, ..*old(master) }),
{
    let id = InstanceId::new(instance_id.protocol, instance_id.name);
    match network_instance {
        Some(ni) => {
            master.instance_ni.insert(id, ni);
        },
        None => {
            let _ = master.instance_ni.remove(&id);
        },
    }
}

/// Why a protocol instance is not valid.
#[derive(Clone, Copy, Debug, PartialEq, Eq, Structural)]
pub enum ValidationError {
    /// The protocol is not known.
    UnknownProtocol,
    /// The BFD instance has another name than "main".
    BfdName,
}

/// Validates a protocol instance before it is configured.
pub fn validate_protocol(ptype: Option<Protocol>, name: &str) -> (r: Result<(), ValidationError>)
    ensures
        r == match ptype {
            None => Err::<(), ValidationError>(ValidationError::UnknownProtocol),
            Some(protocol) => if protocol == Protocol::BFD && name@ != "main"@ {
                Err::<(), ValidationError>(ValidationError::BfdName)
            } else {
                Ok(())
            },
        },
{
    match ptype {
        None => Err(ValidationError::UnknownProtocol),
        Some(protocol) => if protocol == Protocol::BFD && !same_text(name, "main") {
            Err(ValidationError::BfdName)
        } else {
            Ok(())
        },
    }
}

/// A change to a network instance.
pub enum NetworkInstanceChange {
    Enabled(bool),
    Description(Option<String>),
    ImportRtAdd(RouteTarget),
    ImportRtRemove(RouteTarget),
}

/// `NetworkInstance` as a mathematical value.
pub struct NetworkInstanceModel {
    pub enabled: bool,
    pub description: Option<String>,
    pub import_rts: Set<RouteTarget>,
    pub table_id: Option<u32>,
}

impl View for NetworkInstance {
    type V = NetworkInstanceModel;

    open spec fn view(&self) -> NetworkInstanceModel {
        NetworkInstanceModel {
            enabled: self.enabled,
            description: self.description,
            import_rts: self.import_rts@,
            table_id: self.table_id,
        }
    }
}

/// A network instance after a change.
pub open spec fn ni_changed(m: NetworkInstanceModel, c: NetworkInstanceChange) -> NetworkInstanceModel {
    match c {
        NetworkInstanceChange::Enabled(enabled) => NetworkInstanceModel { enabled, ..m },
        NetworkInstanceChange::Description(description) => NetworkInstanceModel { description, ..m },
        NetworkInstanceChange::ImportRtAdd(rt) => NetworkInstanceModel { import_rts: m.import_rts.insert(rt), ..m },
        NetworkInstanceChange::ImportRtRemove(rt) => NetworkInstanceModel {
            import_rts: m.import_rts.remove(rt),
            ..m
        },
    }
}

/// Changes a network instance. What protocol instances know of VPN imports is
/// brought up to date, unless only the description changes.
pub fn network_instance_apply(master: &mut Master, name: &String, change: NetworkInstanceChange)
    requires
        old(master).wf(),
        old(master).network_instances@.contains_key(name@),
    ensures
        final(master).wf(),
        final(master).network_instances@.contains_key(name@),
        final(master).network_instances@ == old(master).network_instances@.insert(
            name@,
            final(master).network_instances@[name@],
        ),
        final(master).network_instances@[name@]@ == ni_changed(old(master).network_instances@[name@]@, change),
        if change is Description {
            final(master).shared == old(master).shared
        } else {
            imports_match(final(master).shared.vpn_imports@, final(master).network_instances@)
        },
        *final(master) == (Master {
            network_instances: final(master).network_instances,
            shared: MasterShared { vpn_imports: final(master).shared.vpn_imports, ..old(master).shared },
            ..*old(master)
        }),
{
    let ni = master.network_instances.get_mut(name).unwrap();
    match change {
        NetworkInstanceChange::Enabled(enabled) => {
            ni.enabled = enabled;
        },
        NetworkInstanceChange::Description(description) => {
            ni.description = description;
            return;
        },
        NetworkInstanceChange::ImportRtAdd(rt) => {
            ni.import_rts.insert(rt);
        },
        NetworkInstanceChange::ImportRtRemove(rt) => {
            let _ = ni.import_rts.remove(&rt);
        },
    }
    vpn_imports_update(master);
}

/// Deletes a network instance.
pub fn network_instance_delete(master: &mut Master, name: &String)
    requires
        old(master).wf(),
    ensures
        final(master).wf(),
        final(master).network_instances@ == old(master).network_instances@.remove(name@),
        imports_match(final(master).shared.vpn_imports@, final(master).network_instances@),
        *final(master) == (Master {
            network_instances: final(master).network_instances,
            shared: MasterShared { vpn_imports: final(master).shared.vpn_imports, ..old(master).shared },
            ..*old(master)
        }),
{
    let _ = master.network_instances.remove(name);
    vpn_imports_update(master);
}

/// A change to a static route.
pub enum StaticRouteChange {
    OutgoingInterface(Option<String>),
    NextHopAddress(Option<IpAddr>),
    SpecialNextHop(Option<NexthopSpecial>),
    NextHopCreate(String),
    NextHopDelete(String),
    NextHopOutgoingInterface(String, Option<String>),
    NextHopNextHopAddress(String, Option<IpAddr>),
}

/// `StaticRoute` as a mathematical value.
pub struct StaticRouteModel {
    pub nexthop_single: StaticRouteNexthop,
    pub nexthop_special: Option<NexthopSpecial>,
    pub nexthop_list: Map<Seq<char>, StaticRouteNexthop>,
}

impl View for StaticRoute {
    type V = StaticRouteModel;

    open spec fn view(&self) -> StaticRouteModel {
        StaticRouteModel {
            nexthop_single: self.nexthop_single,
            nexthop_special: self.nexthop_special,
            nexthop_list: self.nexthop_list@,
        }
    }
}

/// Whether the next hop that a change refers to is configured.
pub open spec fn static_change_applies(m: StaticRouteModel, c: StaticRouteChange) -> bool {
    match c {
        StaticRouteChange::NextHopOutgoingInterface(index, _) => m.nexthop_list.contains_key(index@),
        StaticRouteChange::NextHopNextHopAddress(index, _) => m.nexthop_list.contains_key(index@),
        _ => true,
    }
}

/// A static route after a change.
pub open spec fn static_changed(m: StaticRouteModel, c: StaticRouteChange) -> StaticRouteModel {
    match c {
        StaticRouteChange::OutgoingInterface(ifname) => StaticRouteModel {
            nexthop_single: StaticRouteNexthop { ifname, ..m.nexthop_single },
            ..m
        },
        StaticRouteChange::NextHopAddress(addr) => StaticRouteModel {
            nexthop_single: StaticRouteNexthop { addr, ..m.nexthop_single },
            ..m
        },
        StaticRouteChange::SpecialNextHop(nexthop_special) => StaticRouteModel { nexthop_special, ..m },
        StaticRouteChange::NextHopCreate(index) => StaticRouteModel {
            nexthop_list: m.nexthop_list.insert(index@, StaticRouteNexthop { ifname: None, addr: None }),
            ..m
        },
        StaticRouteChange::NextHopDelete(index) => StaticRouteModel {
            nexthop_list: m.nexthop_list.remove(index@),
            ..m
        },
        StaticRouteChange::NextHopOutgoingInterface(index, ifname) => StaticRouteModel {
            nexthop_list: m.nexthop_list.insert(index@, StaticRouteNexthop { ifname, ..m.nexthop_list[index@] }),
            ..m
        },
        StaticRouteChange::NextHopNextHopAddress(index, addr) => StaticRouteModel {
            nexthop_list: m.nexthop_list.insert(index@, StaticRouteNexthop { addr, ..m.nexthop_list[index@] }),
            ..m
        },
    }
}

/// Creates a static route without next hops.
pub fn static_route_create(master: &mut Master, route_key: StaticRouteKey)
    requires
        old(master).wf(),
    ensures
        final(master).wf(),
        final(master).static_routes@.contains_key(route_key@),
        final(master).static_routes@ == old(master).static_routes@.insert(
            route_key@,
            final(master).static_routes@[route_key@],
        ),
        final(master).static_routes@[route_key@]@ == (StaticRouteModel {
            nexthop_single: StaticRouteNexthop { ifname: None, addr: None },
            nexthop_special: None,
            nexthop_list: Map::empty(),
        }),
        *final(master) == (Master { static_routes: final(master).static_routes, ..*old(master) }),
{
    master.static_routes.insert(route_key, StaticRoute::default());
}

/// Deletes a static route.
pub fn static_route_delete(master: &mut Master, route_key: StaticRouteKey) -> (r: Event)
    requires
        old(master).wf(),
    ensures
        final(master).wf(),
        final(master).static_routes@ == old(master).static_routes@.remove(route_key@),
        *final(master) == (Master { static_routes: final(master).static_routes, ..*old(master) }),
        r == Event::StaticRouteUninstall(route_key),
{
    let _ = master.static_routes.remove(&route_key);
    Event::StaticRouteUninstall(route_key)
}

/// Changes a static route.
pub fn static_route_apply(master: &mut Master, route_key: StaticRouteKey, change: StaticRouteChange) -> (r: Event)
    requires
        old(master).wf(),
        old(master).static_routes@.contains_key(route_key@),
        static_change_applies(old(master).static_routes@[route_key@]@, change),
    ensures
        final(master).wf(),
        final(master).static_routes@.contains_key(route_key@),
        final(master).static_routes@ == old(master).static_routes@.insert(
            route_key@,
            final(master).static_routes@[route_key@],
        ),
        final(master).static_routes@[route_key@]@ == static_changed(
            old(master).static_routes@[route_key@]@,
            change,
        ),
        *final(master) == (Master { static_routes: final(master).static_routes, ..*old(master) }),
        r == Event::StaticRouteInstall(route_key),
{
    let route = master.static_routes.get_mut(&route_key).unwrap();
    match change {
        StaticRouteChange::OutgoingInterface(ifname) => {
            route.nexthop_single.ifname = ifname;
        },
        StaticRouteChange::NextHopAddress(addr) => {
            route.nexthop_single.addr = addr;
        },
        StaticRouteChange::SpecialNextHop(special) => {
            route.nexthop_special = special;
        },
        StaticRouteChange::NextHopCreate(index) => {
            route.nexthop_list.insert(index, StaticRouteNexthop::default());
        },
        StaticRouteChange::NextHopDelete(index) => {
            let _ = route.nexthop_list.remove(&index);
        },
        StaticRouteChange::NextHopOutgoingInterface(index, ifname) => {
            let nexthop = route.nexthop_list.get_mut(&index).unwrap();
            nexthop.ifname = ifname;
        },
        StaticRouteChange::NextHopNextHopAddress(index, addr) => {
            let nexthop = route.nexthop_list.get_mut(&index).unwrap();
            nexthop.addr = addr;
        },
    }
    Event::StaticRouteInstall(route_key)
}

/// What follows from a change to segment routing.
pub open spec fn sr_events(c: SrChange) -> Seq<Event> {
    match c {
        SrChange::PrefixSidCreate { key, .. }
        | SrChange::PrefixSidDelete { key }
        | SrChange::PrefixSidIndex { key, .. }
        | SrChange::PrefixSidLastHop { key, .. } => seq![
            Event::SrCfgUpdate,
            Event::SrCfgPrefixSidUpdate(key.prefix.address_family_spec()),
        ],
        _ => seq![Event::SrCfgUpdate, Event::SrCfgLabelRangeUpdate],
    }
}

/// The label range that a change to segment routing frees.
pub open spec fn released_range(c: SrChange) -> Option<LabelRange> {
    match c {
        SrChange::SrgbDelete(range) => Some(range),
        SrChange::SrlbDelete(range) => Some(range),
        _ => None,
    }
}

/// Changes segment routing. Returns what follows, and the label range that is
/// to be freed.
pub fn sr_apply(master: &mut Master, change: SrChange) -> (r: (Vec<Event>, Option<LabelRange>))
    requires
        old(master).wf(),
        sr_change_applies(old(master).sr_config@, change),
    ensures
        final(master).wf(),
        final(master).sr_config@ == sr_changed(old(master).sr_config@, change),
        *final(master) == (Master { sr_config: final(master).sr_config, ..*old(master) }),
        r.0@ == sr_events(change),
        r.1 == released_range(change),
{
    master.sr_config.apply(change);
    let mut events: Vec<Event> = Vec::new();
    let mut range = None;
    events.push(Event::SrCfgUpdate);
    match change {
        SrChange::PrefixSidCreate { key, .. }
        | SrChange::PrefixSidDelete { key }
        | SrChange::PrefixSidIndex { key, .. }
        | SrChange::PrefixSidLastHop { key, .. } => {
            events.push(Event::SrCfgPrefixSidUpdate(key.prefix.address_family()));
        },
        SrChange::SrgbDelete(freed) | SrChange::SrlbDelete(freed) => {
            range = Some(freed);
            events.push(Event::SrCfgLabelRangeUpdate);
        },
        SrChange::SrgbCreate(_) | SrChange::SrlbCreate(_) => {
            events.push(Event::SrCfgLabelRangeUpdate);
        },
    }
    assert(events@ =~= sr_events(change));
    (events, range)
}

/// What follows from a change to a sub-domain of BIER.
pub open spec fn sub_domain_events(key: SubDomainKey, c: SubDomainChange) -> Seq<Event> {
    match c {
        SubDomainChange::EncapCreate(e) => seq![
            Event::BierCfgUpdate,
            Event::BierCfgEncapUpdate(key.sd_id, key.af, e.bsl, e.encap_type),
        ],
        SubDomainChange::EncapDelete(_) => seq![Event::BierCfgUpdate],
        SubDomainChange::EncapMaxSi(e, _) | SubDomainChange::EncapInBiftId(e, _) => seq![
            Event::BierCfgUpdate,
            Event::BierCfgEncapUpdate(key.sd_id, key.af, e.bsl, e.encap_type),
        ],
        _ => seq![Event::BierCfgUpdate, Event::BierCfgSubDomainUpdate(key.af)],
    }
}

/// What follows from a change to BIER.
pub open spec fn bier_events(c: BierChange) -> Seq<Event> {
    match c {
        BierChange::SubDomainCreate(s) => seq![Event::BierCfgUpdate, Event::BierCfgSubDomainUpdate(s.af)],
        BierChange::SubDomainDelete(key) => seq![Event::BierCfgUpdate, Event::BierCfgSubDomainUpdate(key.af)],
        BierChange::SubDomain(key, change) => sub_domain_events(key, change),
        BierChange::BiftCreate(bfr_id) => seq![Event::BierCfgUpdate, Event::BierCfgBiftUpdate(bfr_id)],
        BierChange::BiftDelete(bfr_id) => seq![Event::BierCfgUpdate, Event::BierCfgBiftUpdate(bfr_id)],
        BierChange::Bift(_, _) => seq![Event::BierCfgUpdate],
    }
}

/// Changes BIER, and returns what follows.
pub fn bier_apply(master: &mut Master, change: BierChange) -> (r: Vec<Event>)
    requires
        old(master).wf(),
        bier_change_applies(old(master).bier_config@, change),
    ensures
        final(master).wf(),
        final(master).bier_config@ == bier_changed(old(master).bier_config@, change),
        *final(master) == (Master { bier_config: final(master).bier_config, ..*old(master) }),
        r@ == bier_events(change),
{
    master.bier_config.apply(change);
    let mut events: Vec<Event> = Vec::new();
    events.push(Event::BierCfgUpdate);
    match change {
        BierChange::SubDomainCreate(s) => {
            events.push(Event::BierCfgSubDomainUpdate(s.af));
        },
        BierChange::SubDomainDelete(key) => {
            events.push(Event::BierCfgSubDomainUpdate(key.af));
        },
        BierChange::SubDomain(key, change) => {
            match change {
                SubDomainChange::EncapCreate(e) => {
                    events.push(Event::BierCfgEncapUpdate(key.sd_id, key.af, e.bsl, e.encap_type));
                },
                SubDomainChange::EncapDelete(_) => {},
                SubDomainChange::EncapMaxSi(e, _) | SubDomainChange::EncapInBiftId(e, _) => {
                    events.push(Event::BierCfgEncapUpdate(key.sd_id, key.af, e.bsl, e.encap_type));
                },
                _ => {
                    events.push(Event::BierCfgSubDomainUpdate(key.af));
                },
            }
        },
        BierChange::BiftCreate(bfr_id) => {
            events.push(Event::BierCfgBiftUpdate(bfr_id));
        },
        BierChange::BiftDelete(bfr_id) => {
            events.push(Event::BierCfgBiftUpdate(bfr_id));
        },
        BierChange::Bift(_, _) => {},
    }
    assert(events@ =~= bier_events(change));
    events
}

/// What is to be done about an event.
pub enum EventOutput {
    StartInstance(InstanceId),
    RouteIpAdd(RouteMsg),
    RouteIpDel(RouteKeyMsg),
    SrCfgUpd { channel: u64, cfg: Arc<SrCfg> },
    SrCfgLabelRangeUpdate { channel: u64 },
    SrCfgPrefixSidUpdate { channel: u64, af: AddressFamily },
    BierCfgUpd { channel: u64, cfg: Arc<BierCfg> },
    BierCfgEncapUpdate { channel: u64, af: AddressFamily },
    BierCfgSubDomainUpdate { channel: u64, af: AddressFamily },
}

/// A notice to every protocol instance.
pub enum Notice {
    SrCfgUpd(Arc<SrCfg>),
    SrCfgLabelRangeUpdate,
    SrCfgPrefixSidUpdate(AddressFamily),
    BierCfgUpd(Arc<BierCfg>),
    BierCfgEncapUpdate(AddressFamily),
    BierCfgSubDomainUpdate(AddressFamily),
}

/// A notice to a channel.
pub open spec fn notice_to(n: Notice, channel: u64) -> EventOutput {
    match n {
        Notice::SrCfgUpd(cfg) => EventOutput::SrCfgUpd { channel, cfg },
        Notice::SrCfgLabelRangeUpdate => EventOutput::SrCfgLabelRangeUpdate { channel },
        Notice::SrCfgPrefixSidUpdate(af) => EventOutput::SrCfgPrefixSidUpdate { channel, af },
        Notice::BierCfgUpd(cfg) => EventOutput::BierCfgUpd { channel, cfg },
        Notice::BierCfgEncapUpdate(af) => EventOutput::BierCfgEncapUpdate { channel, af },
        Notice::BierCfgSubDomainUpdate(af) => EventOutput::BierCfgSubDomainUpdate { channel, af },
    }
}

/// The notices to all protocol instances.
pub open spec fn notices(m: Master, n: Notice) -> Seq<EventOutput> {
    Seq::new(m.instances.entries@.len(), |i: int| notice_to(n, m.instances.entries@[i].1.channel))
}

fn notify_all(master: &Master, notice: &Notice) -> (r: Vec<EventOutput>)
    ensures
        r@ == notices(*master, *notice),
{
    let mut r: Vec<EventOutput> = Vec::new();
    let ghost all = notices(*master, *notice);
    let mut i: usize = 0;
    while i < master.instances.entries.len()
        invariant
            all == notices(*master, *notice),
            i <= master.instances.entries@.len(),
            r@ == all.take(i as int),
        decreases master.instances.entries@.len() - i,
    {
        let channel: u64 = master.instances.entries[i].1.channel;
        let o = match notice {
            Notice::SrCfgUpd(cfg) => EventOutput::SrCfgUpd { channel, cfg: cfg.clone() },
            Notice::SrCfgLabelRangeUpdate => EventOutput::SrCfgLabelRangeUpdate { channel },
            Notice::SrCfgPrefixSidUpdate(af) => EventOutput::SrCfgPrefixSidUpdate { channel, af: *af },
            Notice::BierCfgUpd(cfg) => EventOutput::BierCfgUpd { channel, cfg: cfg.clone() },
            Notice::BierCfgEncapUpdate(af) => EventOutput::BierCfgEncapUpdate { channel, af: *af },
            Notice::BierCfgSubDomainUpdate(af) => EventOutput::BierCfgSubDomainUpdate { channel, af: *af },
        };
        r.push(o);
        assert(all.take(i + 1) =~= all.take(i as int).push(all[i as int]));
        i += 1;
    }
    assert(all.take(i as int) =~= all);
    r
}

/// The network instance that a protocol instance is started in: the one that it
/// is bound to, or the one given.
pub open spec fn bound_instance(m: Master, protocol: Protocol, name: Seq<char>, given: Seq<char>) -> Seq<char> {
    if m.instance_ni@.contains_key(base_id(protocol, name)) {
        m.instance_ni@[base_id(protocol, name)]@
    } else {
        given
    }
}

/// Processes an event, and returns what is to be done.
pub fn process_event(master: &mut Master, event: Event) -> (r: Vec<EventOutput>)
    requires
        old(master).wf(),
        event matches Event::InstanceStart { protocol, .. } ==> protocol != Protocol::DIRECT,
    ensures
        final(master).wf(),
        match event {
            Event::SrCfgUpdate => {
                &&& final(master).shared.sr_config@ == old(master).sr_config@
                &&& *final(master) == (Master {
                    shared: MasterShared { sr_config: final(master).shared.sr_config, ..old(master).shared },
                    ..*old(master)
                })
                &&& r@ == notices(*old(master), Notice::SrCfgUpd(final(master).shared.sr_config))
            },
            Event::BierCfgUpdate => {
                &&& final(master).shared.bier_config@ == old(master).bier_config@
                &&& *final(master) == (Master {
                    shared: MasterShared { bier_config: final(master).shared.bier_config, ..old(master).shared },
                    ..*old(master)
                })
                &&& r@ == notices(*old(master), Notice::BierCfgUpd(final(master).shared.bier_config))
            },
            _ => *final(master) == *old(master),
        },
        match event {
            Event::InstanceStart { protocol, name, network_instance } => if is_started(protocol) {
                r@.len() == 1 && (r@[0] matches EventOutput::StartInstance(id) && id@ == (
                    protocol,
                    name@,
                    bound_instance(*old(master), protocol, name@, network_instance@),
                ))
            } else {
                r@.len() == 0
            },
            Event::StaticRouteInstall(key) => if static_ready(*old(master), key@) {
                r@.len() == 1 && (r@[0] matches EventOutput::RouteIpAdd(msg) && installs_static(
                    msg,
                    *old(master),
                    key@,
                ))
            } else {
                r@.len() == 0
            },
            Event::StaticRouteUninstall(key) => r@ == seq![
                EventOutput::RouteIpDel(
                    RouteKeyMsg {
                        protocol: Protocol::STATIC,
                        table_id: match static_table(*old(master), key.instance_id.network_instance@) {
                            Some(t) => t,
                            None => None,
                        },
                        prefix: key.prefix,
                    },
                ),
            ],
            Event::SrCfgLabelRangeUpdate => r@ == notices(*old(master), Notice::SrCfgLabelRangeUpdate),
            Event::SrCfgPrefixSidUpdate(af) => r@ == notices(*old(master), Notice::SrCfgPrefixSidUpdate(af)),
            Event::BierCfgEncapUpdate(_, af, _, _) => r@ == notices(*old(master), Notice::BierCfgEncapUpdate(af)),
            Event::BierCfgSubDomainUpdate(af) => r@ == notices(*old(master), Notice::BierCfgSubDomainUpdate(af)),
            Event::BierCfgBiftUpdate(_) => r@.len() == 0,
            _ => true,
        },
{
    let mut r: Vec<EventOutput> = Vec::new();
    match event {
        Event::InstanceStart { protocol, name, network_instance } => {
            let id = InstanceId::new(protocol, name.clone());
            assert(id@ == base_id(protocol, name@));
            let network_instance = match master.instance_ni.get(&id) {
                Some(ni) => ni.clone(),
                None => network_instance,
            };
            if let Some(id) = instance_start(protocol, name, network_instance) {
                r.push(EventOutput::StartInstance(id));
            }
        },
        Event::StaticRouteInstall(route_key) => {
            if let Some(msg) = static_route_install(master, &route_key) {
                r.push(EventOutput::RouteIpAdd(msg));
            }
        },
        Event::StaticRouteUninstall(route_key) => {
            let table_id = match static_route_table_id(master, &route_key) {
                Some(table_id) => table_id,
                None => None,
            };
            let msg = RouteKeyMsg { protocol: Protocol::STATIC, table_id, prefix: route_key.prefix };
            r.push(EventOutput::RouteIpDel(msg));
            assert(r@ =~= seq![EventOutput::RouteIpDel(msg)]);
        },
        Event::SrCfgUpdate => {
            // Share a copy of the configuration with the protocol instances.
            master.shared.sr_config = Arc::new(master.sr_config.duplicate());
            r = notify_all(master, &Notice::SrCfgUpd(master.shared.sr_config.clone()));
        },
        Event::SrCfgLabelRangeUpdate => {
            r = notify_all(master, &Notice::SrCfgLabelRangeUpdate);
        },
        Event::SrCfgPrefixSidUpdate(af) => {
            r = notify_all(master, &Notice::SrCfgPrefixSidUpdate(af));
        },
        Event::BierCfgUpdate => {
            // Share a copy of the configuration with the protocol instances.
            master.shared.bier_config = Arc::new(master.bier_config.duplicate());
            r = notify_all(master, &Notice::BierCfgUpd(master.shared.bier_config.clone()));
        },
        Event::BierCfgEncapUpdate(_, af, _, _) => {
            r = notify_all(master, &Notice::BierCfgEncapUpdate(af));
        },
        Event::BierCfgSubDomainUpdate(af) => {
            r = notify_all(master, &Notice::BierCfgSubDomainUpdate(af));
        },
        Event::BierCfgBiftUpdate(_) => {},
    }
    r
}

/// The instance that a change within a named protocol instance is for.
pub open spec fn change_target(m: Master, c: (Protocol, String)) -> (Protocol, Seq<char>, Seq<char>) {
    (c.0, c.1@, bound_instance(m, c.0, c.1@, default_instance()))
}

/// The positions of the first `n` changes that are for an instance, in order.
pub open spec fn changes_for(
    m: Master,
    changes: Seq<(Protocol, String)>,
    id: (Protocol, Seq<char>, Seq<char>),
    n: int,
) -> Seq<usize>
    decreases n,
{
    if n <= 0 {
        Seq::empty()
    } else {
        let s = changes_for(m, changes, id, n - 1);
        if change_target(m, changes[n - 1]) == id {
            s.push((n - 1) as usize)
        } else {
            s
        }
    }
}

/// What the first `k` running instances are handed: each one that is concerned,
/// its changes and its configuration channel.
pub open spec fn relays(m: Master, changes: Seq<(Protocol, String)>, k: int) -> Seq<(Seq<usize>, u64)>
    decreases k,
{
    if k <= 0 {
        Seq::empty()
    } else {
        let s = relays(m, changes, k - 1);
        let own = changes_for(m, changes, m.instances.entries@[k - 1].0@, changes.len() as int);
        if own.len() == 0 {
            s
        } else {
            s.push((own, m.instances.entries@[k - 1].1.nb_channel))
        }
    }
}

/// What is handed to instances, with the positions by value.
pub open spec fn relay_models(r: Seq<(Vec<usize>, u64)>) -> Seq<(Seq<usize>, u64)> {
    Seq::new(r.len(), |i: int| (r[i].0@, r[i].1))
}

/// Hands each change, given by the protocol and the name of the instance that it
/// is within, to the running instance that it is for. Changes for an instance
/// that is not running are dropped.
pub fn relay_changes(master: &Master, changes: &[(Protocol, String)]) -> (r: Vec<(Vec<usize>, u64)>)
    requires
        master.wf(),
    ensures
        relay_models(r@) == relays(*master, changes@, master.instances.entries@.len() as int),
{
    // Find the instance of each change.
    let mut targets: Vec<InstanceId> = Vec::new();
    let mut i: usize = 0;
    while i < changes.len()
        invariant
            master.wf(),
            i <= changes@.len(),
            targets@.len() == i,
            forall|j: int| 0 <= j < i ==> #[trigger] targets@[j]@ == change_target(*master, changes@[j]),
        decreases changes@.len() - i,
    {
        let protocol = changes[i].0;
        let id = InstanceId::new(protocol, changes[i].1.clone());
        assert(id@ == base_id(protocol, changes@[i as int].1@));
        let network_instance = match master.instance_ni.get(&id) {
            Some(ni) => ni.clone(),
            None => String::from_str("default"),
        };
        targets.push(InstanceId::new_with_network_instance(protocol, changes[i].1.clone(), network_instance));
        i += 1;
    }
    // Gather the changes of each running instance.
    let mut r: Vec<(Vec<usize>, u64)> = Vec::new();
    let mut k: usize = 0;
    assert(relay_models(r@) =~= Seq::empty());
    while k < master.instances.entries.len()
        invariant
            k <= master.instances.entries@.len(),
            targets@.len() == changes@.len(),
            forall|j: int| 0 <= j < changes@.len() ==> #[trigger] targets@[j]@ == change_target(*master, changes@[j]),
            relay_models(r@) == relays(*master, changes@, k as int),
        decreases master.instances.entries@.len() - k,
    {
        let id = &master.instances.entries[k].0;
        let mut own: Vec<usize> = Vec::new();
        let mut j: usize = 0;
        while j < targets.len()
            invariant
                j <= targets@.len(),
                targets@.len() == changes@.len(),
                forall|j: int|
                    0 <= j < changes@.len() ==> #[trigger] targets@[j]@ == change_target(*master, changes@[j]),
                own@ == changes_for(*master, changes@, id@, j as int),
            decreases targets@.len() - j,
        {
            if targets[j].same(id) {
                own.push(j);
            }
            j += 1;
        }
        let ghost before = r@;
        if own.len() > 0 {
            r.push((own, master.instances.entries[k].1.nb_channel));
            assert(relay_models(r@) =~= relay_models(before).push((own@, r@[r@.len() - 1].1)));
        }
        k += 1;
    }
    r
}

/// An instance is handed the changes that are for it, all of them and no others,
/// each once and in the order in which they were made.
pub proof fn own_changes_in_order(
    m: Master,
    changes: Seq<(Protocol, String)>,
    id: (Protocol, Seq<char>, Seq<char>),
    n: int,
)
    requires
        0 <= n <= changes.len() <= usize::MAX,
    ensures
        forall|i: usize|
            #[trigger] changes_for(m, changes, id, n).contains(i) <==> i < n && change_target(m, changes[i as int])
                == id,
        forall|a: int, b: int|
            0 <= a < b < changes_for(m, changes, id, n).len() ==> #[trigger] changes_for(m, changes, id, n)[a]
                < #[trigger] changes_for(m, changes, id, n)[b],
    decreases n,
{
    if n > 0 {
        own_changes_in_order(m, changes, id, n - 1);
        let s = changes_for(m, changes, id, n - 1);
        let t = changes_for(m, changes, id, n);
        let last = (n - 1) as usize;
        assert forall|i: usize|
            #[trigger] t.contains(i) <==> i < n && change_target(m, changes[i as int]) == id by {
            if s.contains(i) {
                let k = choose|k: int| 0 <= k < s.len() && s[k] == i;
                assert(t[k] == i);
            }
            if change_target(m, changes[n - 1]) == id {
                assert(t[s.len() as int] == last);
                if t.contains(i) && i != last {
                    let k = choose|k: int| 0 <= k < t.len() && t[k] == i;
                    assert(s[k] == i);
                }
            }
        }
        assert forall|a: int, b: int| 0 <= a < b < t.len() implies #[trigger] t[a] < #[trigger] t[b] by {
            assert(t[a] == s[a] && s.contains(s[a]));
            if b < s.len() {
                assert(s[a] < s[b]);
            }
        }
    }
}

/// Removing a protocol instance undoes its creation: nothing is left bound.
pub proof fn removing_undoes_creating(
    before: Map<(Protocol, Seq<char>, Seq<char>), String>,
    id: (Protocol, Seq<char>, Seq<char>),
    network_instance: String,
)
    requires
        !before.contains_key(id),
    ensures
        before.insert(id, network_instance).remove(id) == before,
{
    assert(before.insert(id, network_instance).remove(id) =~= before);
}

/// Removing a route target undoes adding it.
pub proof fn import_rt_removal_undoes_addition(m: NetworkInstanceModel, rt: RouteTarget)
    requires
        !m.import_rts.contains(rt),
    ensures
        ni_changed(
            ni_changed(m, NetworkInstanceChange::ImportRtAdd(rt)),
            NetworkInstanceChange::ImportRtRemove(rt),
        ) == m,
{
    assert(m.import_rts.insert(rt).remove(rt) =~= m.import_rts);
}

/// Deleting a next hop undoes its creation, whatever was configured of it.
pub proof fn nexthop_deletion_undoes_creation(
    m: StaticRouteModel,
    index: String,
    ifname: Option<String>,
    addr: Option<IpAddr>,
)
    requires
        !m.nexthop_list.contains_key(index@),
    ensures
        static_changed(
            static_changed(
                static_changed(
                    static_changed(m, StaticRouteChange::NextHopCreate(index)),
                    StaticRouteChange::NextHopOutgoingInterface(index, ifname),
                ),
                StaticRouteChange::NextHopNextHopAddress(index, addr),
            ),
            StaticRouteChange::NextHopDelete(index),
        ) == m,
{
    let n = StaticRouteNexthop { ifname: None, addr: None };
    assert(m.nexthop_list.insert(index@, n).insert(index@, StaticRouteNexthop { ifname, ..n }).insert(
        index@,
        StaticRouteNexthop { ifname, addr },
    ).remove(index@) =~= m.nexthop_list);
}

}
