//! The order in which the events of a configuration change are processed: each
//! once, those of one kind together.
use crate::policy_cfg;
use crate::ip::AddressFamily;
use crate::ip::IpNetwork;
use crate::ord::text_before;
use crate::ord::Key;
use crate::protocol::Protocol;
use crate::routing::InstanceId;
use crate::routing::StaticRouteKey;
use crate::routing_cfg::Event;
use crate::sr_bier::encap_index;
use crate::sr_bier::family_index;
use crate::sr_bier::BierEncapsulationType;
use vstd::prelude::*;

verus! {

/// An event as a mathematical value. Events that are not about a protocol
/// instance or a static route are numbered, by their kind and within it.
pub enum EventModel {
    InstanceStart((Protocol, Seq<char>, Seq<char>)),
    StaticRouteInstall(((Protocol, Seq<char>, Seq<char>), IpNetwork)),
    StaticRouteUninstall(((Protocol, Seq<char>, Seq<char>), IpNetwork)),
    Numbered(u8, u64),
}

/// The number of an update of a BIER encapsulation.
pub open spec fn encap_event(sd_id: u8, af: AddressFamily, bsl: u16, encap_type: BierEncapsulationType) -> u64 {
    ((sd_id * 2 + family_index(af)) * 0x10_0000 + bsl * 4 + encap_index(encap_type)) as u64
}

impl View for Event {
    type V = EventModel;

    open spec fn view(&self) -> EventModel {
        match *self {
            Event::InstanceStart { protocol, name, network_instance } => EventModel::InstanceStart(
                (protocol, name@, network_instance@),
            ),
            Event::StaticRouteInstall(key) => EventModel::StaticRouteInstall(key@),
            Event::StaticRouteUninstall(key) => EventModel::StaticRouteUninstall(key@),
            Event::SrCfgUpdate => EventModel::Numbered(0, 0),
            Event::SrCfgLabelRangeUpdate => EventModel::Numbered(1, 0),
            Event::SrCfgPrefixSidUpdate(af) => EventModel::Numbered(2, family_index(af) as u64),
            Event::BierCfgUpdate => EventModel::Numbered(3, 0),
            Event::BierCfgEncapUpdate(sd_id, af, bsl, encap_type) => EventModel::Numbered(
                4,
                encap_event(sd_id, af, bsl.0, encap_type),
            ),
            Event::BierCfgSubDomainUpdate(af) => EventModel::Numbered(5, family_index(af) as u64),
            Event::BierCfgBiftUpdate(bfr_id) => EventModel::Numbered(6, bfr_id as u64),
        }
    }
}

/// Events with the same model are the same.
pub proof fn model_identifies_event(a: Event, b: Event)
    requires
        a@ == b@,
    ensures
        match (a, b) {
            (
                Event::InstanceStart { protocol: p, name: n, network_instance: i },
                Event::InstanceStart { protocol: q, name: m, network_instance: j },
            ) => p == q && n@ == m@ && i@ == j@,
            (Event::StaticRouteInstall(x), Event::StaticRouteInstall(y)) => x@ == y@,
            (Event::StaticRouteUninstall(x), Event::StaticRouteUninstall(y)) => x@ == y@,
            _ => a == b,
        },
{
}

/// The place of the kind of an event.
pub open spec fn event_kind(e: EventModel) -> int {
    match e {
        EventModel::InstanceStart(_) => 0,
        EventModel::StaticRouteInstall(_) => 1,
        EventModel::StaticRouteUninstall(_) => 2,
        EventModel::Numbered(kind, _) => 3 + kind,
    }
}

fn family_number(af: AddressFamily) -> (r: u64)
    ensures
        r == family_index(af),
{
    match af {
        AddressFamily::Ipv4 => 0,
        AddressFamily::Ipv6 => 1,
    }
}

fn encap_number(t: BierEncapsulationType) -> (r: u64)
    ensures
        r == encap_index(t),
{
    match t {
        BierEncapsulationType::Mpls => 0,
        BierEncapsulationType::Ipv6 => 1,
        BierEncapsulationType::Ethernet => 2,
    }
}

/// The numbers of an event, if it is numbered.
fn numbers(e: &Event) -> (r: Option<(u8, u64)>)
    ensures
        match r {
            Some((kind, n)) => e@ == EventModel::Numbered(kind, n),
            None => !(e@ is Numbered),
        },
{
    match e {
        Event::InstanceStart { .. } => None,
        Event::StaticRouteInstall(_) => None,
        Event::StaticRouteUninstall(_) => None,
        Event::SrCfgUpdate => Some((0, 0)),
        Event::SrCfgLabelRangeUpdate => Some((1, 0)),
        Event::SrCfgPrefixSidUpdate(af) => Some((2, family_number(*af))),
        Event::BierCfgUpdate => Some((3, 0)),
        Event::BierCfgEncapUpdate(sd_id, af, bsl, encap_type) => {
            let n: u64 = (*sd_id as u64 * 2 + family_number(*af)) * 0x10_0000 + bsl.0 as u64 * 4 + encap_number(
                *encap_type,
            );
            Some((4, n))
        },
        Event::BierCfgSubDomainUpdate(af) => Some((5, family_number(*af))),
        Event::BierCfgBiftUpdate(bfr_id) => Some((6, *bfr_id as u64)),
    }
}

fn kind_number(e: &Event) -> (r: u32)
    ensures
        r == event_kind(e@),
{
    match e {
        Event::InstanceStart { .. } => 0,
        Event::StaticRouteInstall(_) => 1,
        Event::StaticRouteUninstall(_) => 2,
        _ => match numbers(e) {
            Some((kind, _)) => 3 + kind as u32,
            None => 0,
        },
    }
}

fn instance_of(protocol: Protocol, name: &String, network_instance: &String) -> (r: InstanceId)
    ensures
        r@ == (protocol, name@, network_instance@),
{
    InstanceId::new_with_network_instance(protocol, name.clone(), network_instance.clone())
}

impl Key for Event {
    open spec fn before(a: EventModel, b: EventModel) -> bool {
        event_kind(a) < event_kind(b) || match (a, b) {
            (EventModel::InstanceStart(x), EventModel::InstanceStart(y)) => InstanceId::before(x, y),
            (EventModel::StaticRouteInstall(x), EventModel::StaticRouteInstall(y)) => StaticRouteKey::before(x, y),
            (EventModel::StaticRouteUninstall(x), EventModel::StaticRouteUninstall(y)) => StaticRouteKey::before(x, y),
            (EventModel::Numbered(k, m), EventModel::Numbered(l, n)) => k == l && m < n,
            _ => false,
        }
    }

    proof fn irreflexive(a: EventModel) {
        match a {
            EventModel::InstanceStart(x) => InstanceId::irreflexive(x),
            EventModel::StaticRouteInstall(x) => StaticRouteKey::irreflexive(x),
            EventModel::StaticRouteUninstall(x) => StaticRouteKey::irreflexive(x),
            EventModel::Numbered(_, _) => {},
        }
    }

    proof fn transitive(a: EventModel, b: EventModel, c: EventModel) {
        match (a, b, c) {
            (EventModel::InstanceStart(x), EventModel::InstanceStart(y), EventModel::InstanceStart(z)) => {
                InstanceId::transitive(x, y, z);
            },
            (
                EventModel::StaticRouteInstall(x),
                EventModel::StaticRouteInstall(y),
                EventModel::StaticRouteInstall(z),
            ) => {
                StaticRouteKey::transitive(x, y, z);
            },
            (
                EventModel::StaticRouteUninstall(x),
                EventModel::StaticRouteUninstall(y),
                EventModel::StaticRouteUninstall(z),
            ) => {
                StaticRouteKey::transitive(x, y, z);
            },
            _ => {},
        }
    }

    proof fn total(a: EventModel, b: EventModel) {
        match (a, b) {
            (EventModel::InstanceStart(x), EventModel::InstanceStart(y)) => InstanceId::total(x, y),
            (EventModel::StaticRouteInstall(x), EventModel::StaticRouteInstall(y)) => StaticRouteKey::total(x, y),
            (EventModel::StaticRouteUninstall(x), EventModel::StaticRouteUninstall(y)) => StaticRouteKey::total(x, y),
            _ => {},
        }
    }

    fn precedes(&self, other: &Self) -> (r: bool) {
        if kind_number(self) < kind_number(other) {
            return true;
        }
        match (self, other) {
            (
                Event::InstanceStart { protocol, name, network_instance },
                Event::InstanceStart { protocol: p, name: n, network_instance: i },
            ) => instance_of(*protocol, name, network_instance).precedes(&instance_of(*p, n, i)),
            (Event::StaticRouteInstall(x), Event::StaticRouteInstall(y)) => x.precedes(y),
            (Event::StaticRouteUninstall(x), Event::StaticRouteUninstall(y)) => x.precedes(y),
            _ => match (numbers(self), numbers(other)) {
                (Some((k, m)), Some((l, n))) => k == l && m < n,
                _ => false,
            },
        }
    }

    fn same(&self, other: &Self) -> (r: bool) {
        match (self, other) {
            (
                Event::InstanceStart { protocol, name, network_instance },
                Event::InstanceStart { protocol: p, name: n, network_instance: i },
            ) => *protocol == *p && name.same(n) && network_instance.same(i),
            (Event::StaticRouteInstall(x), Event::StaticRouteInstall(y)) => x.same(y),
            (Event::StaticRouteUninstall(x), Event::StaticRouteUninstall(y)) => x.same(y),
            _ => match (numbers(self), numbers(other)) {
                (Some((k, m)), Some((l, n))) => k == l && m == n,
                _ => false,
            },
        }
    }

    fn duplicate(&self) -> (r: Self) {
        match self {
            Event::InstanceStart { protocol, name, network_instance } => Event::InstanceStart {
                protocol: *protocol,
                name: name.clone(),
                network_instance: network_instance.clone(),
            },
            Event::StaticRouteInstall(key) => Event::StaticRouteInstall(key.duplicate()),
            Event::StaticRouteUninstall(key) => Event::StaticRouteUninstall(key.duplicate()),
            Event::SrCfgUpdate => Event::SrCfgUpdate,
            Event::SrCfgLabelRangeUpdate => Event::SrCfgLabelRangeUpdate,
            Event::SrCfgPrefixSidUpdate(af) => Event::SrCfgPrefixSidUpdate(*af),
            Event::BierCfgUpdate => Event::BierCfgUpdate,
            Event::BierCfgEncapUpdate(sd_id, af, bsl, encap_type) => Event::BierCfgEncapUpdate(
                *sd_id,
                *af,
                *bsl,
                *encap_type,
            ),
            Event::BierCfgSubDomainUpdate(af) => Event::BierCfgSubDomainUpdate(*af),
            Event::BierCfgBiftUpdate(bfr_id) => Event::BierCfgBiftUpdate(*bfr_id),
        }
    }
}

impl Key for policy_cfg::Event {
    open spec fn before(a: policy_cfg::EventModel, b: policy_cfg::EventModel) -> bool {
        match (a, b) {
            (policy_cfg::EventModel::MatchSetsUpdate, policy_cfg::EventModel::MatchSetsUpdate) => false,
            (policy_cfg::EventModel::MatchSetsUpdate, _) => true,
            (policy_cfg::EventModel::PolicyChange(x), policy_cfg::EventModel::PolicyChange(y)) => text_before(x, y),
            (policy_cfg::EventModel::PolicyChange(_), policy_cfg::EventModel::PolicyDelete(_)) => true,
            (policy_cfg::EventModel::PolicyDelete(x), policy_cfg::EventModel::PolicyDelete(y)) => text_before(x, y),
            _ => false,
        }
    }

    proof fn irreflexive(a: policy_cfg::EventModel) {
        match a {
            policy_cfg::EventModel::MatchSetsUpdate => {},
            policy_cfg::EventModel::PolicyChange(x) => String::irreflexive(x),
            policy_cfg::EventModel::PolicyDelete(x) => String::irreflexive(x),
        }
    }

    proof fn transitive(a: policy_cfg::EventModel, b: policy_cfg::EventModel, c: policy_cfg::EventModel) {
        match (a, b, c) {
            (
                policy_cfg::EventModel::PolicyChange(x),
                policy_cfg::EventModel::PolicyChange(y),
                policy_cfg::EventModel::PolicyChange(z),
            ) => {
                String::transitive(x, y, z);
            },
            (
                policy_cfg::EventModel::PolicyDelete(x),
                policy_cfg::EventModel::PolicyDelete(y),
                policy_cfg::EventModel::PolicyDelete(z),
            ) => {
                String::transitive(x, y, z);
            },
            _ => {},
        }
    }

    proof fn total(a: policy_cfg::EventModel, b: policy_cfg::EventModel) {
        match (a, b) {
            (policy_cfg::EventModel::PolicyChange(x), policy_cfg::EventModel::PolicyChange(y)) => String::total(x, y),
            (policy_cfg::EventModel::PolicyDelete(x), policy_cfg::EventModel::PolicyDelete(y)) => String::total(x, y),
            _ => {},
        }
    }

    fn precedes(&self, other: &Self) -> (r: bool) {
        match (self, other) {
            (policy_cfg::Event::MatchSetsUpdate, policy_cfg::Event::MatchSetsUpdate) => false,
            (policy_cfg::Event::MatchSetsUpdate, _) => true,
            (policy_cfg::Event::PolicyChange(x), policy_cfg::Event::PolicyChange(y)) => x.precedes(y),
            (policy_cfg::Event::PolicyChange(_), policy_cfg::Event::PolicyDelete(_)) => true,
            (policy_cfg::Event::PolicyDelete(x), policy_cfg::Event::PolicyDelete(y)) => x.precedes(y),
            _ => false,
        }
    }

    fn same(&self, other: &Self) -> (r: bool) {
        match (self, other) {
            (policy_cfg::Event::MatchSetsUpdate, policy_cfg::Event::MatchSetsUpdate) => true,
            (policy_cfg::Event::PolicyChange(x), policy_cfg::Event::PolicyChange(y)) => x.same(y),
            (policy_cfg::Event::PolicyDelete(x), policy_cfg::Event::PolicyDelete(y)) => x.same(y),
            _ => false,
        }
    }

    fn duplicate(&self) -> (r: Self) {
        match self {
            policy_cfg::Event::MatchSetsUpdate => policy_cfg::Event::MatchSetsUpdate,
            policy_cfg::Event::PolicyChange(x) => policy_cfg::Event::PolicyChange(x.clone()),
            policy_cfg::Event::PolicyDelete(x) => policy_cfg::Event::PolicyDelete(x.clone()),
        }
    }
}

}
