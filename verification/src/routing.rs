//! The routing core: interfaces, network instances, protocol instances and
//! static routes.
use crate::bgp::RouteTarget;
use crate::ip::IpAddr;
use crate::ip::IpNetwork;
use crate::ip::Ipv4Addr;
use crate::ip::Ipv4Network;
use crate::ip::Ipv6Addr;
use crate::ip::Ipv6Network;
use crate::ord::entries_map_get;
use crate::ord::text_before;
use crate::ord::Key;
use crate::ord::Ranked;
use crate::ord::SortedMap;
use crate::ord::SortedSet;
use crate::protocol::Protocol;
use vstd::arithmetic::power2::lemma2_to64;
use vstd::arithmetic::power2::lemma2_to64_rest;
use vstd::arithmetic::power2::lemma_pow2_adds;
use vstd::arithmetic::power2::lemma_pow2_strictly_increases;
use vstd::arithmetic::power2::lemma_pow2_unfold;
use vstd::arithmetic::power2::pow2;
use vstd::prelude::*;
use vstd::string::StringExecFns;

verus! {

/// The name of the network instance that always exists.
pub open spec fn default_instance() -> Seq<char> {
    "default"@
}

/// A protocol instance within a network instance.
pub struct InstanceId {
    pub protocol: Protocol,
    pub name: String,
    pub network_instance: String,
}

impl View for InstanceId {
    type V = (Protocol, Seq<char>, Seq<char>);

    open spec fn view(&self) -> (Protocol, Seq<char>, Seq<char>) {
        (self.protocol, self.name@, self.network_instance@)
    }
}

impl Key for InstanceId {
    open spec fn before(a: (Protocol, Seq<char>, Seq<char>), b: (Protocol, Seq<char>, Seq<char>)) -> bool {
        a.0.rank() < b.0.rank() || (a.0 == b.0 && (text_before(a.1, b.1) || (a.1 == b.1 && text_before(a.2, b.2))))
    }

    proof fn irreflexive(a: (Protocol, Seq<char>, Seq<char>)) {
        String::irreflexive(a.1);
        String::irreflexive(a.2);
    }

    proof fn transitive(
        a: (Protocol, Seq<char>, Seq<char>),
        b: (Protocol, Seq<char>, Seq<char>),
        c: (Protocol, Seq<char>, Seq<char>),
    ) {
        if text_before(a.1, b.1) && text_before(b.1, c.1) {
            String::transitive(a.1, b.1, c.1);
        }
        if text_before(a.2, b.2) && text_before(b.2, c.2) {
            String::transitive(a.2, b.2, c.2);
        }
    }

    proof fn total(a: (Protocol, Seq<char>, Seq<char>), b: (Protocol, Seq<char>, Seq<char>)) {
        String::total(a.1, b.1);
        String::total(a.2, b.2);
        if a.0.rank() == b.0.rank() {
            Protocol::rank_identifies(a.0, b.0);
        }
    }

    fn precedes(&self, other: &Self) -> (r: bool) {
        if self.protocol.ranks_below(&other.protocol) {
            return true;
        }
        if self.protocol != other.protocol {
            return false;
        }
        if self.name.precedes(&other.name) {
            return true;
        }
        self.name.same(&other.name) && self.network_instance.precedes(&other.network_instance)
    }

    fn same(&self, other: &Self) -> (r: bool) {
        self.protocol == other.protocol && self.name.same(&other.name) && self.network_instance.same(
            &other.network_instance,
        )
    }

    fn duplicate(&self) -> (r: Self) {
        InstanceId {
            protocol: self.protocol,
            name: self.name.clone(),
            network_instance: self.network_instance.clone(),
        }
    }
}

impl InstanceId {
    /// An instance within the default network instance.
    pub fn new(protocol: Protocol, name: String) -> (r: Self)
        ensures
            r.protocol == protocol,
            r.name == name,
            r.network_instance@ == default_instance(),
    {
        InstanceId { protocol, name, network_instance: String::from_str("default") }
    }

    pub fn new_with_network_instance(protocol: Protocol, name: String, network_instance: String) -> (r: Self)
        ensures
            r == (InstanceId { protocol, name, network_instance }),
    {
        InstanceId { protocol, name, network_instance }
    }
}

/// A static route of a protocol instance.
pub struct StaticRouteKey {
    pub instance_id: InstanceId,
    pub prefix: IpNetwork,
}

impl View for StaticRouteKey {
    type V = ((Protocol, Seq<char>, Seq<char>), IpNetwork);

    open spec fn view(&self) -> ((Protocol, Seq<char>, Seq<char>), IpNetwork) {
        (self.instance_id@, self.prefix)
    }
}

impl Key for StaticRouteKey {
    open spec fn before(
        a: ((Protocol, Seq<char>, Seq<char>), IpNetwork),
        b: ((Protocol, Seq<char>, Seq<char>), IpNetwork),
    ) -> bool {
        InstanceId::before(a.0, b.0) || (a.0 == b.0 && a.1.rank() < b.1.rank())
    }

    proof fn irreflexive(a: ((Protocol, Seq<char>, Seq<char>), IpNetwork)) {
        InstanceId::irreflexive(a.0);
    }

    proof fn transitive(
        a: ((Protocol, Seq<char>, Seq<char>), IpNetwork),
        b: ((Protocol, Seq<char>, Seq<char>), IpNetwork),
        c: ((Protocol, Seq<char>, Seq<char>), IpNetwork),
    ) {
        if InstanceId::before(a.0, b.0) && InstanceId::before(b.0, c.0) {
            InstanceId::transitive(a.0, b.0, c.0);
        }
    }

    proof fn total(
        a: ((Protocol, Seq<char>, Seq<char>), IpNetwork),
        b: ((Protocol, Seq<char>, Seq<char>), IpNetwork),
    ) {
        InstanceId::total(a.0, b.0);
        if a.1.rank() == b.1.rank() {
            IpNetwork::rank_identifies(a.1, b.1);
        }
    }

    fn precedes(&self, other: &Self) -> (r: bool) {
        if self.instance_id.precedes(&other.instance_id) {
            return true;
        }
        self.instance_id.same(&other.instance_id) && self.prefix.ranks_below(&other.prefix)
    }

    fn same(&self, other: &Self) -> (r: bool) {
        self.instance_id.same(&other.instance_id) && self.prefix == other.prefix
    }

    fn duplicate(&self) -> (r: Self) {
        StaticRouteKey { instance_id: self.instance_id.duplicate(), prefix: self.prefix }
    }
}

/// A network instance.
pub struct NetworkInstance {
    pub enabled: bool,
    pub description: Option<String>,
    pub import_rts: SortedSet<RouteTarget>,
    /// The kernel table of the VRF device with the name of the instance, once
    /// that device is known.
    pub table_id: Option<u32>,
}

impl Default for NetworkInstance {
    fn default() -> (r: Self)
        ensures
            !r.enabled,
            r.description is None,
            r.import_rts.wf(),
            r.import_rts@ == Set::<RouteTarget>::empty(),
            r.table_id is None,
    {
        NetworkInstance { enabled: false, description: None, import_rts: SortedSet::new(), table_id: None }
    }
}

pub struct StaticRouteNexthop {
    pub ifname: Option<String>,
    pub addr: Option<IpAddr>,
}

#[derive(Clone, Copy, Debug, PartialEq, Eq, Structural)]
pub enum NexthopSpecial {
    Blackhole,
    Unreachable,
    Prohibit,
}

/// The next hops of a static route.
pub struct StaticRoute {
    pub nexthop_single: StaticRouteNexthop,
    pub nexthop_special: Option<NexthopSpecial>,
    pub nexthop_list: SortedMap<String, StaticRouteNexthop>,
}

impl Default for StaticRouteNexthop {
    fn default() -> (r: Self)
        ensures
            r.ifname is None,
            r.addr is None,
    {
        StaticRouteNexthop { ifname: None, addr: None }
    }
}

impl Default for StaticRoute {
    fn default() -> (r: Self)
        ensures
            r.nexthop_single.ifname is None,
            r.nexthop_single.addr is None,
            r.nexthop_special is None,
            r.nexthop_list.wf(),
            r.nexthop_list@ == Map::<Seq<char>, StaticRouteNexthop>::empty(),
    {
        StaticRoute {
            nexthop_single: StaticRouteNexthop::default(),
            nexthop_special: None,
            nexthop_list: SortedMap::new(),
        }
    }
}

/// A network interface. Its addresses are kept with whether they are
/// unnumbered.
pub struct Interface {
    pub ifindex: u32,
    pub operative: bool,
    pub vrf_table_id: Option<u32>,
    pub addresses: SortedMap<IpNetwork, bool>,
}

/// The interfaces of the system by name.
pub struct Interfaces {
    pub by_name: SortedMap<String, Interface>,
}

impl Interfaces {
    pub open spec fn wf(&self) -> bool {
        &&& self.by_name.wf()
        &&& forall|n: Seq<char>| #[trigger] self.by_name@.contains_key(n) ==> self.by_name@[n].addresses.wf()
    }

    pub fn new() -> (r: Self)
        ensures
            r.wf(),
            r.by_name@ == Map::<Seq<char>, Interface>::empty(),
    {
        Interfaces { by_name: SortedMap::new() }
    }

    /// The table of the VRF device with a name.
    pub open spec fn vrf_table_spec(&self, name: Seq<char>) -> Option<u32> {
        if self.by_name@.contains_key(name) {
            self.by_name@[name].vrf_table_id
        } else {
            None
        }
    }

    pub fn vrf_table_id(&self, name: &String) -> (r: Option<u32>)
        requires
            self.wf(),
        ensures
            r == self.vrf_table_spec(name@),
    {
        match self.by_name.get(name) {
            Some(iface) => iface.vrf_table_id,
            None => None,
        }
    }

    /// Takes note of an interface; the addresses of a known one are kept.
    pub fn update(&mut self, ifname: String, ifindex: u32, operative: bool, vrf_table_id: Option<u32>)
        requires
            old(self).wf(),
        ensures
            final(self).wf(),
            final(self).by_name@.contains_key(ifname@),
            final(self).by_name@ == old(self).by_name@.insert(ifname@, final(self).by_name@[ifname@]),
            ({
                let iface = final(self).by_name@[ifname@];
                &&& iface.ifindex == ifindex
                &&& iface.operative == operative
                &&& iface.vrf_table_id == vrf_table_id
                &&& iface.addresses@ == if old(self).by_name@.contains_key(ifname@) {
                    old(self).by_name@[ifname@].addresses@
                } else {
                    Map::<IpNetwork, bool>::empty()
                }
            }),
    {
        match self.by_name.get_mut(&ifname) {
            Some(iface) => {
                iface.ifindex = ifindex;
                iface.operative = operative;
                iface.vrf_table_id = vrf_table_id;
                return;
            },
            None => {},
        }
        self.by_name.insert(
            ifname,
            Interface { ifindex, operative, vrf_table_id, addresses: SortedMap::new() },
        );
    }

    /// Whether the interface with an index has an unnumbered address.
    pub open spec fn unnumbered_spec(&self, ifindex: u32) -> bool {
        exists|n: Seq<char>| #[trigger]
            self.by_name@.contains_key(n) && self.by_name@[n].ifindex == ifindex && has_unnumbered(self.by_name@[n])
    }

    pub fn is_unnumbered(&self, ifindex: u32) -> (r: bool)
        requires
            self.wf(),
        ensures
            r == self.unnumbered_spec(ifindex),
    {
        let ghost entries = self.by_name.entries@;
        let mut i: usize = 0;
        while i < self.by_name.entries.len()
            invariant
                self.wf(),
                entries == self.by_name.entries@,
                i <= entries.len(),
                forall|j: int|
                    0 <= j < i ==> !((#[trigger] entries[j]).1.ifindex == ifindex && has_unnumbered(entries[j].1)),
            decreases entries.len() - i,
        {
            proof {
                entries_map_get(entries, i as int);
                assert(self.by_name@.contains_key(entries[i as int].0@));
            }
            let iface = &self.by_name.entries[i].1;
            if iface.ifindex == ifindex && iface.is_unnumbered() {
                return true;
            }
            i += 1;
        }
        proof {
            assert forall|n: Seq<char>| #[trigger] self.by_name@.contains_key(n) implies !(self.by_name@[n].ifindex
                == ifindex && has_unnumbered(self.by_name@[n])) by {
                let j = choose|j: int| 0 <= j < entries.len() && (#[trigger] entries[j]).0@ == n;
                entries_map_get(entries, j);
            }
        }
        false
    }
}

/// Whether an interface has an unnumbered address.
pub open spec fn has_unnumbered(iface: Interface) -> bool {
    exists|a: IpNetwork| #[trigger] iface.addresses@.contains_key(a) && iface.addresses@[a]
}

impl Interface {
    pub fn is_unnumbered(&self) -> (r: bool)
        requires
            self.addresses.wf(),
        ensures
            r == has_unnumbered(*self),
    {
        let ghost entries = self.addresses.entries@;
        let mut i: usize = 0;
        while i < self.addresses.entries.len()
            invariant
                self.addresses.wf(),
                entries == self.addresses.entries@,
                i <= entries.len(),
                forall|j: int| 0 <= j < i ==> !(#[trigger] entries[j]).1,
            decreases entries.len() - i,
        {
            if self.addresses.entries[i].1 {
                proof {
                    entries_map_get(entries, i as int);
                    assert(self.addresses@.contains_key(entries[i as int].0@));
                }
                return true;
            }
            i += 1;
        }
        proof {
            assert forall|a: IpNetwork| #[trigger] self.addresses@.contains_key(a) implies !self.addresses@[a] by {
                let j = choose|j: int| 0 <= j < entries.len() && (#[trigger] entries[j]).0@ == a;
                entries_map_get(entries, j);
            }
        }
        false
    }
}

/// A prefix without its host bits.
pub open spec fn masked(prefix: IpNetwork) -> IpNetwork {
    match prefix {
        IpNetwork::V4(n) => IpNetwork::V4(
            Ipv4Network {
                addr: Ipv4Addr {
                    bits: (n.addr.bits - n.addr.bits as nat % pow2((32 - n.prefix) as nat)) as u32,
                },
                ..n
            },
        ),
        IpNetwork::V6(n) => IpNetwork::V6(
            Ipv6Network {
                addr: Ipv6Addr {
                    bits: (n.addr.bits - n.addr.bits as nat % pow2((128 - n.prefix) as nat)) as u128,
                },
                ..n
            },
        ),
    }
}

/// The prefix length is that of an address of the family at most.
pub open spec fn prefix_wf(prefix: IpNetwork) -> bool {
    match prefix {
        IpNetwork::V4(n) => n.prefix <= 32,
        IpNetwork::V6(n) => n.prefix <= 128,
    }
}

fn exec_power2(n: u8) -> (r: u128)
    requires
        n < 128,
    ensures
        r == pow2(n as nat),
        r > 0,
{
    let mut r: u128 = 1;
    let mut i: u8 = 0;
    proof {
        lemma2_to64();
        lemma2_to64_rest();
        lemma_pow2_adds(64, 63);
    }
    while i < n
        invariant
            i <= n,
            n < 128,
            r == pow2(i as nat),
            r > 0,
            pow2(127) == 0x8000_0000_0000_0000_0000_0000_0000_0000,
        decreases n - i,
    {
        proof {
            lemma_pow2_unfold((i + 1) as nat);
            if i + 1 < 127 {
                lemma_pow2_strictly_increases((i + 1) as nat, 127);
            }
        }
        r = r * 2;
        i += 1;
    }
    r
}

proof fn remainder_is_small(a: nat, m: nat)
    requires
        m > 0,
    ensures
        a % m <= a,
{
    assert(a % m <= a) by (nonlinear_arith)
        requires
            m > 0,
    ;
}

impl IpNetwork {
    /// The prefix without its host bits.
    pub fn apply_mask(&self) -> (r: IpNetwork)
        requires
            prefix_wf(*self),
        ensures
            r == masked(*self),
    {
        match *self {
            IpNetwork::V4(n) => {
                let size: u128 = exec_power2(32 - n.prefix);
                let host: u128 = n.addr.bits as u128 % size;
                proof {
                    remainder_is_small(n.addr.bits as nat, size as nat);
                }
                IpNetwork::V4(
                    Ipv4Network { addr: Ipv4Addr { bits: n.addr.bits - host as u32 }, prefix: n.prefix },
                )
            },
            IpNetwork::V6(n) => {
                if n.prefix == 0 {
                    proof {
                        lemma2_to64();
                        lemma_pow2_adds(64, 64);
                        assert(n.addr.bits as nat % pow2(128) == n.addr.bits) by (nonlinear_arith)
                            requires
                                (n.addr.bits as nat) < pow2(128),
                        ;
                    }
                    return IpNetwork::V6(Ipv6Network { addr: Ipv6Addr { bits: 0 }, prefix: 0 });
                }
                let size: u128 = exec_power2(128 - n.prefix);
                let host: u128 = n.addr.bits % size;
                proof {
                    remainder_is_small(n.addr.bits as nat, size as nat);
                }
                IpNetwork::V6(Ipv6Network { addr: Ipv6Addr { bits: n.addr.bits - host }, prefix: n.prefix })
            },
        }
    }
}

}
