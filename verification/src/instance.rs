//! Configuration of a BGP instance.
use crate::bgp::AfiSafi;
use crate::ip::Ipv4Addr;
use crate::neighbor::ApplyPolicyCfg;
use crate::ord::SortedMap;
use crate::ord::SortedSet;
use crate::protocol::Protocol;
use vstd::prelude::*;

verus! {

pub struct InstanceAfiSafiCfg {
    /// The protocols whose routes are redistributed.
    pub redistribution: SortedSet<Protocol>,
    pub apply_policy: ApplyPolicyCfg,
}

pub struct InstanceCfg {
    pub afi_safi: SortedMap<AfiSafi, InstanceAfiSafiCfg>,
    pub apply_policy: ApplyPolicyCfg,
}

/// What the system tells an instance.
pub struct InstanceSys {
    pub router_id: Option<Ipv4Addr>,
}

impl InstanceCfg {
    pub open spec fn wf(&self) -> bool {
        &&& self.afi_safi.wf()
        &&& forall|a: AfiSafi| #[trigger]
            self.afi_safi@.contains_key(a) ==> self.afi_safi@[a].redistribution.wf()
                && self.afi_safi@[a].apply_policy.wf()
        &&& self.apply_policy.wf()
    }

    /// Whether routes of a protocol are redistributed in an address family.
    pub open spec fn redistributes(&self, afi_safi: AfiSafi, protocol: Protocol) -> bool {
        self.afi_safi@.contains_key(afi_safi) && self.afi_safi@[afi_safi].redistribution@.contains(protocol)
    }

    pub fn is_redistributed(&self, afi_safi: AfiSafi, protocol: Protocol) -> (r: bool)
        requires
            self.wf(),
        ensures
            r == self.redistributes(afi_safi, protocol),
    {
        match self.afi_safi.get(&afi_safi) {
            Some(cfg) => cfg.redistribution.contains(&protocol),
            None => false,
        }
    }

    /// The policy configuration of an address family: its own, or that of the
    /// instance.
    pub open spec fn apply_policy_spec(&self, afi_safi: AfiSafi) -> ApplyPolicyCfg {
        if self.afi_safi@.contains_key(afi_safi) {
            self.afi_safi@[afi_safi].apply_policy
        } else {
            self.apply_policy
        }
    }

    pub fn apply_policy(&self, afi_safi: AfiSafi) -> (r: &ApplyPolicyCfg)
        requires
            self.wf(),
        ensures
            *r == self.apply_policy_spec(afi_safi),
            r.wf(),
    {
        match self.afi_safi.get(&afi_safi) {
            Some(cfg) => &cfg.apply_policy,
            None => &self.apply_policy,
        }
    }
}

}
