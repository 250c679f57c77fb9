//! What the protocol instances share: policies, defined sets and VPN
//! membership.
use crate::bgp::RouteDistinguisher;
use crate::bgp::RouteTarget;
use crate::ord::SortedMap;
use crate::ord::SortedSet;
use crate::policy_types::MatchSets;
use crate::policy_types::Policy;
use crate::protocol::Label;
use std::sync::Arc;
use vstd::prelude::*;

verus! {

/// A network instance that imports VPN routes into its table.
pub struct VpnImport {
    pub import_rts: SortedSet<RouteTarget>,
    pub table_id: Option<u32>,
}

/// A network instance whose routes are exported to a VPN.
pub struct VpnExport {
    pub rd: RouteDistinguisher,
    pub export_rts: SortedSet<RouteTarget>,
    pub label: Label,
}

pub struct InstanceShared {
    pub policies: SortedMap<String, Arc<Policy>>,
    pub policy_match_sets: Arc<MatchSets>,
    /// The importing network instances by name.
    pub vpn_imports: SortedMap<String, VpnImport>,
    /// The exporting network instances by the number of their table.
    pub vpn_exports: SortedMap<u32, VpnExport>,
}

impl InstanceShared {
    pub open spec fn wf(&self) -> bool {
        &&& self.policies.wf()
        &&& forall|n: Seq<char>| #[trigger] self.policies@.contains_key(n) ==> self.policies@[n].wf()
        &&& self.policy_match_sets.wf()
        &&& self.vpn_imports.wf()
        &&& forall|n: Seq<char>| #[trigger] self.vpn_imports@.contains_key(n) ==> self.vpn_imports@[n].import_rts.wf()
        &&& self.vpn_exports.wf()
        &&& forall|t: u32| #[trigger] self.vpn_exports@.contains_key(t) ==> self.vpn_exports@[t].export_rts.wf()
    }
}

impl Default for InstanceShared {
    fn default() -> (r: Self)
        ensures
            r.wf(),
            r.policies@ == Map::<Seq<char>, Arc<Policy>>::empty(),
            r.policy_match_sets.holds_nothing(),
            r.vpn_imports@ == Map::<Seq<char>, VpnImport>::empty(),
            r.vpn_exports@ == Map::<u32, VpnExport>::empty(),
    {
        InstanceShared {
            policies: SortedMap::new(),
            policy_match_sets: Arc::new(MatchSets::default()),
            vpn_imports: SortedMap::new(),
            vpn_exports: SortedMap::new(),
        }
    }
}

}
