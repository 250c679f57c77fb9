//! Routes as they are handed to the routing core.
use crate::ip::IpAddr;
use crate::ip::IpNetwork;
use crate::policy::RouteOpaqueAttrs;
use crate::protocol::Label;
use crate::protocol::Protocol;
use std::sync::Arc;
use vstd::prelude::*;

verus! {

#[derive(Clone, Copy, Debug, PartialEq, Eq, Structural)]
pub enum RouteKind {
    Unicast,
    Blackhole,
    Unreachable,
    Prohibit,
}

/// A next hop.
pub enum Nexthop {
    Address { ifindex: u32, addr: IpAddr, labels: Vec<Label> },
    Interface { ifindex: u32 },
    /// A next hop that is reached through others.
    Recursive { addr: IpAddr, labels: Vec<Label>, resolved: Vec<Nexthop> },
}

/// A next hop as a mathematical value.
pub enum NexthopModel {
    Address { ifindex: u32, addr: IpAddr, labels: Seq<Label> },
    Interface { ifindex: u32 },
    Recursive { addr: IpAddr, labels: Seq<Label>, resolved: Seq<NexthopModel> },
}

impl Nexthop {
    pub open spec fn model(self) -> NexthopModel
        decreases self,
    {
        match self {
            Nexthop::Address { ifindex, addr, labels } => NexthopModel::Address { ifindex, addr, labels: labels@ },
            Nexthop::Interface { ifindex } => NexthopModel::Interface { ifindex },
            Nexthop::Recursive { addr, labels, resolved } => NexthopModel::Recursive {
                addr,
                labels: labels@,
                resolved: Seq::new(
                    resolved@.len(),
                    |i: int|
                        if 0 <= i < resolved@.len() {
                            resolved[i].model()
                        } else {
                            arbitrary()
                        },
                ),
            },
        }
    }
}

/// The models of next hops.
pub open spec fn nexthop_models(v: Seq<Nexthop>) -> Seq<NexthopModel> {
    Seq::new(v.len(), |i: int| v[i].model())
}

/// A route to be installed.
pub struct RouteMsg {
    pub protocol: Protocol,
    pub kind: RouteKind,
    pub table_id: Option<u32>,
    pub prefix: IpNetwork,
    pub distance: u32,
    pub metric: u32,
    pub tag: Option<u32>,
    pub opaque_attrs: RouteOpaqueAttrs,
    pub nexthops: Arc<Vec<Nexthop>>,
}

/// A route to be removed.
#[derive(Clone, Copy, Debug, PartialEq, Eq, Structural)]
pub struct RouteKeyMsg {
    pub protocol: Protocol,
    pub table_id: Option<u32>,
    pub prefix: IpNetwork,
}

/// A label to be installed.
pub struct LabelInstallMsg {
    pub protocol: Protocol,
    pub label: Label,
    pub nexthops: Vec<Nexthop>,
    pub route: Option<(Protocol, IpNetwork)>,
    pub replace: bool,
}

/// A label to be removed.
pub struct LabelUninstallMsg {
    pub protocol: Protocol,
    pub label: Label,
    pub nexthops: Vec<Nexthop>,
    pub route: Option<(Protocol, IpNetwork)>,
}

}
