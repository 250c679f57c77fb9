//! The core of a routing suite: BGP with its policies and EVPN, and the routing
//! core that protocol instances share.

pub mod adj_laws;
pub mod af;
pub mod attr_laws;
pub mod attribute;
pub mod bgp;
pub mod bgp_text;
pub mod cfg_laws;
pub mod decision;
pub mod decision_laws;
pub mod event_queue;
pub mod events;
pub mod evpn;
pub mod evpn_laws;
pub mod export_laws;
pub mod ibus_laws;
pub mod ibus_rx;
pub mod ibus_tx;
pub mod instance;
pub mod ip;
pub mod message;
pub mod nbr_update;
pub mod neighbor;
pub mod neighbor_laws;
pub mod netlink;
pub mod netlink_laws;
pub mod ord;
pub mod originate;
pub mod path;
pub mod path_laws;
pub mod policy;
pub mod policy_cfg;
pub mod policy_cfg_laws;
pub mod policy_laws;
pub mod policy_model;
pub mod policy_stmt_cfg;
pub mod policy_types;
pub mod protocol;
pub mod rib;
pub mod routing;
pub mod routing_cfg;
pub mod routing_ibus;
pub mod routing_laws;
pub mod routing_master;
pub mod session;
pub mod session_laws;
pub mod shared;
pub mod southbound;
pub mod stmt_laws;
pub mod sr_bier;
pub mod text;
pub mod text_laws;
pub mod time;
pub mod update_laws;
