# holo

The core of a routing suite, written in Verus: executable Rust with contracts
that are proved.

* `src/bgp.rs`, `src/bgp_text.rs`: communities, route distinguishers and route
  targets, on the wire and as text.
* `src/evpn.rs`: multihoming, MAC mobility and designated forwarder election.
* `src/attribute.rs`, `src/message.rs`, `src/rib.rs`, `src/neighbor.rs`: what BGP
  keeps and exchanges.
* `src/path.rs`: several paths to one prefix, told apart by identifiers.
* `src/af.rs`: address families, and UPDATE messages for each of them.
* `src/session.rs`, `src/nbr_update.rs`, `src/events.rs`, `src/decision.rs`,
  `src/originate.rs`: what BGP does about messages, policies and selected routes.
  `src/adj_laws.rs` and `src/path_laws.rs` hold what follows of all of them.
* `src/policy_types.rs`, `src/policy.rs`: routing policies and how they are
  applied. `src/policy_model.rs`, `src/policy_stmt_cfg.rs` and
  `src/policy_cfg.rs`: how they are configured.
* `src/routing.rs`, `src/routing_master.rs`, `src/routing_ibus.rs`,
  `src/routing_cfg.rs`, `src/sr_bier.rs`, `src/event_queue.rs`: the routing core
  that protocol instances share.
* `src/ibus_rx.rs`, `src/ibus_tx.rs`, `src/southbound.rs`: what BGP and the
  routing core tell each other.
* `src/netlink.rs`: routes as the kernel is told of them.
* `src/ord.rs`, `src/text.rs`, `src/ip.rs`, `src/time.rs`: ordered maps and sets,
  numbers as text, addresses, time.

`app/` talks to the kernel, carries messages over channels, and drives sessions,
the decision process and the configuration.
