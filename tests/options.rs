use zenoh_client::config::config;
use zenoh_client::options::{ConsolidationMode, ConsolidationStrategy, QueryConsolidation, WhatAmI};

#[test]
fn consolidation_presets() {
    let s = ConsolidationStrategy::reception();
    assert_eq!((s.first_routers, s.last_router, s.reception), (ConsolidationMode::No, ConsolidationMode::No, ConsolidationMode::Full));
    let s = ConsolidationStrategy::last_router();
    assert_eq!((s.first_routers, s.last_router, s.reception), (ConsolidationMode::No, ConsolidationMode::Full, ConsolidationMode::Full));
    let s = ConsolidationStrategy::lazy();
    assert_eq!((s.first_routers, s.last_router, s.reception), (ConsolidationMode::Lazy, ConsolidationMode::Lazy, ConsolidationMode::Lazy));
    let s = ConsolidationStrategy::full();
    assert_eq!((s.first_routers, s.last_router, s.reception), (ConsolidationMode::Full, ConsolidationMode::Full, ConsolidationMode::Full));
    let s = ConsolidationStrategy::none();
    assert_eq!((s.first_routers, s.last_router, s.reception), (ConsolidationMode::No, ConsolidationMode::No, ConsolidationMode::No));
    let s = ConsolidationStrategy::new(None, None, None);
    assert_eq!((s.first_routers, s.last_router, s.reception), (ConsolidationMode::Lazy, ConsolidationMode::Lazy, ConsolidationMode::Full));
    let s = ConsolidationStrategy::new(Some(ConsolidationMode::No), None, Some(ConsolidationMode::Lazy));
    assert_eq!((s.first_routers, s.last_router, s.reception), (ConsolidationMode::No, ConsolidationMode::Lazy, ConsolidationMode::Lazy));
    assert_eq!(QueryConsolidation::full(), QueryConsolidation::Manual(ConsolidationStrategy::full()));
    assert_eq!(QueryConsolidation::lazy(), QueryConsolidation::Manual(ConsolidationStrategy::lazy()));
    assert_eq!(QueryConsolidation::reception(), QueryConsolidation::Manual(ConsolidationStrategy::reception()));
    assert_eq!(QueryConsolidation::last_router(), QueryConsolidation::Manual(ConsolidationStrategy::last_router()));
    assert_eq!(QueryConsolidation::none(), QueryConsolidation::Manual(ConsolidationStrategy::none()));
}

#[test]
fn whatami_union() {
    let w = WhatAmI::Router().bitor(WhatAmI::Peer());
    assert!(w.router && w.peer && !w.client);
    assert_eq!(WhatAmI::Client().bitor(WhatAmI::Client()), WhatAmI::Client());
}

#[test]
fn configuration_keys() {
    assert_eq!(config::MODE_KEY(), "mode");
    assert_eq!(config::CONNECT_KEY(), "connect/endpoints");
    assert_eq!(config::LISTEN_KEY(), "listen/endpoints");
    assert_eq!(config::USER_KEY(), "transport/auth/usrpwd/user");
    assert_eq!(config::PASSWORD_KEY(), "transport/auth/usrpwd/password");
    assert_eq!(config::MULTICAST_SCOUTING_KEY(), "scouting/multicast/enabled");
    assert_eq!(config::MULTICAST_INTERFACE_KEY(), "scouting/multicast/interface");
    assert_eq!(config::MULTICAST_IPV4_ADDRESS_KEY(), "scouting/multicast/address");
    assert_eq!(config::SCOUTING_TIMEOUT_KEY(), "scouting/timeout");
    assert_eq!(config::SCOUTING_DELAY_KEY(), "scouting/delay");
    assert_eq!(config::ADD_TIMESTAMP_KEY(), "add_timestamp");
    assert_eq!(config::LOCAL_ROUTING_KEY(), "local_routing");
}
