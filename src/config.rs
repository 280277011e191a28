//! The configuration keys accepted for a session, as a read-only table.

use vstd::prelude::*;

verus! {

/// Names of the configuration keys of a session.
#[allow(non_camel_case_types)]
pub struct config {}

#[allow(non_snake_case)]
impl config {
    /// The library mode: `"peer"` (the default) or `"client"`.
    pub fn MODE_KEY() -> (r: &'static str)
        ensures
            r@ == "mode"@,
    {
        "mode"
    }

    /// A locator of a peer to connect to; several may be given.
    pub fn CONNECT_KEY() -> (r: &'static str)
        ensures
            r@ == "connect/endpoints"@,
    {
        "connect/endpoints"
    }

    /// A locator to listen on; several may be given.
    pub fn LISTEN_KEY() -> (r: &'static str)
        ensures
            r@ == "listen/endpoints"@,
    {
        "listen/endpoints"
    }

    /// The user name used for authentication.
    pub fn USER_KEY() -> (r: &'static str)
        ensures
            r@ == "transport/auth/usrpwd/user"@,
    {
        "transport/auth/usrpwd/user"
    }

    /// The password used for authentication.
    pub fn PASSWORD_KEY() -> (r: &'static str)
        ensures
            r@ == "transport/auth/usrpwd/password"@,
    {
        "transport/auth/usrpwd/password"
    }

    /// Whether multicast scouting is on: `"true"` (the default) or `"false"`.
    pub fn MULTICAST_SCOUTING_KEY() -> (r: &'static str)
        ensures
            r@ == "scouting/multicast/enabled"@,
    {
        "scouting/multicast/enabled"
    }

    /// The network interface used for multicast scouting (`"auto"` by default).
    pub fn MULTICAST_INTERFACE_KEY() -> (r: &'static str)
        ensures
            r@ == "scouting/multicast/interface"@,
    {
        "scouting/multicast/interface"
    }

    /// The multicast address and port used for scouting.
    pub fn MULTICAST_IPV4_ADDRESS_KEY() -> (r: &'static str)
        ensures
            r@ == "scouting/multicast/address"@,
    {
        "scouting/multicast/address"
    }

    /// In client mode, how long to scout for a router before failing, in seconds.
    pub fn SCOUTING_TIMEOUT_KEY() -> (r: &'static str)
        ensures
            r@ == "scouting/timeout"@,
    {
        "scouting/timeout"
    }

    /// In peer mode, how long to scout for peers before going on, in seconds.
    pub fn SCOUTING_DELAY_KEY() -> (r: &'static str)
        ensures
            r@ == "scouting/delay"@,
    {
        "scouting/delay"
    }

    /// Whether data messages are timestamped (`"false"` by default).
    pub fn ADD_TIMESTAMP_KEY() -> (r: &'static str)
        ensures
            r@ == "add_timestamp"@,
    {
        "add_timestamp"
    }

    /// Whether local writes and queries reach local subscribers and queryables.
    pub fn LOCAL_ROUTING_KEY() -> (r: &'static str)
        ensures
            r@ == "local_routing"@,
    {
        "local_routing"
    }
}

} // verus!
