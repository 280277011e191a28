//! Plain options and enumerations handed to the engine with declarations,
//! publications and queries.

use vstd::prelude::*;

verus! {

/// Whether a sample writes or deletes.
#[derive(Debug, Clone, Copy, PartialEq, Eq, Structural)]
pub enum SampleKind {
    Put,
    Delete,
}

/// What happens to a publication when the network is congested.
#[derive(Debug, Clone, Copy, PartialEq, Eq, Structural)]
pub enum CongestionControl {
    Drop,
    Block,
}

/// Routing priority of a publication, most urgent first.
#[derive(Debug, Clone, Copy, PartialEq, Eq, Structural)]
pub enum Priority {
    RealTime,
    InteractiveHigh,
    InteractiveLow,
    DataHigh,
    Data,
    DataLow,
    Background,
}

/// Delivery guarantee asked for by a subscription.
#[derive(Debug, Clone, Copy, PartialEq, Eq, Structural)]
pub enum Reliability {
    BestEffort,
    Reliable,
}

/// Whether samples are pushed to a subscriber or pulled by it.
#[derive(Debug, Clone, Copy, PartialEq, Eq, Structural)]
pub enum SubMode {
    Push,
    Pull,
}

/// A time period for periodic subscriptions.
#[derive(Debug, Clone, Copy, PartialEq, Eq, Structural)]
pub struct Period {
    pub origin: u64,
    pub period: u64,
    pub duration: u64,
}

impl Period {
    pub fn new(origin: u64, period: u64, duration: u64) -> (r: Period)
        ensures
            r == (Period { origin, period, duration }),
    {
        Period { origin, period, duration }
    }
}

/// Which queryables a query reaches.
#[derive(Debug, Clone, Copy, PartialEq, Eq, Structural)]
pub enum QueryTarget {
    BestMatching,
    All,
    AllComplete,
    /// No queryable at all.
    No,
    /// The given number of complete queryables.
    Complete(u64),
}

/// How replies are merged at one stage of their routing path.
#[derive(Debug, Clone, Copy, PartialEq, Eq, Structural)]
pub enum ConsolidationMode {
    /// No merging.
    No,
    Lazy,
    Full,
}

/// The strategy with the given first-routers, last-router and reception stages.
pub open spec fn stages(
    f: ConsolidationMode,
    l: ConsolidationMode,
    r: ConsolidationMode,
) -> ConsolidationStrategy {
    ConsolidationStrategy { first_routers: f, last_router: l, reception: r }
}

/// The consolidation applied at each of the three stages of the reply path.
#[derive(Debug, Clone, Copy, PartialEq, Eq, Structural)]
pub struct ConsolidationStrategy {
    pub first_routers: ConsolidationMode,
    pub last_router: ConsolidationMode,
    pub reception: ConsolidationMode,
}

impl ConsolidationStrategy {
    /// A strategy with the given stages; a stage left out defaults to
    /// `Lazy` on the first routers and the last router, and to `Full` at
    /// reception.
    pub fn new(
        first_routers: Option<ConsolidationMode>,
        last_router: Option<ConsolidationMode>,
        reception: Option<ConsolidationMode>,
    ) -> (r: ConsolidationStrategy)
        ensures
            r.first_routers == match first_routers {
                Some(m) => m,
                None => ConsolidationMode::Lazy,
            },
            r.last_router == match last_router {
                Some(m) => m,
                None => ConsolidationMode::Lazy,
            },
            r.reception == match reception {
                Some(m) => m,
                None => ConsolidationMode::Full,
            },
    {
        let mut c = ConsolidationStrategy {
            first_routers: ConsolidationMode::Lazy,
            last_router: ConsolidationMode::Lazy,
            reception: ConsolidationMode::Full,
        };
        if let Some(f) = first_routers {
            c.first_routers = f;
        }
        if let Some(l) = last_router {
            c.last_router = l;
        }
        if let Some(m) = reception {
            c.reception = m;
        }
        c
    }

    /// No consolidation at any stage.
    pub fn none() -> (r: ConsolidationStrategy)
        ensures
            r == (ConsolidationStrategy {
                first_routers: ConsolidationMode::No,
                last_router: ConsolidationMode::No,
                reception: ConsolidationMode::No,
            }),
    {
        ConsolidationStrategy {
            first_routers: ConsolidationMode::No,
            last_router: ConsolidationMode::No,
            reception: ConsolidationMode::No,
        }
    }

    /// Lazy consolidation at every stage.
    pub fn lazy() -> (r: ConsolidationStrategy)
        ensures
            r == (ConsolidationStrategy {
                first_routers: ConsolidationMode::Lazy,
                last_router: ConsolidationMode::Lazy,
                reception: ConsolidationMode::Lazy,
            }),
    {
        ConsolidationStrategy {
            first_routers: ConsolidationMode::Lazy,
            last_router: ConsolidationMode::Lazy,
            reception: ConsolidationMode::Lazy,
        }
    }

    /// Full consolidation at reception only.
    pub fn reception() -> (r: ConsolidationStrategy)
        ensures
            r == (ConsolidationStrategy {
                first_routers: ConsolidationMode::No,
                last_router: ConsolidationMode::No,
                reception: ConsolidationMode::Full,
            }),
    {
        ConsolidationStrategy {
            first_routers: ConsolidationMode::No,
            last_router: ConsolidationMode::No,
            reception: ConsolidationMode::Full,
        }
    }

    /// Full consolidation on the last router and at reception.
    pub fn last_router() -> (r: ConsolidationStrategy)
        ensures
            r == (ConsolidationStrategy {
                first_routers: ConsolidationMode::No,
                last_router: ConsolidationMode::Full,
                reception: ConsolidationMode::Full,
            }),
    {
        ConsolidationStrategy {
            first_routers: ConsolidationMode::No,
            last_router: ConsolidationMode::Full,
            reception: ConsolidationMode::Full,
        }
    }

    /// Full consolidation everywhere.
    pub fn full() -> (r: ConsolidationStrategy)
        ensures
            r == (ConsolidationStrategy {
                first_routers: ConsolidationMode::Full,
                last_router: ConsolidationMode::Full,
                reception: ConsolidationMode::Full,
            }),
    {
        ConsolidationStrategy {
            first_routers: ConsolidationMode::Full,
            last_router: ConsolidationMode::Full,
            reception: ConsolidationMode::Full,
        }
    }
}

/// The consolidation of a query: chosen by the engine, or given.
#[derive(Debug, Clone, Copy, PartialEq, Eq, Structural)]
pub enum QueryConsolidation {
    /// The engine chooses: none for time-range selections, else `reception`.
    Auto,
    Manual(ConsolidationStrategy),
}

impl QueryConsolidation {
    pub fn none() -> (r: QueryConsolidation)
        ensures
            r == QueryConsolidation::Manual(
                stages(ConsolidationMode::No, ConsolidationMode::No, ConsolidationMode::No),
            ),
    {
        QueryConsolidation::Manual(ConsolidationStrategy::none())
    }

    pub fn lazy() -> (r: QueryConsolidation)
        ensures
            r == QueryConsolidation::Manual(
                stages(ConsolidationMode::Lazy, ConsolidationMode::Lazy, ConsolidationMode::Lazy),
            ),
    {
        QueryConsolidation::Manual(ConsolidationStrategy::lazy())
    }

    pub fn reception() -> (r: QueryConsolidation)
        ensures
            r == QueryConsolidation::Manual(
                stages(ConsolidationMode::No, ConsolidationMode::No, ConsolidationMode::Full),
            ),
    {
        QueryConsolidation::Manual(ConsolidationStrategy::reception())
    }

    pub fn last_router() -> (r: QueryConsolidation)
        ensures
            r == QueryConsolidation::Manual(
                stages(ConsolidationMode::No, ConsolidationMode::Full, ConsolidationMode::Full),
            ),
    {
        QueryConsolidation::Manual(ConsolidationStrategy::last_router())
    }

    pub fn full() -> (r: QueryConsolidation)
        ensures
            r == QueryConsolidation::Manual(
                stages(ConsolidationMode::Full, ConsolidationMode::Full, ConsolidationMode::Full),
            ),
    {
        QueryConsolidation::Manual(ConsolidationStrategy::full())
    }
}

/// A set of process roles, as matched by scouting.
#[derive(Debug, Clone, Copy, PartialEq, Eq, Structural)]
pub struct WhatAmI {
    pub router: bool,
    pub peer: bool,
    pub client: bool,
}

#[allow(non_snake_case)]
impl WhatAmI {
    pub fn Router() -> (r: WhatAmI)
        ensures
            r == (WhatAmI { router: true, peer: false, client: false }),
    {
        WhatAmI { router: true, peer: false, client: false }
    }

    pub fn Peer() -> (r: WhatAmI)
        ensures
            r == (WhatAmI { router: false, peer: true, client: false }),
    {
        WhatAmI { router: false, peer: true, client: false }
    }

    pub fn Client() -> (r: WhatAmI)
        ensures
            r == (WhatAmI { router: false, peer: false, client: true }),
    {
        WhatAmI { router: false, peer: false, client: true }
    }

    /// The roles of both sets.
    pub fn bitor(self, rhs: WhatAmI) -> (r: WhatAmI)
        ensures
            r == (WhatAmI {
                router: self.router || rhs.router,
                peer: self.peer || rhs.peer,
                client: self.client || rhs.client,
            }),
    {
        WhatAmI {
            router: self.router || rhs.router,
            peer: self.peer || rhs.peer,
            client: self.client || rhs.client,
        }
    }
}

} // verus!
