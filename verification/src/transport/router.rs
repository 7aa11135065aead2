//! Choosing between the transports, or racing them.

use vstd::prelude::*;

verus! {

/// Which transports are used.
#[derive(Debug, Clone, Copy, PartialEq, Eq, Structural)]
pub enum TransportMode {
    TcpOnly,
    IrohOnly,
    Auto,
}

impl Default for TransportMode {
    fn default() -> (r: Self)
        ensures
            r is TcpOnly,
    {
        TransportMode::TcpOnly
    }
}

/// A transport.
#[derive(Debug, Clone, Copy, PartialEq, Eq, Structural)]
pub enum Route {
    Tcp,
    Iroh,
}

impl Route {
    /// The other transport.
    pub open spec fn other_route(self) -> Route {
        match self {
            Route::Tcp => Route::Iroh,
            Route::Iroh => Route::Tcp,
        }
    }

    /// The other transport.
    pub fn other(&self) -> (r: Route)
        ensures
            r == self.other_route(),
    {
        match self {
            Route::Tcp => Route::Iroh,
            Route::Iroh => Route::Tcp,
        }
    }
}

/// How often connections were tried and made, and how long they took.
#[derive(Debug, Clone, Copy, PartialEq, Eq, Structural)]
pub struct TransportStats {
    pub tcp_attempts: u64,
    pub tcp_success: u64,
    pub iroh_attempts: u64,
    pub iroh_success: u64,
    pub auto_fallback_count: u64,
    pub total_latency_tcp_ms: u64,
    pub total_latency_iroh_ms: u64,
}

impl TransportStats {
    /// No more connections were made than were tried.
    pub open spec fn wf(self) -> bool {
        self.tcp_success <= self.tcp_attempts && self.iroh_success <= self.iroh_attempts
    }

    /// One more attempt through `route`, and the latency where it succeeded.
    pub open spec fn with_attempt(self, route: Route, latency_ms: Option<u64>) -> TransportStats {
        match route {
            Route::Tcp => TransportStats {
                tcp_attempts: (self.tcp_attempts + 1) as u64,
                tcp_success: (self.tcp_success + if latency_ms is Some {
                    1int
                } else {
                    0
                }) as u64,
                total_latency_tcp_ms: (self.total_latency_tcp_ms + match latency_ms {
                    Some(l) => l as int,
                    None => 0,
                }) as u64,
                ..self
            },
            Route::Iroh => TransportStats {
                iroh_attempts: (self.iroh_attempts + 1) as u64,
                iroh_success: (self.iroh_success + if latency_ms is Some {
                    1int
                } else {
                    0
                }) as u64,
                total_latency_iroh_ms: (self.total_latency_iroh_ms + match latency_ms {
                    Some(l) => l as int,
                    None => 0,
                }) as u64,
                ..self
            },
        }
    }
}

impl Default for TransportStats {
    fn default() -> (r: Self)
        ensures
            r.wf(),
            r == (TransportStats {
                tcp_attempts: 0,
                tcp_success: 0,
                iroh_attempts: 0,
                iroh_success: 0,
                auto_fallback_count: 0,
                total_latency_tcp_ms: 0,
                total_latency_iroh_ms: 0,
            }),
    {
        TransportStats {
            tcp_attempts: 0,
            tcp_success: 0,
            iroh_attempts: 0,
            iroh_success: 0,
            auto_fallback_count: 0,
            total_latency_tcp_ms: 0,
            total_latency_iroh_ms: 0,
        }
    }
}

/// Why a transport did not connect.
#[derive(Debug)]
pub enum RouteFailure {
    /// It is not there.
    NotConfigured,
    /// It failed, for the given reason.
    Failed(String),
}

/// What to do next.
#[derive(Debug)]
pub enum RouteStep {
    /// Connect through this transport.
    Try(Route),
    /// Connect through both; go on with the one that ends first.
    Race,
    /// Connected through this transport.
    Connected(Route),
    /// The only transport did not connect.
    Failed(Route, RouteFailure),
    /// Both did not connect, the first failure first.
    BothFailed(Route, RouteFailure, RouteFailure),
}

/// Where a connection stands.
#[derive(Debug)]
pub enum RouteState {
    /// Only this transport counts.
    Only(Route),
    /// Both are being tried.
    Racing,
    /// This transport is the last, the other one has failed.
    Last(Route, RouteFailure),
    /// Over.
    Ended,
}

/// Chooses the transport; the transports are elsewhere.
#[derive(Debug, Clone, Copy)]
pub struct TransportRouter {
    pub mode: TransportMode,
    pub has_tcp: bool,
    pub has_iroh: bool,
    pub stats: TransportStats,
}

impl TransportRouter {
    /// The counts are sound.
    pub open spec fn wf(self) -> bool {
        self.stats.wf()
    }

    /// Whether a transport is there.
    pub open spec fn has(self, route: Route) -> bool {
        match route {
            Route::Tcp => self.has_tcp,
            Route::Iroh => self.has_iroh,
        }
    }

    /// A router without transports.
    pub fn new(mode: TransportMode) -> (r: Self)
        ensures
            r.wf(),
            r == (TransportRouter {
                mode,
                has_tcp: false,
                has_iroh: false,
                stats: TransportStats {
                    tcp_attempts: 0,
                    tcp_success: 0,
                    iroh_attempts: 0,
                    iroh_success: 0,
                    auto_fallback_count: 0,
                    total_latency_tcp_ms: 0,
                    total_latency_iroh_ms: 0,
                },
            }),
    {
        TransportRouter { mode, has_tcp: false, has_iroh: false, stats: TransportStats::default() }
    }

    /// The same router with the TCP transport.
    pub fn with_tcp(self) -> (r: Self)
        ensures
            r == (TransportRouter { has_tcp: true, ..self }),
    {
        let mut s = self;
        s.has_tcp = true;
        s
    }

    /// The same router with the Iroh transport.
    pub fn with_iroh(self) -> (r: Self)
        ensures
            r == (TransportRouter { has_iroh: true, ..self }),
    {
        let mut s = self;
        s.has_iroh = true;
        s
    }

    /// The counts.
    pub fn stats(&self) -> (r: TransportStats)
        ensures
            r == self.stats,
    {
        self.stats
    }

    /// Counts an attempt through `route`, with its latency where it succeeded.
    pub fn connect_with(&mut self, route: Route, latency_ms: Option<u64>)
        requires
            old(self).wf(),
            route is Tcp ==> old(self).stats.tcp_attempts < u64::MAX,
            route is Iroh ==> old(self).stats.iroh_attempts < u64::MAX,
            route is Tcp && latency_ms is Some ==> old(self).stats.total_latency_tcp_ms
                + latency_ms->0 <= u64::MAX,
            route is Iroh && latency_ms is Some ==> old(self).stats.total_latency_iroh_ms
                + latency_ms->0 <= u64::MAX,
        ensures
            final(self).wf(),
            *final(self) == (TransportRouter {
                stats: old(self).stats.with_attempt(route, latency_ms),
                ..*old(self)
            }),
    {
        match route {
            Route::Iroh => {
                self.stats.iroh_attempts = self.stats.iroh_attempts + 1;
                if let Some(l) = latency_ms {
                    self.stats.iroh_success = self.stats.iroh_success + 1;
                    self.stats.total_latency_iroh_ms = self.stats.total_latency_iroh_ms + l;
                }
            },
            Route::Tcp => {
                self.stats.tcp_attempts = self.stats.tcp_attempts + 1;
                if let Some(l) = latency_ms {
                    self.stats.tcp_success = self.stats.tcp_success + 1;
                    self.stats.total_latency_tcp_ms = self.stats.total_latency_tcp_ms + l;
                }
            },
        }
    }

    /// How a connection begins.
    pub open spec fn beginning(self) -> (RouteState, RouteStep) {
        match self.mode {
            TransportMode::TcpOnly => self.only(Route::Tcp),
            TransportMode::IrohOnly => self.only(Route::Iroh),
            TransportMode::Auto => if self.has_tcp && self.has_iroh {
                (RouteState::Racing, RouteStep::Race)
            } else if self.has_tcp {
                (
                    RouteState::Last(Route::Tcp, RouteFailure::NotConfigured),
                    RouteStep::Try(Route::Tcp),
                )
            } else if self.has_iroh {
                (
                    RouteState::Last(Route::Iroh, RouteFailure::NotConfigured),
                    RouteStep::Try(Route::Iroh),
                )
            } else {
                (
                    RouteState::Ended,
                    RouteStep::BothFailed(
                        Route::Iroh,
                        RouteFailure::NotConfigured,
                        RouteFailure::NotConfigured,
                    ),
                )
            },
        }
    }

    /// How a connection begins where only one transport counts.
    pub open spec fn only(self, route: Route) -> (RouteState, RouteStep) {
        if self.has(route) {
            (RouteState::Only(route), RouteStep::Try(route))
        } else {
            (RouteState::Ended, RouteStep::Failed(route, RouteFailure::NotConfigured))
        }
    }

    /// Begins with one transport alone.
    fn begin_only(&self, route: Route) -> (r: (RouteState, RouteStep))
        ensures
            self.has(route) ==> r == (RouteState::Only(route), RouteStep::Try(route)),
            !self.has(route) ==> r == (
                RouteState::Ended,
                RouteStep::Failed(route, RouteFailure::NotConfigured),
            ),
    {
        let there = match route {
            Route::Tcp => self.has_tcp,
            Route::Iroh => self.has_iroh,
        };
        if there {
            (RouteState::Only(route), RouteStep::Try(route))
        } else {
            (RouteState::Ended, RouteStep::Failed(route, RouteFailure::NotConfigured))
        }
    }

    /// Begins a connection. One mode for each transport uses it alone. The third
    /// races both; where one is not there, it counts as failed at once and the
    /// other is the last.
    pub fn connect(&self) -> (r: (RouteState, RouteStep))
        ensures
            r == self.beginning(),
            self.mode is TcpOnly && self.has_tcp ==> r == (
                RouteState::Only(Route::Tcp),
                RouteStep::Try(Route::Tcp),
            ),
            self.mode is TcpOnly && !self.has_tcp ==> r == (
                RouteState::Ended,
                RouteStep::Failed(Route::Tcp, RouteFailure::NotConfigured),
            ),
            self.mode is IrohOnly && self.has_iroh ==> r == (
                RouteState::Only(Route::Iroh),
                RouteStep::Try(Route::Iroh),
            ),
            self.mode is IrohOnly && !self.has_iroh ==> r == (
                RouteState::Ended,
                RouteStep::Failed(Route::Iroh, RouteFailure::NotConfigured),
            ),
            self.mode is Auto && self.has_tcp && self.has_iroh ==> r == (
                RouteState::Racing,
                RouteStep::Race,
            ),
            self.mode is Auto && self.has_tcp && !self.has_iroh ==> r == (
                RouteState::Last(Route::Tcp, RouteFailure::NotConfigured),
                RouteStep::Try(Route::Tcp),
            ),
            self.mode is Auto && !self.has_tcp && self.has_iroh ==> r == (
                RouteState::Last(Route::Iroh, RouteFailure::NotConfigured),
                RouteStep::Try(Route::Iroh),
            ),
            self.mode is Auto && !self.has_tcp && !self.has_iroh ==> r == (
                RouteState::Ended,
                RouteStep::BothFailed(
                    Route::Iroh,
                    RouteFailure::NotConfigured,
                    RouteFailure::NotConfigured,
                ),
            ),
    {
        match self.mode {
            TransportMode::TcpOnly => self.begin_only(Route::Tcp),
            TransportMode::IrohOnly => self.begin_only(Route::Iroh),
            TransportMode::Auto => {
                if self.has_iroh && self.has_tcp {
                    (RouteState::Racing, RouteStep::Race)
                } else if self.has_tcp {
                    (
                        RouteState::Last(Route::Tcp, RouteFailure::NotConfigured),
                        RouteStep::Try(Route::Tcp),
                    )
                } else if self.has_iroh {
                    (
                        RouteState::Last(Route::Iroh, RouteFailure::NotConfigured),
                        RouteStep::Try(Route::Iroh),
                    )
                } else {
                    (
                        RouteState::Ended,
                        RouteStep::BothFailed(
                            Route::Iroh,
                            RouteFailure::NotConfigured,
                            RouteFailure::NotConfigured,
                        ),
                    )
                }
            },
        }
    }
}

/// What follows once a transport connected, or failed for the given reason.
pub open spec fn route_after(state: RouteState, route: Route, failure: Option<String>) -> (
    RouteState,
    RouteStep,
) {
    match failure {
        None => (RouteState::Ended, RouteStep::Connected(route)),
        Some(e) => match state {
            RouteState::Only(_) => (
                RouteState::Ended,
                RouteStep::Failed(route, RouteFailure::Failed(e)),
            ),
            RouteState::Racing => (
                RouteState::Last(route.other_route(), RouteFailure::Failed(e)),
                RouteStep::Try(route.other_route()),
            ),
            RouteState::Last(_, first) => (
                RouteState::Ended,
                RouteStep::BothFailed(route.other_route(), first, RouteFailure::Failed(e)),
            ),
            RouteState::Ended => (RouteState::Ended, RouteStep::Connected(route)),
        },
    }
}

/// A race connects through the transport that ends first, if it connects; else
/// through the other one, if that does; and reports both failures otherwise.
pub proof fn lemma_race_finds_a_way(first: Route, f1: Option<String>, f2: Option<String>)
    ensures
        ({
            let a = route_after(RouteState::Racing, first, f1);
            let b = route_after(a.0, first.other_route(), f2);
            &&& f1 is None ==> a.1 == RouteStep::Connected(first)
            &&& f1 is Some ==> a.1 == RouteStep::Try(first.other_route())
            &&& f1 is Some && f2 is None ==> b.1 == RouteStep::Connected(first.other_route())
            &&& f1 is Some && f2 is Some ==> b.1 == RouteStep::BothFailed(
                first,
                RouteFailure::Failed(f1->0),
                RouteFailure::Failed(f2->0),
            )
        }),
{
}

impl RouteState {
    /// A transport ended: it connected, or it failed for the given reason. The
    /// first to fail in a race is followed by the other one; where that fails
    /// too, both failures are reported.
    pub fn on_end(self, route: Route, failure: Option<String>) -> (r: (RouteState, RouteStep))
        requires
            match self {
                RouteState::Only(x) => x == route,
                RouteState::Racing => true,
                RouteState::Last(x, _) => x == route,
                RouteState::Ended => false,
            },
        ensures
            r == route_after(self, route, failure),
    {
        match failure {
            None => (RouteState::Ended, RouteStep::Connected(route)),
            Some(e) => match self {
                RouteState::Only(_) => (
                    RouteState::Ended,
                    RouteStep::Failed(route, RouteFailure::Failed(e)),
                ),
                RouteState::Racing => (
                    RouteState::Last(route.other(), RouteFailure::Failed(e)),
                    RouteStep::Try(route.other()),
                ),
                RouteState::Last(_, first) => (
                    RouteState::Ended,
                    RouteStep::BothFailed(route.other(), first, RouteFailure::Failed(e)),
                ),
                RouteState::Ended => (RouteState::Ended, RouteStep::Connected(route)),
            },
        }
    }
}

/// What starting the transports leads to.
#[derive(Debug, Clone, Copy, PartialEq, Eq, Structural)]
pub enum StartVerdict {
    /// Go on.
    Continue,
    /// The start has failed.
    Abort,
}

/// What a failed start of a transport means: TCP is needed, Iroh is not.
pub fn on_transport_start(route: Route, ok: bool) -> (r: StartVerdict)
    ensures
        r == start_verdict(route, ok),
        r == if !ok && route is Tcp {
            StartVerdict::Abort
        } else {
            StartVerdict::Continue
        },
{
    if ok {
        return StartVerdict::Continue;
    }
    match route {
        Route::Tcp => StartVerdict::Abort,
        Route::Iroh => StartVerdict::Continue,
    }
}

/// Counting an attempt keeps the counts sound and touches only its transport.
pub proof fn lemma_attempt_counts_one_route(
    s: TransportStats,
    route: Route,
    latency_ms: Option<u64>,
)
    requires
        s.wf(),
        s.tcp_attempts < u64::MAX,
        s.iroh_attempts < u64::MAX,
    ensures
        s.with_attempt(route, latency_ms).wf(),
        route is Tcp ==> s.with_attempt(route, latency_ms).iroh_attempts == s.iroh_attempts
            && s.with_attempt(route, latency_ms).tcp_attempts == s.tcp_attempts + 1,
        route is Iroh ==> s.with_attempt(route, latency_ms).tcp_attempts == s.tcp_attempts
            && s.with_attempt(route, latency_ms).iroh_attempts == s.iroh_attempts + 1,
{
}

/// Which transport is used first: with one transport alone that one or none, never the
/// other; in the automatic mode both at once where both are there, the one that is there
/// where only one is, and none where none is.
pub proof fn lemma_first_route(router: TransportRouter)
    ensures
        router.mode is TcpOnly && router.has_tcp ==> router.beginning().1 == RouteStep::Try(
            Route::Tcp,
        ),
        router.mode is IrohOnly && router.has_iroh ==> router.beginning().1 == RouteStep::Try(
            Route::Iroh,
        ),
        router.mode is TcpOnly && !router.has_tcp ==> router.beginning().1 == RouteStep::Failed(
            Route::Tcp,
            RouteFailure::NotConfigured,
        ),
        router.mode is IrohOnly && !router.has_iroh ==> router.beginning().1 == RouteStep::Failed(
            Route::Iroh,
            RouteFailure::NotConfigured,
        ),
        router.mode is Auto ==> (router.beginning().1 is Race <==> router.has_tcp
            && router.has_iroh),
        router.mode is Auto && router.has_tcp && !router.has_iroh ==> router.beginning().1
            == RouteStep::Try(Route::Tcp),
        router.mode is Auto && !router.has_tcp && router.has_iroh ==> router.beginning().1
            == RouteStep::Try(Route::Iroh),
        router.mode is Auto && !router.has_tcp && !router.has_iroh ==> router.beginning().1
            is BothFailed,
{
}

/// Where only one transport counts its failure is the end, and is reported with its
/// reason; with the other one missing, both are reported.
pub proof fn lemma_single_route_failure(router: TransportRouter, route: Route, e: String)
    requires
        router.beginning().1 == RouteStep::Try(route),
    ensures
        !(router.mode is Auto) ==> route_after(router.beginning().0, route, Some(e)).1
            == RouteStep::Failed(route, RouteFailure::Failed(e)),
        router.mode is Auto ==> route_after(router.beginning().0, route, Some(e)).1
            == RouteStep::BothFailed(
            route.other_route(),
            RouteFailure::NotConfigured,
            RouteFailure::Failed(e),
        ),
        route_after(router.beginning().0, route, None).1 == RouteStep::Connected(route),
        route is Tcp <==> route.other_route() is Iroh,
{
}

/// An attempt that succeeded counts as a success of its route with its latency; one that
/// failed counts as an attempt alone.
pub proof fn lemma_attempts_and_latencies(s: TransportStats, latency_ms: u64)
    requires
        s.wf(),
        s.tcp_attempts < u64::MAX,
        s.iroh_attempts < u64::MAX,
        s.total_latency_tcp_ms + latency_ms <= u64::MAX,
        s.total_latency_iroh_ms + latency_ms <= u64::MAX,
    ensures
        ({
            let t = s.with_attempt(Route::Tcp, Some(latency_ms));
            let i = s.with_attempt(Route::Iroh, Some(latency_ms));
            let ft = s.with_attempt(Route::Tcp, None);
            let fi = s.with_attempt(Route::Iroh, None);
            &&& t.tcp_success == s.tcp_success + 1 && t.total_latency_tcp_ms
                == s.total_latency_tcp_ms + latency_ms
            &&& t.iroh_success == s.iroh_success && t.total_latency_iroh_ms
                == s.total_latency_iroh_ms
            &&& i.iroh_success == s.iroh_success + 1 && i.total_latency_iroh_ms
                == s.total_latency_iroh_ms + latency_ms
            &&& i.tcp_success == s.tcp_success && i.total_latency_tcp_ms == s.total_latency_tcp_ms
            &&& ft.tcp_success == s.tcp_success && ft.total_latency_tcp_ms == s.total_latency_tcp_ms
                && ft.tcp_attempts == s.tcp_attempts + 1
            &&& fi.iroh_success == s.iroh_success && fi.total_latency_iroh_ms
                == s.total_latency_iroh_ms && fi.iroh_attempts == s.iroh_attempts + 1
            &&& t.auto_fallback_count == s.auto_fallback_count && i.auto_fallback_count
                == s.auto_fallback_count
        }),
{
}

/// Whether the start goes on after a transport was started or was not.
pub open spec fn start_verdict(route: Route, ok: bool) -> StartVerdict {
    if !ok && route is Tcp {
        StartVerdict::Abort
    } else {
        StartVerdict::Continue
    }
}

/// Only where TCP does not start is the start given up.
pub proof fn lemma_only_tcp_is_needed(route: Route, ok: bool)
    ensures
        start_verdict(route, true) is Continue,
        start_verdict(Route::Iroh, ok) is Continue,
        start_verdict(Route::Tcp, false) is Abort,
{
}

/// Where no transport is there, both are reported as not configured.
pub proof fn lemma_no_transport(router: TransportRouter)
    requires
        router.mode is Auto,
        !router.has_tcp,
        !router.has_iroh,
    ensures
        router.beginning().0 is Ended,
        router.beginning().1 == RouteStep::BothFailed(
            Route::Iroh,
            RouteFailure::NotConfigured,
            RouteFailure::NotConfigured,
        ),
{
}

/// In counts that are in order no transport succeeded more often than it was tried.
pub proof fn lemma_successes_are_tries(s: TransportStats)
    requires
        s.wf(),
    ensures
        s.tcp_success <= s.tcp_attempts,
        s.iroh_success <= s.iroh_attempts,
{
}

} // verus!
