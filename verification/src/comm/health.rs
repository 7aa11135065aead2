//! How well a component is.

use vstd::prelude::*;

use crate::time::{is_secs_since, secs_since};

verus! {

/// How well something is.
#[derive(Debug, Clone, Copy, PartialEq, Eq, Structural)]
pub enum HealthStatus {
    Healthy,
    Degraded,
    Down,
}

/// How well something that the component needs is.
#[derive(Debug)]
pub struct DependencyHealth {
    pub name: String,
    pub status: HealthStatus,
    pub message: Option<String>,
}

/// How well the component is.
#[derive(Debug)]
pub struct HealthResponse {
    pub status: HealthStatus,
    pub version: String,
    /// Seconds since it was started.
    pub uptime: u64,
    pub dependencies: Vec<DependencyHealth>,
}

/// Collects how well what the component needs is.
#[derive(Debug)]
pub struct HealthBuilder {
    pub version: String,
    pub started_at: std::time::Instant,
    pub dependencies: Vec<DependencyHealth>,
}

/// The worst of the states: down where anything is, else degraded where anything
/// is, else well.
pub open spec fn overall(deps: Seq<DependencyHealth>) -> HealthStatus {
    if exists|i: int| 0 <= i < deps.len() && (#[trigger] deps[i]).status is Down {
        HealthStatus::Down
    } else if exists|i: int| 0 <= i < deps.len() && (#[trigger] deps[i]).status is Degraded {
        HealthStatus::Degraded
    } else {
        HealthStatus::Healthy
    }
}

impl DependencyHealth {
    /// Whether two say the same.
    pub open spec fn same(self, other: DependencyHealth) -> bool {
        &&& self.name@ == other.name@
        &&& self.status == other.status
        &&& match (self.message, other.message) {
            (Some(a), Some(b)) => a@ == b@,
            (None, None) => true,
            _ => false,
        }
    }

    /// A copy.
    pub fn copied(&self) -> (r: Self)
        ensures
            r.same(*self),
    {
        DependencyHealth {
            name: self.name.clone(),
            status: self.status,
            message: match &self.message {
                Some(m) => Some(m.clone()),
                None => None,
            },
        }
    }
}

impl HealthBuilder {
    /// A component of the given version that needs nothing.
    pub fn new(version: String) -> (r: Self)
        ensures
            r.version == version,
            r.dependencies@.len() == 0,
    {
        HealthBuilder {
            version,
            started_at: std::time::Instant::now(),
            dependencies: Vec::new(),
        }
    }

    /// Adds something that is well.
    pub fn dependency_ok(self, name: String) -> (r: Self)
        ensures
            overall(r.dependencies@) == overall(self.dependencies@),
            r.version == self.version,
            r.started_at == self.started_at,
            r.dependencies@ == self.dependencies@.push(
                DependencyHealth { name, status: HealthStatus::Healthy, message: None },
            ),
    {
        let mut s = self;
        s.dependencies.push(DependencyHealth { name, status: HealthStatus::Healthy, message: None });
        proof {
            lemma_the_worst_counts(self.dependencies@, s.dependencies@.last());
        }
        s
    }

    /// Adds something that works in part.
    pub fn dependency_degraded(self, name: String, msg: String) -> (r: Self)
        ensures
            overall(r.dependencies@) == worse(overall(self.dependencies@), HealthStatus::Degraded),
            r.version == self.version,
            r.started_at == self.started_at,
            r.dependencies@ == self.dependencies@.push(
                DependencyHealth { name, status: HealthStatus::Degraded, message: Some(msg) },
            ),
    {
        let mut s = self;
        s.dependencies.push(
            DependencyHealth { name, status: HealthStatus::Degraded, message: Some(msg) },
        );
        proof {
            lemma_the_worst_counts(self.dependencies@, s.dependencies@.last());
        }
        s
    }

    /// Adds something that does not work.
    pub fn dependency_down(self, name: String, msg: String) -> (r: Self)
        ensures
            overall(r.dependencies@) is Down,
            r.version == self.version,
            r.started_at == self.started_at,
            r.dependencies@ == self.dependencies@.push(
                DependencyHealth { name, status: HealthStatus::Down, message: Some(msg) },
            ),
    {
        let mut s = self;
        s.dependencies.push(
            DependencyHealth { name, status: HealthStatus::Down, message: Some(msg) },
        );
        proof {
            lemma_the_worst_counts(self.dependencies@, s.dependencies@.last());
        }
        s
    }

    /// How well the component is after it ran for so many seconds.
    pub fn build_at(&self, uptime: u64) -> (r: HealthResponse)
        ensures
            r.status == overall(self.dependencies@),
            r.version@ == self.version@,
            r.uptime == uptime,
            r.dependencies@.len() == self.dependencies@.len(),
            forall|i: int|
                0 <= i < r.dependencies@.len() ==> (#[trigger] r.dependencies@[i]).same(
                    self.dependencies@[i],
                ),
    {
        let mut down: bool = false;
        let mut degraded: bool = false;
        let mut deps: Vec<DependencyHealth> = Vec::new();
        let mut i: usize = 0;
        while i < self.dependencies.len()
            invariant
                i <= self.dependencies@.len(),
                deps@.len() == i,
                forall|j: int| 0 <= j < i ==> (#[trigger] deps@[j]).same(self.dependencies@[j]),
                down == exists|j: int|
                    0 <= j < i && (#[trigger] self.dependencies@[j]).status is Down,
                degraded == exists|j: int|
                    0 <= j < i && (#[trigger] self.dependencies@[j]).status is Degraded,
            decreases self.dependencies@.len() - i,
        {
            let ghost k = i as int;
            match self.dependencies[i].status {
                HealthStatus::Down => {
                    down = true;
                    assert(self.dependencies@[k].status is Down);
                },
                HealthStatus::Degraded => {
                    degraded = true;
                    assert(self.dependencies@[k].status is Degraded);
                },
                HealthStatus::Healthy => {},
            }
            deps.push(self.dependencies[i].copied());
            i = i + 1;
        }
        let status = if down {
            HealthStatus::Down
        } else if degraded {
            HealthStatus::Degraded
        } else {
            HealthStatus::Healthy
        };
        HealthResponse { status, version: self.version.clone(), uptime, dependencies: deps }
    }

    /// How well the component is now.
    pub fn build(&self) -> (r: HealthResponse)
        ensures
            r.status == overall(self.dependencies@),
            r.version@ == self.version@,
            is_secs_since(r.uptime, self.started_at),
            r.dependencies@.len() == self.dependencies@.len(),
            forall|i: int|
                0 <= i < r.dependencies@.len() ==> (#[trigger] r.dependencies@[i]).same(
                    self.dependencies@[i],
                ),
    {
        let uptime: u64 = secs_since(&self.started_at);
        self.build_at(uptime)
    }
}

/// A component is well exactly where everything that it needs is.
pub proof fn lemma_ok_means_all_ok(deps: Seq<DependencyHealth>)
    ensures
        overall(deps) is Healthy <==> forall|i: int|
            0 <= i < deps.len() ==> (#[trigger] deps[i]).status is Healthy,
{
    if forall|i: int| 0 <= i < deps.len() ==> (#[trigger] deps[i]).status is Healthy {
        assert forall|i: int| 0 <= i < deps.len() implies !((#[trigger] deps[i]).status is Down)
            && !(deps[i].status is Degraded) by {
            assert(deps[i].status is Healthy);
        }
    }
}

/// What the answer of a readiness check is: status 200 and `ready`, or status 503
/// and `not_ready`.
pub fn ready_answer(ready: bool) -> (r: (u16, &'static str))
    ensures
        r.0 == ready_status(ready),
        ready ==> r.0 == 200 && r.1@ == "ready"@,
        !ready ==> r.0 == 503 && r.1@ == "not_ready"@,
{
    if ready {
        (200, "ready")
    } else {
        (503, "not_ready")
    }
}

/// The worse of two states.
pub open spec fn worse(a: HealthStatus, b: HealthStatus) -> HealthStatus {
    if a is Down || b is Down {
        HealthStatus::Down
    } else if a is Degraded || b is Degraded {
        HealthStatus::Degraded
    } else {
        HealthStatus::Healthy
    }
}

/// The HTTP status of the answer on whether the application is ready.
pub open spec fn ready_status(ready: bool) -> u16 {
    if ready {
        200
    } else {
        503
    }
}

/// Only a ready application answers with success; another says that it is unavailable.
pub proof fn lemma_ready_status(ready: bool)
    ensures
        200 <= ready_status(ready) < 300 <==> ready,
        !ready ==> ready_status(ready) == 503,
        ready ==> ready_status(ready) == 200,
{
}

/// One more dependency makes the whole as bad as the worse of the two, and never better.
pub proof fn lemma_the_worst_counts(deps: Seq<DependencyHealth>, d: DependencyHealth)
    ensures
        overall(deps.push(d)) == worse(overall(deps), d.status),
        d.status is Down ==> overall(deps.push(d)) is Down,
        d.status is Healthy ==> overall(deps.push(d)) == overall(deps),
        overall(deps) is Down ==> overall(deps.push(d)) is Down,
        overall(Seq::empty()) is Healthy,
{
    let all = deps.push(d);
    assert(all[deps.len() as int] == d);
    assert forall|i: int| 0 <= i < deps.len() implies #[trigger] deps[i] == all[i] by {}
}

/// The whole is down exactly where some dependency is, and degraded exactly where none is
/// down and some is degraded.
pub proof fn lemma_when_down_or_degraded(deps: Seq<DependencyHealth>)
    ensures
        overall(deps) is Down <==> exists|i: int|
            0 <= i < deps.len() && (#[trigger] deps[i]).status is Down,
        overall(deps) is Degraded <==> (forall|i: int|
            0 <= i < deps.len() ==> !((#[trigger] deps[i]).status is Down)) && (exists|i: int|
            0 <= i < deps.len() && (#[trigger] deps[i]).status is Degraded),
{
}

/// What was copied has the name, the state and the message of what it was copied from.
pub proof fn lemma_same_dependency(a: DependencyHealth, b: DependencyHealth)
    requires
        a.same(b),
    ensures
        a.name@ == b.name@ && a.status == b.status,
        a.message is Some <==> b.message is Some,
        a.message is Some ==> a.message->0@ == b.message->0@,
{
}

} // verus!
