//! The registry of mapping providers, and the record of one mapping operation.

use vstd::prelude::*;

use crate::text::{same_text, texts};
use crate::time::{current_unix_secs, is_millis_since, is_unix_secs, millis_since};
use crate::traversal::NatProtocol;

verus! {

/// What the registry knows of a provider.
#[derive(Debug)]
pub struct ProviderInfo {
    /// Its name, by which it is found again.
    pub name: String,
    /// The protocol that it speaks.
    pub protocol: NatProtocol,
    /// Its priority: the smaller the number, the earlier it is tried.
    pub priority: u8,
}

/// The providers, in the order in which they are tried.
#[derive(Debug)]
pub struct ProviderRegistry {
    pub providers: Vec<ProviderInfo>,
}

/// Whether a provider of that name is among `ps`.
pub open spec fn has_name(ps: Seq<ProviderInfo>, name: Seq<char>) -> bool {
    exists|i: int| 0 <= i < ps.len() && (#[trigger] ps[i]).name@ == name
}

/// Where a provider of that priority goes: before the first with a larger number.
pub open spec fn slot(ps: Seq<ProviderInfo>, priority: u8) -> int
    decreases ps.len(),
{
    if ps.len() == 0 || ps[0].priority > priority {
        0
    } else {
        1 + slot(ps.drop_first(), priority)
    }
}

/// A provider is put behind all that come before it or are of the same priority, and in
/// front of all others.
pub proof fn lemma_slot(ps: Seq<ProviderInfo>, priority: u8)
    ensures
        0 <= slot(ps, priority) <= ps.len(),
        slot(ps, priority) < ps.len() ==> ps[slot(ps, priority)].priority > priority,
        forall|i: int| 0 <= i < slot(ps, priority) ==> (#[trigger] ps[i]).priority <= priority,
    decreases ps.len(),
{
    if ps.len() > 0 && ps[0].priority <= priority {
        let d = ps.drop_first();
        lemma_slot(d, priority);
        assert forall|i: int| 0 <= i < slot(ps, priority) implies (#[trigger] ps[i]).priority
            <= priority by {
            if i > 0 {
                assert(d[i - 1] == ps[i]);
            }
        }
    }
}

impl ProviderRegistry {
    /// No name occurs twice, and no provider stands before one of a smaller
    /// priority number.
    pub open spec fn wf(self) -> bool {
        &&& forall|i: int, j: int|
            0 <= i < j < self.providers@.len() ==> (#[trigger] self.providers@[i]).name@ != (
            #[trigger] self.providers@[j]).name@
        &&& forall|i: int, j: int|
            0 <= i < j < self.providers@.len() ==> (#[trigger] self.providers@[i]).priority <= (
            #[trigger] self.providers@[j]).priority
    }

    /// A registry without providers.
    pub fn new() -> (r: Self)
        ensures
            r.wf(),
            r.providers@.len() == 0,
    {
        ProviderRegistry { providers: Vec::new() }
    }

    /// The position of the provider of that name.
    fn position(&self, name: &str) -> (r: Option<usize>)
        ensures
            match r {
                Some(i) => i < self.providers@.len() && self.providers@[i as int].name@ == name@
                    && forall|j: int|
                    0 <= j < i ==> (#[trigger] self.providers@[j]).name@ != name@,
                None => !has_name(self.providers@, name@),
            },
    {
        let mut i: usize = 0;
        while i < self.providers.len()
            invariant
                i <= self.providers@.len(),
                forall|j: int| 0 <= j < i ==> (#[trigger] self.providers@[j]).name@ != name@,
            decreases self.providers@.len() - i,
        {
            if same_text(self.providers[i].name.as_str(), name) {
                return Some(i);
            }
            i = i + 1;
        }
        None
    }

    /// Adds a provider before the first one with a larger priority number. One
    /// whose name is taken is left out.
    pub fn register(&mut self, provider: ProviderInfo)
        requires
            old(self).wf(),
        ensures
            final(self).providers@ == registered(old(self).providers@, provider),
            final(self).wf(),
            has_name(old(self).providers@, provider.name@) ==> *final(self) == *old(self),
            !has_name(old(self).providers@, provider.name@) ==> final(self).providers@
                == old(self).providers@.insert(
                slot(old(self).providers@, provider.priority),
                provider,
            ),
    {
        if self.position(provider.name.as_str()).is_some() {
            return;
        }
        let ghost ps = self.providers@;
        let mut i: usize = 0;
        proof {
            assert(ps.skip(0) =~= ps);
        }
        while i < self.providers.len() && self.providers[i].priority <= provider.priority
            invariant
                ps == self.providers@,
                i <= ps.len(),
                slot(ps, provider.priority) == i + slot(ps.skip(i as int), provider.priority),
            decreases ps.len() - i,
        {
            proof {
                assert(ps.skip(i as int).drop_first() =~= ps.skip(i + 1));
            }
            i = i + 1;
        }
        let ghost p = provider;
        self.providers.insert(i, provider);
        proof {
            lemma_slot(ps, p.priority);
            let qs = self.providers@;
            assert forall|a: int, b: int| 0 <= a < b < qs.len() implies (#[trigger] qs[a]).name@
                != (#[trigger] qs[b]).name@ && qs[a].priority <= qs[b].priority by {
                let a0 = if a < i { a } else { a - 1 };
                let b0 = if b < i { b } else { b - 1 };
                if a != i {
                    assert(qs[a] == ps[a0]);
                }
                if b != i {
                    assert(qs[b] == ps[b0]);
                }
                if a == i && b0 > i {
                    assert(ps[i as int].priority <= ps[b0].priority);
                }
            }
        }
    }

    /// Takes the provider of that name out.
    pub fn unregister(&mut self, name: &str) -> (r: Option<ProviderInfo>)
        requires
            old(self).wf(),
        ensures
            final(self).wf(),
            !has_name(final(self).providers@, name@),
            match r {
                Some(p) => exists|i: int|
                    0 <= i < old(self).providers@.len() && p == old(self).providers@[i]
                        && p.name@ == name@ && final(self).providers@
                        == old(self).providers@.remove(i),
                None => !has_name(old(self).providers@, name@) && *final(self) == *old(self),
            },
    {
        match self.position(name) {
            Some(i) => {
                let ghost ps = self.providers@;
                let p = self.providers.remove(i);
                proof {
                    let qs = self.providers@;
                    assert(p == ps[i as int] && qs == ps.remove(i as int));
                    assert forall|a: int, b: int|
                        0 <= a < b < qs.len() implies (#[trigger] qs[a]).name@ != (
                    #[trigger] qs[b]).name@ && qs[a].priority <= qs[b].priority by {
                        let a0 = if a < i { a } else { a + 1 };
                        let b0 = if b < i { b } else { b + 1 };
                        assert(qs[a] == ps[a0] && qs[b] == ps[b0]);
                    }
                    assert forall|a: int| 0 <= a < qs.len() implies (#[trigger] qs[a]).name@
                        != name@ by {
                        let a0 = if a < i { a } else { a + 1 };
                        assert(qs[a] == ps[a0]);
                        assert(ps[i as int].name@ == name@);
                    }
                }
                Some(p)
            },
            None => None,
        }
    }

    /// The providers in the order in which they are tried.
    pub fn providers(&self) -> (r: &Vec<ProviderInfo>)
        ensures
            *r == self.providers,
    {
        &self.providers
    }

    /// The first provider that speaks that protocol.
    pub fn get_by_protocol(&self, protocol: NatProtocol) -> (r: Option<&ProviderInfo>)
        ensures
            is_first_of(self.providers@, protocol, match r {
                Some(p) => Some(*p),
                None => None,
            }),
            match r {
                Some(p) => exists|i: int|
                    0 <= i < self.providers@.len() && *p == self.providers@[i] && p.protocol
                        == protocol && forall|j: int|
                        0 <= j < i ==> (#[trigger] self.providers@[j]).protocol != protocol,
                None => forall|j: int|
                    0 <= j < self.providers@.len() ==> (#[trigger] self.providers@[j]).protocol
                        != protocol,
            },
    {
        let mut i: usize = 0;
        while i < self.providers.len()
            invariant
                i <= self.providers@.len(),
                forall|j: int| 0 <= j < i ==> (#[trigger] self.providers@[j]).protocol != protocol,
            decreases self.providers@.len() - i,
        {
            if self.providers[i].protocol == protocol {
                return Some(&self.providers[i]);
            }
            i = i + 1;
        }
        None
    }

    /// The provider of that name.
    pub fn get_by_name(&self, name: &str) -> (r: Option<&ProviderInfo>)
        ensures
            match r {
                Some(p) => p.name@ == name@ && self.providers@.contains(*p),
                None => !has_name(self.providers@, name@),
            },
    {
        match self.position(name) {
            Some(i) => Some(&self.providers[i]),
            None => None,
        }
    }

    /// How many providers there are.
    pub fn len(&self) -> (r: usize)
        ensures
            r == self.providers@.len(),
    {
        self.providers.len()
    }

    /// Whether there is no provider.
    pub fn is_empty(&self) -> (r: bool)
        ensures
            r == (self.providers@.len() == 0),
    {
        self.providers.len() == 0
    }

    /// The names in the order in which the providers are tried.
    pub fn names(&self) -> (r: Vec<String>)
        ensures
            texts(r@) == self.providers@.map_values(|p: ProviderInfo| p.name@),
    {
        let mut out: Vec<String> = Vec::new();
        let mut i: usize = 0;
        while i < self.providers.len()
            invariant
                i <= self.providers@.len(),
                out@.len() == i,
                forall|j: int| 0 <= j < i ==> (#[trigger] out@[j])@ == self.providers@[j].name@,
            decreases self.providers@.len() - i,
        {
            out.push(self.providers[i].name.clone());
            i = i + 1;
        }
        proof {
            assert(texts(out@) =~= self.providers@.map_values(|p: ProviderInfo| p.name@));
        }
        out
    }
}

impl Default for ProviderRegistry {
    fn default() -> (r: Self)
        ensures
            r.wf(),
            r.providers@.len() == 0,
    {
        Self::new()
    }
}

/// Adding a provider with a new name and taking it out again restores the registry.
pub proof fn lemma_register_unregister(ps: Seq<ProviderInfo>, p: ProviderInfo, i: int)
    requires
        !has_name(ps, p.name@),
        0 <= i <= ps.len(),
        ps.insert(slot(ps, p.priority), p)[i].name@ == p.name@,
    ensures
        ps.insert(slot(ps, p.priority), p).remove(i) == ps,
{
    let k = slot(ps, p.priority);
    lemma_slot(ps, p.priority);
    let qs = ps.insert(k, p);
    if i != k {
        let i0 = if i < k { i } else { i - 1 };
        assert(qs[i] == ps[i0]);
    }
    assert(qs.remove(i) =~= ps);
}

/// One mapping operation.
#[derive(Debug, Clone)]
pub struct MappingOperationStats {
    /// Name of the protocol.
    pub protocol: String,
    /// The inner port.
    pub internal_port: u16,
    /// The outer port.
    pub external_port: u16,
    /// Whether the mapping was made.
    pub success: bool,
    /// Milliseconds that it took.
    pub duration_ms: u64,
    /// How often it was tried again.
    pub retries: u32,
    /// What went wrong, if it was not made.
    pub error: Option<String>,
    /// When, in seconds since the epoch.
    pub timestamp: u64,
}

impl MappingOperationStats {
    /// Whether this tells of an operation that ended so.
    pub open spec fn tells(
        self,
        protocol: NatProtocol,
        internal_port: u16,
        outcome: Result<u16, Seq<char>>,
        duration_ms: u64,
        retries: u32,
        timestamp: u64,
    ) -> bool {
        &&& self.protocol@ == protocol.name()
        &&& self.internal_port == internal_port
        &&& self.duration_ms == duration_ms
        &&& self.retries == retries
        &&& self.timestamp == timestamp
        &&& match outcome {
            Ok(external_port) => self.success && self.external_port == external_port
                && self.error is None,
            Err(e) => !self.success && self.external_port == 0 && self.error is Some
                && self.error->0@ == e,
        }
    }

    /// Whether two records say the same.
    pub open spec fn same(self, other: MappingOperationStats) -> bool {
        &&& self.protocol@ == other.protocol@
        &&& self.internal_port == other.internal_port
        &&& self.external_port == other.external_port
        &&& self.success == other.success
        &&& self.duration_ms == other.duration_ms
        &&& self.retries == other.retries
        &&& self.timestamp == other.timestamp
        &&& match (self.error, other.error) {
            (Some(a), Some(b)) => a@ == b@,
            (None, None) => true,
            _ => false,
        }
    }

    /// A copy of this record.
    pub fn copied(&self) -> (r: Self)
        ensures
            r.same(*self),
    {
        MappingOperationStats {
            protocol: self.protocol.clone(),
            internal_port: self.internal_port,
            external_port: self.external_port,
            success: self.success,
            duration_ms: self.duration_ms,
            retries: self.retries,
            error: match &self.error {
                Some(e) => Some(e.clone()),
                None => None,
            },
            timestamp: self.timestamp,
        }
    }

    /// The record of a mapping that was made in so many milliseconds, at the given
    /// time.
    pub fn success_at(
        protocol: NatProtocol,
        internal_port: u16,
        external_port: u16,
        duration_ms: u64,
        retries: u32,
        timestamp: u64,
    ) -> (r: Self)
        ensures
            r.tells(protocol, internal_port, Ok(external_port), duration_ms, retries, timestamp),
            r.protocol@ == protocol.name(),
            r.internal_port == internal_port,
            r.external_port == external_port,
            r.success,
            r.duration_ms == duration_ms,
            r.retries == retries,
            r.error is None,
            r.timestamp == timestamp,
    {
        MappingOperationStats {
            protocol: protocol.as_str().to_owned(),
            internal_port,
            external_port,
            success: true,
            duration_ms,
            retries,
            error: None,
            timestamp,
        }
    }

    /// The record of a mapping that failed after so many milliseconds, at the given
    /// time; it has no outer port.
    pub fn failure_at(
        protocol: NatProtocol,
        internal_port: u16,
        duration_ms: u64,
        retries: u32,
        error: String,
        timestamp: u64,
    ) -> (r: Self)
        ensures
            r.tells(protocol, internal_port, Err(error@), duration_ms, retries, timestamp),
            r.protocol@ == protocol.name(),
            r.internal_port == internal_port,
            r.external_port == 0,
            !r.success,
            r.duration_ms == duration_ms,
            r.retries == retries,
            r.error == Some(error),
            r.timestamp == timestamp,
    {
        MappingOperationStats {
            protocol: protocol.as_str().to_owned(),
            internal_port,
            external_port: 0,
            success: false,
            duration_ms,
            retries,
            error: Some(error),
            timestamp,
        }
    }

    /// The record of a mapping that was made, begun at `start`. How long it took
    /// and when it ended come from the clock.
    pub fn success(
        protocol: NatProtocol,
        internal_port: u16,
        external_port: u16,
        start: std::time::Instant,
        retries: u32,
    ) -> (r: Self)
        ensures
            r.protocol@ == protocol.name(),
            r.internal_port == internal_port,
            r.external_port == external_port,
            r.success,
            r.retries == retries,
            r.error is None,
            is_millis_since(r.duration_ms, start),
            is_unix_secs(r.timestamp),
    {
        let duration_ms: u64 = millis_since(&start);
        let timestamp: u64 = current_unix_secs();
        Self::success_at(protocol, internal_port, external_port, duration_ms, retries, timestamp)
    }

    /// The record of a mapping that failed, begun at `start`; it has no outer port.
    pub fn failure(
        protocol: NatProtocol,
        internal_port: u16,
        start: std::time::Instant,
        retries: u32,
        error: String,
    ) -> (r: Self)
        ensures
            r.protocol@ == protocol.name(),
            r.internal_port == internal_port,
            r.external_port == 0,
            !r.success,
            r.retries == retries,
            r.error == Some(error),
            is_millis_since(r.duration_ms, start),
            is_unix_secs(r.timestamp),
    {
        let duration_ms: u64 = millis_since(&start);
        let timestamp: u64 = current_unix_secs();
        Self::failure_at(protocol, internal_port, duration_ms, retries, error, timestamp)
    }
}

/// The providers after one more was registered.
pub open spec fn registered(ps: Seq<ProviderInfo>, p: ProviderInfo) -> Seq<ProviderInfo> {
    if has_name(ps, p.name@) {
        ps
    } else {
        ps.insert(slot(ps, p.priority), p)
    }
}

/// Whether this is the first provider of a protocol.
pub open spec fn is_first_of(
    ps: Seq<ProviderInfo>,
    protocol: NatProtocol,
    r: Option<ProviderInfo>,
) -> bool {
    match r {
        Some(p) => exists|i: int|
            0 <= i < ps.len() && p == ps[i] && p.protocol == protocol && forall|j: int|
                0 <= j < i ==> (#[trigger] ps[j]).protocol != protocol,
        None => forall|j: int| 0 <= j < ps.len() ==> (#[trigger] ps[j]).protocol != protocol,
    }
}

/// A second provider of a name changes nothing. Another stands behind all whose number
/// is not larger than its own and before all whose number is larger, and the others keep
/// their order.
pub proof fn lemma_registered(ps: Seq<ProviderInfo>, p: ProviderInfo, k: int)
    ensures
        has_name(ps, p.name@) ==> registered(ps, p) == ps,
        !has_name(ps, p.name@) ==> ({
            let at = slot(ps, p.priority);
            let after = registered(ps, p);
            &&& 0 <= at <= ps.len()
            &&& after.len() == ps.len() + 1
            &&& after[at] == p
            &&& 0 <= k < at ==> after[k] == ps[k] && ps[k].priority <= p.priority
            &&& k == at < ps.len() ==> after[k + 1] == ps[k] && ps[k].priority > p.priority
            &&& at <= k < ps.len() ==> after[k + 1] == ps[k]
        }),
{
    lemma_slot(ps, p.priority);
}

/// Of the providers of a protocol the one with the smallest number is taken.
pub proof fn lemma_smallest_number_is_taken(
    r: ProviderRegistry,
    protocol: NatProtocol,
    taken: Option<ProviderInfo>,
    k: int,
)
    requires
        r.wf(),
        is_first_of(r.providers@, protocol, taken),
        0 <= k < r.providers@.len(),
        r.providers@[k].protocol == protocol,
    ensures
        taken is Some,
        taken->0.protocol == protocol,
        taken->0.priority <= r.providers@[k].priority,
{
    let ps = r.providers@;
    assert(taken is Some);
    let i = choose|i: int|
        0 <= i < ps.len() && taken->0 == ps[i] && taken->0.protocol == protocol && forall|j: int|
            0 <= j < i ==> (#[trigger] ps[j]).protocol != protocol;
    assert(i <= k);
    if i < k {
        assert(ps[i].priority <= ps[k].priority);
    }
}

/// What was copied has every field of what it was copied from.
pub proof fn lemma_same_operation(a: MappingOperationStats, b: MappingOperationStats)
    requires
        a.same(b),
    ensures
        a.protocol@ == b.protocol@ && a.internal_port == b.internal_port && a.external_port
            == b.external_port && a.success == b.success && a.duration_ms == b.duration_ms
            && a.retries == b.retries && a.timestamp == b.timestamp,
        a.error is Some <==> b.error is Some,
        a.error is Some ==> a.error->0@ == b.error->0@,
{
}

/// An operation tells of a success exactly where it has no error, and of a port outside
/// only in that case; everything else it tells as it was.
pub proof fn lemma_operations_tell(
    a: MappingOperationStats,
    b: MappingOperationStats,
    protocol: NatProtocol,
    inner: u16,
    outer: u16,
    e: Seq<char>,
    ms: u64,
    retries: u32,
    at: u64,
)
    requires
        a.tells(protocol, inner, Ok(outer), ms, retries, at),
        b.tells(protocol, inner, Err(e), ms, retries, at),
    ensures
        a.success && a.error is None && a.external_port == outer,
        !b.success && b.error is Some && b.error->0@ == e && b.external_port == 0,
        a.internal_port == inner && b.internal_port == inner,
        a.protocol@ == b.protocol@ && a.protocol@ == protocol.name(),
        a.duration_ms == ms && b.duration_ms == ms && a.retries == retries && b.retries == retries,
        a.timestamp == at && b.timestamp == at,
{
}

/// In a registry that is in order no name comes twice, and the numbers do not fall.
pub proof fn lemma_registry_in_order(r: ProviderRegistry, i: int, j: int)
    requires
        r.wf(),
        0 <= i < j < r.providers@.len(),
    ensures
        r.providers@[i].name@ != r.providers@[j].name@,
        r.providers@[i].priority <= r.providers@[j].priority,
{
}

} // verus!
