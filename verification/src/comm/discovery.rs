//! The cache of component addresses.

use vstd::prelude::*;

use crate::string_map::StringMap;
use crate::time::Duration;

verus! {

/// What was found, and when, by the monotonic clock.
#[derive(Debug)]
pub struct CacheEntry<R> {
    pub response: R,
    pub cached_at: Duration,
}

/// What is found for components, kept for some time.
#[derive(Debug)]
pub struct DiscoveryCache<R> {
    /// How long what was found is good.
    pub ttl: Duration,
    /// Whether what is no longer good is still used while it is found anew.
    pub serve_stale: bool,
    pub cache: StringMap<CacheEntry<R>>,
}

/// What to do about a component.
#[derive(Debug)]
pub enum DiscoverStep<'a, R> {
    /// Use this.
    Answer(&'a R),
    /// Use this, and find it anew meanwhile.
    AnswerAndRefresh(&'a R),
    /// Ask the runtime.
    Fetch,
}

/// Whether something that was found is still good.
pub open spec fn is_fresh(cached_at: nat, now: nat, ttl: nat) -> bool {
    (if now >= cached_at {
        now - cached_at
    } else {
        0
    }) < ttl
}

impl<R> DiscoveryCache<R> {
    /// The map is sound.
    pub open spec fn wf(self) -> bool {
        self.cache.wf()
    }

    /// An empty cache.
    pub fn new(ttl: Duration, serve_stale: bool) -> (r: Self)
        ensures
            r.wf(),
            r.ttl == ttl,
            r.serve_stale == serve_stale,
            r.cache@ == Map::<Seq<char>, CacheEntry<R>>::empty(),
            r.cache.entries@.len() == 0,
    {
        DiscoveryCache { ttl, serve_stale, cache: StringMap::new() }
    }

    /// What to do about a component at the given time: what is still good is
    /// used; what no longer is, is used while it is found anew, or found anew
    /// first; what is not there is asked for.
    pub fn discover(&self, component_id: &str, now: &Duration) -> (r: DiscoverStep<'_, R>)
        ensures
            ({
                let known = self.cache@.dom().contains(component_id@);
                let s = served(
                    known,
                    self.cache@[component_id@].cached_at@,
                    now@,
                    self.ttl@,
                    self.serve_stale,
                );
                (s.0 <==> !(r is Fetch)) && (s.1 <==> !(r is Answer))
            }),
            match r {
                DiscoverStep::Answer(x) => self.cache@.dom().contains(component_id@) && *x
                    == self.cache@[component_id@].response && is_fresh(
                    self.cache@[component_id@].cached_at@,
                    now@,
                    self.ttl@,
                ),
                DiscoverStep::AnswerAndRefresh(x) => self.serve_stale && self.cache@.dom().contains(
                    component_id@,
                ) && *x == self.cache@[component_id@].response && !is_fresh(
                    self.cache@[component_id@].cached_at@,
                    now@,
                    self.ttl@,
                ),
                DiscoverStep::Fetch => !self.cache@.dom().contains(component_id@) || (
                !self.serve_stale && !is_fresh(
                    self.cache@[component_id@].cached_at@,
                    now@,
                    self.ttl@,
                )),
            },
    {
        match self.cache.get(component_id) {
            Some(e) => {
                let age = now.saturating_sub(&e.cached_at);
                if age.is_shorter(&self.ttl) {
                    DiscoverStep::Answer(&e.response)
                } else if self.serve_stale {
                    DiscoverStep::AnswerAndRefresh(&e.response)
                } else {
                    DiscoverStep::Fetch
                }
            },
            None => DiscoverStep::Fetch,
        }
    }

    /// Keeps what the runtime answered at the given time.
    pub fn store(&mut self, component_id: &str, response: R, now: Duration)
        requires
            old(self).wf(),
        ensures
            final(self).cache@ == stored(old(self).cache@, component_id@, response, now),
            final(self).wf(),
            final(self).ttl == old(self).ttl,
            final(self).serve_stale == old(self).serve_stale,
            final(self).cache@ == old(self).cache@.insert(
                component_id@,
                CacheEntry { response, cached_at: now },
            ),
    {
        self.cache.insert(component_id.to_owned(), CacheEntry { response, cached_at: now });
    }

    /// What is used where the runtime did not answer: what was found before, good
    /// or not, if anything, and nothing where only what is good is used.
    pub fn after_failed_fetch(&self, component_id: &str) -> (r: Option<&R>)
        ensures
            r is Some <==> served_after_failure(
                self.cache@.dom().contains(component_id@),
                self.serve_stale,
            ),
            match r {
                Some(x) => self.serve_stale && self.cache@.dom().contains(component_id@) && *x
                    == self.cache@[component_id@].response,
                None => !self.serve_stale || !self.cache@.dom().contains(component_id@),
            },
    {
        if !self.serve_stale {
            return None;
        }
        match self.cache.get(component_id) {
            Some(e) => Some(&e.response),
            None => None,
        }
    }

    /// Forgets a component.
    pub fn invalidate(&mut self, component_id: &str)
        requires
            old(self).wf(),
        ensures
            final(self).wf(),
            final(self).ttl == old(self).ttl,
            final(self).serve_stale == old(self).serve_stale,
            final(self).cache@ == old(self).cache@.remove(component_id@),
    {
        let _gone = self.cache.remove(component_id);
    }

    /// Forgets all components.
    pub fn clear(&mut self)
        ensures
            final(self).wf(),
            final(self).ttl == old(self).ttl,
            final(self).serve_stale == old(self).serve_stale,
            final(self).cache@ == Map::<Seq<char>, CacheEntry<R>>::empty(),
            final(self).cache.entries@.len() == 0,
    {
        self.cache.clear();
    }

    /// How long what was found is good.
    pub fn ttl(&self) -> (r: Duration)
        ensures
            r == self.ttl,
    {
        self.ttl
    }

    /// How many components are kept.
    pub fn len(&self) -> (r: usize)
        ensures
            r == self.cache.entries@.len(),
    {
        self.cache.len()
    }

    /// Whether no component is kept.
    pub fn is_empty(&self) -> (r: bool)
        requires
            self.wf(),
        ensures
            r == (self.cache.entries@.len() == 0),
            r <==> self.cache@.dom() =~= Set::<Seq<char>>::empty(),
    {
        self.cache.is_empty()
    }
}

/// What was kept last is what is found, and forgetting it leaves no trace of it.
pub proof fn lemma_store_then_invalidate<R>(
    m: Map<Seq<char>, CacheEntry<R>>,
    id: Seq<char>,
    first: CacheEntry<R>,
    second: CacheEntry<R>,
)
    ensures
        m.insert(id, first).insert(id, second) == m.insert(id, second),
        m.insert(id, first).remove(id) == m.remove(id),
{
    assert(m.insert(id, first).insert(id, second) =~= m.insert(id, second));
    assert(m.insert(id, first).remove(id) =~= m.remove(id));
}

/// What was just kept is good until its time is over, and not after.
pub proof fn lemma_fresh_until_ttl(cached_at: nat, now: nat, ttl: nat)
    requires
        cached_at <= now,
    ensures
        is_fresh(cached_at, now, ttl) <==> now < cached_at + ttl,
{
}

/// How a lookup is served: whether there is an answer at once, and whether the runtime is
/// asked.
pub open spec fn served(known: bool, cached_at: nat, now: nat, ttl: nat, serve_stale: bool) -> (
    bool,
    bool,
) {
    if known && is_fresh(cached_at, now, ttl) {
        (true, false)
    } else if known && serve_stale {
        (true, true)
    } else {
        (false, true)
    }
}

/// Whether there is an answer though the runtime gave none.
pub open spec fn served_after_failure(known: bool, serve_stale: bool) -> bool {
    known && serve_stale
}

/// The runtime is asked exactly where nothing is known or what is known has reached its
/// age; there is an answer at once exactly where something is known that is younger, or
/// that may be served though it is older.
pub proof fn lemma_how_lookups_are_served(
    known: bool,
    cached_at: nat,
    now: nat,
    ttl: nat,
    serve_stale: bool,
)
    requires
        cached_at <= now,
    ensures
        served(known, cached_at, now, ttl, serve_stale).1 <==> !known || now >= cached_at + ttl,
        served(known, cached_at, now, ttl, serve_stale).0 <==> known && (serve_stale || now
            < cached_at + ttl),
        !served(known, cached_at, now, ttl, serve_stale).0 ==> served(
            known,
            cached_at,
            now,
            ttl,
            serve_stale,
        ).1,
{
}

/// Only a cache that may serve what is old answers in place of the runtime.
pub proof fn lemma_who_answers_for_the_runtime(known: bool)
    ensures
        !served_after_failure(known, false),
        served_after_failure(known, true) == known,
{
}

/// The cache after an answer was stored.
pub open spec fn stored<R>(
    m: Map<Seq<char>, CacheEntry<R>>,
    id: Seq<char>,
    response: R,
    now: Duration,
) -> Map<Seq<char>, CacheEntry<R>> {
    m.insert(id, CacheEntry { response, cached_at: now })
}

/// What was stored is what is answered, without asking the runtime again until it has
/// reached its age; what is known of others does not change.
pub proof fn lemma_stored_is_served<R>(
    m: Map<Seq<char>, CacheEntry<R>>,
    id: Seq<char>,
    other: Seq<char>,
    response: R,
    stored_at: Duration,
    now: Duration,
    ttl: nat,
    serve_stale: bool,
)
    requires
        other != id,
        stored_at@ <= now@,
    ensures
        ({
            let after = stored(m, id, response, stored_at);
            &&& after.dom().contains(id)
            &&& after[id].response == response
            &&& served(true, after[id].cached_at@, now@, ttl, serve_stale).1 <==> now@ >= stored_at@
                + ttl
            &&& after.dom().contains(other) == m.dom().contains(other)
            &&& m.dom().contains(other) ==> after[other] == m[other]
        }),
{
}

/// What was kept at a moment that the clock has not reached yet counts as new.
pub proof fn lemma_clock_behind(cached_at: nat, now: nat, ttl: nat, serve_stale: bool)
    requires
        now < cached_at,
    ensures
        is_fresh(cached_at, now, ttl) <==> ttl > 0,
        served(true, cached_at, now, ttl, serve_stale).1 <==> ttl == 0,
{
}

} // verus!
