//! The life of the translator handling: states, allowed changes, history.

use vstd::prelude::*;

use crate::string_map::StringMap;
use crate::text::concat;
use crate::time::{
    current_unix_secs, instant_gap, is_millis_since, is_unix_secs, millis_in, millis_since,
    span_millis, span_nanos, time_since,
};

verus! {

/// A stage of the translator handling.
#[derive(Debug, Clone, Copy, PartialEq, Eq, Structural)]
pub enum NatState {
    /// Nothing was done yet.
    Uninitialized,
    /// The gateway is being looked for.
    Initializing,
    /// Mappings are being made.
    Mapping,
    /// Mappings stand and the gateway is well.
    Active,
    /// Some mappings failed, at least one stands.
    Degraded,
    /// The gateway does not answer.
    GatewayLost,
    /// Mappings are being restored.
    Recovering,
    /// All mappings were given up on purpose.
    Released,
    /// An error that cannot be mended.
    Error,
}

impl NatState {
    /// The name of the state in snake case.
    pub open spec fn name(self) -> Seq<char> {
        match self {
            NatState::Uninitialized => "uninitialized"@,
            NatState::Initializing => "initializing"@,
            NatState::Mapping => "mapping"@,
            NatState::Active => "active"@,
            NatState::Degraded => "degraded"@,
            NatState::GatewayLost => "gateway_lost"@,
            NatState::Recovering => "recovering"@,
            NatState::Released => "released"@,
            NatState::Error => "error"@,
        }
    }

    /// The name of the state in snake case.
    pub fn as_str(&self) -> (r: &'static str)
        ensures
            r@ == self.name(),
    {
        match self {
            NatState::Uninitialized => "uninitialized",
            NatState::Initializing => "initializing",
            NatState::Mapping => "mapping",
            NatState::Active => "active",
            NatState::Degraded => "degraded",
            NatState::GatewayLost => "gateway_lost",
            NatState::Recovering => "recovering",
            NatState::Released => "released",
            NatState::Error => "error",
        }
    }

    /// Whether mappings stand.
    pub open spec fn stable(self) -> bool {
        self is Active || self is Degraded
    }

    /// Whether mappings stand.
    pub fn is_stable(&self) -> (r: bool)
        ensures
            r == self.stable(),
    {
        matches!(self, NatState::Active | NatState::Degraded)
    }

    /// Whether the handling has ended.
    pub open spec fn ended(self) -> bool {
        self is Error || self is Released
    }

    /// Whether the handling has ended, by an error or on purpose.
    pub fn is_error(&self) -> (r: bool)
        ensures
            r == self.ended(),
    {
        matches!(self, NatState::Error | NatState::Released)
    }

    /// The states that may follow. Every state may be released or fail; an ended
    /// one may only start anew.
    pub open spec fn may_follow(self, target: NatState) -> bool {
        ||| target.ended()
        ||| match self {
            NatState::Uninitialized => target is Initializing,
            NatState::Initializing => target is Mapping,
            NatState::Mapping => target.stable(),
            NatState::Active => target is GatewayLost || target is Degraded,
            NatState::Degraded => target is GatewayLost || target is Active,
            NatState::GatewayLost => target is Recovering,
            NatState::Recovering => target.stable() || target is GatewayLost,
            NatState::Released => target is Initializing,
            NatState::Error => target is Initializing,
        }
    }

    /// Whether `target` may follow this state.
    pub fn can_transition_to(&self, target: NatState) -> (r: bool)
        ensures
            r == self.may_follow(target),
    {
        match (self, target) {
            (_, NatState::Released) => true,
            (_, NatState::Error) => true,
            (NatState::Uninitialized, NatState::Initializing) => true,
            (NatState::Initializing, NatState::Mapping) => true,
            (NatState::Mapping, NatState::Active) => true,
            (NatState::Mapping, NatState::Degraded) => true,
            (NatState::Active, NatState::GatewayLost) => true,
            (NatState::Degraded, NatState::GatewayLost) => true,
            (NatState::GatewayLost, NatState::Recovering) => true,
            (NatState::Recovering, NatState::Active) => true,
            (NatState::Recovering, NatState::Degraded) => true,
            (NatState::Recovering, NatState::GatewayLost) => true,
            (NatState::Active, NatState::Degraded) => true,
            (NatState::Degraded, NatState::Active) => true,
            (NatState::Released, NatState::Initializing) => true,
            (NatState::Error, NatState::Initializing) => true,
            _ => false,
        }
    }
}

/// One change of state.
#[derive(Debug, Clone)]
pub struct StateTransition {
    /// Name of the state that was left.
    pub from: String,
    /// Name of the state that was entered.
    pub to: String,
    /// When, in seconds since the epoch.
    pub timestamp: u64,
    /// Why.
    pub reason: String,
    /// Milliseconds spent in the state that was left.
    pub duration_ms: u64,
}

/// What a change of state records.
#[verifier::ext_equal]
pub struct TransitionModel {
    pub from: Seq<char>,
    pub to: Seq<char>,
    pub timestamp: u64,
    pub reason: Seq<char>,
    pub duration_ms: u64,
}

impl View for StateTransition {
    type V = TransitionModel;

    open spec fn view(&self) -> TransitionModel {
        TransitionModel {
            from: self.from@,
            to: self.to@,
            timestamp: self.timestamp,
            reason: self.reason@,
            duration_ms: self.duration_ms,
        }
    }
}

impl StateTransition {
    /// A copy of this record.
    pub fn copied(&self) -> (r: Self)
        ensures
            r@ == self@,
    {
        StateTransition {
            from: self.from.clone(),
            to: self.to.clone(),
            timestamp: self.timestamp,
            reason: self.reason.clone(),
            duration_ms: self.duration_ms,
        }
    }
}

/// How many changes the history keeps.
pub const MAX_HISTORY: usize = 100;

/// The records of a history, in order.
pub open spec fn records(h: Seq<StateTransition>) -> Seq<TransitionModel> {
    h.map_values(|t: StateTransition| t@)
}

/// A history with one more record: the oldest goes where there are more than
/// the history keeps.
pub open spec fn appended(h: Seq<TransitionModel>, t: TransitionModel) -> Seq<TransitionModel> {
    if h.len() >= MAX_HISTORY {
        h.push(t).drop_first()
    } else {
        h.push(t)
    }
}

/// The record of a change.
pub open spec fn change(
    from: NatState,
    to: NatState,
    reason: Seq<char>,
    timestamp: u64,
    duration_ms: u64,
) -> TransitionModel {
    TransitionModel { from: from.name(), to: to.name(), timestamp, reason, duration_ms }
}

/// What stands before the reason of a forced change.
pub open spec fn force_prefix() -> Seq<char> {
    "[FORCE] "@
}

/// The milliseconds spent in the state of that name.
pub open spec fn total(stays: Seq<(Seq<char>, u64)>, name: Seq<char>) -> nat
    decreases stays.len(),
{
    if stays.len() == 0 {
        0
    } else {
        total(stays.drop_last(), name) + if stays.last().0 == name {
            stays.last().1 as nat
        } else {
            0
        }
    }
}

/// Whether a state of that name was stayed in.
pub open spec fn visited(stays: Seq<(Seq<char>, u64)>, name: Seq<char>) -> bool {
    exists|i: int| 0 <= i < stays.len() && (#[trigger] stays[i]).0 == name
}

/// Whether `m` holds the total of each state that was stayed in, and no other.
pub open spec fn totals(stays: Seq<(Seq<char>, u64)>, m: Map<Seq<char>, u64>) -> bool {
    forall|name: Seq<char>|
        (#[trigger] m.dom().contains(name)) == visited(stays, name) && (m.dom().contains(name)
            ==> m[name] as nat == total(stays, name))
}

proof fn lemma_total_grows(stays: Seq<(Seq<char>, u64)>, i: int, name: Seq<char>)
    requires
        0 <= i <= stays.len(),
    ensures
        total(stays.take(i), name) <= total(stays, name),
    decreases stays.len() - i,
{
    if i < stays.len() {
        lemma_total_grows(stays, i + 1, name);
        assert(stays.take(i + 1).drop_last() =~= stays.take(i));
    } else {
        assert(stays.take(i) =~= stays);
    }
}

proof fn lemma_total_of_unvisited(stays: Seq<(Seq<char>, u64)>, name: Seq<char>)
    requires
        !visited(stays, name),
    ensures
        total(stays, name) == 0,
    decreases stays.len(),
{
    if stays.len() > 0 {
        let d = stays.drop_last();
        assert(stays[stays.len() - 1].0 != name);
        assert forall|i: int| 0 <= i < d.len() implies (#[trigger] d[i]).0 != name by {
            assert(stays[i] == d[i]);
        }
        lemma_total_of_unvisited(d, name);
    }
}

/// Adds the `i`-th stay to the totals; false where a total would be too large.
fn add_stay(
    m: &mut StringMap<u64>,
    name: &str,
    ms: u64,
    Ghost(all): Ghost<Seq<(Seq<char>, u64)>>,
    Ghost(i): Ghost<int>,
) -> (r: bool)
    requires
        old(m).wf(),
        0 <= i < all.len(),
        all[i] == (name@, ms),
        totals(all.take(i), old(m)@),
    ensures
        final(m).wf(),
        r ==> totals(all.take(i + 1), final(m)@),
        !r ==> total(all, name@) > u64::MAX,
{
    let ghost before = m@;
    let ghost pre = all.take(i);
    let ghost post = all.take(i + 1);
    let had: u64 = match m.get(name) {
        Some(v) => *v,
        None => 0,
    };
    proof {
        assert(post.drop_last() =~= pre);
        assert(post.last() == (name@, ms));
        if !before.dom().contains(name@) {
            lemma_total_of_unvisited(pre, name@);
        }
        assert(total(post, name@) == had + ms);
        lemma_total_grows(all, i + 1, name@);
    }
    match had.checked_add(ms) {
        None => false,
        Some(sum) => {
            m.insert(name.to_owned(), sum);
            proof {
                assert forall|k: Seq<char>|
                    (#[trigger] m@.dom().contains(k)) == visited(post, k) && (m@.dom().contains(k)
                        ==> m@[k] as nat == total(post, k)) by {
                    assert(before.dom().contains(k) == visited(pre, k));
                    if k == name@ {
                        assert(post[i].0 == k);
                    } else {
                        if visited(pre, k) {
                            let j = choose|j: int| 0 <= j < pre.len() && (#[trigger] pre[j]).0 == k;
                            assert(post[j].0 == k);
                        }
                        if visited(post, k) {
                            let j = choose|j: int|
                                0 <= j < post.len() && (#[trigger] post[j]).0 == k;
                            assert(pre[j].0 == k);
                        }
                    }
                }
            }
            true
        },
    }
}

/// The state of the translator handling and how it came about.
pub struct NatStateMachine {
    pub state: NatState,
    pub last_transition: std::time::Instant,
    pub history: Vec<StateTransition>,
}

impl NatStateMachine {
    /// The history holds no more than it may.
    pub open spec fn wf(self) -> bool {
        self.history@.len() <= MAX_HISTORY
    }

    /// The history after a move to another state.
    pub open spec fn moved(
        self,
        target: NatState,
        reason: Seq<char>,
        timestamp: u64,
        now: std::time::Instant,
    ) -> Seq<TransitionModel> {
        appended(
            records(self.history@),
            change(self.state, target, reason, timestamp, self.stay_ms(now)),
        )
    }

    /// How many milliseconds the present state has lasted at the given reading of the
    /// clock.
    pub open spec fn stay_ms(self, now: std::time::Instant) -> u64 {
        millis_in(instant_gap(now, self.last_transition)) as u64
    }

    /// The stays that the history keeps, and the present one.
    pub open spec fn stays(self, current_ms: u64) -> Seq<(Seq<char>, u64)> {
        self.history@.map_values(|t: StateTransition| (t.from@, t.duration_ms)).push(
            (self.state.name(), current_ms),
        )
    }

    /// A machine that nothing has happened to.
    pub fn new() -> (r: Self)
        ensures
            r.wf(),
            r.state is Uninitialized,
            r.history@.len() == 0,
    {
        NatStateMachine {
            state: NatState::Uninitialized,
            last_transition: std::time::Instant::now(),
            history: Vec::new(),
        }
    }

    /// The present state.
    pub fn current_state(&self) -> (r: NatState)
        ensures
            r == self.state,
    {
        self.state
    }

    /// Enters `target` and records it, whatever the rules say.
    fn enter(&mut self, target: NatState, reason: String, timestamp: u64, now: std::time::Instant)
        requires
            old(self).wf(),
        ensures
            records(final(self).history@) == old(self).moved(target, reason@, timestamp, now),
            final(self).wf(),
            final(self).state == target,
            final(self).last_transition == now,
            records(final(self).history@) == appended(
                records(old(self).history@),
                change(old(self).state, target, reason@, timestamp, old(self).stay_ms(now)),
            ),
    {
        let stay = now.duration_since(self.last_transition);
        let duration_ms: u64 = span_millis(&stay);
        let ghost before = records(self.history@);
        let ghost t = change(self.state, target, reason@, timestamp, duration_ms);
        let from = self.state.as_str().to_owned();
        let to = target.as_str().to_owned();
        self.history.push(StateTransition { from, to, timestamp, reason, duration_ms });
        proof {
            assert(records(self.history@) =~= before.push(t));
        }
        if self.history.len() > MAX_HISTORY {
            let ghost grown = self.history@;
            let _oldest = self.history.remove(0);
            proof {
                assert(records(self.history@) =~= records(grown).drop_first());
            }
        }
        self.state = target;
        self.last_transition = now;
    }

    /// Enters `target` if the rules allow it, at the given time and reading of the
    /// clock. A refused change leaves everything as it was.
    pub fn transition_at(
        &mut self,
        target: NatState,
        reason: &str,
        timestamp: u64,
        now: std::time::Instant,
    ) -> (r: bool)
        requires
            old(self).wf(),
        ensures
            r ==> records(final(self).history@) == old(self).moved(target, reason@, timestamp, now),
            final(self).wf(),
            r == old(self).state.may_follow(target),
            !r ==> *final(self) == *old(self),
            r ==> final(self).state == target && final(self).last_transition == now && records(
                final(self).history@,
            ) == appended(
                records(old(self).history@),
                change(old(self).state, target, reason@, timestamp, old(self).stay_ms(now)),
            ),
    {
        if !self.state.can_transition_to(target) {
            return false;
        }
        self.enter(target, reason.to_owned(), timestamp, now);
        true
    }

    /// Enters `target` if the rules allow it. The stay in the present state ends at
    /// the reading of the clock at which that in the next one begins.
    pub fn transition(&mut self, target: NatState, reason: &str) -> (r: bool)
        requires
            old(self).wf(),
        ensures
            final(self).wf(),
            r == old(self).state.may_follow(target),
            !r ==> *final(self) == *old(self),
            r ==> final(self).state == target && exists|timestamp: u64|
                is_unix_secs(timestamp) && records(final(self).history@) == appended(
                    records(old(self).history@),
                    #[trigger] change(
                        old(self).state,
                        target,
                        reason@,
                        timestamp,
                        old(self).stay_ms(final(self).last_transition),
                    ),
                ),
    {
        if !self.state.can_transition_to(target) {
            return false;
        }
        let timestamp: u64 = current_unix_secs();
        self.transition_at(target, reason, timestamp, std::time::Instant::now())
    }

    /// Enters `target` whatever the rules say, at the given time and reading of the
    /// clock.
    pub fn force_transition_at(
        &mut self,
        target: NatState,
        reason: &str,
        timestamp: u64,
        now: std::time::Instant,
    )
        requires
            old(self).wf(),
        ensures
            records(final(self).history@) == old(self).moved(
                target,
                force_prefix() + reason@,
                timestamp,
                now,
            ),
            final(self).wf(),
            final(self).state == target,
            final(self).last_transition == now,
            records(final(self).history@) == appended(
                records(old(self).history@),
                change(
                    old(self).state,
                    target,
                    force_prefix() + reason@,
                    timestamp,
                    old(self).stay_ms(now),
                ),
            ),
    {
        self.enter(target, concat("[FORCE] ", reason), timestamp, now);
    }

    /// Enters `target` whatever the rules say. The stay in the present state ends at
    /// the reading of the clock at which that in the next one begins.
    pub fn force_transition(&mut self, target: NatState, reason: &str)
        requires
            old(self).wf(),
        ensures
            final(self).wf(),
            final(self).state == target,
            exists|timestamp: u64|
                is_unix_secs(timestamp) && records(final(self).history@) == appended(
                    records(old(self).history@),
                    #[trigger] change(
                        old(self).state,
                        target,
                        force_prefix() + reason@,
                        timestamp,
                        old(self).stay_ms(final(self).last_transition),
                    ),
                ),
    {
        let timestamp: u64 = current_unix_secs();
        self.force_transition_at(target, reason, timestamp, std::time::Instant::now());
    }

    /// How long the present state has lasted, by the clock.
    pub fn current_state_duration(&self) -> (r: std::time::Duration)
        ensures
            exists|now: std::time::Instant| r == #[trigger] instant_gap(now, self.last_transition),
    {
        time_since(&self.last_transition)
    }

    /// All changes that the history keeps, oldest first.
    pub fn transition_history(&self) -> (r: Vec<StateTransition>)
        ensures
            records(r@) == records(self.history@),
    {
        let mut out: Vec<StateTransition> = Vec::new();
        let mut i: usize = 0;
        while i < self.history.len()
            invariant
                i <= self.history@.len(),
                out@.len() == i,
                forall|j: int| 0 <= j < i ==> (#[trigger] out@[j])@ == self.history@[j]@,
            decreases self.history@.len() - i,
        {
            out.push(self.history[i].copied());
            i = i + 1;
        }
        proof {
            assert(records(out@) =~= records(self.history@));
        }
        out
    }

    /// The last `n` changes, newest first.
    pub fn recent_transitions(&self, n: usize) -> (r: Vec<StateTransition>)
        ensures
            records(r@) == newest(records(self.history@), n as nat),
            records(r@) == records(self.history@).reverse().take(
                if n <= self.history@.len() {
                    n as int
                } else {
                    self.history@.len() as int
                },
            ),
    {
        let mut out: Vec<StateTransition> = Vec::new();
        let len: usize = self.history.len();
        let count: usize = if n <= len {
            n
        } else {
            len
        };
        let mut i: usize = 0;
        while i < count
            invariant
                len == self.history@.len(),
                i <= count <= len,
                out@.len() == i,
                forall|j: int|
                    0 <= j < i ==> (#[trigger] out@[j])@ == self.history@[len - 1 - j]@,
            decreases count - i,
        {
            out.push(self.history[len - 1 - i].copied());
            i = i + 1;
        }
        proof {
            assert(records(out@) =~= records(self.history@).reverse().take(count as int));
        }
        out
    }

    /// How long each state lasted in all, given how long the present one has
    /// lasted; `None` where a total is too large to hold.
    pub fn state_statistics_at(&self, current_ms: u64) -> (r: Option<StringMap<u64>>)
        ensures
            match r {
                Some(m) => m.wf() && totals(self.stays(current_ms), m@),
                None => exists|name: Seq<char>| total(self.stays(current_ms), name) > u64::MAX,
            },
    {
        let ghost all = self.stays(current_ms);
        let mut m: StringMap<u64> = StringMap::new();
        let mut i: usize = 0;
        proof {
            assert(all.take(0) =~= Seq::<(Seq<char>, u64)>::empty());
        }
        while i < self.history.len()
            invariant
                i <= self.history@.len(),
                all == self.stays(current_ms),
                m.wf(),
                totals(all.take(i as int), m@),
            decreases self.history@.len() - i,
        {
            proof {
                assert(all[i as int] == (self.history@[i as int].from@, self.history@[i as int].duration_ms));
            }
            if !add_stay(
                &mut m,
                self.history[i].from.as_str(),
                self.history[i].duration_ms,
                Ghost(all),
                Ghost(i as int),
            ) {
                return None;
            }
            i = i + 1;
        }
        proof {
            assert(all[i as int] == (self.state.name(), current_ms));
        }
        if !add_stay(&mut m, self.state.as_str(), current_ms, Ghost(all), Ghost(i as int)) {
            return None;
        }
        proof {
            assert(all.take(i + 1) =~= all);
        }
        Some(m)
    }

    /// How long each state lasted in all, the present one by the clock.
    pub fn state_statistics(&self) -> (r: Option<StringMap<u64>>)
        ensures
            exists|current_ms: u64|
                is_millis_since(current_ms, self.last_transition) && match r {
                    Some(m) => m.wf() && totals(#[trigger] self.stays(current_ms), m@),
                    None => exists|name: Seq<char>|
                        total(self.stays(current_ms), name) > u64::MAX,
                },
    {
        let ms: u64 = millis_since(&self.last_transition);
        self.state_statistics_at(ms)
    }

    /// Whether mappings stand.
    pub fn is_active(&self) -> (r: bool)
        ensures
            r == self.state.stable(),
    {
        self.state.is_stable()
    }

    /// Whether the handling has ended.
    pub fn is_error(&self) -> (r: bool)
        ensures
            r == self.state.ended(),
    {
        self.state.is_error()
    }
}

impl Default for NatStateMachine {
    fn default() -> (r: Self)
        ensures
            r.wf(),
            r.state is Uninitialized,
            r.history@.len() == 0,
    {
        Self::new()
    }
}

/// Every state can be released or fail, and can be left again.
pub proof fn lemma_release_and_error_always_open(s: NatState)
    ensures
        s.may_follow(NatState::Released),
        s.may_follow(NatState::Error),
        exists|t: NatState| t != s && s.may_follow(t),
{
    assert(s.may_follow(NatState::Released) && s.may_follow(NatState::Error));
    assert(NatState::Released != NatState::Error);
    if s == NatState::Released {
        assert(s.may_follow(NatState::Error) && NatState::Error != s);
    } else {
        assert(s.may_follow(NatState::Released) && NatState::Released != s);
    }
}

/// Mappings stand only after they were made or restored: a state in which they
/// do is entered from mapping, from recovering or from the other such state.
pub proof fn lemma_ways_into_stable(s: NatState, t: NatState)
    requires
        t.stable(),
        s.may_follow(t),
    ensures
        s is Mapping || s is Recovering || (s.stable() && s != t),
{
}

/// Nothing leads back to the first state.
pub proof fn lemma_never_uninitialized_again(s: NatState)
    ensures
        !s.may_follow(NatState::Uninitialized),
{
}

/// An ended handling can only start anew or end again.
pub proof fn lemma_ended_starts_anew(s: NatState, t: NatState)
    requires
        s.ended(),
        s.may_follow(t),
    ensures
        t is Initializing || t.ended(),
{
}

/// No two states share a name.
pub proof fn lemma_state_names_differ(s: NatState, t: NatState)
    requires
        s.name() == t.name(),
    ensures
        s == t,
{
    reveal_strlit("uninitialized");
    reveal_strlit("initializing");
    reveal_strlit("mapping");
    reveal_strlit("active");
    reveal_strlit("degraded");
    reveal_strlit("gateway_lost");
    reveal_strlit("recovering");
    reveal_strlit("released");
    reveal_strlit("error");
    let a = s.name();
    let b = t.name();
    assert(a.len() == b.len() && a[0] == b[0] && a[1] == b[1] && a[2] == b[2]);
}

/// From where each state can be entered.
pub proof fn lemma_ways_into_each_state(s: NatState)
    ensures
        s.may_follow(NatState::Initializing) <==> s is Uninitialized || s is Released || s is Error,
        s.may_follow(NatState::Mapping) <==> s is Initializing,
        s.may_follow(NatState::Active) <==> s is Mapping || s is Degraded || s is Recovering,
        s.may_follow(NatState::Degraded) <==> s is Mapping || s is Active || s is Recovering,
        s.may_follow(NatState::GatewayLost) <==> s is Active || s is Degraded || s is Recovering,
        s.may_follow(NatState::Recovering) <==> s is GatewayLost,
{
}

/// Mappings stand in two states, and the handling has ended in two others.
pub proof fn lemma_stable_and_ended_states(s: NatState)
    ensures
        s.stable() <==> s is Active || s is Degraded,
        s.ended() <==> s is Released || s is Error,
        !(s.stable() && s.ended()),
{
}

/// The history keeps the newest hundred changes, in order: one more drops the oldest
/// where there are a hundred, and nothing else.
pub proof fn lemma_history_keeps_the_newest(h: Seq<TransitionModel>, t: TransitionModel)
    requires
        h.len() <= 100,
    ensures
        appended(h, t).last() == t,
        h.len() < 100 ==> appended(h, t).drop_last() == h,
        h.len() == 100 ==> appended(h, t).len() == 100 && appended(h, t).drop_last()
            == h.drop_first(),
{
    if h.len() == 100 {
        assert(appended(h, t).drop_last() =~= h.drop_first());
    } else {
        assert(appended(h, t).drop_last() =~= h);
    }
}

/// A change names the state that was left as the one from which, and the one that was
/// entered as the one to which it led.
pub proof fn lemma_change_names_both_states(
    from: NatState,
    to: NatState,
    reason: Seq<char>,
    timestamp: u64,
    duration_ms: u64,
)
    ensures
        ({
            let t = change(from, to, reason, timestamp, duration_ms);
            &&& t.from == from.name()
            &&& t.to == to.name()
            &&& t.reason == reason
            &&& t.timestamp == timestamp
            &&& t.duration_ms == duration_ms
        }),
{
}

/// The time spent in a state adds up over the stays, whatever stays in other states lie
/// between.
pub proof fn lemma_total_adds_up(
    a: Seq<(Seq<char>, u64)>,
    b: Seq<(Seq<char>, u64)>,
    name: Seq<char>,
)
    ensures
        total(a + b, name) == total(a, name) + total(b, name),
    decreases b.len(),
{
    if b.len() > 0 {
        assert((a + b).drop_last() =~= a + b.drop_last());
        lemma_total_adds_up(a, b.drop_last(), name);
    } else {
        assert(a + b =~= a);
    }
}

/// One stay counts in full for its state and not at all for any other.
pub proof fn lemma_total_of_one_stay(name: Seq<char>, ms: u64, other: Seq<char>)
    requires
        other != name,
    ensures
        total(seq![(name, ms)], name) == ms,
        total(seq![(name, ms)], other) == 0,
{
    let s = seq![(name, ms)];
    reveal_with_fuel(total, 2);
    assert(s.drop_last() =~= Seq::empty());
}

/// The names of the states.
pub proof fn lemma_state_names(s: NatState)
    ensures
        s is Uninitialized ==> s.name() == "uninitialized"@,
        s is Initializing ==> s.name() == "initializing"@,
        s is Mapping ==> s.name() == "mapping"@,
        s is Active ==> s.name() == "active"@,
        s is Degraded ==> s.name() == "degraded"@,
        s is GatewayLost ==> s.name() == "gateway_lost"@,
        s is Recovering ==> s.name() == "recovering"@,
        s is Released ==> s.name() == "released"@,
        s is Error ==> s.name() == "error"@,
{
}

/// The newest changes, the last one first.
pub open spec fn newest(h: Seq<TransitionModel>, n: nat) -> Seq<TransitionModel> {
    h.reverse().take(
        if n <= h.len() {
            n as int
        } else {
            h.len() as int
        },
    )
}

/// Of the newest changes the last comes first, and there are as many as were asked for,
/// or all.
pub proof fn lemma_newest_come_first(h: Seq<TransitionModel>, n: nat, t: TransitionModel)
    ensures
        newest(h.push(t), n + 1) == seq![t] + newest(h, n),
        newest(h, 0).len() == 0,
        n <= h.len() ==> newest(h, n).len() == n,
        n >= h.len() ==> newest(h, n).len() == h.len(),
{
    assert(newest(h.push(t), n + 1) =~= seq![t] + newest(h, n));
}

/// A stay is of the state that was left, for as long as it lasted; the last one is of the
/// state that the machine is in.
pub proof fn lemma_stays(m: NatStateMachine, current_ms: u64, i: int)
    ensures
        m.stays(current_ms).len() == m.history@.len() + 1,
        m.stays(current_ms).last() == (m.state.name(), current_ms),
        0 <= i < m.history@.len() ==> m.stays(current_ms)[i] == (
            m.history@[i].from@,
            m.history@[i].duration_ms,
        ),
{
}

/// A forced change says so before its reason.
pub proof fn lemma_forced_changes_say_so(reason: Seq<char>)
    ensures
        force_prefix() + reason == "[FORCE] "@ + reason,
        (force_prefix() + reason).len() == 8 + reason.len(),
{
    reveal_strlit("[FORCE] ");
}

/// The record of a change holds each of its fields, and the records stand in order.
pub proof fn lemma_records(h: Seq<StateTransition>, i: int)
    ensures
        records(h).len() == h.len(),
        0 <= i < h.len() ==> records(h)[i].from == h[i].from@ && records(h)[i].to == h[i].to@
            && records(h)[i].reason == h[i].reason@ && records(h)[i].timestamp == h[i].timestamp
            && records(h)[i].duration_ms == h[i].duration_ms,
{
}

/// A state has a time exactly where there was a stay in it, and the time is that of all
/// its stays.
pub proof fn lemma_totals(
    stays: Seq<(Seq<char>, u64)>,
    m: Map<Seq<char>, u64>,
    i: int,
    name: Seq<char>,
)
    requires
        totals(stays, m),
    ensures
        0 <= i < stays.len() ==> m.dom().contains(stays[i].0) && m[stays[i].0] as nat == total(
            stays,
            stays[i].0,
        ) && m[stays[i].0] >= stays[i].1,
        (forall|j: int| 0 <= j < stays.len() ==> (#[trigger] stays[j]).0 != name)
            ==> !m.dom().contains(name),
{
    if 0 <= i < stays.len() {
        assert(visited(stays, stays[i].0));
        assert(m.dom().contains(stays[i].0));
        assert(stays =~= stays.take(i) + (seq![stays[i]] + stays.skip(i + 1)));
        lemma_total_adds_up(stays.take(i), seq![stays[i]] + stays.skip(i + 1), stays[i].0);
        lemma_total_adds_up(seq![stays[i]], stays.skip(i + 1), stays[i].0);
        assert(seq![stays[i]].drop_last() =~= Seq::empty());
        reveal_with_fuel(total, 2);
    }
    if forall|j: int| 0 <= j < stays.len() ==> (#[trigger] stays[j]).0 != name {
        assert(!visited(stays, name));
        assert(m.dom().contains(name) == visited(stays, name));
    }
}

/// A stay lasts the whole milliseconds between the two moments, as far as sixty-four bits
/// hold them.
pub proof fn lemma_stay_is_the_time_between(m: NatStateMachine, now: std::time::Instant)
    requires
        span_nanos(instant_gap(now, m.last_transition)) / 1_000_000 < 0x1_0000_0000_0000_0000,
    ensures
        1_000_000 * m.stay_ms(now) <= span_nanos(instant_gap(now, m.last_transition)) < 1_000_000
            * (m.stay_ms(now) + 1),
{
    crate::time::lemma_spans(instant_gap(now, m.last_transition));
}

/// A move is recorded last: from the state that was left to the one that was entered, with
/// its reason, its time and how long the state that was left had lasted.
pub proof fn lemma_moves_are_recorded(
    m: NatStateMachine,
    target: NatState,
    reason: Seq<char>,
    timestamp: u64,
    now: std::time::Instant,
)
    requires
        m.wf(),
    ensures
        ({
            let h = m.moved(target, reason, timestamp, now);
            &&& h.len() > 0
            &&& h.last().from == m.state.name()
            &&& h.last().to == target.name()
            &&& h.last().reason == reason
            &&& h.last().timestamp == timestamp
            &&& h.last().duration_ms == m.stay_ms(now)
            &&& m.history@.len() < 100 ==> h.len() == m.history@.len() + 1
            &&& m.history@.len() == 100 ==> h.len() == 100
        }),
{
    lemma_history_keeps_the_newest(
        records(m.history@),
        change(m.state, target, reason, timestamp, m.stay_ms(now)),
    );
}

} // verus!
