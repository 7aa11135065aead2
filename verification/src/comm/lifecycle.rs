//! What is done when a component shuts down.

use vstd::prelude::*;

use crate::time::{secs, Duration};

verus! {

/// Knows what has to be done at the end; the callbacks are elsewhere, under the
/// numbers that are given here.
#[derive(Debug)]
pub struct LifecycleManager {
    /// Numbers of the callbacks, in the order in which they were registered.
    pub callbacks: Vec<usize>,
    /// How long the shutdown may take.
    pub timeout: Duration,
}

impl LifecycleManager {
    /// Nothing has to be done.
    pub fn new() -> (r: Self)
        ensures
            r.callbacks@.len() == 0,
            r.timeout@ == secs(10),
    {
        LifecycleManager { callbacks: Vec::new(), timeout: Duration::from_secs(10) }
    }

    /// The same with another limit of time.
    pub fn with_timeout(self, timeout: Duration) -> (r: Self)
        ensures
            r == (LifecycleManager { timeout, ..self }),
    {
        let mut s = self;
        s.timeout = timeout;
        s
    }

    /// Registers a callback.
    pub fn on_shutdown(&mut self, callback: usize)
        ensures
            final(self).callbacks@ == old(self).callbacks@.push(callback),
            final(self).timeout == old(self).timeout,
    {
        self.callbacks.push(callback);
    }

    /// What has to be done now, in order: what was registered last comes first.
    /// Nothing is left to be done a second time.
    pub fn shutdown(&mut self) -> (r: Vec<usize>)
        ensures
            r@ == end_order(old(self).callbacks@),
            r@ == old(self).callbacks@.reverse(),
            final(self).callbacks@.len() == 0,
            final(self).timeout == old(self).timeout,
    {
        let ghost all = self.callbacks@;
        let mut out: Vec<usize> = Vec::new();
        proof {
            assert(all.take(all.len() as int) =~= all);
        }
        while self.callbacks.len() > 0
            invariant
                self.timeout == old(self).timeout,
                self.callbacks@ == all.take(self.callbacks@.len() as int),
                self.callbacks@.len() <= all.len(),
                out@.len() + self.callbacks@.len() == all.len(),
                forall|j: int| 0 <= j < out@.len() ==> out@[j] == all[all.len() - 1 - j],
            decreases self.callbacks@.len(),
        {
            let ghost n = self.callbacks@.len();
            match self.callbacks.pop() {
                Some(c) => {
                    out.push(c);
                    proof {
                        assert(self.callbacks@ =~= all.take(n - 1));
                    }
                },
                None => {},
            }
        }
        proof {
            assert(out@ =~= all.reverse());
        }
        out
    }
}

impl Default for LifecycleManager {
    fn default() -> (r: Self)
        ensures
            r.callbacks@.len() == 0,
            r.timeout@ == secs(10),
    {
        Self::new()
    }
}

/// The order in which the callbacks run at the end.
pub open spec fn end_order(callbacks: Seq<usize>) -> Seq<usize> {
    callbacks.reverse()
}

/// What was arranged last runs first, and what was arranged first runs last.
pub proof fn lemma_last_arranged_runs_first(callbacks: Seq<usize>, callback: usize)
    ensures
        end_order(callbacks.push(callback)) == seq![callback] + end_order(callbacks),
        end_order(Seq::empty()) == Seq::<usize>::empty(),
{
    assert(end_order(callbacks.push(callback)) =~= seq![callback] + end_order(callbacks));
    assert(end_order(Seq::<usize>::empty()) =~= Seq::<usize>::empty());
}

} // verus!
