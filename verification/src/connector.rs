//! Trying several addresses, each several times.

use vstd::prelude::*;

use crate::time::{secs, Duration};

verus! {

/// How connections are tried.
#[derive(Debug, Clone, Copy)]
pub struct TcpConnectConfig {
    /// How long one try may take.
    pub connect_timeout: Duration,
    /// The pause before another try of the same address.
    pub retry_interval: Duration,
    /// How often an address is tried again.
    pub max_retries: u32,
}

impl Default for TcpConnectConfig {
    fn default() -> (r: Self)
        ensures
            r.connect_timeout@ == secs(5),
            r.retry_interval@ == 0,
            r.max_retries == 2,
    {
        TcpConnectConfig {
            connect_timeout: Duration::from_secs(5),
            retry_interval: Duration::from_millis(0),
            max_retries: 2,
        }
    }
}

/// Why a try failed.
#[derive(Debug)]
pub enum TryFailure {
    /// The connection was refused, for the given reason.
    Failed(String),
    /// It took too long.
    TimedOut,
}

/// What to do next.
#[derive(Debug)]
pub enum ConnectStep {
    /// Wait for so long, unless it is nothing, then try the address at the given
    /// position.
    Try { pause: Duration, index: usize },
    /// The address at the given position is connected.
    Connected { index: usize },
    /// There is no address.
    NoAddress,
    /// Every try failed; the last failure and the position of its address.
    AllFailed { index: usize, last: TryFailure },
}

/// A connection under way: the address and the number of the present try.
#[derive(Debug, Clone, Copy)]
pub struct ConnectRun {
    pub count: usize,
    pub max_retries: u32,
    pub retry_interval: Duration,
    pub index: usize,
    pub attempt: u32,
}

impl ConnectRun {
    /// The present try is one of those to be made.
    pub open spec fn wf(self) -> bool {
        self.index < self.count && self.attempt <= self.max_retries
    }

    /// The pause before the given next try: that between two tries of one address, and
    /// none before another address.
    pub open spec fn pause_before(self, next: ConnectRun) -> nat {
        if next.index == self.index {
            self.retry_interval@
        } else {
            0
        }
    }

    /// The try that follows a failed one: the same address again while it may be
    /// tried again, then the next address; none after the last.
    pub open spec fn following(self) -> Option<ConnectRun> {
        if self.attempt < self.max_retries {
            Some(ConnectRun { attempt: (self.attempt + 1) as u32, ..self })
        } else if self.index + 1 < self.count {
            Some(ConnectRun { index: (self.index + 1) as usize, attempt: 0, ..self })
        } else {
            None
        }
    }

    /// How many tries come before the present one.
    pub open spec fn tries_before(self) -> nat {
        self.index as nat * (self.max_retries as nat + 1) + self.attempt as nat
    }

    /// How many tries there are at most.
    pub open spec fn all_tries(self) -> nat {
        self.count as nat * (self.max_retries as nat + 1)
    }

    /// Begins with the first of `count` addresses.
    pub fn begin(count: usize, config: &TcpConnectConfig) -> (r: (ConnectRun, ConnectStep))
        ensures
            match first_try(count) {
                Some(i) => r.1 is Try && r.1->Try_index == i && r.0.index == i,
                None => r.1 is NoAddress,
            },
            r.0.count == count,
            r.0.max_retries == config.max_retries,
            r.0.retry_interval == config.retry_interval,
            r.0.index == 0,
            r.0.attempt == 0,
            count == 0 ==> r.1 is NoAddress,
            count > 0 ==> r.0.wf() && r.1 is Try && r.1->Try_index == 0 && r.1->Try_pause@ == 0,
    {
        let run = ConnectRun {
            count,
            max_retries: config.max_retries,
            retry_interval: config.retry_interval,
            index: 0,
            attempt: 0,
        };
        if count == 0 {
            (run, ConnectStep::NoAddress)
        } else {
            (run, ConnectStep::Try { pause: Duration::from_millis(0), index: 0 })
        }
    }

    /// Takes the outcome of the present try. A failed address is tried again
    /// after the pause until it was tried once more than it may be tried again;
    /// then the next one follows at once.
    pub fn on_outcome(&mut self, outcome: Result<(), TryFailure>) -> (r: ConnectStep)
        requires
            old(self).wf(),
        ensures
            match outcome {
                Ok(_) => *final(self) == *old(self) && r == (ConnectStep::Connected {
                    index: old(self).index,
                }),
                Err(e) => match old(self).following() {
                    Some(next) => {
                        &&& *final(self) == next
                        &&& final(self).wf()
                        &&& r is Try
                        &&& r->Try_index == next.index
                        &&& r->Try_pause@ == if next.index == old(self).index {
                            old(self).retry_interval@
                        } else {
                            0
                        }
                        &&& r->Try_pause@ == old(self).pause_before(next)
                    },
                    None => *final(self) == *old(self) && r == (ConnectStep::AllFailed {
                        index: old(self).index,
                        last: e,
                    }),
                },
            },
    {
        match outcome {
            Ok(_) => ConnectStep::Connected { index: self.index },
            Err(e) => {
                if self.attempt < self.max_retries {
                    self.attempt = self.attempt + 1;
                    ConnectStep::Try { pause: self.retry_interval, index: self.index }
                } else if self.index + 1 < self.count {
                    self.index = self.index + 1;
                    self.attempt = 0;
                    ConnectStep::Try { pause: Duration::from_millis(0), index: self.index }
                } else {
                    ConnectStep::AllFailed { index: self.index, last: e }
                }
            },
        }
    }
}

/// Each failed try but the last is followed by the next one: no try is left out,
/// none is made twice, and after as many as there are the run ends.
pub proof fn lemma_tries_follow_each_other(run: ConnectRun)
    requires
        run.wf(),
    ensures
        run.tries_before() < run.all_tries(),
        match run.following() {
            Some(next) => next.wf() && next.tries_before() == run.tries_before() + 1,
            None => run.tries_before() + 1 == run.all_tries(),
        },
{
    let per: int = run.max_retries + 1;
    let i: int = run.index as int;
    let n: int = run.count as int;
    assert((i + 1) * per == i * per + per) by (nonlinear_arith);
    assert((i + 1) * per <= n * per) by (nonlinear_arith)
        requires
            per >= 1,
            i + 1 <= n,
    ;
}

/// An address is tried once and then as often again as the settings say, with the pause
/// of the settings before each repetition; the next address follows without a pause,
/// with its first try; after the last try of the last address there is none.
pub proof fn lemma_next_try(run: ConnectRun)
    requires
        run.wf(),
    ensures
        run.attempt < run.max_retries ==> run.following() is Some && run.following()->0.index
            == run.index && run.following()->0.attempt == run.attempt + 1 && run.pause_before(
            run.following()->0,
        ) == run.retry_interval@,
        run.attempt == run.max_retries && run.index < run.count - 1 ==> run.following() is Some
            && run.following()->0.index == run.index + 1 && run.following()->0.attempt == 0
            && run.pause_before(run.following()->0) == 0,
        run.attempt == run.max_retries && run.index == run.count - 1 ==> run.following() is None,
        run.following() is Some ==> run.following()->0.count == run.count
            && run.following()->0.max_retries == run.max_retries
            && run.following()->0.retry_interval == run.retry_interval,
{
}

/// The address that is tried first.
pub open spec fn first_try(count: usize) -> Option<usize> {
    if count == 0 {
        None
    } else {
        Some(0)
    }
}

/// The first address is tried first, and without any there is nothing to try.
pub proof fn lemma_first_try(count: usize)
    ensures
        first_try(count) is None <==> count == 0,
        count > 0 ==> first_try(count) == Some(0usize),
{
}

} // verus!
