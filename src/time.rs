//! A time source that either logs the timestamps it hands out or replays a
//! log of them, one per call, in order. Timestamps are seconds since the Unix
//! epoch.

use vstd::prelude::*;

verus! {

/// What a time source is, as a value.
pub ghost enum TimeState {
    /// Hands out the clock's readings and keeps them in `log`.
    Record { log: Seq<u64> },
    /// Hands out `log[next]`, `log[next + 1]`, ... and then nothing; every
    /// call moves `next` on, served or not.
    Replay { next: nat, log: Seq<u64> },
}

pub enum TimeSource {
    Record { log: Vec<u64> },
    Replay { next: usize, log: Vec<u64> },
}

/// The state after one call, `now` being the clock's reading at that call.
pub open spec fn time_after(s: TimeState, now: u64) -> TimeState {
    match s {
        TimeState::Record { log } => TimeState::Record { log: log.push(now) },
        TimeState::Replay { next, log } => TimeState::Replay { next: next + 1, log },
    }
}

/// What one call returns, `now` being the clock's reading at that call.
pub open spec fn time_output(s: TimeState, now: u64) -> Option<u64> {
    match s {
        TimeState::Record { log } => Some(now),
        TimeState::Replay { next, log } => if next < log.len() {
            Some(log[next as int])
        } else {
            None
        },
    }
}

/// What `n` calls of a replaying source return; the clock is not read.
pub open spec fn replay_outputs(s: TimeState, n: nat) -> Seq<Option<u64>>
    decreases n,
{
    if n == 0 {
        Seq::empty()
    } else {
        seq![time_output(s, 0)] + replay_outputs(time_after(s, 0), (n - 1) as nat)
    }
}

impl TimeSource {
    pub closed spec fn view(&self) -> TimeState {
        match self {
            TimeSource::Record { log } => TimeState::Record { log: log@ },
            TimeSource::Replay { next, log } => TimeState::Replay { next: *next as nat, log: log@ },
        }
    }

    /// A source that logs what it hands out, starting from an empty log.
    pub fn record() -> (r: Self)
        ensures
            r@ == (TimeState::Record { log: Seq::empty() }),
    {
        TimeSource::Record { log: Vec::new() }
    }

    /// A source that replays `times` from the first entry on.
    pub fn replay(times: Vec<u64>) -> (r: Self)
        ensures
            r@ == (TimeState::Replay { next: 0, log: times@ }),
    {
        TimeSource::Replay { next: 0, log: times }
    }

    /// The next timestamp. A recording source returns `now`, the clock's
    /// reading, and logs it; a replaying source ignores `now` and returns the
    /// next logged entry, or `None` once the log is used up. The replay
    /// position stops at the largest `usize`, far past any log.
    pub fn current_time(&mut self, now: u64) -> (r: Option<u64>)
        ensures
            r == time_output(old(self)@, now),
            match old(self)@ {
                TimeState::Replay { next, log } => if next < usize::MAX {
                    final(self)@ == time_after(old(self)@, now)
                } else {
                    final(self)@ == old(self)@
                },
                TimeState::Record { .. } => final(self)@ == time_after(old(self)@, now),
            },
    {
        match self {
            TimeSource::Record { log } => {
                log.push(now);
                Some(now)
            },
            TimeSource::Replay { next, log } => {
                let t = if *next < log.len() {
                    Some(log[*next])
                } else {
                    None
                };
                if *next < usize::MAX {
                    *next = *next + 1;
                }
                t
            },
        }
    }

    /// The timestamps logged so far by a recording source; the log a
    /// replaying source was made from.
    pub fn log(&self) -> (r: &Vec<u64>)
        ensures
            r@ == (match self@ {
                TimeState::Record { log } => log,
                TimeState::Replay { next, log } => log,
            }),
    {
        match self {
            TimeSource::Record { log } => log,
            TimeSource::Replay { log, .. } => log,
        }
    }
}

proof fn lemma_replay_from(next: nat, log: Seq<u64>)
    requires
        next <= log.len(),
    ensures
        replay_outputs(TimeState::Replay { next, log }, (log.len() - next + 1) as nat)
            =~= log.subrange(next as int, log.len() as int).map_values(|t: u64| Some(t)).push(None),
    decreases log.len() - next,
{
    let s = TimeState::Replay { next, log };
    let n = (log.len() - next + 1) as nat;
    if next == log.len() {
        assert(replay_outputs(time_after(s, 0), 0) == Seq::<Option<u64>>::empty());
    } else {
        lemma_replay_from(next + 1, log);
        let tail = log.subrange(next as int, log.len() as int).map_values(|t: u64| Some(t)).push(None);
        let rest = log.subrange((next + 1) as int, log.len() as int).map_values(|t: u64| Some(t)).push(None);
        assert(tail =~= seq![Some(log[next as int])] + rest);
    }
}

/// A replaying source made from a log of `k + 1` timestamps returns exactly
/// those timestamps, in order, on its first `k + 1` calls, and nothing on the
/// call after.
pub proof fn replay_returns_log_in_order(times: Seq<u64>)
    ensures
        replay_outputs(TimeState::Replay { next: 0, log: times }, times.len() + 1)
            =~= times.map_values(|t: u64| Some(t)).push(None),
{
    lemma_replay_from(0, times);
    assert(times.subrange(0, times.len() as int) =~= times);
}

} // verus!
