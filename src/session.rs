//! What one session decides: which time source, socket and seed a mode
//! brings, and how the plaintext read loop reacts to the TLS engine.

use crate::random::{seeded, RandomSource};
use crate::time::{TimeSource, TimeState};
use crate::transcript::{replay_start, EmulatedSocket, Transcript};
use vstd::prelude::*;

verus! {

/// How a session runs: live, recording what it consumes, or replaying a
/// recording.
pub enum SessionMode {
    Capture,
    Replay { seed: [u8; 32], times: Vec<u64>, transcript: Transcript },
}

/// Copies a vector of timestamps.
fn copy_times(v: &Vec<u64>) -> (r: Vec<u64>)
    ensures
        r@ == v@,
{
    let mut r: Vec<u64> = Vec::with_capacity(v.len());
    let mut i: usize = 0;
    while i < v.len()
        invariant
            i <= v@.len(),
            r@ == v@.subrange(0, i as int),
        decreases v@.len() - i,
    {
        r.push(v[i]);
        i = i + 1;
    }
    assert(r@ =~= v@);
    r
}

impl SessionMode {
    /// The time source of a session in this mode: one that records from an
    /// empty log, or one that replays the recorded timestamps from the first.
    pub fn time_source(&self) -> (r: TimeSource)
        ensures
            r@ == (match self {
                SessionMode::Capture => TimeState::Record { log: Seq::empty() },
                SessionMode::Replay { times, .. } => TimeState::Replay { next: 0, log: times@ },
            }),
    {
        match self {
            SessionMode::Capture => TimeSource::record(),
            SessionMode::Replay { times, .. } => TimeSource::replay(copy_times(times)),
        }
    }

    /// The replaying socket of a session in this mode, at the start of the
    /// recorded transcript; none in capture mode, which opens a real one.
    pub fn replay_socket(&self) -> (r: Option<EmulatedSocket>)
        ensures
            match self {
                SessionMode::Capture => r is None,
                SessionMode::Replay { transcript, .. } => r matches Some(s) && s@ == replay_start(transcript@),
            },
    {
        match self {
            SessionMode::Capture => None,
            SessionMode::Replay { transcript, .. } => Some(EmulatedSocket::new(transcript.clone())),
        }
    }

    /// Seeds `source` before the session starts and returns the seed used:
    /// `entropy`, fresh from the system, in capture mode, so that it can be
    /// kept; the recorded seed in replay mode.
    pub fn install_seed(&self, source: &mut RandomSource, entropy: [u8; 32]) -> (r: [u8; 32])
        ensures
            r == (match self {
                SessionMode::Capture => entropy,
                SessionMode::Replay { seed, .. } => *seed,
            }),
            final(source)@ == seeded(r@),
    {
        let seed = match self {
            SessionMode::Capture => entropy,
            SessionMode::Replay { seed, .. } => *seed,
        };
        source.seed_with(seed);
        seed
    }
}

/// What reading decoded plaintext from the TLS engine gave.
#[derive(Debug, Clone, Copy, PartialEq, Eq)]
pub enum PlainRead {
    /// This many bytes of plaintext.
    Data(usize),
    /// No plaintext yet: the engine would have to wait for more records.
    WouldBlock,
    /// Any other failure.
    Failed,
}

/// Why a plaintext read ends without data.
#[derive(Debug, Clone, Copy, PartialEq, Eq)]
pub enum ReadFailure {
    /// The engine refused the ciphertext it was given.
    Decode,
    /// The engine's plaintext read failed for another reason.
    Engine,
}

/// What the plaintext read loop does next.
#[derive(Debug, Clone, Copy, PartialEq, Eq)]
pub enum ReadStep {
    /// Pull more ciphertext from the socket and try again.
    Retry,
    /// Hand this many bytes to the caller.
    Deliver(usize),
    /// End the read with this failure.
    Fail(ReadFailure),
}

/// One turn of the plaintext read loop, after ciphertext was pulled from the
/// socket: `accepted` is whether the engine processed it, `plain` what the
/// plaintext read then gave. A would-block is never passed on: over a
/// synchronous transport the only way forward is to read more ciphertext.
pub fn read_step(accepted: bool, plain: PlainRead) -> (r: ReadStep)
    ensures
        !accepted ==> r == ReadStep::Fail(ReadFailure::Decode),
        accepted ==> r == (match plain {
            PlainRead::Data(n) => ReadStep::Deliver(n),
            PlainRead::WouldBlock => ReadStep::Retry,
            PlainRead::Failed => ReadStep::Fail(ReadFailure::Engine),
        }),
{
    if !accepted {
        ReadStep::Fail(ReadFailure::Decode)
    } else {
        match plain {
            PlainRead::Data(n) => ReadStep::Deliver(n),
            PlainRead::WouldBlock => ReadStep::Retry,
            PlainRead::Failed => ReadStep::Fail(ReadFailure::Engine),
        }
    }
}

} // verus!
