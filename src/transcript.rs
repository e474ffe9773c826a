//! The chunked record of one session's traffic, and a socket that replays it.
//!
//! Reads and writes are kept as two separate sequences of chunks, each chunk
//! exactly as one socket call moved it. Replaying serves the read chunks in
//! order and checks each write against the next write chunk.

use vstd::prelude::*;

verus! {

/// The traffic of a session as values: the chunks read and the chunks
/// written, each in the order they crossed the wire.
pub ghost struct TranscriptView {
    pub reads: Seq<Seq<u8>>,
    pub writes: Seq<Seq<u8>>,
}

pub struct Transcript {
    reads: Vec<Vec<u8>>,
    writes: Vec<Vec<u8>>,
}

/// Why a replayed socket call failed: the replayed run has diverged from the
/// recorded one.
#[derive(Debug, Clone, Copy, PartialEq, Eq)]
pub enum ReplayError {
    /// A read was asked for after the last recorded read chunk.
    ReadsExhausted,
    /// A write was made after the last recorded write chunk.
    WritesExhausted,
    /// The caller's buffer cannot hold the next recorded read chunk.
    BufferTooSmall,
    /// A write differs from the next recorded write chunk.
    WriteMismatch,
}

/// A replaying socket as a value: the recorded traffic and how many read and
/// write chunks have been replayed.
pub ghost struct ReplayView {
    pub reads: Seq<Seq<u8>>,
    pub writes: Seq<Seq<u8>>,
    pub read_cursor: nat,
    pub write_cursor: nat,
}

/// A socket that plays a transcript back; it touches no network.
pub struct EmulatedSocket {
    transcript: Transcript,
    read_cursor: usize,
    write_cursor: usize,
}

/// A replaying socket at the start of `t`.
pub open spec fn replay_start(t: TranscriptView) -> ReplayView {
    ReplayView { reads: t.reads, writes: t.writes, read_cursor: 0, write_cursor: 0 }
}

/// What a read into a buffer of `cap` bytes delivers: the next recorded read
/// chunk whole, or the reason it cannot.
pub open spec fn read_outcome(v: ReplayView, cap: nat) -> Result<Seq<u8>, ReplayError> {
    if v.read_cursor >= v.reads.len() {
        Err(ReplayError::ReadsExhausted)
    } else if v.reads[v.read_cursor as int].len() > cap {
        Err(ReplayError::BufferTooSmall)
    } else {
        Ok(v.reads[v.read_cursor as int])
    }
}

/// What a write of `data` comes to: accepted if it equals the next recorded
/// write chunk.
pub open spec fn write_outcome(v: ReplayView, data: Seq<u8>) -> Result<(), ReplayError> {
    if v.write_cursor >= v.writes.len() {
        Err(ReplayError::WritesExhausted)
    } else if v.writes[v.write_cursor as int] != data {
        Err(ReplayError::WriteMismatch)
    } else {
        Ok(())
    }
}

pub open spec fn after_read(v: ReplayView) -> ReplayView {
    ReplayView { read_cursor: v.read_cursor + 1, ..v }
}

pub open spec fn after_write(v: ReplayView) -> ReplayView {
    ReplayView { write_cursor: v.write_cursor + 1, ..v }
}

/// Copies the first `n` bytes of a slice into a new vector.
fn prefix_of(s: &[u8], n: usize) -> (r: Vec<u8>)
    requires
        n <= s@.len(),
    ensures
        r@ == s@.subrange(0, n as int),
{
    let mut r: Vec<u8> = Vec::with_capacity(n);
    let mut i: usize = 0;
    while i < n
        invariant
            i <= n,
            n <= s@.len(),
            r@ == s@.subrange(0, i as int),
        decreases n - i,
    {
        r.push(s[i]);
        i = i + 1;
    }
    r
}

/// The byte contents of a sequence of chunks.
pub open spec fn chunk_contents(v: Seq<Vec<u8>>) -> Seq<Seq<u8>> {
    v.map_values(|c: Vec<u8>| c@)
}

impl Transcript {
    pub closed spec fn view(&self) -> TranscriptView {
        TranscriptView { reads: chunk_contents(self.reads@), writes: chunk_contents(self.writes@) }
    }

    /// An empty transcript.
    pub fn new() -> (r: Self)
        ensures
            r@.reads == Seq::<Seq<u8>>::empty(),
            r@.writes == Seq::<Seq<u8>>::empty(),
    {
        let r = Transcript { reads: Vec::new(), writes: Vec::new() };
        assert(r@.reads =~= Seq::<Seq<u8>>::empty());
        assert(r@.writes =~= Seq::<Seq<u8>>::empty());
        r
    }

    /// A transcript holding the given chunks.
    pub fn from_chunks(reads: Vec<Vec<u8>>, writes: Vec<Vec<u8>>) -> (r: Self)
        ensures
            r@.reads == chunk_contents(reads@),
            r@.writes == chunk_contents(writes@),
    {
        Transcript { reads, writes }
    }

    /// Appends the first `count` bytes of `buf`, the part that one socket
    /// call filled, as one chunk read from the wire.
    pub fn record_read(&mut self, buf: &[u8], count: usize)
        requires
            count <= buf@.len(),
        ensures
            final(self)@.reads == old(self)@.reads.push(buf@.subrange(0, count as int)),
            final(self)@.writes == old(self)@.writes,
    {
        let c = prefix_of(buf, count);
        self.reads.push(c);
        assert(self@.reads =~= old(self)@.reads.push(buf@.subrange(0, count as int)));
    }

    /// Appends the first `count` bytes of `buf`, the part that one socket
    /// call sent, as one chunk written to the wire.
    pub fn record_write(&mut self, buf: &[u8], count: usize)
        requires
            count <= buf@.len(),
        ensures
            final(self)@.writes == old(self)@.writes.push(buf@.subrange(0, count as int)),
            final(self)@.reads == old(self)@.reads,
    {
        let c = prefix_of(buf, count);
        self.writes.push(c);
        assert(self@.writes =~= old(self)@.writes.push(buf@.subrange(0, count as int)));
    }

    /// The chunks read, in order.
    pub fn reads(&self) -> (r: &Vec<Vec<u8>>)
        ensures
            chunk_contents(r@) == self@.reads,
    {
        &self.reads
    }

    /// The chunks written, in order.
    pub fn writes(&self) -> (r: &Vec<Vec<u8>>)
        ensures
            chunk_contents(r@) == self@.writes,
    {
        &self.writes
    }
}

impl Clone for Transcript {
    fn clone(&self) -> (r: Self)
        ensures
            r@ == self@,
    {
        let mut reads: Vec<Vec<u8>> = Vec::new();
        let mut i: usize = 0;
        while i < self.reads.len()
            invariant
                i <= self.reads@.len(),
                reads@.len() == i,
                forall|k: int| 0 <= k < i ==> #[trigger] reads@[k]@ == self.reads@[k]@,
            decreases self.reads@.len() - i,
        {
            let c = self.reads[i].as_slice();
            let copy = prefix_of(c, c.len());
            assert(copy@ =~= self.reads@[i as int]@);
            reads.push(copy);
            i = i + 1;
        }
        let mut writes: Vec<Vec<u8>> = Vec::new();
        let mut j: usize = 0;
        while j < self.writes.len()
            invariant
                j <= self.writes@.len(),
                writes@.len() == j,
                forall|k: int| 0 <= k < j ==> #[trigger] writes@[k]@ == self.writes@[k]@,
            decreases self.writes@.len() - j,
        {
            let c = self.writes[j].as_slice();
            let copy = prefix_of(c, c.len());
            assert(copy@ =~= self.writes@[j as int]@);
            writes.push(copy);
            j = j + 1;
        }
        assert(chunk_contents(reads@) =~= chunk_contents(self.reads@));
        assert(chunk_contents(writes@) =~= chunk_contents(self.writes@));
        Transcript { reads, writes }
    }
}

impl EmulatedSocket {
    pub closed spec fn view(&self) -> ReplayView {
        ReplayView {
            reads: self.transcript@.reads,
            writes: self.transcript@.writes,
            read_cursor: self.read_cursor as nat,
            write_cursor: self.write_cursor as nat,
        }
    }

    /// A socket that replays `transcript` from its first chunks.
    pub fn new(transcript: Transcript) -> (r: Self)
        ensures
            r@ == replay_start(transcript@),
    {
        EmulatedSocket { transcript, read_cursor: 0, write_cursor: 0 }
    }

    /// Whether a read into a buffer of `cap` bytes would be served, and if
    /// not, why: the replayed run has diverged.
    pub fn read_check(&self, cap: usize) -> (r: Result<(), ReplayError>)
        ensures
            r == (match read_outcome(self@, cap as nat) {
                Ok(_) => Ok::<(), ReplayError>(()),
                Err(e) => Err(e),
            }),
    {
        if self.read_cursor >= self.transcript.reads.len() {
            Err(ReplayError::ReadsExhausted)
        } else if self.transcript.reads[self.read_cursor].len() > cap {
            Err(ReplayError::BufferTooSmall)
        } else {
            Ok(())
        }
    }

    /// Whether a write of `buf` would be accepted, and if not, why: the
    /// replayed run has diverged.
    pub fn write_check(&self, buf: &[u8]) -> (r: Result<(), ReplayError>)
        ensures
            r == write_outcome(self@, buf@),
    {
        if self.write_cursor >= self.transcript.writes.len() {
            return Err(ReplayError::WritesExhausted);
        }
        let chunk = &self.transcript.writes[self.write_cursor];
        assert(chunk@ == self@.writes[self.write_cursor as int]);
        if chunk.len() != buf.len() {
            return Err(ReplayError::WriteMismatch);
        }
        let n = chunk.len();
        let mut i: usize = 0;
        while i < n
            invariant
                n == chunk@.len(),
                n == buf@.len(),
                i <= n,
                self.write_cursor < self@.writes.len(),
                chunk@ == self@.writes[self.write_cursor as int],
                forall|j: int| 0 <= j < i ==> buf@[j] == chunk@[j],
            decreases n - i,
        {
            if chunk[i] != buf[i] {
                assert(chunk@[i as int] != buf@[i as int]);
                return Err(ReplayError::WriteMismatch);
            }
            i = i + 1;
        }
        assert(chunk@ =~= buf@);
        Ok(())
    }

    /// Serves the next recorded read chunk into the front of `buf` and
    /// returns its length. A read that `read_check` refuses is a divergence
    /// of the replayed run and is ruled out here.
    pub fn read(&mut self, buf: &mut [u8]) -> (r: usize)
        requires
            read_outcome(old(self)@, old(buf)@.len()) is Ok,
        ensures
            final(buf)@.len() == old(buf)@.len(),
            read_outcome(old(self)@, old(buf)@.len()) matches Ok(chunk) && r == chunk.len()
                && final(buf)@ == chunk + old(buf)@.subrange(chunk.len() as int, old(buf)@.len() as int),
            final(self)@ == after_read(old(self)@),
    {
        let chunk = &self.transcript.reads[self.read_cursor];
        assert(chunk@ == self@.reads[self.read_cursor as int]);
        let n = chunk.len();
        let mut i: usize = 0;
        while i < n
            invariant
                n == chunk@.len(),
                n <= buf@.len(),
                buf@.len() == old(buf)@.len(),
                i <= n,
                forall|j: int| 0 <= j < i ==> buf@[j] == chunk@[j],
                forall|j: int| n <= j < buf@.len() ==> buf@[j] == old(buf)@[j],
            decreases n - i,
        {
            buf[i] = chunk[i];
            i = i + 1;
        }
        assert(buf@ =~= chunk@ + old(buf)@.subrange(n as int, old(buf)@.len() as int));
        let total = self.transcript.reads.len();
        assert(self.read_cursor < total);
        self.read_cursor = self.read_cursor + 1;
        n
    }

    /// Takes `buf` as the next recorded write chunk and returns its length.
    /// A write that `write_check` refuses is a divergence of the replayed run
    /// and is ruled out here.
    pub fn write(&mut self, buf: &[u8]) -> (r: usize)
        requires
            write_outcome(old(self)@, buf@) is Ok,
        ensures
            r == buf@.len(),
            final(self)@ == after_write(old(self)@),
    {
        let total = self.transcript.writes.len();
        assert(self.write_cursor < total);
        self.write_cursor = self.write_cursor + 1;
        buf.len()
    }

    /// Nothing is buffered, so there is nothing to flush.
    pub fn flush(&mut self) -> (r: Result<(), ReplayError>)
        ensures
            r == Ok::<(), ReplayError>(()),
            final(self)@ == old(self)@,
    {
        Ok(())
    }

    /// Whether every recorded chunk, in both directions, has been replayed.
    pub fn is_finished(&self) -> (r: bool)
        ensures
            r == (self@.read_cursor >= self@.reads.len() && self@.write_cursor >= self@.writes.len()),
    {
        self.read_cursor >= self.transcript.reads.len()
            && self.write_cursor >= self.transcript.writes.len()
    }
}

/// One socket call of a session, with the bytes it moved.
pub ghost enum SocketCall {
    Read(Seq<u8>),
    Write(Seq<u8>),
}

/// The chunks that the reads among `calls` moved, in order.
pub open spec fn reads_of(calls: Seq<SocketCall>) -> Seq<Seq<u8>>
    decreases calls.len(),
{
    if calls.len() == 0 {
        Seq::empty()
    } else {
        match calls[0] {
            SocketCall::Read(c) => seq![c] + reads_of(calls.drop_first()),
            SocketCall::Write(_) => reads_of(calls.drop_first()),
        }
    }
}

/// The chunks that the writes among `calls` moved, in order.
pub open spec fn writes_of(calls: Seq<SocketCall>) -> Seq<Seq<u8>>
    decreases calls.len(),
{
    if calls.len() == 0 {
        Seq::empty()
    } else {
        match calls[0] {
            SocketCall::Read(_) => writes_of(calls.drop_first()),
            SocketCall::Write(c) => seq![c] + writes_of(calls.drop_first()),
        }
    }
}

/// The transcript `t` after recording `calls` one by one, with
/// `Transcript::record_read` and `Transcript::record_write`.
pub open spec fn capture(t: TranscriptView, calls: Seq<SocketCall>) -> TranscriptView
    decreases calls.len(),
{
    if calls.len() == 0 {
        t
    } else {
        let next = match calls[0] {
            SocketCall::Read(c) => TranscriptView { reads: t.reads.push(c), ..t },
            SocketCall::Write(c) => TranscriptView { writes: t.writes.push(c), ..t },
        };
        capture(next, calls.drop_first())
    }
}

/// Whether making `calls` one by one on a replaying socket in state `v`
/// succeeds, every read (into a buffer of the chunk's size) returning its
/// chunk and every write being accepted.
pub open spec fn replays(v: ReplayView, calls: Seq<SocketCall>) -> bool
    decreases calls.len(),
{
    if calls.len() == 0 {
        true
    } else {
        match calls[0] {
            SocketCall::Read(c) => read_outcome(v, c.len()) == Ok::<Seq<u8>, ReplayError>(c)
                && replays(after_read(v), calls.drop_first()),
            SocketCall::Write(c) => write_outcome(v, c) == Ok::<(), ReplayError>(())
                && replays(after_write(v), calls.drop_first()),
        }
    }
}

proof fn lemma_capture(t: TranscriptView, calls: Seq<SocketCall>)
    ensures
        capture(t, calls).reads == t.reads + reads_of(calls),
        capture(t, calls).writes == t.writes + writes_of(calls),
    decreases calls.len(),
{
    if calls.len() == 0 {
        assert(t.reads + reads_of(calls) =~= t.reads);
        assert(t.writes + writes_of(calls) =~= t.writes);
    } else {
        let rest = calls.drop_first();
        match calls[0] {
            SocketCall::Read(c) => {
                lemma_capture(TranscriptView { reads: t.reads.push(c), ..t }, rest);
                assert(t.reads.push(c) + reads_of(rest) =~= t.reads + (seq![c] + reads_of(rest)));
            },
            SocketCall::Write(c) => {
                lemma_capture(TranscriptView { writes: t.writes.push(c), ..t }, rest);
                assert(t.writes.push(c) + writes_of(rest) =~= t.writes + (seq![c] + writes_of(rest)));
            },
        }
    }
}

proof fn lemma_replays(v: ReplayView, calls: Seq<SocketCall>)
    requires
        v.read_cursor <= v.reads.len(),
        v.write_cursor <= v.writes.len(),
        v.reads.subrange(v.read_cursor as int, v.reads.len() as int) == reads_of(calls),
        v.writes.subrange(v.write_cursor as int, v.writes.len() as int) == writes_of(calls),
    ensures
        replays(v, calls),
    decreases calls.len(),
{
    if calls.len() > 0 {
        let rest = calls.drop_first();
        match calls[0] {
            SocketCall::Read(c) => {
                let tail = v.reads.subrange(v.read_cursor as int, v.reads.len() as int);
                assert(reads_of(calls) == seq![c] + reads_of(rest));
                assert(writes_of(calls) == writes_of(rest));
                assert((seq![c] + reads_of(rest)).drop_first() =~= reads_of(rest));
                assert(tail[0] == c);
                assert(tail.drop_first() =~= v.reads.subrange((v.read_cursor + 1) as int, v.reads.len() as int));
                lemma_replays(after_read(v), rest);
            },
            SocketCall::Write(c) => {
                let tail = v.writes.subrange(v.write_cursor as int, v.writes.len() as int);
                assert(writes_of(calls) == seq![c] + writes_of(rest));
                assert(reads_of(calls) == reads_of(rest));
                assert((seq![c] + writes_of(rest)).drop_first() =~= writes_of(rest));
                assert(tail[0] == c);
                assert(tail.drop_first() =~= v.writes.subrange((v.write_cursor + 1) as int, v.writes.len() as int));
                lemma_replays(after_write(v), rest);
            },
        }
    }
}

/// Replay keeps each direction's own order and nothing else: a session
/// recorded from an empty transcript replays any run of calls that reads the
/// same chunks in the same order and writes the same chunks in the same
/// order, however the reads and writes interleave.
pub proof fn replay_follows_each_direction(recorded: Seq<SocketCall>, replayed: Seq<SocketCall>)
    requires
        reads_of(replayed) == reads_of(recorded),
        writes_of(replayed) == writes_of(recorded),
    ensures
        replays(
            replay_start(capture(TranscriptView { reads: Seq::empty(), writes: Seq::empty() }, recorded)),
            replayed,
        ),
{
    let empty = TranscriptView { reads: Seq::empty(), writes: Seq::empty() };
    lemma_capture(empty, recorded);
    let v = replay_start(capture(empty, recorded));
    assert(v.reads.subrange(0, v.reads.len() as int) =~= reads_of(recorded));
    assert(v.writes.subrange(0, v.writes.len() as int) =~= writes_of(recorded));
    lemma_replays(v, replayed);
}

/// Recording a session and replaying the same calls on a socket made from
/// the recording succeeds: every read returns its recorded chunk and every
/// write matches.
pub proof fn replay_of_capture_succeeds(calls: Seq<SocketCall>)
    ensures
        replays(replay_start(capture(TranscriptView { reads: Seq::empty(), writes: Seq::empty() }, calls)), calls),
{
    replay_follows_each_direction(calls, calls);
}

/// A write that differs from the recorded chunk in a single byte is refused.
pub proof fn altered_write_is_refused(v: ReplayView, i: int, b: u8)
    requires
        v.write_cursor < v.writes.len(),
        0 <= i < v.writes[v.write_cursor as int].len(),
        v.writes[v.write_cursor as int][i] != b,
    ensures
        write_outcome(v, v.writes[v.write_cursor as int].update(i, b))
            == Err::<(), ReplayError>(ReplayError::WriteMismatch),
{
    let c = v.writes[v.write_cursor as int];
    assert(c.update(i, b)[i] != c[i]);
}

/// A read into a buffer shorter than the next recorded chunk is refused,
/// rather than handing out part of the chunk.
pub proof fn short_read_is_refused(v: ReplayView, cap: nat)
    requires
        v.read_cursor < v.reads.len(),
        cap < v.reads[v.read_cursor as int].len(),
    ensures
        read_outcome(v, cap) == Err::<Seq<u8>, ReplayError>(ReplayError::BufferTooSmall),
{
}

} // verus!
