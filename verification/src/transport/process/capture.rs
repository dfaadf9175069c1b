//! The bounded copy of one stream, and the sinks that keep one.
//!
//! A capture never unbounds: whatever the mode, the bytes kept in memory are a
//! prefix plus, where the completion marker needs it, a fixed-size suffix. Every
//! byte is counted, so a truncated body still reports the true size.
use vstd::prelude::*;
use crate::text::{append_bytes, append_range, slice_bytes};

verus! {

/// How many bytes of a stream's end a buffered capture keeps: enough for one
/// completion marker, which is a property of rhost's own protocol rather than
/// of the command.
pub const TAIL_KEEP: usize = 256;

/// How much of a stream is retained in memory.
#[derive(Debug, Clone, Copy, PartialEq, Eq, Structural)]
pub enum Keep {
    /// A buffered run has to keep the completion marker at the end of stdout
    /// readable, so a capped capture keeps a prefix *and* a protocol-sized
    /// suffix.
    PrefixAndMarkerTail,
    /// A streamed run filters the markers out before capturing, so a prefix is
    /// enough.
    Prefix,
    /// Count only.
    Nothing,
}

/// The retained prefix of `seen`: all of it when `limit` is 0, nothing when
/// only counting.
pub open spec fn spec_head(seen: Seq<u8>, limit: nat, keep: Keep) -> Seq<u8> {
    if keep == Keep::Nothing {
        Seq::empty()
    } else if limit == 0 || seen.len() <= limit {
        seen
    } else {
        seen.take(limit as int)
    }
}

/// The retained suffix of `seen`: the last `TAIL_KEEP` bytes past the prefix,
/// kept only by a capped buffered capture.
pub open spec fn spec_tail(seen: Seq<u8>, limit: nat, keep: Keep) -> Seq<u8> {
    if keep == Keep::PrefixAndMarkerTail && limit > 0 && seen.len() > limit {
        let from = if seen.len() - TAIL_KEEP > limit {
            seen.len() - TAIL_KEEP
        } else {
            limit as int
        };
        seen.subrange(from, seen.len() as int)
    } else {
        Seq::empty()
    }
}

/// What a capture hands back: the prefix, followed by the suffix where one is
/// kept.
pub open spec fn spec_body(seen: Seq<u8>, limit: nat, keep: Keep) -> Seq<u8> {
    spec_head(seen, limit, keep) + spec_tail(seen, limit, keep)
}

/// Keeps a bounded copy of a byte stream while counting every byte seen.
pub struct Capture {
    limit: usize,
    keep: Keep,
    head: Vec<u8>,
    tail: Vec<u8>,
    total: u64,
    seen: Ghost<Seq<u8>>,
}

impl View for Capture {
    type V = Seq<u8>;

    /// Every byte observed so far, in order.
    closed spec fn view(&self) -> Seq<u8> {
        self.seen@
    }
}

impl Capture {
    /// The cap this capture was made with.
    pub closed spec fn spec_limit(&self) -> nat {
        self.limit as nat
    }

    /// The mode this capture was made with.
    pub closed spec fn spec_keep(&self) -> Keep {
        self.keep
    }

    /// The kept bytes and the count agree with what was observed.
    pub closed spec fn wf(&self) -> bool {
        &&& self.total as nat == self.seen@.len()
        &&& self.head@ == spec_head(self.seen@, self.limit as nat, self.keep)
        &&& self.tail@ == spec_tail(self.seen@, self.limit as nat, self.keep)
    }

    /// A `limit` of 0 keeps everything the mode retains.
    pub fn new(limit: usize, keep: Keep) -> (r: Self)
        ensures
            r.wf(),
            r@ == Seq::<u8>::empty(),
            r.spec_limit() == limit,
            r.spec_keep() == keep,
    {
        Capture { limit, keep, head: Vec::new(), tail: Vec::new(), total: 0, seen: Ghost(Seq::empty()) }
    }

    /// Counts `bytes` and keeps what the mode retains of them.
    pub fn observe(&mut self, bytes: &[u8])
        requires
            old(self).wf(),
            old(self)@.len() + bytes@.len() <= u64::MAX,
        ensures
            final(self).wf(),
            final(self)@ == old(self)@ + bytes@,
            final(self).spec_limit() == old(self).spec_limit(),
            final(self).spec_keep() == old(self).spec_keep(),
    {
        let ghost s = self.seen@;
        let ghost t = s + bytes@;
        self.total = self.total + bytes.len() as u64;
        self.seen = Ghost(t);
        if matches!(self.keep, Keep::Nothing) {
            return;
        }
        if self.limit == 0 {
            append_bytes(&mut self.head, bytes);
            return;
        }
        let mut from: usize = 0;
        if self.limit > self.head.len() {
            let room = self.limit - self.head.len();
            let take = if room < bytes.len() { room } else { bytes.len() };
            append_range(&mut self.head, bytes, 0, take);
            from = take;
            assert(self.head@ =~= spec_head(t, self.limit as nat, self.keep));
        } else {
            assert(s.len() >= self.limit);
            assert(t.take(self.limit as int) =~= s.take(self.limit as int));
            assert(self.head@ =~= spec_head(t, self.limit as nat, self.keep));
        }
        if from == bytes.len() || !matches!(self.keep, Keep::PrefixAndMarkerTail) {
            assert(self.tail@ =~= spec_tail(t, self.limit as nat, self.keep));
            return;
        }
        // Here the prefix is full and `bytes[from..]` lies past it.
        assert(s.len() + from >= self.limit);
        let rest = bytes.len() - from;
        if rest >= TAIL_KEEP {
            let mut tail: Vec<u8> = Vec::new();
            append_range(&mut tail, bytes, bytes.len() - TAIL_KEEP, bytes.len());
            self.tail = tail;
            assert(self.tail@ =~= spec_tail(t, self.limit as nat, self.keep));
        } else {
            let overflow = if self.tail.len() + rest > TAIL_KEEP {
                self.tail.len() + rest - TAIL_KEEP
            } else {
                0
            };
            let mut tail = slice_bytes(self.tail.as_slice(), overflow, self.tail.len());
            append_range(&mut tail, bytes, from, bytes.len());
            self.tail = tail;
            assert(self.tail@ =~= spec_tail(t, self.limit as nat, self.keep));
        }
    }

    /// The retained prefix, followed by the retained suffix where one is kept.
    /// The two are contiguous whenever the total stayed inside limit +
    /// `TAIL_KEEP`: output that only just exceeded the cap arrives whole.
    pub fn body(&self) -> (r: Vec<u8>)
        requires
            self.wf(),
        ensures
            r@ == spec_body(self@, self.spec_limit(), self.spec_keep()),
    {
        let mut out: Vec<u8> = Vec::new();
        append_bytes(&mut out, self.head.as_slice());
        append_bytes(&mut out, self.tail.as_slice());
        out
    }

    /// Every byte observed, kept or not.
    pub fn total(&self) -> (r: u64)
        requires
            self.wf(),
        ensures
            r as nat == self@.len(),
    {
        self.total
    }
}

/// A capture is bounded: with a cap, what it keeps never exceeds the cap plus
/// one marker-sized suffix, whatever was observed.
pub proof fn lemma_body_bounded(seen: Seq<u8>, limit: nat, keep: Keep)
    requires
        limit > 0,
    ensures
        spec_body(seen, limit, keep).len() <= limit + TAIL_KEEP,
        keep != Keep::PrefixAndMarkerTail ==> spec_body(seen, limit, keep).len() <= limit,
{
}

/// Output that stayed inside the cap (plus the marker-sized suffix for a
/// buffered capture) arrives whole: the kept prefix and suffix are contiguous.
pub proof fn lemma_body_whole(seen: Seq<u8>, limit: nat, keep: Keep)
    requires
        keep != Keep::Nothing,
        limit == 0 || seen.len() <= limit || (keep == Keep::PrefixAndMarkerTail && seen.len()
            <= limit + TAIL_KEEP),
    ensures
        spec_body(seen, limit, keep) == seen,
{
    if keep == Keep::PrefixAndMarkerTail && limit > 0 && seen.len() > limit {
        assert(seen.take(limit as int) + seen.subrange(limit as int, seen.len() as int) =~= seen);
    } else {
        assert(spec_body(seen, limit, keep) =~= seen);
    }
}

/// What one stream does with the bytes it receives. Implemented by plain
/// forwarding for a human, by a recorder that only keeps, and by the
/// marker-filtering completion stream for an agent.
pub trait Stream {
    /// Whether `n` more bytes can be taken: the stream is well formed and its
    /// byte count stays inside `u64`.
    spec fn accepts(&self, n: nat) -> bool;

    /// Takes one read's bytes and answers the bytes to forward to the human
    /// sink.
    fn feed(&mut self, bytes: &[u8]) -> (forward: Vec<u8>)
        requires
            old(self).accepts(bytes@.len()),
    ;

    /// Called once, after the child's output end reached EOF; answers what is
    /// still to be forwarded.
    fn finish(&mut self) -> (forward: Vec<u8>)
        requires
            old(self).accepts(0),
    ;
}

/// Forwards bytes to a caller-owned sink while keeping a bounded copy. The
/// sink itself belongs to the caller: [`Stream::feed`] answers the bytes to
/// write to it.
pub struct Tap {
    capture: Capture,
}

impl View for Tap {
    type V = Seq<u8>;

    /// Every byte fed so far.
    closed spec fn view(&self) -> Seq<u8> {
        self.capture@
    }
}

impl Tap {
    /// The tap is consistent with what it was fed.
    pub closed spec fn wf(&self) -> bool {
        self.capture.wf()
    }

    /// The cap this tap keeps under.
    pub closed spec fn spec_limit(&self) -> nat {
        self.capture.spec_limit()
    }

    /// How much of its stream this tap keeps.
    pub closed spec fn spec_keep(&self) -> Keep {
        self.capture.spec_keep()
    }

    pub fn new(limit: usize, keep: Keep) -> (r: Self)
        ensures
            r.wf(),
            r@ == Seq::<u8>::empty(),
            r.spec_limit() == limit,
            r.spec_keep() == keep,
    {
        Tap { capture: Capture::new(limit, keep) }
    }

    /// The kept copy of everything fed.
    pub fn body(&self) -> (r: Vec<u8>)
        requires
            self.wf(),
        ensures
            r@ == spec_body(self@, self.spec_limit(), self.spec_keep()),
    {
        self.capture.body()
    }

    /// Every byte fed.
    pub fn total(&self) -> (r: u64)
        requires
            self.wf(),
        ensures
            r as nat == self@.len(),
    {
        self.capture.total()
    }
}

impl Stream for Tap {
    open spec fn accepts(&self, n: nat) -> bool {
        self.wf() && self@.len() + n <= u64::MAX
    }

    /// Keeps a copy and forwards every byte.
    fn feed(&mut self, bytes: &[u8]) -> (forward: Vec<u8>)
        ensures
            final(self).wf(),
            final(self)@ == old(self)@ + bytes@,
            final(self).spec_limit() == old(self).spec_limit(),
            final(self).spec_keep() == old(self).spec_keep(),
            forward@ == bytes@,
    {
        self.capture.observe(bytes);
        let mut forward: Vec<u8> = Vec::new();
        append_bytes(&mut forward, bytes);
        assert(forward@ =~= bytes@);
        forward
    }

    /// A tap holds nothing back.
    fn finish(&mut self) -> (forward: Vec<u8>)
        ensures
            *final(self) == *old(self),
            forward@ == Seq::<u8>::empty(),
    {
        Vec::new()
    }
}

/// Keeps a bounded copy of a stream for callers that read the whole result once
/// the child is gone: a buffered capture that forwards nothing.
pub struct Recorder(Tap);

impl View for Recorder {
    type V = Seq<u8>;

    /// Every byte fed so far.
    closed spec fn view(&self) -> Seq<u8> {
        self.0@
    }
}

impl Recorder {
    /// The recorder is consistent with what it was fed.
    pub closed spec fn wf(&self) -> bool {
        self.0.wf() && self.0.spec_keep() == Keep::PrefixAndMarkerTail
    }

    /// The cap this recorder keeps under.
    pub closed spec fn spec_limit(&self) -> nat {
        self.0.spec_limit()
    }

    pub fn new(limit: usize) -> (r: Self)
        ensures
            r.wf(),
            r@ == Seq::<u8>::empty(),
            r.spec_limit() == limit,
    {
        Recorder(Tap::new(limit, Keep::PrefixAndMarkerTail))
    }

    /// The kept prefix and marker-sized suffix of everything fed.
    pub fn body(&self) -> (r: Vec<u8>)
        requires
            self.wf(),
        ensures
            r@ == spec_body(self@, self.spec_limit(), Keep::PrefixAndMarkerTail),
    {
        self.0.body()
    }

    /// Every byte fed.
    pub fn total(&self) -> (r: u64)
        requires
            self.wf(),
        ensures
            r as nat == self@.len(),
    {
        self.0.total()
    }
}

impl Stream for Recorder {
    open spec fn accepts(&self, n: nat) -> bool {
        self.wf() && self@.len() + n <= u64::MAX
    }

    /// Keeps a copy; nothing is forwarded.
    fn feed(&mut self, bytes: &[u8]) -> (forward: Vec<u8>)
        ensures
            final(self).wf(),
            final(self)@ == old(self)@ + bytes@,
            final(self).spec_limit() == old(self).spec_limit(),
            forward@ == Seq::<u8>::empty(),
    {
        let _ = self.0.feed(bytes);
        Vec::new()
    }

    /// A recorder holds nothing back.
    fn finish(&mut self) -> (forward: Vec<u8>)
        ensures
            *final(self) == *old(self),
            forward@ == Seq::<u8>::empty(),
    {
        Vec::new()
    }
}

} // verus!
