//! The incremental view of one run: the command's own bytes out, markers
//! stripped, source bytes counted.
//!
//! Only the command's own bytes reach the human sink; the wrapper's begin and
//! completion markers are never forwarded. Bytes before the begin marker are
//! login-profile noise and are dropped without being counted, because they are
//! not the command's output either. Everything is counted in *source bytes*.
use vstd::prelude::*;
use crate::domain::InvocationToken;
use crate::text::{
    append_bytes, append_range, bytes_at, find_bytes_from, find_first, find_last, find_last_bytes, lemma_find_first,
    lemma_find_before, occurs_at, slice_bytes,
};
use crate::transport::process::capture::{spec_body, Capture, Keep};
use super::{begin_needle, done_needle, parse_status, spec_parse_status, Separator};

verus! {

// ---------------------------------------------------------------------------
// What a stream means
// ---------------------------------------------------------------------------

/// The command's own stream: everything after the first begin needle, or
/// `None` while no begin needle has been seen.
pub open spec fn after_begin(seen: Seq<u8>, begin: Seq<u8>) -> Option<Seq<u8>> {
    match find_first(seen, begin) {
        Some(b) => Some(seen.subrange(b + begin.len(), seen.len() as int)),
        None => None,
    }
}

/// The last `m` bytes of `data` are the first `m` bytes of `needle`.
pub open spec fn suffix_matches(data: Seq<u8>, needle: Seq<u8>, m: int) -> bool {
    data.subrange(data.len() - m, data.len() as int) == needle.take(m)
}

/// The longest `m <= n` whose suffix of `data` begins `needle`.
pub open spec fn partial_from(data: Seq<u8>, needle: Seq<u8>, n: int) -> int
    decreases n,
{
    if n <= 0 {
        0
    } else if suffix_matches(data, needle, n) {
        n
    } else {
        partial_from(data, needle, n - 1)
    }
}

/// How many trailing bytes of `data` could still grow into `needle`: the
/// longest suffix shorter than the needle that is a prefix of it.
pub open spec fn spec_partial(data: Seq<u8>, needle: Seq<u8>) -> int {
    let cap = if needle.len() - 1 < data.len() {
        needle.len() - 1
    } else {
        data.len() as int
    };
    partial_from(data, needle, cap)
}

/// What has been forwarded once `seen` was read: the command's own bytes up
/// to its completion marker, holding back only a tail that could still grow
/// into one.
pub open spec fn spec_live(seen: Seq<u8>, begin: Seq<u8>, done: Seq<u8>) -> Seq<u8> {
    match after_begin(seen, begin) {
        None => Seq::empty(),
        Some(rest) => match find_first(rest, done) {
            Some(d) => rest.take(d),
            None => rest.take(rest.len() - spec_partial(rest, done)),
        },
    }
}

/// The status a completion marker region carries: read after the last
/// completion needle in it.
pub open spec fn spec_after_done(region: Seq<u8>, done: Seq<u8>) -> Option<int> {
    match find_last(region, done) {
        Some(o) => spec_parse_status(region.subrange(o + done.len(), region.len() as int)),
        None => None,
    }
}

/// The exit status the finished stream proves: a completion needle after the
/// begin needle, followed by a readable status line.
pub open spec fn spec_completion(seen: Seq<u8>, begin: Seq<u8>, done: Seq<u8>) -> Option<int> {
    match after_begin(seen, begin) {
        None => None,
        Some(rest) => match find_first(rest, done) {
            Some(d) => spec_after_done(rest.skip(d), done),
            None => None,
        },
    }
}

/// Everything forwarded once the stream ended: the command's own bytes up to
/// a proven completion marker; without such proof, everything after the begin
/// needle stays visible.
pub open spec fn spec_final(seen: Seq<u8>, begin: Seq<u8>, done: Seq<u8>) -> Seq<u8> {
    match after_begin(seen, begin) {
        None => Seq::empty(),
        Some(rest) => match find_first(rest, done) {
            Some(d) => if spec_after_done(rest.skip(d), done) is Some {
                rest.take(d)
            } else {
                rest
            },
            None => rest,
        },
    }
}

/// An occurrence of `needle` could start at `j` in `h` given what has been
/// read: either it does, or `h` ends inside a prefix of it.
pub open spec fn could_start(h: Seq<u8>, needle: Seq<u8>, j: int) -> bool {
    0 <= j <= h.len() && if j + needle.len() <= h.len() {
        h.subrange(j, j + needle.len()) == needle
    } else {
        h.skip(j) == needle.take(h.len() - j)
    }
}

// ---------------------------------------------------------------------------
// Lemmas
// ---------------------------------------------------------------------------

proof fn lemma_first_is(h: Seq<u8>, n: Seq<u8>, o: int)
    requires
        occurs_at(h, n, o),
        forall|j: int| 0 <= j < o ==> !occurs_at(h, n, j),
    ensures
        find_first(h, n) == Some(o),
{
    lemma_find_first(h, n);
    match find_first(h, n) {
        Some(i) => {
            if i < o {
                assert(!occurs_at(h, n, i));
            }
        },
        None => {
            assert(!occurs_at(h, n, o));
        },
    }
}

proof fn lemma_first_none(h: Seq<u8>, n: Seq<u8>)
    requires
        forall|j: int| 0 <= j ==> !occurs_at(h, n, j),
    ensures
        find_first(h, n) is None,
{
    lemma_find_first(h, n);
    if let Some(i) = find_first(h, n) {
        assert(occurs_at(h, n, i));
    }
}

proof fn lemma_skip_occurs(t: Seq<u8>, n: Seq<u8>, k: int, j: int)
    requires
        0 <= k <= t.len(),
        0 <= j,
    ensures
        occurs_at(t.skip(k), n, j) == occurs_at(t, n, j + k),
{
    if j + n.len() <= t.skip(k).len() {
        assert(t.skip(k).subrange(j, j + n.len()) =~= t.subrange(j + k, j + k + n.len()));
    }
}

proof fn lemma_prefix_occurs(h: Seq<u8>, x: Seq<u8>, n: Seq<u8>, j: int)
    requires
        0 <= j,
        j + n.len() <= h.len(),
    ensures
        occurs_at(h + x, n, j) == occurs_at(h, n, j),
{
    assert((h + x).subrange(j, j + n.len()) =~= h.subrange(j, j + n.len()));
}

/// A prefix of a possible start is still a possible start.
proof fn lemma_could_start_prefix(h: Seq<u8>, x: Seq<u8>, n: Seq<u8>, j: int)
    requires
        0 <= j <= h.len(),
        could_start(h + x, n, j),
    ensures
        could_start(h, n, j),
{
    let t = h + x;
    if j + n.len() <= h.len() {
        assert(t.subrange(j, j + n.len()) =~= h.subrange(j, j + n.len()));
    } else if j + n.len() <= t.len() {
        assert(t.subrange(j, j + n.len()) == n);
        assert forall|i: int| 0 <= i < h.len() - j implies h.skip(j)[i] == n.take(h.len() - j)[i] by {
            assert(t.subrange(j, j + n.len())[i] == n[i]);
        }
        assert(h.skip(j) =~= n.take(h.len() - j));
    } else {
        assert(t.skip(j) == n.take(t.len() - j));
        assert forall|i: int| 0 <= i < h.len() - j implies h.skip(j)[i] == n.take(h.len() - j)[i] by {
            assert(t.skip(j)[i] == n.take(t.len() - j)[i]);
        }
        assert(h.skip(j) =~= n.take(h.len() - j));
    }
}

proof fn lemma_partial_from(data: Seq<u8>, needle: Seq<u8>, n: int)
    requires
        0 <= n <= data.len(),
        n <= needle.len(),
    ensures
        0 <= partial_from(data, needle, n) <= n,
        suffix_matches(data, needle, partial_from(data, needle, n)),
        forall|m: int|
            partial_from(data, needle, n) < m <= n ==> !#[trigger] suffix_matches(data, needle, m),
    decreases n,
{
    if n <= 0 {
        assert(data.subrange(data.len() as int, data.len() as int) =~= needle.take(0));
    } else if !suffix_matches(data, needle, n) {
        lemma_partial_from(data, needle, n - 1);
    }
}

proof fn lemma_partial_unique(data: Seq<u8>, needle: Seq<u8>, r: int)
    requires
        needle.len() >= 1,
        0 <= r <= data.len(),
        r <= needle.len() - 1,
        suffix_matches(data, needle, r),
        forall|m: int| r < m <= data.len() && m <= needle.len() - 1 ==> !#[trigger] suffix_matches(data, needle, m),
    ensures
        spec_partial(data, needle) == r,
{
    let cap = if needle.len() - 1 < data.len() {
        needle.len() - 1
    } else {
        data.len() as int
    };
    lemma_partial_from(data, needle, cap);
    let p = partial_from(data, needle, cap);
    if p < r {
        assert(!suffix_matches(data, needle, r));
    }
    if p > r {
        assert(!suffix_matches(data, needle, p));
    }
}

/// After a read, where the command's own stream stands: forwarded up to `e`,
/// nothing before `e` can begin a completion needle.
pub open spec fn clear_before(rest: Seq<u8>, done: Seq<u8>, e: int) -> bool {
    forall|j: int| 0 <= j < e ==> !#[trigger] could_start(rest, done, j)
}

/// Where forwarding stands once `rest` was read: either up to the first
/// completion needle, or up to the longest tail that could still grow into one.
pub open spec fn settled(rest: Seq<u8>, done: Seq<u8>, e: int) -> bool {
    &&& 0 <= e <= rest.len()
    &&& clear_before(rest, done, e)
    &&& (find_first(rest, done) == Some(e) || (find_first(rest, done) is None && rest.len() - e
        == spec_partial(rest, done)))
}

/// Searching the unforwarded part decides where forwarding settles in the
/// whole command stream.
proof fn lemma_advance(rest: Seq<u8>, done: Seq<u8>, e: int)
    requires
        done.len() >= 1,
        0 <= e <= rest.len(),
        clear_before(rest, done, e),
    ensures
        match find_first(rest.skip(e), done) {
            Some(o) => settled(rest, done, e + o),
            None => settled(rest, done, rest.len() - spec_partial(rest.skip(e), done)),
        },
{
    let p = rest.skip(e);
    lemma_find_first(p, done);
    assert forall|j: int| 0 <= j < e implies !occurs_at(rest, done, j) by {
        assert(!could_start(rest, done, j));
    }
    match find_first(p, done) {
        Some(o) => {
            lemma_skip_occurs(rest, done, e, o);
            assert forall|j: int| 0 <= j < e + o implies !occurs_at(rest, done, j) by {
                if j >= e {
                    lemma_skip_occurs(rest, done, e, j - e);
                }
            }
            lemma_first_is(rest, done, e + o);
            assert forall|j: int| 0 <= j < e + o implies !#[trigger] could_start(rest, done, j) by {
                if j >= e {
                    lemma_skip_occurs(rest, done, e, j - e);
                }
            }
        },
        None => {
            assert forall|j: int| 0 <= j implies !occurs_at(rest, done, j) by {
                if j >= e {
                    lemma_skip_occurs(rest, done, e, j - e);
                }
            }
            lemma_first_none(rest, done);
            let cap = if done.len() - 1 < p.len() {
                done.len() - 1
            } else {
                p.len() as int
            };
            lemma_partial_from(p, done, cap);
            let h = spec_partial(p, done);
            assert(rest.subrange(rest.len() - h, rest.len() as int) =~= p.subrange(p.len() - h, p.len() as int));
            assert forall|m: int| h < m <= rest.len() && m <= done.len() - 1 implies !#[trigger] suffix_matches(rest, done, m) by {
                if m <= p.len() {
                    assert(rest.subrange(rest.len() - m, rest.len() as int) =~= p.subrange(p.len() - m, p.len() as int));
                    assert(!suffix_matches(p, done, m));
                } else {
                    let j = rest.len() - m;
                    assert(rest.skip(j) =~= rest.subrange(rest.len() - m, rest.len() as int));
                    assert(!could_start(rest, done, j));
                }
            }
            lemma_partial_unique(rest, done, h);
            assert forall|j: int| 0 <= j < rest.len() - h implies !#[trigger] could_start(rest, done, j) by {
                if j < e {
                    assert(clear_before(rest, done, e));
                } else if j + done.len() <= rest.len() {
                    assert(!occurs_at(rest, done, j));
                } else {
                    let m = rest.len() - j;
                    assert(rest.skip(j) =~= rest.subrange(rest.len() - m, rest.len() as int));
                    assert(rest.subrange(rest.len() - m, rest.len() as int) =~= p.subrange(p.len() - m, p.len() as int));
                    assert(!suffix_matches(p, done, m));
                }
            }
        },
    }
}

/// Appending bytes never moves the first occurrence already read.
proof fn lemma_first_extend(h: Seq<u8>, x: Seq<u8>, n: Seq<u8>)
    requires
        find_first(h, n) is Some,
    ensures
        find_first(h + x, n) == find_first(h, n),
{
    lemma_find_first(h, n);
    let b = find_first(h, n)->0;
    lemma_prefix_occurs(h, x, n, b);
    assert forall|j: int| 0 <= j < b implies !occurs_at(h + x, n, j) by {
        lemma_prefix_occurs(h, x, n, j);
    }
    lemma_first_is(h + x, n, b);
}

/// How many trailing bytes a stream that has not begun keeps: one fewer than
/// the begin needle, or all of it while it is shorter.
pub open spec fn hold_len(len: nat, begin_len: nat) -> int {
    if len < begin_len - 1 {
        len as int
    } else {
        begin_len - 1
    }
}

/// Before the begin needle, searching the kept tail plus the new bytes finds
/// the first begin needle of the whole stream.
proof fn lemma_begin_search(seen: Seq<u8>, x: Seq<u8>, begin: Seq<u8>)
    requires
        begin.len() >= 1,
        find_first(seen, begin) is None,
    ensures
        match find_first((seen + x).skip(seen.len() - hold_len(seen.len(), begin.len())), begin) {
            Some(o) => find_first(seen + x, begin) == Some(seen.len() - hold_len(seen.len(), begin.len()) + o),
            None => find_first(seen + x, begin) is None,
        },
{
    let t = seen + x;
    let k = seen.len() - hold_len(seen.len(), begin.len());
    lemma_find_first(seen, begin);
    lemma_find_first(t.skip(k), begin);
    assert forall|j: int| 0 <= j < k implies !occurs_at(t, begin, j) by {
        lemma_prefix_occurs(seen, x, begin, j);
    }
    match find_first(t.skip(k), begin) {
        Some(o) => {
            lemma_skip_occurs(t, begin, k, o);
            assert forall|j: int| 0 <= j < k + o implies !occurs_at(t, begin, j) by {
                if j >= k {
                    lemma_skip_occurs(t, begin, k, j - k);
                }
            }
            lemma_first_is(t, begin, k + o);
        },
        None => {
            assert forall|j: int| 0 <= j implies !occurs_at(t, begin, j) by {
                if j >= k {
                    lemma_skip_occurs(t, begin, k, j - k);
                }
            }
            lemma_first_none(t, begin);
        },
    }
}

/// Extending the command stream keeps every position that could not start a
/// completion needle unable to.
proof fn lemma_clear_extend(rest: Seq<u8>, x: Seq<u8>, done: Seq<u8>, e: int)
    requires
        0 <= e <= rest.len(),
        clear_before(rest, done, e),
    ensures
        clear_before(rest + x, done, e),
{
    assert forall|j: int| 0 <= j < e implies !#[trigger] could_start(rest + x, done, j) by {
        if could_start(rest + x, done, j) {
            lemma_could_start_prefix(rest, x, done, j);
        }
    }
}

/// What is forwarded while reading is always the start of what is forwarded
/// once the stream ends: nothing forwarded is ever taken back.
pub proof fn lemma_live_prefix_of_final(seen: Seq<u8>, begin: Seq<u8>, done: Seq<u8>)
    requires
        done.len() >= 1,
    ensures
        spec_live(seen, begin, done).len() <= spec_final(seen, begin, done).len(),
        spec_final(seen, begin, done).take(spec_live(seen, begin, done).len() as int) == spec_live(
            seen,
            begin,
            done,
        ),
{
    if let Some(rest) = after_begin(seen, begin) {
        lemma_find_first(rest, done);
        if find_first(rest, done) is None {
            let cap = if done.len() - 1 < rest.len() {
                done.len() - 1
            } else {
                rest.len() as int
            };
            lemma_partial_from(rest, done, cap);
        }
        assert(spec_final(seen, begin, done).take(spec_live(seen, begin, done).len() as int) =~= spec_live(seen, begin, done));
    }
}

/// A completion marker is never forwarded: when the stream proves an exit
/// status, what reached the human sink holds no completion needle.
pub proof fn lemma_marker_never_forwarded(seen: Seq<u8>, begin: Seq<u8>, done: Seq<u8>)
    requires
        done.len() >= 1,
        spec_completion(seen, begin, done) is Some,
    ensures
        find_first(spec_final(seen, begin, done), done) is None,
{
    let rest = after_begin(seen, begin)->0;
    let d = find_first(rest, done)->0;
    lemma_find_first(rest, done);
    let out = rest.take(d);
    assert forall|j: int| 0 <= j implies !occurs_at(out, done, j) by {
        if occurs_at(out, done, j) {
            assert(out.subrange(j, j + done.len()) =~= rest.subrange(j, j + done.len()));
            assert(occurs_at(rest, done, j));
        }
    }
    lemma_first_none(out, done);
}

// ---------------------------------------------------------------------------
// Executable pieces
// ---------------------------------------------------------------------------

/// Length of the longest suffix of `data` that could still grow into `needle`.
fn partial_prefix(data: &[u8], needle: &[u8]) -> (r: usize)
    requires
        needle.len() >= 1,
    ensures
        r as int == spec_partial(data@, needle@),
        r <= data.len(),
{
    let cap = if needle.len() - 1 < data.len() {
        needle.len() - 1
    } else {
        data.len()
    };
    let mut n = cap;
    proof {
        lemma_partial_from(data@, needle@, cap as int);
    }
    while n > 0
        invariant
            n <= cap,
            cap <= data.len(),
            cap < needle.len(),
            spec_partial(data@, needle@) == partial_from(data@, needle@, n as int),
        decreases n,
    {
        let prefix = slice_bytes(needle, 0, n);
        assert(prefix@ =~= needle@.take(n as int));
        if bytes_at(data, prefix.as_slice(), data.len() - n) {
            return n;
        }
        n = n - 1;
    }
    0
}

// ---------------------------------------------------------------------------
// The stream
// ---------------------------------------------------------------------------

/// One streamed run, viewed incrementally.
///
/// [`CompletionStream::feed`] and [`CompletionStream::finish`] answer the
/// bytes to forward to the human sink, which the caller owns.
pub struct CompletionStream {
    capture: Capture,
    begin: Vec<u8>,
    done: Vec<u8>,
    pending: Vec<u8>,
    started: bool,
    completion: Option<i32>,
    finished: Ghost<bool>,
    seen: Ghost<Seq<u8>>,
}

impl View for CompletionStream {
    type V = Seq<u8>;

    /// Every byte read from the child so far.
    closed spec fn view(&self) -> Seq<u8> {
        self.seen@
    }
}

impl CompletionStream {
    /// The begin needle this stream waits for.
    pub closed spec fn spec_begin(&self) -> Seq<u8> {
        self.begin@
    }

    /// The completion needle this stream watches for.
    pub closed spec fn spec_done(&self) -> Seq<u8> {
        self.done@
    }

    /// Whether [`CompletionStream::finish`] has run.
    pub closed spec fn is_finished(&self) -> bool {
        self.finished@
    }

    /// Everything forwarded so far.
    pub closed spec fn forwarded(&self) -> Seq<u8> {
        self.capture@
    }

    /// The cap of the kept copy.
    pub closed spec fn spec_limit(&self) -> nat {
        self.capture.spec_limit()
    }

    /// How much of the forwarded bytes is kept.
    pub closed spec fn spec_keep(&self) -> Keep {
        self.capture.spec_keep()
    }

    /// Where the stream stands, consistent with everything read.
    pub closed spec fn wf(&self) -> bool {
        let seen = self.seen@;
        let b = self.begin@;
        let d = self.done@;
        &&& self.capture.wf()
        &&& self.capture.spec_keep() != Keep::PrefixAndMarkerTail
        &&& b.len() >= 1
        &&& d.len() >= 1
        &&& seen.len() <= u64::MAX
        &&& self.started == (after_begin(seen, b) is Some)
        &&& if !self.finished@ {
            &&& self.completion is None
            &&& self.capture@ == spec_live(seen, b, d)
            &&& if !self.started {
                &&& find_first(seen, b) is None
                &&& self.pending@ == seen.skip(seen.len() - hold_len(seen.len(), b.len()))
            } else {
                let rest = after_begin(seen, b)->0;
                let e = self.capture@.len() as int;
                &&& settled(rest, d, e)
                &&& self.capture@ == rest.take(e)
                &&& self.pending@ == rest.skip(e)
            }
        } else {
            &&& self.capture@ == spec_final(seen, b, d)
            &&& match self.completion {
                Some(c) => spec_completion(seen, b, d) == Some(c as int),
                None => spec_completion(seen, b, d) is None,
            }
        }
    }

    /// A stream for one invocation. `capture` is the cap of the kept copy of the
    /// forwarded bytes; `None` means the caller keeps nothing and only counts.
    pub fn new(separator: Separator, nonce: &InvocationToken, capture: Option<usize>) -> (r: Self)
        ensures
            r.wf(),
            !r.is_finished(),
            r@ == Seq::<u8>::empty(),
            r.spec_begin() == super::spec_begin_needle(separator, nonce@),
            r.spec_done() == super::spec_done_needle(separator, nonce@),
            r.spec_limit() == (match capture {
                Some(limit) => limit as nat,
                None => 0,
            }),
            r.spec_keep() == (if capture is Some {
                Keep::Prefix
            } else {
                Keep::Nothing
            }),
    {
        let (limit, keep) = match capture {
            Some(limit) => (limit, Keep::Prefix),
            None => (0, Keep::Nothing),
        };
        let stream = CompletionStream {
            capture: Capture::new(limit, keep),
            begin: begin_needle(separator, nonce),
            done: done_needle(separator, nonce),
            pending: Vec::new(),
            started: false,
            completion: None,
            finished: Ghost(false),
            seen: Ghost(Seq::empty()),
        };
        proof {
            lemma_find_first(Seq::<u8>::empty(), stream.begin@);
            assert(Seq::<u8>::empty().skip(0) =~= Seq::<u8>::empty());
        }
        stream
    }

    /// Forwards what is certainly the command's own output, holding back only
    /// as many bytes as could still grow into a completion needle.
    fn advance(&mut self, Ghost(rest): Ghost<Seq<u8>>) -> (forward: Vec<u8>)
        requires
            old(self).capture.wf(),
            old(self).done@.len() >= 1,
            rest.len() <= u64::MAX,
            old(self).capture@.len() <= rest.len(),
            clear_before(rest, old(self).done@, old(self).capture@.len() as int),
            old(self).capture@ == rest.take(old(self).capture@.len() as int),
            old(self).pending@ == rest.skip(old(self).capture@.len() as int),
        ensures
            final(self).capture.wf(),
            final(self).capture.spec_limit() == old(self).capture.spec_limit(),
            final(self).capture.spec_keep() == old(self).capture.spec_keep(),
            settled(rest, old(self).done@, final(self).capture@.len() as int),
            final(self).capture@ == rest.take(final(self).capture@.len() as int),
            final(self).pending@ == rest.skip(final(self).capture@.len() as int),
            final(self).capture@ == old(self).capture@ + forward@,
            final(self).begin == old(self).begin,
            final(self).done == old(self).done,
            final(self).started == old(self).started,
            final(self).completion == old(self).completion,
            final(self).finished == old(self).finished,
            final(self).seen == old(self).seen,
    {
        let ghost e = self.capture@.len() as int;
        proof {
            lemma_advance(rest, self.done@, e);
        }
        let cut = match find_bytes_from(self.pending.as_slice(), self.done.as_slice(), 0) {
            Some(o) => o,
            None => self.pending.len() - partial_prefix(self.pending.as_slice(), self.done.as_slice()),
        };
        let head = slice_bytes(self.pending.as_slice(), 0, cut);
        assert(rest.take(e) + head@ =~= rest.take(e + cut));
        self.capture.observe(head.as_slice());
        self.pending = slice_bytes(self.pending.as_slice(), cut, self.pending.len());
        assert(self.pending@ =~= rest.skip(e + cut));
        head
    }

    /// Takes one read's bytes and answers the bytes to forward: only the
    /// command's own output, never a marker.
    pub fn feed(&mut self, bytes: &[u8]) -> (forward: Vec<u8>)
        requires
            old(self).wf(),
            !old(self).is_finished(),
            old(self)@.len() + bytes@.len() <= u64::MAX,
        ensures
            final(self).wf(),
            !final(self).is_finished(),
            final(self)@ == old(self)@ + bytes@,
            final(self).spec_begin() == old(self).spec_begin(),
            final(self).spec_done() == old(self).spec_done(),
            final(self).spec_limit() == old(self).spec_limit(),
            final(self).spec_keep() == old(self).spec_keep(),
            final(self).forwarded() == spec_live(final(self)@, final(self).spec_begin(), final(self).spec_done()),
            spec_live(final(self)@, final(self).spec_begin(), final(self).spec_done()) == spec_live(
                old(self)@,
                old(self).spec_begin(),
                old(self).spec_done(),
            ) + forward@,
    {
        let ghost s0 = self.seen@;
        let ghost t = s0 + bytes@;
        let ghost b = self.begin@;
        let ghost d = self.done@;
        if !self.started {
            proof {
                lemma_begin_search(s0, bytes@, b);
                assert(self.pending@ + bytes@ =~= t.skip(s0.len() - hold_len(s0.len(), b.len())));
            }
            append_bytes(&mut self.pending, bytes);
            self.seen = Ghost(t);
            match find_bytes_from(self.pending.as_slice(), self.begin.as_slice(), 0) {
                None => {
                    let hold = self.begin.len() - 1;
                    if self.pending.len() > hold {
                        self.pending = slice_bytes(self.pending.as_slice(), self.pending.len() - hold, self.pending.len());
                    }
                    assert(self.pending@ =~= t.skip(t.len() - hold_len(t.len(), b.len())));
                    assert(after_begin(t, b) is None);
                    return Vec::new();
                },
                Some(o) => {
                    proof {
                        lemma_find_first(self.pending@, b);
                        lemma_skip_occurs(t, b, s0.len() - hold_len(s0.len(), b.len()), o as int);
                        assert(o + self.begin.len() <= self.pending.len());
                    }
                    self.pending = slice_bytes(self.pending.as_slice(), o + self.begin.len(), self.pending.len());
                    self.started = true;
                    proof {
                        let rest = after_begin(t, b)->0;
                        assert(self.pending@ =~= rest);
                        assert(rest.skip(0) =~= rest);
                        assert(rest.take(0) =~= self.capture@);
                    }
                    let forward = self.advance(Ghost(after_begin(t, b)->0));
                    assert(forward@ =~= self.capture@);
                    return forward;
                },
            }
        }
        let ghost rest0 = after_begin(s0, b)->0;
        let ghost e = self.capture@.len() as int;
        proof {
            lemma_first_extend(s0, bytes@, b);
            let bo = find_first(s0, b)->0;
            lemma_find_first(s0, b);
            assert(t.subrange(bo + b.len(), t.len() as int) =~= rest0 + bytes@);
            lemma_clear_extend(rest0, bytes@, d, e);
            assert(self.pending@ + bytes@ =~= (rest0 + bytes@).skip(e));
            assert((rest0 + bytes@).take(e) =~= rest0.take(e));
        }
        append_bytes(&mut self.pending, bytes);
        self.seen = Ghost(t);
        let forward = self.advance(Ghost(rest0 + bytes@));
        forward
    }

    /// Called once, after the child's output end reached EOF. Answers the
    /// bytes still to forward and records the exit status a completion marker
    /// proves, if one does.
    pub fn finish(&mut self) -> (forward: Vec<u8>)
        requires
            old(self).wf(),
            !old(self).is_finished(),
        ensures
            final(self).wf(),
            final(self).is_finished(),
            final(self)@ == old(self)@,
            final(self).spec_begin() == old(self).spec_begin(),
            final(self).spec_done() == old(self).spec_done(),
            final(self).spec_limit() == old(self).spec_limit(),
            final(self).spec_keep() == old(self).spec_keep(),
            final(self).forwarded() == spec_final(final(self)@, final(self).spec_begin(), final(self).spec_done()),
            spec_final(old(self)@, old(self).spec_begin(), old(self).spec_done()) == spec_live(
                old(self)@,
                old(self).spec_begin(),
                old(self).spec_done(),
            ) + forward@,
    {
        let ghost seen = self.seen@;
        let ghost b = self.begin@;
        let ghost d = self.done@;
        if !self.started {
            self.pending = Vec::new();
            self.finished = Ghost(true);
            assert(self.capture@ =~= Seq::<u8>::empty() + Seq::<u8>::empty());
            return Vec::new();
        }
        let ghost rest = after_begin(seen, b)->0;
        let ghost e = self.capture@.len() as int;
        proof {
            lemma_find_first(seen, b);
            assert(rest.len() <= seen.len());
            lemma_find_first(self.pending@, d);
            lemma_find_first(rest, d);
            if find_first(rest, d) == Some(e) {
                lemma_skip_occurs(rest, d, e, 0);
            }
        }
        match find_bytes_from(self.pending.as_slice(), self.done.as_slice(), 0) {
            Some(o) => {
                proof {
                    lemma_skip_occurs(rest, d, e, o as int);
                    assert(find_first(rest, d) == Some(e));
                    if o > 0 {
                        lemma_skip_occurs(rest, d, e, 0);
                    }
                    assert(o == 0);
                }
                let region = &self.pending;
                let status = match find_last_bytes(region.as_slice(), self.done.as_slice()) {
                    Some(l) => {
                        proof {
                            lemma_find_before(region@, d, region@.len() + 1int);
                            assert(occurs_at(region@, d, l as int));
                            assert(l + self.done.len() <= region.len());
                        }
                        let after = slice_bytes(region.as_slice(), l + self.done.len(), region.len());
                        parse_status(after.as_slice())
                    },
                    None => None,
                };
                match status {
                    Some(code) => {
                        self.completion = Some(code);
                        self.pending = Vec::new();
                        self.finished = Ghost(true);
                        assert(self.capture@ =~= spec_live(seen, b, d) + Seq::<u8>::empty());
                        Vec::new()
                    },
                    None => {
                        let tail = slice_bytes(self.pending.as_slice(), 0, self.pending.len());
                        assert(rest.take(e) + tail@ =~= rest);
                        self.capture.observe(tail.as_slice());
                        self.pending = Vec::new();
                        self.finished = Ghost(true);
                        tail
                    },
                }
            },
            None => {
                proof {
                    if find_first(rest, d) == Some(e) {
                        assert(occurs_at(self.pending@, d, 0));
                    }
                }
                let tail = slice_bytes(self.pending.as_slice(), 0, self.pending.len());
                assert(rest.take(e) + tail@ =~= rest);
                self.capture.observe(tail.as_slice());
                self.pending = Vec::new();
                self.finished = Ghost(true);
                tail
            },
        }
    }

    /// How the child's output was cut into reads never matters: two streams of
    /// the same needles and cap that have read the same bytes, both finished or
    /// both not, have forwarded the same bytes (so report the same total), keep
    /// the same body and prove the same completion. Before any read nothing has
    /// been forwarded, so the bytes forwarded by successive feeds, joined, are
    /// exactly what the stream has forwarded in all.
    pub proof fn lemma_reads_do_not_matter(a: &CompletionStream, b: &CompletionStream)
        requires
            a.wf(),
            b.wf(),
            a@ == b@,
            a.spec_begin() == b.spec_begin(),
            a.spec_done() == b.spec_done(),
            a.spec_limit() == b.spec_limit(),
            a.spec_keep() == b.spec_keep(),
            a.is_finished() == b.is_finished(),
        ensures
            a.forwarded() == b.forwarded(),
            a.forwarded() == (if a.is_finished() {
                spec_final(a@, a.spec_begin(), a.spec_done())
            } else {
                spec_live(a@, a.spec_begin(), a.spec_done())
            }),
            spec_body(a.forwarded(), a.spec_limit(), a.spec_keep()) == spec_body(
                b.forwarded(),
                b.spec_limit(),
                b.spec_keep(),
            ),
            a.is_finished() ==> spec_completion(a@, a.spec_begin(), a.spec_done()) == spec_completion(
                b@,
                b.spec_begin(),
                b.spec_done(),
            ),
            spec_live(Seq::empty(), a.spec_begin(), a.spec_done()) == Seq::<u8>::empty(),
    {
        lemma_find_first(Seq::<u8>::empty(), a.spec_begin());
    }

    /// The exit status carried by a completion marker bound to this invocation.
    /// `None` means no evidence, which is never a known success.
    pub fn completion(&self) -> (r: Option<i32>)
        requires
            self.wf(),
        ensures
            match r {
                Some(c) => self.is_finished() && spec_completion(self@, self.spec_begin(), self.spec_done())
                    == Some(c as int),
                None => !self.is_finished() || spec_completion(self@, self.spec_begin(), self.spec_done()) is None,
            },
    {
        self.completion
    }

    /// The kept copy of what was forwarded.
    pub fn body(&self) -> (r: Vec<u8>)
        requires
            self.wf(),
        ensures
            r@ == spec_body(self.forwarded(), self.spec_limit(), self.spec_keep()),
    {
        self.capture.body()
    }

    /// How many bytes were forwarded: the command's own output, in source
    /// bytes.
    pub fn total(&self) -> (r: u64)
        requires
            self.wf(),
        ensures
            r as nat == self.forwarded().len(),
    {
        self.capture.total()
    }

    /// Whether this run's own output began: without a begin marker nothing here
    /// is attributable to the command.
    pub fn started(&self) -> (r: bool)
        requires
            self.wf(),
        ensures
            r == (after_begin(self@, self.spec_begin()) is Some),
    {
        self.started
    }
}

} // verus!
