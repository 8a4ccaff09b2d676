//! The issuing policy of a streaming object read: which reads to start,
//! where, and when the stream is over.

use vstd::prelude::*;

verus! {

/// Default size of each read.
pub const DEFAULT_BUFFER_SIZE: usize = 4194304;
/// Default number of reads in flight.
pub const DEFAULT_CONCURRENCY: usize = 2;

/// State of a streaming read: reads of `buffer_size` bytes are issued at
/// consecutive offsets, up to `concurrency` at a time; a short read ends
/// the stream.
#[derive(Debug, Clone, Copy)]
pub struct ReadPlan {
    /// Size of each read.
    pub buffer_size: usize,
    /// Number of reads to keep in flight.
    pub concurrency: usize,
    /// The caller's guess at the object size (need not be right).
    pub size_hint: Option<u64>,
    /// Reads issued and not yet handed out.
    pub in_flight: usize,
    /// Offset of the next read to issue.
    pub next: u64,
    /// Bytes handed out so far.
    pub yielded: u64,
    /// A short read was seen: nothing more is issued or handed out.
    pub done: bool,
}

/// Another read is to be issued: the stream is not over, and either none
/// is in flight, or there is room for one more and the size hint does not
/// say the object has been covered (no hint; the next offset is below it;
/// or more than it has been handed out already, which disproves it).
pub open spec fn wants_read(p: ReadPlan) -> bool {
    &&& !p.done
    &&& (p.in_flight == 0 || ((match p.size_hint {
        Some(h) => p.next < h || p.yielded > h,
        None => true,
    }) && p.in_flight < p.concurrency))
}


/// The plan after issuing a read: the next offset moves on by one buffer
/// and one more read is in flight.
pub open spec fn after_issue(p: ReadPlan) -> ReadPlan {
    ReadPlan { next: (p.next + p.buffer_size) as u64, in_flight: (p.in_flight + 1) as usize, ..p }
}

/// The plan after the oldest read in flight finished with `result`
/// (`Some(n)`: `n` bytes read; `None`: it failed): a successful read's bytes
/// are handed out, and one shorter than a buffer ends the stream and drops
/// the reads still in flight.
pub open spec fn after_complete(p: ReadPlan, result: Option<u32>) -> ReadPlan {
    match result {
        Some(n) => if (n as int) < p.buffer_size {
            ReadPlan { yielded: (p.yielded + n) as u64, in_flight: 0, done: true, ..p }
        } else {
            ReadPlan { yielded: (p.yielded + n) as u64, in_flight: (p.in_flight - 1) as usize, ..p }
        },
        None => ReadPlan { in_flight: (p.in_flight - 1) as usize, ..p },
    }
}

impl ReadPlan {
    /// A plan that starts at offset 0, with the default sizes where none
    /// are given.
    pub fn new(buffer_size: Option<usize>, concurrency: Option<usize>, size_hint: Option<u64>) -> (r: ReadPlan)
        ensures
            r.buffer_size == match buffer_size {
                Some(b) => b,
                None => DEFAULT_BUFFER_SIZE,
            },
            r.concurrency == match concurrency {
                Some(c) => c,
                None => DEFAULT_CONCURRENCY,
            },
            r.size_hint == size_hint,
            r.in_flight == 0,
            r.next == 0,
            r.yielded == 0,
            !r.done,
    {
        ReadPlan {
            buffer_size: match buffer_size {
                Some(b) => b,
                None => DEFAULT_BUFFER_SIZE,
            },
            concurrency: match concurrency {
                Some(c) => c,
                None => DEFAULT_CONCURRENCY,
            },
            size_hint,
            in_flight: 0,
            next: 0,
            yielded: 0,
            done: false,
        }
    }

    /// Whether another read is to be issued now.
    pub fn should_issue(&self) -> (r: bool)
        ensures
            r == wants_read(*self),
    {
        if self.done {
            return false;
        }
        if self.in_flight == 0 {
            return true;
        }
        let within = match self.size_hint {
            Some(h) => self.next < h || self.yielded > h,
            None => true,
        };
        within && self.in_flight < self.concurrency
    }

    /// Issues the next read: returns its offset and moves the next offset
    /// on by one buffer.
    pub fn issue(&mut self) -> (read_at: u64)
        requires
            old(self).next + old(self).buffer_size <= u64::MAX,
            old(self).in_flight < usize::MAX,
        ensures
            read_at == old(self).next,
            *final(self) == after_issue(*old(self)),
            final(self).next == old(self).next + old(self).buffer_size,
            final(self).in_flight == old(self).in_flight + 1,
            final(self).buffer_size == old(self).buffer_size,
            final(self).concurrency == old(self).concurrency,
            final(self).size_hint == old(self).size_hint,
            final(self).yielded == old(self).yielded,
            final(self).done == old(self).done,
    {
        let read_at = self.next;
        self.next = self.next + self.buffer_size as u64;
        self.in_flight = self.in_flight + 1;
        read_at
    }

    /// The oldest read in flight finished: `Some(n)` when it read `n` bytes,
    /// `None` when it failed.  A successful read hands its bytes out; one
    /// shorter than a buffer ends the stream and drops the reads still in
    /// flight.
    pub fn complete(&mut self, result: Option<u32>)
        requires
            old(self).in_flight > 0,
            result matches Some(n) ==> old(self).yielded + n <= u64::MAX,
        ensures
            final(self).buffer_size == old(self).buffer_size,
            final(self).concurrency == old(self).concurrency,
            final(self).size_hint == old(self).size_hint,
            final(self).next == old(self).next,
            *final(self) == after_complete(*old(self), result),
            match result {
                Some(n) => {
                    &&& final(self).yielded == old(self).yielded + n
                    &&& if (n as int) < old(self).buffer_size {
                        final(self).done && final(self).in_flight == 0
                    } else {
                        final(self).done == old(self).done && final(self).in_flight == old(self).in_flight - 1
                    }
                },
                None => {
                    &&& final(self).yielded == old(self).yielded
                    &&& final(self).done == old(self).done
                    &&& final(self).in_flight == old(self).in_flight - 1
                },
            },
    {
        self.in_flight = self.in_flight - 1;
        if let Some(length) = result {
            if (length as usize) < self.buffer_size {
                self.in_flight = 0;
                self.done = true;
            }
            self.yielded = self.yielded + length as u64;
        }
    }
}

/// The most reads a plan keeps in flight: its concurrency, or one when the
/// concurrency is zero (a read is always issued when none is in flight).
pub open spec fn in_flight_limit(p: ReadPlan) -> int {
    if p.concurrency == 0 {
        1
    } else {
        p.concurrency as int
    }
}

/// A read is only wanted while there is room for it: issuing one keeps the
/// reads in flight within the limit.
pub proof fn lemma_issue_keeps_limit(p: ReadPlan)
    requires
        wants_read(p),
        p.in_flight <= in_flight_limit(p),
    ensures
        p.in_flight + 1 <= in_flight_limit(p),
{
}

/// Once a stream is over no read is issued again, whatever completes.
pub proof fn lemma_done_stays_quiet(p: ReadPlan)
    requires
        p.done,
    ensures
        !wants_read(p),
{
}

/// One step of a streaming read: a read issued, or the oldest read in
/// flight finished (`Some(n)`: `n` bytes; `None`: it failed).
#[derive(Debug, Clone, Copy, PartialEq, Eq, Structural)]
pub enum ReadEvent {
    Issued,
    Completed(Option<u32>),
}

/// The plan after a run of steps.
pub open spec fn run_plan(p: ReadPlan, events: Seq<ReadEvent>) -> ReadPlan
    decreases events.len(),
{
    if events.len() == 0 {
        p
    } else {
        let q = match events[0] {
            ReadEvent::Issued => after_issue(p),
            ReadEvent::Completed(r) => after_complete(p, r),
        };
        run_plan(q, events.drop_first())
    }
}

/// How many reads a run issues.
pub open spec fn issued_count(events: Seq<ReadEvent>) -> nat
    decreases events.len(),
{
    if events.len() == 0 {
        0
    } else {
        (if events[0] == ReadEvent::Issued { 1nat } else { 0nat }) + issued_count(events.drop_first())
    }
}

/// Reads are issued at consecutive offsets: after any run, the next offset
/// has moved on by one buffer per read issued, and the sizes and the hint
/// are as they were.
pub proof fn lemma_run_offsets(p: ReadPlan, events: Seq<ReadEvent>)
    requires
        p.next + issued_count(events) * p.buffer_size <= u64::MAX,
    ensures
        run_plan(p, events).next == p.next + issued_count(events) * p.buffer_size,
        run_plan(p, events).buffer_size == p.buffer_size,
        run_plan(p, events).concurrency == p.concurrency,
        run_plan(p, events).size_hint == p.size_hint,
    decreases events.len(),
{
    if events.len() > 0 {
        let rest = events.drop_first();
        let k = issued_count(rest);
        assert(k * p.buffer_size <= issued_count(events) * p.buffer_size) by (nonlinear_arith)
            requires
                k <= issued_count(events),
        ;
        match events[0] {
            ReadEvent::Issued => {
                let q = after_issue(p);
                assert(issued_count(events) == 1 + k);
                assert((1 + k) * p.buffer_size == p.buffer_size + k * p.buffer_size) by (nonlinear_arith);
                assert(k * p.buffer_size >= 0) by (nonlinear_arith);
                assert(q.next == p.next + p.buffer_size);
                assert(run_plan(p, events) == run_plan(q, rest));
                lemma_run_offsets(q, rest);
            },
            ReadEvent::Completed(r) => {
                assert(issued_count(events) == k);
                assert(after_complete(p, r).next == p.next);
                assert(run_plan(p, events) == run_plan(after_complete(p, r), rest));
                lemma_run_offsets(after_complete(p, r), rest);
            },
        }
    } else {
        assert(issued_count(events) == 0);
        assert(0 * p.buffer_size == 0);
    }
}

/// Once a stream is over it stays over, whatever steps follow, and asks
/// for no further read.
pub proof fn lemma_run_stays_done(p: ReadPlan, events: Seq<ReadEvent>)
    requires
        p.done,
    ensures
        run_plan(p, events).done,
        !wants_read(run_plan(p, events)),
    decreases events.len(),
{
    if events.len() > 0 {
        match events[0] {
            ReadEvent::Issued => lemma_run_stays_done(after_issue(p), events.drop_first()),
            ReadEvent::Completed(r) => lemma_run_stays_done(after_complete(p, r), events.drop_first()),
        }
    }
}

/// A run of steps that the stream can take: a read is issued only when the
/// plan wants one (and its offset fits), and a completion only comes for a
/// read in flight (with a byte count that fits).
pub open spec fn run_allowed(p: ReadPlan, events: Seq<ReadEvent>) -> bool
    decreases events.len(),
{
    if events.len() == 0 {
        true
    } else {
        match events[0] {
            ReadEvent::Issued => wants_read(p) && p.next + p.buffer_size <= u64::MAX
                && p.in_flight < usize::MAX && run_allowed(after_issue(p), events.drop_first()),
            ReadEvent::Completed(r) => p.in_flight > 0 && (match r {
                Some(n) => p.yielded + n <= u64::MAX,
                None => true,
            }) && run_allowed(after_complete(p, r), events.drop_first()),
        }
    }
}

/// How many reads a run sees finish.
pub open spec fn completed_count(events: Seq<ReadEvent>) -> nat
    decreases events.len(),
{
    if events.len() == 0 {
        0
    } else {
        (if events[0] is Completed { 1nat } else { 0nat }) + completed_count(events.drop_first())
    }
}

/// The bytes that the successful reads of a run hand out, counted.
pub open spec fn completed_bytes(events: Seq<ReadEvent>) -> nat
    decreases events.len(),
{
    if events.len() == 0 {
        0
    } else {
        (match events[0] {
            ReadEvent::Completed(Some(n)) => n as nat,
            _ => 0nat,
        }) + completed_bytes(events.drop_first())
    }
}

/// Every successful read adds its length to the bytes handed out: after any
/// run, exactly the bytes of its successful reads have been added (as long
/// as the count fits in 64 bits).
pub proof fn lemma_run_yielded(p: ReadPlan, events: Seq<ReadEvent>)
    requires
        p.yielded + completed_bytes(events) <= u64::MAX,
    ensures
        run_plan(p, events).yielded == p.yielded + completed_bytes(events),
    decreases events.len(),
{
    if events.len() > 0 {
        let rest = events.drop_first();
        match events[0] {
            ReadEvent::Issued => lemma_run_yielded(after_issue(p), rest),
            ReadEvent::Completed(r) => lemma_run_yielded(after_complete(p, r), rest),
        }
    }
}

/// A finished stream with nothing in flight takes no further step: no read
/// is issued and none completes, so nothing more is handed out.
pub proof fn lemma_done_run_is_empty(p: ReadPlan, events: Seq<ReadEvent>)
    requires
        p.done,
        p.in_flight == 0,
        run_allowed(p, events),
    ensures
        events.len() == 0,
{
}

/// Offset of the oldest read in flight: reads are issued at consecutive
/// offsets and finish oldest first, so the reads in flight are the last
/// `in_flight` issued.
pub open spec fn oldest_offset(p: ReadPlan) -> int {
    p.next - p.in_flight * p.buffer_size
}

/// The bytes of object `o` that a read of `len` bytes at `off` returns.
pub open spec fn object_chunk(o: Seq<u8>, off: int, len: int) -> Seq<u8> {
    let start = if off < 0 { 0 } else if off > o.len() { o.len() as int } else { off };
    let end = if off + len < start { start } else if off + len > o.len() { o.len() as int } else { off + len };
    o.subrange(start, end)
}

/// Every read of the run succeeds and returns the bytes of object `o` at
/// its offset.
pub open spec fn reads_object(p: ReadPlan, events: Seq<ReadEvent>, o: Seq<u8>) -> bool
    decreases events.len(),
{
    if events.len() == 0 {
        true
    } else {
        match events[0] {
            ReadEvent::Issued => reads_object(after_issue(p), events.drop_first(), o),
            ReadEvent::Completed(r) => (match r {
                Some(n) => n as int == object_chunk(o, oldest_offset(p), p.buffer_size as int).len(),
                None => false,
            }) && reads_object(after_complete(p, r), events.drop_first(), o),
        }
    }
}

/// The chunks that a run hands out, one per successful read, in order.
pub open spec fn chunks_handed(p: ReadPlan, events: Seq<ReadEvent>, o: Seq<u8>) -> Seq<u8>
    decreases events.len(),
{
    if events.len() == 0 {
        Seq::empty()
    } else {
        match events[0] {
            ReadEvent::Issued => chunks_handed(after_issue(p), events.drop_first(), o),
            ReadEvent::Completed(r) => (match r {
                Some(_) => object_chunk(o, oldest_offset(p), p.buffer_size as int),
                None => Seq::empty(),
            }) + chunks_handed(after_complete(p, r), events.drop_first(), o),
        }
    }
}

/// What holds of a plan reading object `o` once `c` reads have finished.
pub open spec fn reading_object(p: ReadPlan, c: nat, o: Seq<u8>) -> bool {
    &&& p.buffer_size > 0
    &&& !p.done ==> p.next == (c + p.in_flight) * p.buffer_size
    &&& !p.done ==> c * p.buffer_size <= o.len() && p.yielded == c * p.buffer_size
    &&& p.done ==> p.in_flight == 0 && p.yielded == o.len() && o.len() < c * p.buffer_size
}

proof fn lemma_reading_object_run(p: ReadPlan, c: nat, events: Seq<ReadEvent>, o: Seq<u8>)
    requires
        reading_object(p, c, o),
        run_allowed(p, events),
        reads_object(p, events, o),
    ensures
        o.subrange(0, p.yielded as int) + chunks_handed(p, events, o)
            == o.subrange(0, run_plan(p, events).yielded as int),
        reading_object(run_plan(p, events), c + completed_count(events), o),
        run_plan(p, events).buffer_size == p.buffer_size,
    decreases events.len(),
{
    let b = p.buffer_size as int;
    if events.len() == 0 {
        assert(o.subrange(0, p.yielded as int) + Seq::<u8>::empty() =~= o.subrange(0, p.yielded as int));
    } else {
        let rest = events.drop_first();
        match events[0] {
            ReadEvent::Issued => {
                let q = after_issue(p);
                assert((c + p.in_flight + 1) * b == (c + p.in_flight) * b + b) by (nonlinear_arith);
                assert(reading_object(q, c, o));
                lemma_reading_object_run(q, c, rest, o);
            },
            ReadEvent::Completed(r) => {
                let n = r->Some_0;
                let q = after_complete(p, r);
                assert(!p.done);
                assert(oldest_offset(p) == c * b) by (nonlinear_arith)
                    requires
                        p.next == (c + p.in_flight) * b,
                        oldest_offset(p) == p.next - p.in_flight * b,
                ;
                assert((c + 1) * b == c * b + b) by (nonlinear_arith);
                let chunk = object_chunk(o, c * b, b);
                assert(c * b >= 0) by (nonlinear_arith)
                    requires
                        b > 0,
                ;
                if (n as int) < b {
                    assert(o.subrange(0, p.yielded as int) + chunk =~= o.subrange(0, o.len() as int));
                    assert(q.in_flight == 0 && q.done && q.yielded == o.len());
                    assert(reading_object(q, c + 1, o));
                } else {
                    assert(o.subrange(0, p.yielded as int) + chunk =~= o.subrange(0, (c + 1) * b));
                    assert((c + 1 + q.in_flight) * b == (c + p.in_flight) * b) by (nonlinear_arith)
                        requires
                            q.in_flight == p.in_flight - 1,
                    ;
                    assert(reading_object(q, c + 1, o));
                }
                lemma_reading_object_run(q, c + 1, rest, o);
                assert(chunks_handed(p, events, o) == chunk + chunks_handed(q, rest, o));
                assert(o.subrange(0, p.yielded as int) + (chunk + chunks_handed(q, rest, o))
                    =~= (o.subrange(0, p.yielded as int) + chunk) + chunks_handed(q, rest, o));
            },
        }
    }
}

/// Reading an object from the start hands out its bytes in order: when
/// every read succeeds with the object's bytes at its offset, the chunks
/// handed out are consecutive slices of the object, one buffer each, and
/// together its first bytes; the stream is over exactly when a chunk came
/// back short, and then the chunks make up the whole object.
pub proof fn lemma_stream_reads_object(p: ReadPlan, events: Seq<ReadEvent>, o: Seq<u8>)
    requires
        p.buffer_size > 0,
        p.next == 0,
        p.in_flight == 0,
        p.yielded == 0,
        !p.done,
        run_allowed(p, events),
        reads_object(p, events, o),
    ensures
        ({
            let q = run_plan(p, events);
            let k = completed_count(events);
            &&& chunks_handed(p, events, o) == o.subrange(0, q.yielded as int)
            &&& !q.done ==> q.yielded == k * p.buffer_size && k * p.buffer_size <= o.len()
            &&& q.done ==> chunks_handed(p, events, o) == o && o.len() < k * p.buffer_size
        }),
{
    assert(0nat * p.buffer_size == 0) by (nonlinear_arith);
    assert(reading_object(p, 0, o));
    lemma_reading_object_run(p, 0, events, o);
    let q = run_plan(p, events);
    assert(o.subrange(0, 0) + chunks_handed(p, events, o) =~= chunks_handed(p, events, o));
    assert(q.done ==> o.subrange(0, q.yielded as int) =~= o);
}

} // verus!
