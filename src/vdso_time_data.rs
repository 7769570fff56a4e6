use vstd::prelude::*;

use crate::platform;

verus! {

/// Number of clock bases (`CLOCK_*` ids) that one clock record carries.
pub const VDSO_BASES: usize = 16;

/// Number of clock records in the time data.
pub const CS_BASES: usize = 2;

pub const CLOCK_REALTIME: usize = 0;
pub const CLOCK_MONOTONIC: usize = 1;
pub const CLOCK_MONOTONIC_RAW: usize = 4;
pub const CLOCK_REALTIME_COARSE: usize = 5;
pub const CLOCK_MONOTONIC_COARSE: usize = 6;
pub const CLOCK_BOOTTIME: usize = 7;

pub const NSEC_PER_SEC: u64 = 1_000_000_000;

/// Shift of the fixed-point factor that turns counter ticks into nanoseconds.
pub const CLOCK_SHIFT: u32 = 24;

/// A point on one clock's timeline.
#[derive(Clone, Copy, PartialEq, Eq, Structural, Debug)]
pub struct VdsoTimestamp {
    pub sec: u64,
    pub nsec: u64,
}

/// One seqlock-protected clock record of the shared page.
///
/// `seq` is odd while the writer is between [`VdsoClock::write_seqcount_begin`]
/// and [`VdsoClock::write_seqcount_end`]; a reader keeps a copy of the other
/// fields only if it read the same even `seq` before and after copying them.
#[derive(Clone, Copy, Debug)]
pub struct VdsoClock {
    pub seq: u32,
    pub clock_mode: i32,
    pub cycle_last: u64,
    pub mask: u64,
    pub mult: u32,
    pub shift: u32,
    pub basetime: [VdsoTimestamp; 16],
}

/// One reading of the platform clocks, published by one refresh tick.
#[derive(Clone, Copy, PartialEq, Eq, Structural, Debug)]
pub struct ClockSample {
    /// Hardware counter value at the reading.
    pub cycles: u64,
    /// Nanoseconds since boot.
    pub mono_ns: u64,
    /// Nanoseconds since the epoch.
    pub real_ns: u64,
    /// Nanoseconds per `2^shift` counter ticks.
    pub mult: u32,
    pub shift: u32,
}

/// The clock records of the shared page, with the history of every state
/// each record has passed through, one entry per store of the writer.
pub struct VdsoTimeData {
    pub clock_data: [VdsoClock; 2],
    pub history: StoreLog,
}

/// The states each record has passed through; only the write primitives of
/// [`VdsoTimeData`] extend it.
pub struct StoreLog {
    states: Ghost<Seq<Seq<VdsoClock>>>,
}

impl StoreLog {
    pub closed spec fn view(&self) -> Seq<Seq<VdsoClock>> {
        self.states@
    }
}

/// The counter after one increment, wrapping at `u32::MAX`.
pub open spec fn seq_next(s: u32) -> u32 {
    if s == u32::MAX {
        0
    } else {
        (s + 1) as u32
    }
}

/// `a` and `b` agree on everything but the sequence counter.
pub open spec fn same_payload(a: VdsoClock, b: VdsoClock) -> bool {
    &&& a.clock_mode == b.clock_mode
    &&& a.cycle_last == b.cycle_last
    &&& a.mask == b.mask
    &&& a.mult == b.mult
    &&& a.shift == b.shift
    &&& a.basetime@ == b.basetime@
}

/// One store the writer may make to a record: none, a bump of the counter
/// that leaves the payload alone, or a payload store while the counter is odd.
pub open spec fn writer_step(a: VdsoClock, b: VdsoClock) -> bool {
    ||| a == b
    ||| (b.seq == seq_next(a.seq) && same_payload(a, b))
    ||| (a.seq % 2 == 1 && b.seq == a.seq)
}

/// Every two consecutive states of `t` are one writer store apart.
pub open spec fn writer_trace(t: Seq<VdsoClock>) -> bool {
    forall|m: int| 0 <= m < t.len() - 1 ==> #[trigger] writer_step(t[m], t[m + 1])
}

/// How many counter bumps the trace makes between states `i` and `k`.
pub open spec fn bumps(t: Seq<VdsoClock>, i: int, k: int) -> nat
    decreases k - i,
{
    if k <= i {
        0
    } else {
        bumps(t, i, k - 1) + if t[k].seq != t[k - 1].seq {
            1nat
        } else {
            0nat
        }
    }
}

/// The timestamp `ns` nanoseconds after the clock's origin.
pub open spec fn timestamp_of(ns: u64) -> VdsoTimestamp {
    VdsoTimestamp { sec: ns / NSEC_PER_SEC, nsec: ns % NSEC_PER_SEC }
}

/// The clock bases a sample sets: the wall-clock ones from `real_ns`, the
/// boot-relative ones from `mono_ns`; the others keep their value.
pub open spec fn basetime_after(old: Seq<VdsoTimestamp>, s: ClockSample) -> Seq<VdsoTimestamp> {
    old.update(CLOCK_REALTIME as int, timestamp_of(s.real_ns))
        .update(CLOCK_MONOTONIC as int, timestamp_of(s.mono_ns))
        .update(CLOCK_MONOTONIC_RAW as int, timestamp_of(s.mono_ns))
        .update(CLOCK_REALTIME_COARSE as int, timestamp_of(s.real_ns))
        .update(CLOCK_MONOTONIC_COARSE as int, timestamp_of(s.mono_ns))
        .update(CLOCK_BOOTTIME as int, timestamp_of(s.mono_ns))
}

/// The payload of `c` once the sample `s` is written into it.
pub open spec fn payload_after(c: VdsoClock, s: ClockSample, d: VdsoClock) -> bool {
    &&& d.clock_mode == c.clock_mode
    &&& d.cycle_last == s.cycles
    &&& d.mask == u64::MAX
    &&& d.mult == s.mult
    &&& d.shift == s.shift
    &&& d.basetime@ == basetime_after(c.basetime@, s)
}

/// Every record of `n` is the one of `o` after one full refresh with `s`,
/// reached by three writer stores: open the window, store, close it.
pub open spec fn refreshed(o: Seq<VdsoClock>, s: ClockSample, n: Seq<VdsoClock>) -> bool {
    forall|i: int|
        0 <= i < CS_BASES ==> {
            &&& (#[trigger] n[i]).seq == seq_next(seq_next(o[i].seq))
            &&& payload_after(o[i], s, n[i])
            &&& exists|open: VdsoClock, written: VdsoClock|
                writer_trace(#[trigger] seq![o[i], open, written, n[i]])
        }
}

/// `n` is `o` after one full refresh with some sample read from the
/// platform clocks.
pub open spec fn refreshed_from_platform(o: Seq<VdsoClock>, n: Seq<VdsoClock>) -> bool {
    exists|s: ClockSample| s.shift == CLOCK_SHIFT && #[trigger] refreshed(o, s, n)
}

/// A record with everything zero; its clock mode is the zero tag, "none".
pub open spec fn zero_clock(c: VdsoClock) -> bool {
    &&& c.seq == 0
    &&& c.clock_mode == 0
    &&& c.cycle_last == 0
    &&& c.mask == 0
    &&& c.mult == 0
    &&& c.shift == 0
    &&& forall|b: int| 0 <= b < VDSO_BASES ==> #[trigger] c.basetime@[b] == VdsoTimestamp {
        sec: 0,
        nsec: 0,
    }
}

/// Issues a sequentially consistent fence between the counter store and the
/// payload stores.
///
/// Relies on `core::sync::atomic::fence`, which orders memory accesses and
/// returns nothing.
#[verifier::external_body]
fn full_fence() {
    core::sync::atomic::fence(core::sync::atomic::Ordering::SeqCst)
}

impl VdsoClock {
    pub fn new() -> (r: Self)
        ensures
            zero_clock(r),
    {
        let ts = VdsoTimestamp { sec: 0, nsec: 0 };
        let basetime = [ts, ts, ts, ts, ts, ts, ts, ts, ts, ts, ts, ts, ts, ts, ts, ts];
        VdsoClock { seq: 0, clock_mode: 0, cycle_last: 0, mask: 0, mult: 0, shift: 0, basetime }
    }

    /// Opens the write window: the counter turns odd before any payload store.
    pub fn write_seqcount_begin(&mut self)
        ensures
            final(self).seq == seq_next(old(self).seq),
            same_payload(*old(self), *final(self)),
            writer_step(*old(self), *final(self)),
    {
        let s = self.seq;
        self.seq = if s == u32::MAX {
            0
        } else {
            s + 1
        };
        full_fence();
    }

    /// Closes the write window: the counter turns even after every payload
    /// store.
    pub fn write_seqcount_end(&mut self)
        ensures
            final(self).seq == seq_next(old(self).seq),
            same_payload(*old(self), *final(self)),
            writer_step(*old(self), *final(self)),
    {
        full_fence();
        let s = self.seq;
        self.seq = if s == u32::MAX {
            0
        } else {
            s + 1
        };
    }

    /// Stores a sample's values; only inside the write window.
    pub fn write_sample(&mut self, s: ClockSample)
        requires
            old(self).seq % 2 == 1,
        ensures
            final(self).seq == old(self).seq,
            payload_after(*old(self), s, *final(self)),
            writer_step(*old(self), *final(self)),
    {
        self.cycle_last = s.cycles;
        self.mask = u64::MAX;
        self.mult = s.mult;
        self.shift = s.shift;
        let wall = VdsoTimestamp { sec: s.real_ns / NSEC_PER_SEC, nsec: s.real_ns % NSEC_PER_SEC };
        let mono = VdsoTimestamp { sec: s.mono_ns / NSEC_PER_SEC, nsec: s.mono_ns % NSEC_PER_SEC };
        self.basetime[CLOCK_REALTIME] = wall;
        self.basetime[CLOCK_MONOTONIC] = mono;
        self.basetime[CLOCK_MONOTONIC_RAW] = mono;
        self.basetime[CLOCK_REALTIME_COARSE] = wall;
        self.basetime[CLOCK_MONOTONIC_COARSE] = mono;
        self.basetime[CLOCK_BOOTTIME] = mono;
    }

    /// Stores a clock mode tag; only inside the write window.
    pub fn write_clock_mode(&mut self, mode: i32)
        requires
            old(self).seq % 2 == 1,
        ensures
            *final(self) == (VdsoClock { clock_mode: mode, ..*old(self) }),
            writer_step(*old(self), *final(self)),
    {
        self.clock_mode = mode;
    }

    /// One full refresh of this record: open the window, store the sample,
    /// close the window. Each of the three stores is a writer step, so a
    /// reader is covered by [`lemma_stable_even_counter_means_untorn`].
    pub fn update(&mut self, s: ClockSample)
        requires
            old(self).seq % 2 == 0,
        ensures
            final(self).seq == seq_next(seq_next(old(self).seq)),
            final(self).seq % 2 == 0,
            payload_after(*old(self), s, *final(self)),
            exists|open: VdsoClock, written: VdsoClock|
                writer_trace(#[trigger] seq![*old(self), open, written, *final(self)]),
    {
        let ghost s0 = *self;
        self.write_seqcount_begin();
        let ghost s1 = *self;
        self.write_sample(s);
        let ghost s2 = *self;
        self.write_seqcount_end();
        proof {
            let t = seq![s0, s1, s2, *self];
            assert(t[0] == s0 && t[1] == s1 && t[2] == s2 && t[3] == *self);
            assert(writer_trace(t));
        }
    }
}


/// The three states one refresh with `s` passes a record `o` through: the
/// counter turns odd with the payload untouched, the payload is stored while
/// it stays odd, and the counter turns even with the payload untouched.
pub open spec fn refresh_stores(o: VdsoClock, s: ClockSample, t: Seq<VdsoClock>) -> bool {
    &&& t.len() == 3
    &&& t[0].seq == seq_next(o.seq) && same_payload(o, t[0])
    &&& t[1].seq == t[0].seq && payload_after(o, s, t[1])
    &&& t[2].seq == seq_next(t[1].seq) && same_payload(t[1], t[2])
}

/// The three states that tagging a record `o` with `mode` passes it through.
pub open spec fn mode_stores(o: VdsoClock, mode: i32, t: Seq<VdsoClock>) -> bool {
    &&& t.len() == 3
    &&& t[0].seq == seq_next(o.seq) && same_payload(o, t[0])
    &&& t[1] == (VdsoClock { clock_mode: mode, ..t[0] })
    &&& t[2].seq == seq_next(t[1].seq) && same_payload(t[1], t[2])
}

/// `h` extends `g` by exactly the states `t`.
pub open spec fn extends_by(g: Seq<VdsoClock>, h: Seq<VdsoClock>, t: Seq<VdsoClock>) -> bool {
    h == g + t
}

proof fn lemma_trace_push(h: Seq<VdsoClock>, x: VdsoClock)
    requires
        h.len() > 0,
        writer_trace(h),
        writer_step(h.last(), x),
    ensures
        writer_trace(h.push(x)),
{
    let g = h.push(x);
    assert forall|m: int| 0 <= m < g.len() - 1 implies #[trigger] writer_step(g[m], g[m + 1]) by {
        if m < h.len() - 1 {
            assert(g[m] == h[m] && g[m + 1] == h[m + 1]);
        } else {
            assert(g[m] == h.last() && g[m + 1] == x);
        }
    }
}

impl VdsoTimeData {
    /// Every store record `i` has gone through, oldest first; its last entry
    /// is the record as it is now.
    pub closed spec fn stores(&self, i: int) -> Seq<VdsoClock> {
        self.history@[i]
    }

    /// The history is complete: it ends at the current records, and each
    /// step of it is one writer store.
    pub closed spec fn logged(&self) -> bool {
        &&& self.history@.len() == CS_BASES
        &&& forall|i: int|
            0 <= i < CS_BASES ==> {
                &&& (#[trigger] self.history@[i]).len() > 0
                &&& self.history@[i].last() == self.clock_data@[i]
                &&& writer_trace(self.history@[i])
            }
    }

    /// No write window is open and the history is complete.
    pub open spec fn wf(&self) -> bool {
        &&& self.logged()
        &&& forall|i: int| 0 <= i < CS_BASES ==> #[trigger] self.clock_data@[i].seq % 2 == 0
    }

    /// Every record but `i` and its history are as in `o`, and record `i`'s
    /// history grew by its new state.
    pub open spec fn one_store(&self, o: &Self, i: int) -> bool {
        &&& self.logged()
        &&& forall|j: int|
            0 <= j < CS_BASES && j != i ==> #[trigger] self.clock_data@[j] == o.clock_data@[j]
                && self.stores(j) == o.stores(j)
        &&& self.stores(i) == o.stores(i).push(self.clock_data@[i])
    }

    /// The zero state of the shared page: every record zero, mode "none".
    pub fn new() -> (r: Self)
        ensures
            r.wf(),
            forall|i: int| 0 <= i < CS_BASES ==> zero_clock(#[trigger] r.clock_data@[i]),
            forall|i: int| 0 <= i < CS_BASES ==> #[trigger] r.stores(i) == seq![r.clock_data@[i]],
    {
        let c = VdsoClock::new();
        let states: Ghost<Seq<Seq<VdsoClock>>> = Ghost(
            Seq::empty().push(Seq::empty().push(c)).push(Seq::empty().push(c)),
        );
        let r = VdsoTimeData { clock_data: [c, c], history: StoreLog { states } };
        assert forall|i: int| 0 <= i < CS_BASES implies writer_trace(#[trigger] r.history@[i]) by {
            assert(r.history@[i].len() == 1);
        }
        r
    }

    proof fn lemma_log_store(prev: Self, new: Self, i: int)
        requires
            0 <= i < CS_BASES,
            prev.logged(),
            writer_step(prev.clock_data@[i], new.clock_data@[i]),
            new.history@ == prev.history@.update(
                i,
                prev.history@[i].push(new.clock_data@[i]),
            ),
            forall|j: int|
                0 <= j < CS_BASES && j != i ==> #[trigger] new.clock_data@[j]
                    == prev.clock_data@[j],
        ensures
            new.one_store(&prev, i),
    {
        lemma_trace_push(prev.history@[i], new.clock_data@[i]);
        assert forall|j: int| 0 <= j < CS_BASES implies {
            &&& (#[trigger] new.history@[j]).len() > 0
            &&& new.history@[j].last() == new.clock_data@[j]
            &&& writer_trace(new.history@[j])
        } by {
            if j != i {
                assert(new.history@[j] == prev.history@[j]);
            }
        }
    }

    /// Opens the write window of record `i`.
    pub fn write_seqcount_begin(&mut self, i: usize)
        requires
            i < CS_BASES,
            old(self).logged(),
        ensures
            final(self).one_store(old(self), i as int),
            final(self).clock_data@[i as int].seq == seq_next(old(self).clock_data@[i as int].seq),
            same_payload(old(self).clock_data@[i as int], final(self).clock_data@[i as int]),
    {
        let ghost o = *self;
        self.clock_data[i].write_seqcount_begin();
        self.history = StoreLog {
            states: Ghost(self.history@.update(i as int, self.history@[i as int].push(self.clock_data[i as int]))),
        };
        proof { Self::lemma_log_store(o, *self, i as int); }
    }

    /// Closes the write window of record `i`.
    pub fn write_seqcount_end(&mut self, i: usize)
        requires
            i < CS_BASES,
            old(self).logged(),
        ensures
            final(self).one_store(old(self), i as int),
            final(self).clock_data@[i as int].seq == seq_next(old(self).clock_data@[i as int].seq),
            same_payload(old(self).clock_data@[i as int], final(self).clock_data@[i as int]),
    {
        let ghost o = *self;
        self.clock_data[i].write_seqcount_end();
        self.history = StoreLog {
            states: Ghost(self.history@.update(i as int, self.history@[i as int].push(self.clock_data[i as int]))),
        };
        proof { Self::lemma_log_store(o, *self, i as int); }
    }

    /// Stores a sample into record `i`; only inside its write window.
    pub fn write_sample(&mut self, i: usize, s: ClockSample)
        requires
            i < CS_BASES,
            old(self).logged(),
            old(self).clock_data@[i as int].seq % 2 == 1,
        ensures
            final(self).one_store(old(self), i as int),
            final(self).clock_data@[i as int].seq == old(self).clock_data@[i as int].seq,
            payload_after(old(self).clock_data@[i as int], s, final(self).clock_data@[i as int]),
    {
        let ghost o = *self;
        self.clock_data[i].write_sample(s);
        self.history = StoreLog {
            states: Ghost(self.history@.update(i as int, self.history@[i as int].push(self.clock_data[i as int]))),
        };
        proof { Self::lemma_log_store(o, *self, i as int); }
    }

    /// Stores a clock mode tag into record `i`; only inside its write window.
    pub fn write_clock_mode(&mut self, i: usize, mode: i32)
        requires
            i < CS_BASES,
            old(self).logged(),
            old(self).clock_data@[i as int].seq % 2 == 1,
        ensures
            final(self).one_store(old(self), i as int),
            final(self).clock_data@[i as int] == (VdsoClock { clock_mode: mode, ..old(self).clock_data@[i as int] }),
    {
        let ghost o = *self;
        self.clock_data[i].write_clock_mode(mode);
        self.history = StoreLog {
            states: Ghost(self.history@.update(i as int, self.history@[i as int].push(self.clock_data[i as int]))),
        };
        proof { Self::lemma_log_store(o, *self, i as int); }
    }

    /// One full refresh of record `i`: three stores, recorded in its history.
    pub fn refresh_record(&mut self, i: usize, s: ClockSample)
        requires
            i < CS_BASES,
            old(self).wf(),
        ensures
            final(self).wf(),
            forall|j: int|
                0 <= j < CS_BASES && j != i ==> #[trigger] final(self).clock_data@[j]
                    == old(self).clock_data@[j] && final(self).stores(j) == old(self).stores(j),
            final(self).stores(i as int).len() == old(self).stores(i as int).len() + 3,
            final(self).stores(i as int) == old(self).stores(i as int) + final(self).stores(
                i as int,
            ).subrange(old(self).stores(i as int).len() as int, final(self).stores(i as int).len() as int),
            refresh_stores(
                old(self).clock_data@[i as int],
                s,
                final(self).stores(i as int).subrange(
                    old(self).stores(i as int).len() as int,
                    final(self).stores(i as int).len() as int,
                ),
            ),
            final(self).clock_data@[i as int].seq == seq_next(seq_next(old(self).clock_data@[i as int].seq)),
            payload_after(old(self).clock_data@[i as int], s, final(self).clock_data@[i as int]),
    {
        let ghost o = *self;
        let ghost n = self.stores(i as int).len() as int;
        self.write_seqcount_begin(i);
        let ghost s1 = *self;
        self.write_sample(i, s);
        let ghost s2 = *self;
        self.write_seqcount_end(i);
        proof {
            let t = self.stores(i as int).subrange(n, n + 3);
            assert(t[0] == s1.clock_data@[i as int]);
            assert(t[1] == s2.clock_data@[i as int]);
            assert(t[2] == self.clock_data@[i as int]);
            assert(self.stores(i as int) =~= o.stores(i as int) + t);
            assert forall|j: int| 0 <= j < CS_BASES implies #[trigger] self.clock_data@[j].seq % 2 == 0 by {
                if j != i {
                    assert(self.clock_data@[j] == o.clock_data@[j]);
                }
            }
        }
    }

    /// One refresh tick: each record goes through one full write window,
    /// recorded store by store, and ends holding the sample.
    pub fn update_with(&mut self, s: ClockSample)
        requires
            old(self).wf(),
        ensures
            final(self).wf(),
            refreshed(old(self).clock_data@, s, final(self).clock_data@),
            forall|i: int|
                0 <= i < CS_BASES ==> {
                    let g = old(self).stores(i);
                    let h = #[trigger] final(self).stores(i);
                    &&& h.len() == g.len() + 3
                    &&& h == g + h.subrange(g.len() as int, h.len() as int)
                    &&& refresh_stores(old(self).clock_data@[i], s, h.subrange(g.len() as int, h.len() as int))
                },
    {
        let ghost o = *self;
        self.refresh_record(0, s);
        let ghost m = *self;
        self.refresh_record(1, s);
        proof {
            assert forall|i: int| 0 <= i < CS_BASES implies {
                &&& (#[trigger] self.clock_data@[i]).seq == seq_next(seq_next(o.clock_data@[i].seq))
                &&& payload_after(o.clock_data@[i], s, self.clock_data@[i])
                &&& exists|open: VdsoClock, written: VdsoClock|
                    writer_trace(#[trigger] seq![o.clock_data@[i], open, written, self.clock_data@[i]])
            } by {
                let h = self.stores(i);
                let g = o.stores(i);
                let t = h.subrange(g.len() as int, h.len() as int);
                if i == 0 {
                    assert(self.stores(0) == m.stores(0));
                    assert(self.clock_data@[0] == m.clock_data@[0]);
                }
                let w = seq![o.clock_data@[i], t[0], t[1], self.clock_data@[i]];
                assert(t[2] == h.last());
                assert(writer_step(w[0], w[1]));
                assert(writer_step(w[1], w[2]));
                assert(writer_step(w[2], w[3]));
                assert(writer_trace(w));
            }
        }
    }

    /// Refreshes the records from the platform clocks.
    pub fn update(&mut self)
        requires
            old(self).wf(),
        ensures
            final(self).wf(),
            refreshed_from_platform(old(self).clock_data@, final(self).clock_data@),
            forall|i: int|
                0 <= i < CS_BASES ==> (#[trigger] final(self).stores(i)).len() == old(self).stores(i).len() + 3
                    && final(self).stores(i).subrange(0, old(self).stores(i).len() as int) == old(self).stores(i),
    {
        let s = read_clock_sample();
        self.update_with(s);
        assert(refreshed(old(self).clock_data@, s, self.clock_data@));
        assert forall|i: int| 0 <= i < CS_BASES implies (#[trigger] self.stores(i)).len() == old(self).stores(i).len() + 3
            && self.stores(i).subrange(0, old(self).stores(i).len() as int) == old(self).stores(i) by {
            let g = old(self).stores(i);
            let h = self.stores(i);
            assert(h == g + h.subrange(g.len() as int, h.len() as int));
            assert(h.subrange(0, g.len() as int) =~= g);
        }
    }

    /// Tags every record with the given clock mode, each inside its own write
    /// window, recorded store by store.
    pub fn set_clock_mode(&mut self, mode: i32)
        requires
            old(self).wf(),
        ensures
            final(self).wf(),
            forall|i: int|
                0 <= i < CS_BASES ==> {
                    let o = old(self).clock_data@[i];
                    let n = #[trigger] final(self).clock_data@[i];
                    let g = old(self).stores(i);
                    let h = final(self).stores(i);
                    &&& n.seq == seq_next(seq_next(o.seq))
                    &&& n.clock_mode == mode
                    &&& n.cycle_last == o.cycle_last
                    &&& n.mask == o.mask
                    &&& n.mult == o.mult
                    &&& n.shift == o.shift
                    &&& n.basetime@ == o.basetime@
                    &&& h.len() == g.len() + 3
                    &&& h == g + h.subrange(g.len() as int, h.len() as int)
                    &&& mode_stores(o, mode, h.subrange(g.len() as int, h.len() as int))
                },
    {
        let mut i: usize = 0;
        while i < CS_BASES
            invariant
                i <= CS_BASES,
                self.wf(),
                forall|j: int|
                    i <= j < CS_BASES ==> #[trigger] self.clock_data@[j] == old(self).clock_data@[j]
                        && self.stores(j) == old(self).stores(j),
                forall|j: int|
                    0 <= j < i ==> {
                        let o = old(self).clock_data@[j];
                        let n = #[trigger] self.clock_data@[j];
                        let g = old(self).stores(j);
                        let h = self.stores(j);
                        &&& n.seq == seq_next(seq_next(o.seq))
                        &&& n.clock_mode == mode
                        &&& n.cycle_last == o.cycle_last
                        &&& n.mask == o.mask
                        &&& n.mult == o.mult
                        &&& n.shift == o.shift
                        &&& n.basetime@ == o.basetime@
                        &&& h.len() == g.len() + 3
                        &&& h == g + h.subrange(g.len() as int, h.len() as int)
                        &&& mode_stores(o, mode, h.subrange(g.len() as int, h.len() as int))
                    },
            decreases CS_BASES - i,
        {
            let ghost o = *self;
            let ghost n0 = self.stores(i as int).len() as int;
            self.write_seqcount_begin(i);
            let ghost s1 = *self;
            self.write_clock_mode(i, mode);
            let ghost s2 = *self;
            self.write_seqcount_end(i);
            proof {
                let t = self.stores(i as int).subrange(n0, n0 + 3);
                assert(t[0] == s1.clock_data@[i as int]);
                assert(t[1] == s2.clock_data@[i as int]);
                assert(t[2] == self.clock_data@[i as int]);
                assert(self.stores(i as int) =~= o.stores(i as int) + t);
                assert forall|j: int| 0 <= j < CS_BASES && j != i implies #[trigger] self.clock_data@[j] == o.clock_data@[j]
                    && self.stores(j) == o.stores(j) by {
                    assert(s1.clock_data@[j] == o.clock_data@[j] && s1.stores(j) == o.stores(j));
                    assert(s2.clock_data@[j] == s1.clock_data@[j] && s2.stores(j) == s1.stores(j));
                }
                assert forall|j: int| 0 <= j < CS_BASES implies #[trigger] self.clock_data@[j].seq % 2 == 0 by {
                    if j != i {
                        assert(self.clock_data@[j] == o.clock_data@[j]);
                    }
                }
            }
            i = i + 1;
        }
    }
}

/// The reader law on the shared page: of the states a record has passed
/// through, a reader that read the counter at state `a`, copied fields at
/// any states in between and read the counter again at state `b`, seeing
/// the same even value both times, copied every field as it was at state
/// `a`, a state in which no write window was open. Holds for windows of
/// fewer than `2^32` stores.
pub proof fn lemma_accepted_snapshot_is_published(d: &VdsoTimeData, i: int, a: int, b: int)
    requires
        d.logged(),
        0 <= i < CS_BASES,
        0 <= a <= b < d.stores(i).len(),
        b - a < 0x1_0000_0000,
        d.stores(i)[a].seq == d.stores(i)[b].seq,
        d.stores(i)[a].seq % 2 == 0,
    ensures
        forall|k: int|
            a <= k <= b ==> #[trigger] d.stores(i)[k].seq == d.stores(i)[a].seq && same_payload(
                d.stores(i)[a],
                d.stores(i)[k],
            ),
{
    assert(writer_trace(d.history@[i]));
    lemma_stable_even_counter_means_untorn(d.stores(i), a, b);
}

/// The sample for the given readings: `per_unit` is the nanoseconds of
/// `2^CLOCK_SHIFT` ticks, saturated to 32 bits as the factor.
pub fn clock_sample(cycles: u64, mono_ns: u64, real_ns: u64, per_unit: u64) -> (r: ClockSample)
    ensures
        r == (ClockSample {
            cycles,
            mono_ns,
            real_ns,
            mult: if per_unit > u32::MAX {
                u32::MAX
            } else {
                per_unit as u32
            },
            shift: CLOCK_SHIFT,
        }),
{
    let mult: u32 = if per_unit > u32::MAX as u64 {
        u32::MAX
    } else {
        per_unit as u32
    };
    ClockSample { cycles, mono_ns, real_ns, mult, shift: CLOCK_SHIFT }
}

/// Reads the platform clocks once.
pub fn read_clock_sample() -> (r: ClockSample)
    ensures
        exists|cycles: u64, mono_ns: u64, real_ns: u64, per_unit: u64|
            r == #[trigger] sample_of(cycles, mono_ns, real_ns, per_unit),
{
    let cycles = platform::current_ticks();
    let mono_ns = platform::monotonic_time_nanos();
    let real_ns = platform::wall_time_nanos();
    let per_unit = platform::ticks_to_nanos(1u64 << CLOCK_SHIFT);
    let r = clock_sample(cycles, mono_ns, real_ns, per_unit);
    assert(r == sample_of(cycles, mono_ns, real_ns, per_unit));
    r
}

/// What [`clock_sample`] returns.
pub open spec fn sample_of(cycles: u64, mono_ns: u64, real_ns: u64, per_unit: u64) -> ClockSample {
    ClockSample {
        cycles,
        mono_ns,
        real_ns,
        mult: if per_unit > u32::MAX {
            u32::MAX
        } else {
            per_unit as u32
        },
        shift: CLOCK_SHIFT,
    }
}

proof fn lemma_bumps_track_counter(t: Seq<VdsoClock>, i: int, k: int)
    requires
        writer_trace(t),
        0 <= i <= k < t.len(),
    ensures
        t[k].seq as int == (t[i].seq as int + bumps(t, i, k)) % 0x1_0000_0000,
        bumps(t, i, k) <= k - i,
    decreases k - i,
{
    if k > i {
        lemma_bumps_track_counter(t, i, k - 1);
        let m = k - 1;
        assert(writer_step(t[m], t[m + 1]));
    }
}

proof fn lemma_no_bump_keeps_record(t: Seq<VdsoClock>, i: int, k: int)
    requires
        writer_trace(t),
        0 <= i <= k < t.len(),
        t[i].seq % 2 == 0,
        bumps(t, i, k) == 0,
    ensures
        forall|m: int| i <= m <= k ==> #[trigger] t[m].seq == t[i].seq && same_payload(t[i], t[m]),
    decreases k - i,
{
    if k > i {
        lemma_no_bump_keeps_record(t, i, k - 1);
        let m = k - 1;
        assert(writer_step(t[m], t[m + 1]));
    }
}

/// A reader that reads the counter at state `i`, copies fields at any states
/// in between, and reads the counter again at state `j`, sees the same even
/// value twice only if no payload store fell in between: every copied field
/// is the one of state `i`. Holds for windows of fewer than `2^32` writer
/// stores, within which the counter cannot come round to the same value.
pub proof fn lemma_stable_even_counter_means_untorn(t: Seq<VdsoClock>, i: int, j: int)
    requires
        writer_trace(t),
        0 <= i <= j < t.len(),
        j - i < 0x1_0000_0000,
        t[i].seq == t[j].seq,
        t[i].seq % 2 == 0,
    ensures
        forall|k: int| i <= k <= j ==> #[trigger] t[k].seq == t[i].seq && same_payload(t[i], t[k]),
{
    lemma_bumps_track_counter(t, i, j);
    assert(bumps(t, i, j) == 0) by {
        let b = bumps(t, i, j) as int;
        let s = t[i].seq as int;
        assert((s + b) % 0x1_0000_0000 == s);
        assert(0 <= b < 0x1_0000_0000);
        assert(b == 0) by (nonlinear_arith)
            requires
                (s + b) % 0x1_0000_0000 == s,
                0 <= b < 0x1_0000_0000,
                0 <= s < 0x1_0000_0000,
        ;
    }
    lemma_no_bump_keeps_record(t, i, j);
}

} // verus!
