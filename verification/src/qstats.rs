//! Live per-lane queue statistics: depth counter, admission and drop
//! counters, sampled depth history and queueing-delay history.
//!
//! Averages use an exponential moving average with a smoothing factor of one
//! tenth, seeded with the first sample.  Everything is kept in integers: the
//! averages are reported in thousandths of a sample unit, and the drop rate
//! in thousandths of the admission attempts.

use vstd::prelude::*;
use vstd::arithmetic::div_mod::{lemma_div_is_ordered, lemma_div_multiples_vanish};

verus! {

/// One step of the moving average, on a state scaled by a thousand:
/// a tenth of the new sample plus nine tenths of the previous state.
pub open spec fn ema_step(state: int, sample: int) -> int {
    100 * sample + (9 * state) / 10
}

/// The moving average folded over `h` from position `i`, starting at `state`.
pub open spec fn ema_from(h: Seq<usize>, i: int, state: int) -> int
    decreases h.len() - i,
{
    if i < 0 || i >= h.len() {
        state
    } else {
        ema_from(h, i + 1, ema_step(state, h[i] as int))
    }
}

/// The moving average of a sample history, in thousandths: zero for an empty
/// history, else seeded with the first sample and stepped once per sample
/// (the seed sample included, as recorded histories fold over every entry).
pub open spec fn ema_milli(h: Seq<usize>) -> int {
    if h.len() == 0 {
        0
    } else {
        ema_from(h, 0, 1000 * h[0])
    }
}

/// The moving-average state never leaves `[0, 1000 * bound]` while every
/// sample stays within `bound`.
proof fn lemma_ema_step_bounded(state: int, sample: int, bound: int)
    requires
        0 <= state <= 1000 * bound,
        0 <= sample <= bound,
    ensures
        0 <= ema_step(state, sample) <= 1000 * bound,
{
    lemma_div_is_ordered(0, 9 * state, 10);
    lemma_div_is_ordered(9 * state, 9000 * bound, 10);
    lemma_div_multiples_vanish(900 * bound, 10);
    assert(9000 * bound == 10 * (900 * bound)) by (nonlinear_arith);
}

/// An immutable snapshot of a lane's statistics.
///
/// `avg_qsize` and `avg_qdelay` are moving averages in thousandths of a
/// sample unit; `droprate` is dropped admissions per thousand attempts;
/// `mcnt` counts all admission attempts.
#[derive(Clone)]
pub struct QueueStatsReport {
    /// Rank of the lane the snapshot describes.
    pub priority: usize,
    /// Moving average of the sampled queue depths, in thousandths.
    pub avg_qsize: u128,
    /// Dropped admissions per thousand attempts; zero when nothing was tried.
    pub droprate: u64,
    /// Moving average of the sampled queueing delays, in thousandths of a
    /// microsecond.
    pub avg_qdelay: u128,
    /// Total number of admission attempts.
    pub mcnt: usize,
}

/// Live statistics of one lane.
pub struct QueueStats {
    /// Current queue depth, kept in step with the lane by the scheduler.
    pub queue_counter: usize,
    /// Rank of the lane these statistics describe.
    pub priority: usize,
    /// History of sampled queue depths, one sample per admission.
    pub qsize: Vec<usize>,
    /// Number of admission attempts that ended in a drop.
    pub dropped: usize,
    /// Number of admission attempts.
    pub tried: usize,
    /// History of observed per-message queueing delays, in microseconds.
    pub queueing_delay: Vec<usize>,
}

impl QueueStats {
    /// Well-formedness: a drop is only ever recorded for an attempt, so the
    /// drop counter never passes the attempt counter.
    pub open spec fn wf(self) -> bool {
        self.dropped <= self.tried
    }

    /// Fresh statistics for the lane of the given rank, all zeroed.
    pub fn new(priority: usize) -> (s: QueueStats)
        ensures
            s.wf(),
            s.queue_counter == 0,
            s.priority == priority,
            s.qsize@ =~= Seq::<usize>::empty(),
            s.dropped == 0,
            s.tried == 0,
            s.queueing_delay@ =~= Seq::<usize>::empty(),
    {
        QueueStats {
            queue_counter: 0,
            priority,
            qsize: Vec::new(),
            dropped: 0,
            tried: 0,
            queueing_delay: Vec::new(),
        }
    }

    /// Sample the current queue depth into the depth history.
    pub fn record_qsize(&mut self)
        ensures
            *final(self) == (QueueStats {
                qsize: final(self).qsize,
                ..*old(self)
            }),
            final(self).qsize@ =~= old(self).qsize@.push(old(self).queue_counter),
    {
        let cur_qsize = self.queue_counter;
        self.qsize.push(cur_qsize);
    }

    /// Record one observed queueing delay, in microseconds.
    pub fn push_qdelay(&mut self, delay: usize)
        ensures
            *final(self) == (QueueStats {
                queueing_delay: final(self).queueing_delay,
                ..*old(self)
            }),
            final(self).queueing_delay@ =~= old(self).queueing_delay@.push(delay),
    {
        self.queueing_delay.push(delay);
    }

    /// Note one more message resident in the lane.
    pub fn inc_qcnt(&mut self)
        requires
            old(self).queue_counter < usize::MAX,
        ensures
            *final(self) == (QueueStats {
                queue_counter: (old(self).queue_counter + 1) as usize,
                ..*old(self)
            }),
    {
        self.queue_counter = self.queue_counter + 1;
    }

    /// Note one message gone from the lane.
    pub fn dec_qcnt(&mut self)
        requires
            old(self).queue_counter > 0,
        ensures
            *final(self) == (QueueStats {
                queue_counter: (old(self).queue_counter - 1) as usize,
                ..*old(self)
            }),
    {
        self.queue_counter = self.queue_counter - 1;
    }

    /// Record a dropped admission.  A drop always belongs to an attempt that
    /// was already counted, which keeps `dropped` at or below `tried`.
    pub fn inc_dropped(&mut self)
        requires
            old(self).dropped < old(self).tried,
        ensures
            final(self).wf(),
            *final(self) == (QueueStats {
                dropped: (old(self).dropped + 1) as usize,
                ..*old(self)
            }),
    {
        self.dropped = self.dropped + 1;
    }

    /// Record an admission attempt.
    pub fn inc_tried(&mut self)
        requires
            old(self).tried < usize::MAX,
        ensures
            *final(self) == (QueueStats {
                tried: (old(self).tried + 1) as usize,
                ..*old(self)
            }),
            old(self).wf() ==> final(self).wf(),
    {
        self.tried = self.tried + 1;
    }

    /// Take an immutable snapshot: the two moving averages in thousandths,
    /// the drop rate in thousandths (exactly zero when nothing was tried, so
    /// no division by zero can occur), and the attempt count.  Nothing is
    /// mutated.
    pub fn report(&self) -> (r: QueueStatsReport)
        requires
            self.wf(),
        ensures
            r.priority == self.priority,
            r.avg_qsize == ema_milli(self.qsize@),
            r.avg_qdelay == ema_milli(self.queueing_delay@),
            r.mcnt == self.tried,
            self.tried == 0 ==> r.droprate == 0,
            self.tried > 0 ==> r.droprate == self.dropped * 1000 / self.tried as int,
            r.droprate <= 1000,
    {
        let avg_qsize = ema_exec(&self.qsize);
        let avg_qdelay = ema_exec(&self.queueing_delay);
        let droprate: u64 = if self.tried > 0 {
            proof {
                lemma_div_is_ordered(
                    self.dropped * 1000,
                    self.tried * 1000,
                    self.tried as int,
                );
                lemma_div_multiples_vanish(1000, self.tried as int);
                assert(self.tried * 1000 == (self.tried as int) * 1000) by (nonlinear_arith);
            }
            ((self.dropped as u128) * 1000 / (self.tried as u128)) as u64
        } else {
            0
        };
        QueueStatsReport {
            priority: self.priority,
            avg_qsize,
            droprate,
            avg_qdelay,
            mcnt: self.tried,
        }
    }
}

/// The moving average of a history, in thousandths, as `ema_milli` states it.
fn ema_exec(h: &Vec<usize>) -> (r: u128)
    ensures
        r == ema_milli(h@),
{
    if h.len() == 0 {
        return 0;
    }
    let ghost bound: int = usize::MAX as int;
    let mut state: u128 = (h[0] as u128) * 1000;
    let mut i: usize = 0;
    while i < h.len()
        invariant
            i <= h@.len(),
            0 < h@.len(),
            0 <= state <= 1000 * bound,
            bound == usize::MAX as int,
            ema_milli(h@) == ema_from(h@, i as int, state as int),
        decreases h@.len() - i,
    {
        let sample = h[i];
        proof {
            lemma_ema_step_bounded(state as int, sample as int, bound);
            lemma_div_is_ordered(0, 9 * state, 10);
        }
        state = 100 * (sample as u128) + (9 * state) / 10;
        i = i + 1;
    }
    state
}

/// The drop counter never passes the attempt counter: every operation on
/// well-formed statistics keeps them well-formed, and well-formedness says
/// exactly this.
pub proof fn lemma_dropped_le_tried(s: QueueStats)
    requires
        s.wf(),
    ensures
        s.dropped <= s.tried,
{
}

/// Feeding one constant sample value repeatedly leaves the moving average at
/// exactly that value (scaled to thousandths): the average is seeded with the
/// first sample, and every further step of the same value is a fixed point.
pub proof fn lemma_ema_constant(h: Seq<usize>, v: usize)
    requires
        h.len() > 0,
        forall|i: int| 0 <= i < h.len() ==> h[i] == v,
    ensures
        ema_milli(h) == 1000 * v,
{
    lemma_ema_constant_from(h, 0, v);
}

/// Helper for `lemma_ema_constant`: from a state of exactly the constant
/// sample, folding the rest of a constant history moves nothing.
proof fn lemma_ema_constant_from(h: Seq<usize>, i: int, v: usize)
    requires
        0 <= i <= h.len(),
        forall|j: int| 0 <= j < h.len() ==> h[j] == v,
    ensures
        ema_from(h, i, 1000 * v) == 1000 * v,
    decreases h.len() - i,
{
    if i < h.len() {
        lemma_div_multiples_vanish(900 * v, 10);
        assert(9 * (1000 * v) == 10 * (900 * v)) by (nonlinear_arith);
        assert(ema_step(1000 * v, v as int) == 1000 * v);
        lemma_ema_constant_from(h, i + 1, v);
    }
}

} // verus!
