//! Coalescing of dequeued messages into size- and time-bounded batches.

use vstd::prelude::*;
use crate::config::BatchingConf;

verus! {

/// Total number of payload bytes in a sequence of messages.
pub open spec fn sum_len(s: Seq<Vec<u8>>) -> int
    decreases s.len(),
{
    if s.len() == 0 {
        0
    } else {
        sum_len(s.drop_last()) + s.last()@.len()
    }
}

/// Appending one message adds exactly its length to the total.
proof fn lemma_sum_len_push(s: Seq<Vec<u8>>, p: Vec<u8>)
    ensures
        sum_len(s.push(p)) == sum_len(s) + p@.len(),
{
    assert(s.push(p).drop_last() =~= s);
    assert(s.push(p).last() == p);
}

/// A finished batch, ready for the link writer.
pub struct Batch {
    /// The coalesced payloads, in dequeue order.
    pub payloads: Vec<Vec<u8>>,
    /// Total payload bytes; never exceeds the configured batch size.
    pub bytes: usize,
    /// Time the batch's first message was appended, in microseconds.
    pub first_at: u64,
}

impl Batch {
    /// The byte count matches the payloads.
    pub open spec fn wf(self) -> bool {
        self.bytes == sum_len(self.payloads@)
    }
}

/// The batching engine: accumulates dequeued messages until the batch is
/// size-full or has waited out its time budget.
pub struct BatchingEngine {
    /// Switch and time budget.
    pub conf: BatchingConf,
    /// Largest batch the link accepts, in bytes.
    pub batch_size: usize,
    /// The in-progress batch's payloads, in dequeue order.
    pub cur: Vec<Vec<u8>>,
    /// Total bytes of the in-progress batch.
    pub cur_bytes: usize,
    /// Time the in-progress batch's first message was appended, in
    /// microseconds; meaningful only while the batch is non-empty.
    pub first_at: u64,
}

impl BatchingEngine {
    /// Well-formedness: the running byte count matches the buffered
    /// payloads and stays within the configured batch size, and with
    /// batching disabled nothing is ever buffered.
    pub open spec fn wf(self) -> bool {
        &&& 1 <= self.batch_size
        &&& self.cur_bytes == sum_len(self.cur@)
        &&& self.cur_bytes <= self.batch_size
        &&& !self.conf.enabled ==> self.cur@.len() == 0
    }

    /// The time budget of the in-progress batch has run out: batching is on,
    /// something is buffered, and `time_limit` milliseconds have passed since
    /// the batch's first message arrived.
    pub open spec fn deadline_passed(self, now: u64) -> bool {
        &&& self.conf.enabled
        &&& self.cur@.len() > 0
        &&& now >= self.first_at
        &&& (now - self.first_at) / 1000 >= self.conf.time_limit
    }

    /// A fresh, empty engine.
    pub fn new(conf: BatchingConf, batch_size: usize) -> (e: BatchingEngine)
        requires
            1 <= batch_size,
        ensures
            e.wf(),
            e.conf == conf,
            e.batch_size == batch_size,
            e.cur@.len() == 0,
    {
        BatchingEngine { conf, batch_size, cur: Vec::new(), cur_bytes: 0, first_at: 0 }
    }

    /// Append one dequeued message, flushing first if it does not fit.
    ///
    /// With batching disabled the message is returned at once as a batch of
    /// its own.  Otherwise the message is buffered when it fits under
    /// `batch_size` beside what is already there; when it does not fit, the
    /// current batch is flushed (returned) and the message starts a new one.
    /// A buffered first message stamps the batch with `now`.
    pub fn push(&mut self, payload: Vec<u8>, now: u64) -> (r: Option<Batch>)
        requires
            old(self).wf(),
            payload@.len() <= old(self).batch_size,
        ensures
            final(self).wf(),
            final(self).conf == old(self).conf,
            final(self).batch_size == old(self).batch_size,
            r is Some ==> r->Some_0.wf() && r->Some_0.bytes <= old(self).batch_size,
            !old(self).conf.enabled ==> {
                &&& r is Some
                &&& r->Some_0.payloads@ =~= seq![payload]
                &&& r->Some_0.bytes == payload@.len()
                &&& r->Some_0.first_at == now
                &&& final(self).cur@.len() == 0
            },
            old(self).conf.enabled && old(self).cur_bytes + payload@.len() <= old(
                self,
            ).batch_size ==> {
                &&& r is None
                &&& final(self).cur@ =~= old(self).cur@.push(payload)
                &&& final(self).cur_bytes == old(self).cur_bytes + payload@.len()
                &&& final(self).first_at == if old(self).cur@.len() == 0 {
                    now
                } else {
                    old(self).first_at
                }
            },
            old(self).conf.enabled && old(self).cur_bytes + payload@.len() > old(
                self,
            ).batch_size ==> {
                &&& r is Some
                &&& r->Some_0.payloads@ =~= old(self).cur@
                &&& r->Some_0.bytes == old(self).cur_bytes
                &&& r->Some_0.first_at == old(self).first_at
                &&& final(self).cur@ =~= seq![payload]
                &&& final(self).cur_bytes == payload@.len()
                &&& final(self).first_at == now
            },
    {
        let len = payload.len();
        if !self.conf.enabled {
            let mut payloads: Vec<Vec<u8>> = Vec::new();
            payloads.push(payload);
            let batch = Batch { payloads, bytes: len, first_at: now };
            proof {
                assert(sum_len(Seq::<Vec<u8>>::empty()) == 0);
                assert(batch.payloads@ =~= Seq::<Vec<u8>>::empty().push(payload));
                lemma_sum_len_push(Seq::<Vec<u8>>::empty(), payload);
            }
            return Some(batch);
        }
        if self.cur_bytes <= self.batch_size - len {
            if self.cur.len() == 0 {
                self.first_at = now;
            }
            self.cur.push(payload);
            proof {
                lemma_sum_len_push(old(self).cur@, payload);
            }
            self.cur_bytes = self.cur_bytes + len;
            None
        } else {
            let mut fresh: Vec<Vec<u8>> = Vec::new();
            fresh.push(payload);
            core::mem::swap(&mut self.cur, &mut fresh);
            let batch = Batch {
                payloads: fresh,
                bytes: self.cur_bytes,
                first_at: self.first_at,
            };
            self.cur_bytes = len;
            self.first_at = now;
            proof {
                assert(sum_len(Seq::<Vec<u8>>::empty()) == 0);
                assert(self.cur@ =~= Seq::<Vec<u8>>::empty().push(payload));
                lemma_sum_len_push(Seq::<Vec<u8>>::empty(), payload);
            }
            Some(batch)
        }
    }

    /// Flush on deadline: return the in-progress batch exactly when its time
    /// budget has run out, regardless of fill level.
    pub fn poll_deadline(&mut self, now: u64) -> (r: Option<Batch>)
        requires
            old(self).wf(),
        ensures
            final(self).wf(),
            final(self).conf == old(self).conf,
            final(self).batch_size == old(self).batch_size,
            r is Some <==> old(self).deadline_passed(now),
            r is Some ==> {
                &&& r->Some_0.wf()
                &&& r->Some_0.bytes <= old(self).batch_size
                &&& r->Some_0.payloads@ =~= old(self).cur@
                &&& r->Some_0.bytes == old(self).cur_bytes
                &&& r->Some_0.first_at == old(self).first_at
                &&& final(self).cur@.len() == 0
            },
            r is None ==> final(self).cur@ =~= old(self).cur@ && final(self).cur_bytes == old(
                self,
            ).cur_bytes && final(self).first_at == old(self).first_at,
    {
        if self.conf.enabled && self.cur.len() > 0 && now >= self.first_at && (now - self.first_at)
            / 1000 >= self.conf.time_limit {
            let mut done_payloads: Vec<Vec<u8>> = Vec::new();
            core::mem::swap(&mut self.cur, &mut done_payloads);
            let batch = Batch {
                payloads: done_payloads,
                bytes: self.cur_bytes,
                first_at: self.first_at,
            };
            self.cur_bytes = 0;
            Some(batch)
        } else {
            None
        }
    }

    /// Flush whatever is buffered, deadline or not; for explicit shutdown.
    pub fn flush_now(&mut self) -> (r: Option<Batch>)
        requires
            old(self).wf(),
        ensures
            final(self).wf(),
            final(self).conf == old(self).conf,
            final(self).batch_size == old(self).batch_size,
            final(self).cur@.len() == 0,
            r is Some <==> old(self).cur@.len() > 0,
            r is Some ==> {
                &&& r->Some_0.wf()
                &&& r->Some_0.bytes <= old(self).batch_size
                &&& r->Some_0.payloads@ =~= old(self).cur@
                &&& r->Some_0.first_at == old(self).first_at
            },
    {
        if self.cur.len() > 0 {
            let mut done_payloads: Vec<Vec<u8>> = Vec::new();
            core::mem::swap(&mut self.cur, &mut done_payloads);
            let batch = Batch {
                payloads: done_payloads,
                bytes: self.cur_bytes,
                first_at: self.first_at,
            };
            self.cur_bytes = 0;
            Some(batch)
        } else {
            None
        }
    }
}

/// Size bound of batching: in a well-formed engine no batch — neither the
/// in-progress one nor, by the `push` and `poll_deadline` contracts, any
/// flushed one — ever exceeds the configured batch size in bytes.
pub proof fn lemma_batch_size_bound(e: BatchingEngine)
    requires
        e.wf(),
    ensures
        sum_len(e.cur@) <= e.batch_size,
{
}

/// Time bound of batching: a message buffered at time `t` into an otherwise
/// idle engine stamps the batch with `t` (by the `push` contract), and from
/// then on any deadline poll at or past `t` plus the time limit flushes the
/// batch, regardless of whether further messages arrived — so, with batching
/// enabled, a message waits at most `time_limit` milliseconds beyond its own
/// dequeue before it is handed to the link writer by `poll_deadline`.
pub proof fn lemma_batch_time_bound(e: BatchingEngine, t: u64, now: u64)
    requires
        e.wf(),
        e.conf.enabled,
        e.cur@.len() > 0,
        e.first_at == t,
        now >= t,
        (now - t) / 1000 >= e.conf.time_limit,
    ensures
        e.deadline_passed(now),
{
}

} // verus!
