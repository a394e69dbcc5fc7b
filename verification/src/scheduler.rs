//! The scheduling core of one outbound link: admission gated by the
//! congestion-control policy, strict-priority dequeue into the batching
//! engine, and per-lane statistics kept in step with the lanes.
//!
//! The core is purely a decision machine: callers supply the clock (in
//! microseconds) and perform all waiting, sleeping and link I/O around it.
//! A producer first calls `try_admission` with `first_attempt` set; on a
//! `Backoff` verdict it waits for dequeue activity and retries with the
//! elapsed time, until the verdict is final.  A worker repeatedly calls
//! `step` and writes out every flushed batch.

use vstd::prelude::*;
use crate::{PriorityClass, NUM_CLASSES};
use crate::batching::{Batch, BatchingEngine};
use crate::config::{CongestionControlBlockConf, CongestionControlDropConf, QueueConf};
use crate::lanes::{PendingMessage, PriorityLaneSet};
use crate::qstats::{QueueStats, QueueStatsReport};

verus! {

/// The congestion-control policy of a link: wait boundedly and then drop, or
/// block unconditionally until the link is declared unusable.
pub enum CongestionPolicy {
    Drop(CongestionControlDropConf),
    Block(CongestionControlBlockConf),
}

/// What an admission attempt came to.
pub enum AdmissionVerdict {
    /// The message entered its lane, under this sequence number.
    Admitted(u64),
    /// The lane is full but the policy's time bound has not run out: the
    /// caller should wait for dequeue activity and retry.
    Backoff,
    /// Drop policy only: the bounded wait ran out and the message was
    /// discarded; the caller must treat the send as failed and not retry.
    Dropped,
    /// Block policy only: the blocking bound ran out and the link itself
    /// must be torn down by link management.
    LinkUnusable,
}

/// The milliseconds the Drop policy lets an admission wait: the longer
/// fragment bound for fragments, else the plain bound.
pub open spec fn drop_wait_bound(conf: CongestionControlDropConf, is_fragment: bool) -> u64 {
    if is_fragment {
        conf.max_wait_before_drop_fragments
    } else {
        conf.wait_before_drop
    }
}

/// One worker iteration's outcome.
pub enum SchedulerAction {
    /// A batch is done; hand it to the link writer.
    Flush(Batch),
    /// A message moved from its lane into the in-progress batch; call again.
    Worked,
    /// Every lane is empty and no batch deadline has passed; suspend until
    /// admission activity or the next batch deadline.
    Idle,
}

/// The scheduling core of one link.
pub struct Scheduler {
    /// The eight priority lanes.
    pub lanes: PriorityLaneSet,
    /// The congestion-control policy gating admission.
    pub policy: CongestionPolicy,
    /// The batching engine fed by dequeued messages.
    pub batcher: BatchingEngine,
    /// Per-lane statistics, indexed by class rank.
    pub stats: Vec<QueueStats>,
    /// Per lane, the (sequence number, enqueue time) of each resident
    /// message, oldest first: the in-flight timestamp mapping the delay
    /// statistics are computed from.
    pub pending_ts: Vec<Vec<(u64, u64)>>,
}

impl Scheduler {
    /// Well-formedness, tying the four components together:
    /// - lanes and batching engine are well-formed;
    /// - one statistics record per lane, with matching rank, its depth
    ///   counter equal to the lane's true depth;
    /// - the timestamp mapping holds exactly the resident messages of each
    ///   lane, in order, with their admission times — nothing leaks and
    ///   nothing is missing;
    /// - every resident payload fits the configured batch size.
    pub open spec fn wf(self) -> bool {
        &&& self.lanes.wf()
        &&& self.batcher.wf()
        &&& self.stats@.len() == NUM_CLASSES
        &&& self.pending_ts@.len() == NUM_CLASSES
        &&& forall|i: int| 0 <= i < NUM_CLASSES ==> (#[trigger] self.stats@[i]).wf()
        &&& forall|i: int| 0 <= i < NUM_CLASSES ==> (#[trigger] self.stats@[i]).priority == i
        &&& forall|i: int|
            0 <= i < NUM_CLASSES ==> (#[trigger] self.stats@[i]).queue_counter
                == self.lanes.lanes@[i].view_spec().len()
        &&& forall|i: int|
            0 <= i < NUM_CLASSES ==> (#[trigger] self.pending_ts@[i])@.len()
                == self.lanes.lanes@[i].view_spec().len()
        &&& forall|i: int, j: int|
            0 <= i < NUM_CLASSES && 0 <= j < self.lanes.lanes@[i].view_spec().len()
                ==> (#[trigger] self.pending_ts@[i]@[j]) == (
                self.lanes.lanes@[i].view_spec()[j].sn,
                self.lanes.lanes@[i].view_spec()[j].enqueued_at,
            )
        &&& forall|i: int, j: int|
            0 <= i < NUM_CLASSES && 0 <= j < self.lanes.lanes@[i].view_spec().len()
                ==> (#[trigger] self.lanes.lanes@[i].view_spec()[j]).payload@.len()
                <= self.batcher.batch_size
    }

    /// The statistics record of a class.
    pub open spec fn stats_spec(self, c: PriorityClass) -> QueueStats {
        self.stats@[c.rank_spec()]
    }

    /// A fresh core for one link, from its queueing configuration, policy
    /// and batch size; all lanes empty, all counters zero.
    pub fn new(conf: &QueueConf, policy: CongestionPolicy, batch_size: usize) -> (s: Scheduler)
        requires
            conf.size.wf(),
            1 <= batch_size,
        ensures
            s.wf(),
            s.policy == policy,
            s.batcher.conf == conf.batching,
            s.batcher.batch_size == batch_size,
            s.batcher.cur@.len() == 0,
            forall|i: int|
                0 <= i < NUM_CLASSES ==> (#[trigger] s.lanes.lanes@[i]).view_spec().len() == 0,
            forall|i: int|
                0 <= i < NUM_CLASSES ==> (#[trigger] s.stats@[i]).tried == 0 && s.stats@[i].dropped
                    == 0 && s.stats@[i].qsize@.len() == 0 && s.stats@[i].queueing_delay@.len()
                    == 0,
            s.lanes.lanes@[0].capacity_spec() == conf.size.control,
            s.lanes.lanes@[1].capacity_spec() == conf.size.real_time,
            s.lanes.lanes@[2].capacity_spec() == conf.size.interactive_high,
            s.lanes.lanes@[3].capacity_spec() == conf.size.interactive_low,
            s.lanes.lanes@[4].capacity_spec() == conf.size.data_high,
            s.lanes.lanes@[5].capacity_spec() == conf.size.data,
            s.lanes.lanes@[6].capacity_spec() == conf.size.data_low,
            s.lanes.lanes@[7].capacity_spec() == conf.size.background,
    {
        let capacities = conf.size.capacities();
        let lanes = PriorityLaneSet::new(&capacities);
        let batcher = BatchingEngine::new(
            crate::config::BatchingConf { enabled: conf.batching.enabled, time_limit: conf.batching.time_limit },
            batch_size,
        );
        let mut stats: Vec<QueueStats> = Vec::new();
        let mut pending_ts: Vec<Vec<(u64, u64)>> = Vec::new();
        let mut i: usize = 0;
        while i < NUM_CLASSES
            invariant
                i <= NUM_CLASSES,
                stats@.len() == i,
                pending_ts@.len() == i,
                forall|k: int|
                    0 <= k < i ==> (#[trigger] stats@[k]).wf() && stats@[k].priority == k
                        && stats@[k].queue_counter == 0 && stats@[k].tried == 0
                        && stats@[k].dropped == 0 && stats@[k].qsize@.len() == 0
                        && stats@[k].queueing_delay@.len() == 0,
                forall|k: int| 0 <= k < i ==> (#[trigger] pending_ts@[k])@.len() == 0,
            decreases NUM_CLASSES - i,
        {
            stats.push(QueueStats::new(i));
            pending_ts.push(Vec::new());
            i = i + 1;
        }
        Scheduler { lanes, policy, batcher, stats, pending_ts }
    }

    /// Current depth of a class's lane.
    pub fn depth(&self, c: PriorityClass) -> (d: usize)
        requires
            self.wf(),
        ensures
            d == self.lanes.lane_spec(c).view_spec().len(),
    {
        self.lanes.depth(c)
    }

    /// Configured capacity of a class's lane.
    pub fn capacity(&self, c: PriorityClass) -> (cap: usize)
        requires
            self.wf(),
        ensures
            cap == self.lanes.lane_spec(c).capacity_spec(),
    {
        self.lanes.capacity(c)
    }

    /// A statistics snapshot of a class's lane; mutates nothing.
    pub fn report(&self, c: PriorityClass) -> (r: QueueStatsReport)
        requires
            self.wf(),
        ensures
            r.priority == c.rank_spec(),
            r.mcnt == self.stats_spec(c).tried,
            self.stats_spec(c).tried == 0 ==> r.droprate == 0,
            self.stats_spec(c).tried > 0 ==> r.droprate == self.stats_spec(c).dropped * 1000
                / self.stats_spec(c).tried as int,
            r.avg_qsize == crate::qstats::ema_milli(self.stats_spec(c).qsize@),
            r.avg_qdelay == crate::qstats::ema_milli(self.stats_spec(c).queueing_delay@),
    {
        self.stats[c.rank()].report()
    }

    /// One admission attempt of a message into the lane of class `c`, at
    /// time `now` (microseconds), `elapsed_us` microseconds after the first
    /// attempt for this message (zero on the first).
    ///
    /// The attempt counter is bumped on the first attempt, before any
    /// waiting, so the drop rate reflects true admission pressure.  If the
    /// lane has room the message always enters it.  On a full lane the
    /// verdict follows the policy: under Drop, once the bounded wait (the
    /// longer fragment bound for fragments) has run out the message is
    /// counted dropped and discarded; under Block, once `wait_before_close`
    /// has run out the link is declared unusable; in either case, before the
    /// bound runs out, the caller is told to back off and retry.
    pub fn try_admission(
        &mut self,
        c: PriorityClass,
        payload: Vec<u8>,
        is_fragment: bool,
        first_attempt: bool,
        now: u64,
        elapsed_us: u64,
    ) -> (r: AdmissionVerdict)
        requires
            old(self).wf(),
            payload@.len() <= old(self).batcher.batch_size,
            old(self).lanes.lane_spec(c).next_sn_spec() < u64::MAX,
            first_attempt ==> old(self).stats_spec(c).tried < usize::MAX,
            // a retry belongs to an attempt that was already recorded
            !first_attempt ==> old(self).stats_spec(c).dropped < old(self).stats_spec(c).tried,
        ensures
            final(self).wf(),
            final(self).policy == old(self).policy,
            final(self).batcher == old(self).batcher,
            final(self).stats@.len() == NUM_CLASSES,
            forall|j: int|
                0 <= j < NUM_CLASSES && j != c.rank_spec() ==> final(self).lanes.lanes@[j] == old(
                    self,
                ).lanes.lanes@[j] && final(self).stats@[j] == old(self).stats@[j] && final(self).pending_ts@[j] == old(self).pending_ts@[j],
            final(self).stats_spec(c).tried == old(self).stats_spec(c).tried + (
            if first_attempt {
                1int
            } else {
                0int
            }),
            final(self).stats_spec(c).queueing_delay == old(self).stats_spec(c).queueing_delay,
            final(self).lanes.lane_spec(c).capacity_spec() == old(self).lanes.lane_spec(
                c,
            ).capacity_spec(),
            // room in the lane: admission is owed and performed
            old(self).lanes.lane_spec(c).view_spec().len() < old(self).lanes.lane_spec(
                c,
            ).capacity_spec() ==> {
                &&& r == AdmissionVerdict::Admitted(old(self).lanes.lane_spec(c).next_sn_spec()
                    as u64)
                &&& final(self).lanes.lane_spec(c).view_spec() =~= old(self).lanes.lane_spec(
                    c,
                ).view_spec().push(
                    PendingMessage {
                        payload: payload,
                        sn: old(self).lanes.lane_spec(c).next_sn_spec() as u64,
                        enqueued_at: now,
                        is_fragment: is_fragment,
                    },
                )
                &&& final(self).pending_ts@[c.rank_spec()]@ =~= old(
                    self,
                ).pending_ts@[c.rank_spec()]@.push(
                    (old(self).lanes.lane_spec(c).next_sn_spec() as u64, now),
                )
                &&& final(self).stats_spec(c).dropped == old(self).stats_spec(c).dropped
                &&& final(self).stats_spec(c).qsize@ =~= old(self).stats_spec(c).qsize@.push(
                    (old(self).lanes.lane_spec(c).view_spec().len() + 1) as usize,
                )
            },
            // full lane: the verdict follows the policy and its time bound
            old(self).lanes.lane_spec(c).view_spec().len() == old(self).lanes.lane_spec(
                c,
            ).capacity_spec() ==> {
                &&& final(self).lanes.lane_spec(c).view_spec() =~= old(self).lanes.lane_spec(
                    c,
                ).view_spec()
                &&& final(self).pending_ts@[c.rank_spec()] == old(self).pending_ts@[c.rank_spec()]
                &&& final(self).stats_spec(c).qsize == old(self).stats_spec(c).qsize
                &&& match old(self).policy {
                    CongestionPolicy::Drop(conf) => {
                        if elapsed_us / 1000 >= drop_wait_bound(conf, is_fragment) {
                            &&& r == AdmissionVerdict::Dropped
                            &&& final(self).stats_spec(c).dropped == old(self).stats_spec(
                                c,
                            ).dropped + 1
                        } else {
                            &&& r == AdmissionVerdict::Backoff
                            &&& final(self).stats_spec(c).dropped == old(self).stats_spec(
                                c,
                            ).dropped
                        }
                    },
                    CongestionPolicy::Block(conf) => {
                        if elapsed_us >= conf.wait_before_close {
                            &&& r == AdmissionVerdict::LinkUnusable
                            &&& final(self).stats_spec(c).dropped == old(self).stats_spec(
                                c,
                            ).dropped
                        } else {
                            &&& r == AdmissionVerdict::Backoff
                            &&& final(self).stats_spec(c).dropped == old(self).stats_spec(
                                c,
                            ).dropped
                        }
                    },
                }
            },
    {
        let rank = c.rank();
        if first_attempt {
            self.stats[rank].inc_tried();
        }
        let enq = self.lanes.enqueue(c, payload, now, is_fragment);
        match enq {
            Some(sn) => {
                self.stats[rank].inc_qcnt();
                self.stats[rank].record_qsize();
                self.pending_ts[rank].push((sn, now));
                AdmissionVerdict::Admitted(sn)
            },
            None => {
                match &self.policy {
                    CongestionPolicy::Drop(conf) => {
                        let bound = if is_fragment {
                            conf.max_wait_before_drop_fragments
                        } else {
                            conf.wait_before_drop
                        };
                        if elapsed_us / 1000 >= bound {
                            self.stats[rank].inc_dropped();
                            AdmissionVerdict::Dropped
                        } else {
                            AdmissionVerdict::Backoff
                        }
                    },
                    CongestionPolicy::Block(conf) => {
                        if elapsed_us >= conf.wait_before_close {
                            AdmissionVerdict::LinkUnusable
                        } else {
                            AdmissionVerdict::Backoff
                        }
                    },
                }
            },
        }
    }

    /// No lane holds a message.
    pub open spec fn all_lanes_empty(self) -> bool {
        forall|i: int| 0 <= i < NUM_CLASSES ==> (#[trigger] self.lanes.lanes@[i]).view_spec().len()
            == 0
    }

    /// The clock is ahead of every recorded admission time.
    pub open spec fn clock_ok(self, now: u64) -> bool {
        forall|i: int, j: int|
            0 <= i < NUM_CLASSES && 0 <= j < self.lanes.lanes@[i].view_spec().len()
                ==> (#[trigger] self.lanes.lanes@[i].view_spec()[j]).enqueued_at <= now
    }

    /// One worker iteration at time `now` (microseconds).
    ///
    /// Dequeues the head of the highest-priority non-empty lane — a lower
    /// lane is touched only when every higher one is empty — removes its
    /// timestamp entry, records its queueing delay, and feeds it to the
    /// batching engine, which may complete a batch.  With every lane empty,
    /// the in-progress batch is flushed exactly when its time budget has run
    /// out; otherwise the worker is told to suspend.  A worker never changes
    /// the attempt or drop counters.
    pub fn step(&mut self, now: u64) -> (r: SchedulerAction)
        requires
            old(self).wf(),
            old(self).clock_ok(now),
            now <= usize::MAX as u64,
        ensures
            final(self).wf(),
            final(self).policy == old(self).policy,
            final(self).batcher.conf == old(self).batcher.conf,
            final(self).batcher.batch_size == old(self).batcher.batch_size,
            final(self).stats@.len() == NUM_CLASSES,
            forall|i: int|
                0 <= i < NUM_CLASSES ==> (#[trigger] final(self).stats@[i]).tried == old(
                    self,
                ).stats@[i].tried && final(self).stats@[i].dropped == old(self).stats@[i].dropped
                    && final(self).stats@[i].qsize == old(self).stats@[i].qsize,
            r is Flush ==> r->Flush_0.wf() && r->Flush_0.bytes <= old(self).batcher.batch_size,
            r is Idle ==> {
                &&& old(self).all_lanes_empty()
                &&& !old(self).batcher.deadline_passed(now)
                &&& final(self).lanes.lanes@ =~= old(self).lanes.lanes@
                &&& final(self).stats@ =~= old(self).stats@
                &&& final(self).pending_ts@ =~= old(self).pending_ts@
                &&& final(self).batcher.cur@ =~= old(self).batcher.cur@
                &&& final(self).batcher.cur_bytes == old(self).batcher.cur_bytes
                &&& final(self).batcher.first_at == old(self).batcher.first_at
            },
            old(self).all_lanes_empty() ==> {
                &&& final(self).lanes.lanes@ =~= old(self).lanes.lanes@
                &&& final(self).stats@ =~= old(self).stats@
                &&& final(self).pending_ts@ =~= old(self).pending_ts@
                &&& if old(self).batcher.deadline_passed(now) {
                    &&& r matches SchedulerAction::Flush(b)
                    &&& b.payloads@ =~= old(self).batcher.cur@
                    &&& b.bytes == old(self).batcher.cur_bytes
                    &&& b.first_at == old(self).batcher.first_at
                    &&& final(self).batcher.cur@.len() == 0
                } else {
                    r is Idle
                }
            },
            !old(self).all_lanes_empty() ==> exists|c: PriorityClass|
                #![trigger c.rank_spec()]
                {
                    let k = c.rank_spec();
                    let lane0 = old(self).lanes.lane_spec(c).view_spec();
                    let m = lane0[0];
                    &&& old(self).lanes.empty_above(k)
                    &&& lane0.len() > 0
                    &&& final(self).lanes.lane_spec(c).view_spec() =~= lane0.drop_first()
                    &&& forall|j: int|
                        0 <= j < NUM_CLASSES && j != k ==> final(self).lanes.lanes@[j] == old(
                            self,
                        ).lanes.lanes@[j] && final(self).stats@[j] == old(self).stats@[j] && final(self).pending_ts@[j] == old(self).pending_ts@[j]
                    &&& final(self).pending_ts@[k]@ =~= old(self).pending_ts@[k]@.drop_first()
                    &&& final(self).stats@[k].queueing_delay@ =~= old(
                        self,
                    ).stats@[k].queueing_delay@.push(((now - m.enqueued_at) as u64) as usize)
                    &&& (!old(self).batcher.conf.enabled ==> {
                        &&& r matches SchedulerAction::Flush(b)
                        &&& b.payloads@ =~= seq![m.payload]
                        &&& b.bytes == m.payload@.len()
                        &&& final(self).batcher.cur@.len() == 0
                    })
                    &&& (old(self).batcher.conf.enabled && old(self).batcher.cur_bytes
                        + m.payload@.len() <= old(self).batcher.batch_size ==> {
                        &&& r is Worked
                        &&& final(self).batcher.cur@ =~= old(self).batcher.cur@.push(m.payload)
                        &&& final(self).batcher.cur_bytes == old(self).batcher.cur_bytes
                            + m.payload@.len()
                        &&& final(self).batcher.first_at == if old(self).batcher.cur@.len() == 0 {
                            now
                        } else {
                            old(self).batcher.first_at
                        }
                    })
                    &&& (old(self).batcher.conf.enabled && old(self).batcher.cur_bytes
                        + m.payload@.len() > old(self).batcher.batch_size ==> {
                        &&& r matches SchedulerAction::Flush(b)
                        &&& b.payloads@ =~= old(self).batcher.cur@
                        &&& b.bytes == old(self).batcher.cur_bytes
                        &&& b.first_at == old(self).batcher.first_at
                        &&& final(self).batcher.cur@ =~= seq![m.payload]
                        &&& final(self).batcher.cur_bytes == m.payload@.len()
                        &&& final(self).batcher.first_at == now
                    })
                },
    {
        let deq = self.lanes.try_dequeue_highest();
        match deq {
            Some((c, msg)) => {
                let rank = c.rank();
                self.stats[rank].dec_qcnt();
                let entry = self.pending_ts[rank].remove(0);
                let delay_us = now - entry.1;
                self.stats[rank].push_qdelay(delay_us as usize);
                let b = self.batcher.push(msg.payload, now);
                match b {
                    Some(batch) => SchedulerAction::Flush(batch),
                    None => SchedulerAction::Worked,
                }
            },
            None => {
                match self.batcher.poll_deadline(now) {
                    Some(batch) => SchedulerAction::Flush(batch),
                    None => SchedulerAction::Idle,
                }
            },
        }
    }

    /// Flush whatever the batching engine still holds, deadline or not, and
    /// leave it empty; the explicit final act of an orderly shutdown.
    pub fn shutdown_flush(&mut self) -> (r: Option<Batch>)
        requires
            old(self).wf(),
        ensures
            final(self).wf(),
            final(self).policy == old(self).policy,
            final(self).lanes.lanes@ =~= old(self).lanes.lanes@,
            final(self).stats@ =~= old(self).stats@,
            final(self).pending_ts@ =~= old(self).pending_ts@,
            final(self).batcher.cur@.len() == 0,
            r is Some <==> old(self).batcher.cur@.len() > 0,
            r is Some ==> r->Some_0.wf() && r->Some_0.bytes <= old(self).batcher.batch_size
                && r->Some_0.payloads@ =~= old(self).batcher.cur@,
    {
        self.batcher.flush_now()
    }
}

/// Capacity bound of admission: in a well-formed core no lane is ever deeper
/// than its configured capacity — and every operation of the core keeps the
/// core well-formed, so the bound holds after any sequence of admissions.
pub proof fn lemma_depth_bounded(s: Scheduler, c: PriorityClass)
    requires
        s.wf(),
    ensures
        s.lanes.lane_spec(c).view_spec().len() <= s.lanes.lane_spec(c).capacity_spec(),
{
    assert(s.lanes.lanes@[c.rank_spec()].wf());
}

/// The in-flight timestamp mapping never leaks: in a well-formed core it
/// holds exactly one entry per resident message of its lane — the message's
/// sequence number and admission time, in lane order — so entries are
/// removed on every exit path from a lane, and none survives its message.
pub proof fn lemma_pending_ts_exact(s: Scheduler, c: PriorityClass)
    requires
        s.wf(),
    ensures
        s.pending_ts@[c.rank_spec()]@.len() == s.lanes.lane_spec(c).view_spec().len(),
        forall|j: int|
            0 <= j < s.lanes.lane_spec(c).view_spec().len()
                ==> (#[trigger] s.pending_ts@[c.rank_spec()]@[j]) == (
                s.lanes.lane_spec(c).view_spec()[j].sn,
                s.lanes.lane_spec(c).view_spec()[j].enqueued_at,
            ),
{
}

} // verus!
