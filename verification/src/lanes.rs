//! Bounded per-class message lanes with strict-priority dequeue.

use vstd::prelude::*;
use crate::{PriorityClass, NUM_CLASSES};

verus! {

/// A message resident in a lane, identified by (lane, sequence number).
pub struct PendingMessage {
    /// Payload bytes, owned by the lane until dequeued.
    pub payload: Vec<u8>,
    /// Sequence number assigned by the lane at admission.
    pub sn: u64,
    /// Time of admission, in microseconds.
    pub enqueued_at: u64,
    /// True if this message is one fragment of a larger logical message.
    pub is_fragment: bool,
}

/// One priority class's bounded FIFO queue of pending messages.
pub struct Lane {
    /// Pending messages, oldest first.
    pub msgs: Vec<PendingMessage>,
    /// Sequence number the lane will assign to the next admitted message.
    pub next_sn: u64,
    /// Configured capacity of this lane.
    pub capacity: usize,
}

impl Lane {
    /// The pending messages, oldest first.
    pub open spec fn view_spec(self) -> Seq<PendingMessage> {
        self.msgs@
    }

    /// The configured capacity of this lane.
    pub open spec fn capacity_spec(self) -> int {
        self.capacity as int
    }

    /// The next sequence number this lane will assign.
    pub open spec fn next_sn_spec(self) -> int {
        self.next_sn as int
    }

    /// Well-formedness: the lane never holds more messages than its capacity,
    /// and resident sequence numbers increase strictly with position and stay
    /// below the generator, so the oldest message has the smallest number.
    pub open spec fn wf(self) -> bool {
        &&& 1 <= self.capacity
        &&& self.msgs@.len() <= self.capacity
        &&& forall|i: int, j: int|
            0 <= i < j < self.msgs@.len() ==> self.msgs@[i].sn < self.msgs@[j].sn
        &&& forall|i: int| 0 <= i < self.msgs@.len() ==> #[trigger] self.msgs@[i].sn < self.next_sn
    }

    /// An empty lane with the given capacity.
    pub fn new(capacity: usize) -> (lane: Lane)
        requires
            1 <= capacity,
        ensures
            lane.wf(),
            lane.view_spec() =~= Seq::<PendingMessage>::empty(),
            lane.capacity_spec() == capacity,
            lane.next_sn_spec() == 0,
    {
        Lane { msgs: Vec::new(), next_sn: 0, capacity }
    }

    /// Number of messages currently resident.
    pub fn depth(&self) -> (d: usize)
        ensures
            d == self.view_spec().len(),
    {
        self.msgs.len()
    }

    /// The configured capacity.
    pub fn capacity(&self) -> (c: usize)
        ensures
            c == self.capacity_spec(),
    {
        self.capacity
    }

    /// Place a message at the tail of the lane, unless the lane is full.
    ///
    /// Never overwrites: at capacity the lane reports failure and is left
    /// unchanged; waiting, dropping and blocking belong to the congestion
    /// policy wrapped around this call.  On success the message is appended
    /// with the next sequence number, which is returned.
    pub fn enqueue(&mut self, payload: Vec<u8>, enqueued_at: u64, is_fragment: bool) -> (r: Option<
        u64,
    >)
        requires
            old(self).wf(),
            old(self).next_sn_spec() < u64::MAX,
        ensures
            final(self).wf(),
            final(self).capacity_spec() == old(self).capacity_spec(),
            r is Some ==> {
                &&& old(self).view_spec().len() < old(self).capacity_spec()
                &&& r->Some_0 == old(self).next_sn_spec()
                &&& final(self).view_spec() =~= old(self).view_spec().push(
                    PendingMessage {
                        payload: payload,
                        sn: r->Some_0,
                        enqueued_at: enqueued_at,
                        is_fragment: is_fragment,
                    },
                )
                &&& final(self).next_sn_spec() == old(self).next_sn_spec() + 1
            },
            r is None ==> {
                &&& old(self).view_spec().len() == old(self).capacity_spec()
                &&& *final(self) == *old(self)
            },
    {
        if self.msgs.len() < self.capacity {
            let sn = self.next_sn;
            let msg = PendingMessage { payload, sn, enqueued_at, is_fragment };
            self.msgs.push(msg);
            self.next_sn = self.next_sn + 1;
            Some(sn)
        } else {
            None
        }
    }

    /// Remove and return the oldest pending message, if any.
    pub fn pop_front(&mut self) -> (r: Option<PendingMessage>)
        requires
            old(self).wf(),
        ensures
            final(self).wf(),
            final(self).capacity_spec() == old(self).capacity_spec(),
            final(self).next_sn_spec() == old(self).next_sn_spec(),
            r is Some ==> {
                &&& old(self).view_spec().len() > 0
                &&& r->Some_0 == old(self).view_spec()[0]
                &&& final(self).view_spec() =~= old(self).view_spec().drop_first()
            },
            r is None ==> {
                &&& old(self).view_spec().len() == 0
                &&& *final(self) == *old(self)
            },
    {
        if self.msgs.len() > 0 {
            let msg = self.msgs.remove(0);
            Some(msg)
        } else {
            None
        }
    }
}

/// The set of eight lanes, one per priority class.
pub struct PriorityLaneSet {
    /// The lanes, indexed by class rank (0 is the highest priority).
    pub lanes: Vec<Lane>,
}

impl PriorityLaneSet {
    /// The lane of a given class.
    pub open spec fn lane_spec(self, c: PriorityClass) -> Lane {
        self.lanes@[c.rank_spec()]
    }

    /// Well-formedness: one well-formed lane per class.
    pub open spec fn wf(self) -> bool {
        &&& self.lanes@.len() == NUM_CLASSES
        &&& forall|i: int| 0 <= i < NUM_CLASSES ==> (#[trigger] self.lanes@[i]).wf()
    }

    /// All lanes strictly above the given rank hold no message.
    pub open spec fn empty_above(self, rank: int) -> bool {
        forall|j: int| 0 <= j < rank ==> (#[trigger] self.lanes@[j]).view_spec().len() == 0
    }

    /// A fresh lane set with the given per-class capacities, indexed by rank.
    pub fn new(capacities: &Vec<usize>) -> (s: PriorityLaneSet)
        requires
            capacities@.len() == NUM_CLASSES,
            forall|i: int| 0 <= i < NUM_CLASSES ==> 1 <= #[trigger] capacities@[i],
        ensures
            s.wf(),
            forall|i: int|
                0 <= i < NUM_CLASSES ==> (#[trigger] s.lanes@[i]).view_spec().len() == 0
                    && s.lanes@[i].capacity_spec() == capacities@[i]
                    && s.lanes@[i].next_sn_spec() == 0,
    {
        let mut lanes: Vec<Lane> = Vec::new();
        let mut i: usize = 0;
        while i < NUM_CLASSES
            invariant
                i <= NUM_CLASSES,
                capacities@.len() == NUM_CLASSES,
                forall|k: int| 0 <= k < NUM_CLASSES ==> 1 <= #[trigger] capacities@[k],
                lanes@.len() == i,
                forall|k: int|
                    0 <= k < i ==> (#[trigger] lanes@[k]).wf() && lanes@[k].view_spec().len() == 0
                        && lanes@[k].capacity_spec() == capacities@[k] && lanes@[k].next_sn_spec()
                        == 0,
            decreases NUM_CLASSES - i,
        {
            lanes.push(Lane::new(capacities[i]));
            i = i + 1;
        }
        PriorityLaneSet { lanes }
    }

    /// Number of messages resident in the lane of the given class.
    pub fn depth(&self, c: PriorityClass) -> (d: usize)
        requires
            self.wf(),
        ensures
            d == self.lane_spec(c).view_spec().len(),
    {
        self.lanes[c.rank()].depth()
    }

    /// Configured capacity of the lane of the given class.
    pub fn capacity(&self, c: PriorityClass) -> (cap: usize)
        requires
            self.wf(),
        ensures
            cap == self.lane_spec(c).capacity_spec(),
    {
        self.lanes[c.rank()].capacity()
    }

    /// Admission into the lane of the given class: append the message unless
    /// that lane is full, in which case nothing changes and `None` says so.
    /// Lanes of other classes are untouched.
    pub fn enqueue(
        &mut self,
        c: PriorityClass,
        payload: Vec<u8>,
        enqueued_at: u64,
        is_fragment: bool,
    ) -> (r: Option<u64>)
        requires
            old(self).wf(),
            old(self).lane_spec(c).next_sn_spec() < u64::MAX,
        ensures
            final(self).wf(),
            final(self).lanes@.len() == old(self).lanes@.len(),
            forall|j: int|
                0 <= j < NUM_CLASSES && j != c.rank_spec() ==> final(self).lanes@[j] == old(
                    self,
                ).lanes@[j],
            final(self).lane_spec(c).capacity_spec() == old(self).lane_spec(c).capacity_spec(),
            r is Some ==> {
                &&& old(self).lane_spec(c).view_spec().len() < old(self).lane_spec(
                    c,
                ).capacity_spec()
                &&& r->Some_0 == old(self).lane_spec(c).next_sn_spec()
                &&& final(self).lane_spec(c).view_spec() =~= old(self).lane_spec(
                    c,
                ).view_spec().push(
                    PendingMessage {
                        payload: payload,
                        sn: r->Some_0,
                        enqueued_at: enqueued_at,
                        is_fragment: is_fragment,
                    },
                )
                &&& final(self).lane_spec(c).next_sn_spec() == old(self).lane_spec(c).next_sn_spec()
                    + 1
            },
            r is None ==> {
                &&& old(self).lane_spec(c).view_spec().len() == old(self).lane_spec(
                    c,
                ).capacity_spec()
                &&& final(self).lanes@ =~= old(self).lanes@
            },
    {
        let rank = c.rank();
        let lane = &mut self.lanes[rank];
        let r = lane.enqueue(payload, enqueued_at, is_fragment);
        proof {
            if r is None {
                assert(self.lanes@ =~= old(self).lanes@);
            }
        }
        r
    }

    /// Strict-priority dequeue: remove and return the head of the non-empty
    /// lane of highest priority.  `None` is returned exactly when every lane
    /// is empty; otherwise every lane of higher priority than the returned
    /// class is empty, so control traffic is never stuck behind bulk data.
    pub fn try_dequeue_highest(&mut self) -> (r: Option<(PriorityClass, PendingMessage)>)
        requires
            old(self).wf(),
        ensures
            final(self).wf(),
            final(self).lanes@.len() == old(self).lanes@.len(),
            r is None ==> {
                &&& *final(self) == *old(self)
                &&& forall|j: int|
                    0 <= j < NUM_CLASSES ==> (#[trigger] old(self).lanes@[j]).view_spec().len()
                        == 0
            },
            r is Some ==> {
                let c = r->Some_0.0;
                let m = r->Some_0.1;
                &&& old(self).empty_above(c.rank_spec())
                &&& old(self).lane_spec(c).view_spec().len() > 0
                &&& m == old(self).lane_spec(c).view_spec()[0]
                &&& final(self).lane_spec(c).view_spec() =~= old(self).lane_spec(
                    c,
                ).view_spec().drop_first()
                &&& final(self).lane_spec(c).next_sn_spec() == old(self).lane_spec(
                    c,
                ).next_sn_spec()
                &&& final(self).lane_spec(c).capacity_spec() == old(self).lane_spec(
                    c,
                ).capacity_spec()
                &&& forall|j: int|
                    0 <= j < NUM_CLASSES && j != c.rank_spec() ==> final(self).lanes@[j] == old(
                        self,
                    ).lanes@[j]
            },
    {
        let mut rank: usize = 0;
        while rank < NUM_CLASSES
            invariant
                old(self).wf(),
                *self == *old(self),
                rank <= NUM_CLASSES,
                forall|j: int|
                    0 <= j < rank ==> (#[trigger] self.lanes@[j]).view_spec().len() == 0,
            decreases NUM_CLASSES - rank,
        {
            if self.lanes[rank].depth() > 0 {
                let c = PriorityClass::from_rank(rank);
                let lane = &mut self.lanes[rank];
                let m = lane.pop_front();
                match m {
                    Some(msg) => {
                        return Some((c, msg));
                    },
                    None => {
                        // pop_front on a non-empty lane always yields a message
                        proof {
                            assert(false);
                        }
                    },
                }
            }
            rank = rank + 1;
        }
        None
    }
}

/// First-in-first-out discipline of a single lane: the message at the head —
/// the one `pop_front` hands out — carries the smallest sequence number of
/// all resident messages, so messages leave a lane in exactly the relative
/// order in which they were admitted.
pub proof fn lemma_lane_fifo(lane: Lane)
    requires
        lane.wf(),
        lane.view_spec().len() > 0,
    ensures
        forall|i: int|
            1 <= i < lane.view_spec().len() ==> lane.view_spec()[0].sn < #[trigger] lane.view_spec()[i].sn,
{
}

} // verus!
