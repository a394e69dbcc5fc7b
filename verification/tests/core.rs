use lanequeue::batching::BatchingEngine;
use lanequeue::config::{
    BatchingConf, CongestionControlBlockConf, CongestionControlDropConf, QueueConf,
};
use lanequeue::scheduler::{AdmissionVerdict, CongestionPolicy, Scheduler, SchedulerAction};
use lanequeue::PriorityClass;

fn drop_policy(wait_before_drop: u64) -> CongestionPolicy {
    CongestionPolicy::Drop(CongestionControlDropConf {
        wait_before_drop,
        max_wait_before_drop_fragments: 50000,
    })
}

fn block_policy(wait_before_close: u64) -> CongestionPolicy {
    CongestionPolicy::Block(CongestionControlBlockConf { wait_before_close })
}

#[test]
fn capacity_two_drop_policy_third_message_dropped() {
    let mut conf = QueueConf::default();
    conf.size.data = 2;
    let mut sched = Scheduler::new(&conf, drop_policy(0), 65535);
    let c = PriorityClass::Data;
    let first = sched.try_admission(c, vec![1], false, true, 0, 0);
    let second = sched.try_admission(c, vec![2], false, true, 0, 0);
    let third = sched.try_admission(c, vec![3], false, true, 0, 0);
    assert!(matches!(first, AdmissionVerdict::Admitted(0)));
    assert!(matches!(second, AdmissionVerdict::Admitted(1)));
    assert!(matches!(third, AdmissionVerdict::Dropped));
    let report = sched.report(c);
    assert_eq!(report.mcnt, 3);
    // one dropped of three tried, in thousandths
    assert_eq!(report.droprate, 333);
    assert_eq!(sched.depth(c), 2);
    // a drop is only ever recorded for an attempt
    for stats in &sched.stats {
        assert!(stats.dropped <= stats.tried);
    }
}

#[test]
fn block_policy_reports_link_unusable_after_the_bound() {
    let mut conf = QueueConf::default();
    conf.size.data = 1;
    // 50 ms, in microseconds
    let mut sched = Scheduler::new(&conf, block_policy(50_000), 65535);
    let c = PriorityClass::Data;
    assert!(matches!(sched.try_admission(c, vec![1], false, true, 0, 0), AdmissionVerdict::Admitted(_)));
    // lane full, first attempt: told to wait
    let second = sched.try_admission(c, vec![2], false, true, 0, 0);
    assert!(matches!(second, AdmissionVerdict::Backoff));
    // still no dequeue 100 ms later: the link is unusable
    let retried = sched.try_admission(c, vec![2], false, false, 100_000, 100_000);
    assert!(matches!(retried, AdmissionVerdict::LinkUnusable));
    // no drop is ever recorded under the Block policy
    assert_eq!(sched.report(c).droprate, 0);
}

#[test]
fn queueing_delay_of_a_single_message_is_exact() {
    let conf = QueueConf::default();
    let mut sched = Scheduler::new(&conf, drop_policy(1000), 65535);
    let c = PriorityClass::Data;
    assert!(matches!(sched.try_admission(c, vec![9], false, true, 0, 0), AdmissionVerdict::Admitted(_)));
    // dequeue 10 ms (10000 us) later
    let action = sched.step(10_000);
    assert!(matches!(action, SchedulerAction::Worked));
    // a single sample seeds the average: 10000 us, in thousandths
    assert_eq!(sched.report(c).avg_qdelay, 10_000_000);
}

#[test]
fn higher_priority_lane_drains_first() {
    let conf = QueueConf::default();
    let mut sched = Scheduler::new(&conf, drop_policy(1000), 65535);
    assert!(matches!(
        sched.try_admission(PriorityClass::Data, vec![2], false, true, 0, 0),
        AdmissionVerdict::Admitted(_)
    ));
    assert!(matches!(
        sched.try_admission(PriorityClass::Control, vec![1], false, true, 0, 0),
        AdmissionVerdict::Admitted(_)
    ));
    sched.step(1);
    assert_eq!(sched.depth(PriorityClass::Control), 0);
    assert_eq!(sched.depth(PriorityClass::Data), 1);
    sched.step(2);
    assert_eq!(sched.depth(PriorityClass::Data), 0);
}

#[test]
fn lane_is_fifo_and_batch_keeps_admission_order() {
    let mut conf = QueueConf::default();
    conf.size.data = 4;
    let mut sched = Scheduler::new(&conf, drop_policy(1000), 65535);
    let c = PriorityClass::Data;
    for b in [10u8, 20, 30] {
        assert!(matches!(sched.try_admission(c, vec![b], false, true, 0, 0), AdmissionVerdict::Admitted(_)));
    }
    for _ in 0..3 {
        assert!(matches!(sched.step(5), SchedulerAction::Worked));
    }
    let batch = sched.shutdown_flush().expect("three messages were batched");
    assert_eq!(batch.payloads, vec![vec![10u8], vec![20], vec![30]]);
    assert_eq!(batch.bytes, 3);
    // the in-flight timestamp mapping is empty again: nothing leaked
    assert!(sched.pending_ts.iter().all(|m| m.is_empty()));
}

#[test]
fn no_flushed_batch_exceeds_batch_size() {
    let conf = BatchingConf { enabled: true, time_limit: 1 };
    let mut engine = BatchingEngine::new(conf, 4);
    assert!(engine.push(vec![1, 2, 3], 0).is_none());
    // three more bytes do not fit beside three in a four-byte batch
    let flushed = engine.push(vec![4, 5, 6], 1).expect("full batch is flushed");
    assert_eq!(flushed.payloads, vec![vec![1u8, 2, 3]]);
    assert!(flushed.bytes <= 4);
    let rest = engine.flush_now().expect("the new message is buffered");
    assert_eq!(rest.payloads, vec![vec![4u8, 5, 6]]);
    assert!(rest.bytes <= 4);
}

#[test]
fn batch_flushes_on_its_time_limit() {
    let conf = BatchingConf { enabled: true, time_limit: 5 };
    let mut engine = BatchingEngine::new(conf, 65535);
    assert!(engine.push(vec![7], 1_000).is_none());
    // 4 ms after the first message: the budget of 5 ms still runs
    assert!(engine.poll_deadline(5_000).is_none());
    // 5 ms after the first message: flushed regardless of fill level
    let batch = engine.poll_deadline(6_000).expect("deadline passed");
    assert_eq!(batch.payloads, vec![vec![7u8]]);
    assert_eq!(batch.first_at, 1_000);
}

#[test]
fn disabled_batching_flushes_each_message_alone() {
    let conf = BatchingConf { enabled: false, time_limit: 1 };
    let mut engine = BatchingEngine::new(conf, 65535);
    let batch = engine.push(vec![1, 2], 0).expect("every message is its own batch");
    assert_eq!(batch.payloads, vec![vec![1u8, 2]]);
    assert_eq!(batch.bytes, 2);
    assert!(engine.flush_now().is_none());
}

#[test]
fn fragment_admission_waits_longer_before_dropping() {
    let mut conf = QueueConf::default();
    conf.size.data = 1;
    let policy = CongestionPolicy::Drop(CongestionControlDropConf {
        wait_before_drop: 1,
        max_wait_before_drop_fragments: 100,
    });
    let mut sched = Scheduler::new(&conf, policy, 65535);
    let c = PriorityClass::Data;
    assert!(matches!(sched.try_admission(c, vec![1], false, true, 0, 0), AdmissionVerdict::Admitted(_)));
    // 2 ms after the first attempt a plain message is dropped ...
    assert!(matches!(sched.try_admission(c, vec![2], false, true, 0, 0), AdmissionVerdict::Backoff));
    assert!(matches!(
        sched.try_admission(c, vec![2], false, false, 2_000, 2_000),
        AdmissionVerdict::Dropped
    ));
    // ... while a fragment may still wait
    assert!(matches!(sched.try_admission(c, vec![3], true, true, 0, 0), AdmissionVerdict::Backoff));
    assert!(matches!(
        sched.try_admission(c, vec![3], true, false, 2_000, 2_000),
        AdmissionVerdict::Backoff
    ));
}

#[test]
fn idle_scheduler_suspends() {
    let conf = QueueConf::default();
    let mut sched = Scheduler::new(&conf, drop_policy(1000), 65535);
    assert!(matches!(sched.step(0), SchedulerAction::Idle));
}

#[test]
fn depth_never_exceeds_capacity_under_admission_pressure() {
    let mut conf = QueueConf::default();
    conf.size.data = 3;
    let mut sched = Scheduler::new(&conf, drop_policy(0), 65535);
    let c = PriorityClass::Data;
    for i in 0..10u8 {
        let _ = sched.try_admission(c, vec![i], false, true, 0, 0);
        assert!(sched.depth(c) <= sched.capacity(c));
    }
    assert_eq!(sched.depth(c), 3);
}
