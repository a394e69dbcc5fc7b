use lanequeue::config::worker_threads;
use lanequeue::config::{
    BatchingConf, Bits, CompressionMulticastConf, CompressionUnicastConf,
    CongestionControlBlockConf, CongestionControlDropConf, ConnectConfig,
    ConnectionRetryModeDependentConf, LinkRxConf, LinkTxConf, ListenConfig, ModeDependentValue,
    ModeValues, QoSMulticastConf, QoSUnicastConf, QueueConf, QueueSizeConf, ShmConf,
    TransportMulticastConf, TransportUnicastConf, WhatAmI,
};
use lanequeue::qstats::QueueStats;

#[test]
fn queue_size_defaults() {
    let c = QueueSizeConf::default();
    assert_eq!(c.control, 1);
    assert_eq!(c.real_time, 1);
    assert_eq!(c.interactive_high, 1);
    assert_eq!(c.interactive_low, 1);
    assert_eq!(c.data_high, 2);
    assert_eq!(c.data, 4);
    assert_eq!(c.data_low, 2);
    assert_eq!(c.background, 1);
    assert_eq!(QueueSizeConf::MIN, 1);
    assert_eq!(QueueSizeConf::MAX, 16);
}

#[test]
fn congestion_control_defaults() {
    let d = CongestionControlDropConf::default();
    assert_eq!(d.wait_before_drop, 1000);
    assert_eq!(d.max_wait_before_drop_fragments, 50000);
    let b = CongestionControlBlockConf::default();
    assert_eq!(b.wait_before_close, 5000000);
}

#[test]
fn batching_and_queue_defaults() {
    let b = BatchingConf::default();
    assert!(b.enabled);
    assert_eq!(b.time_limit, 1);
    let q = QueueConf::default();
    assert_eq!(q.size.data, 4);
    assert_eq!(q.congestion_control.drop.wait_before_drop, 1000);
    assert!(q.batching.enabled);
}

#[test]
fn link_tx_defaults() {
    let c = LinkTxConf::default();
    assert_eq!(c.sequence_number_resolution, Bits::U32);
    assert_eq!(c.lease, 10000);
    assert_eq!(c.keep_alive, 4);
    assert_eq!(c.batch_size, u16::MAX);
    assert!(c.threads >= 1);
}

#[test]
fn worker_threads_formula() {
    // one worker, plus one more per four further CPUs
    assert_eq!(worker_threads(1), 1);
    assert_eq!(worker_threads(4), 1);
    assert_eq!(worker_threads(5), 2);
    assert_eq!(worker_threads(8), 2);
    assert_eq!(worker_threads(9), 3);
}

#[test]
fn link_rx_defaults() {
    let c = LinkRxConf::default();
    assert_eq!(c.buffer_size, u16::MAX as usize);
    assert_eq!(c.max_message_size, 1 << 30);
}

#[test]
fn transport_defaults() {
    let u = TransportUnicastConf::default();
    assert_eq!(u.accept_timeout, 10000);
    assert_eq!(u.accept_pending, 100);
    assert_eq!(u.max_sessions, 1000);
    assert_eq!(u.max_links, 1);
    assert!(!u.lowlatency);
    assert!(u.qos.enabled);
    assert!(!u.compression.enabled);
    let m = TransportMulticastConf::default();
    assert_eq!(m.join_interval, Some(2500));
    assert_eq!(m.max_sessions, Some(1000));
    assert!(!m.qos.enabled);
    assert!(!m.compression.enabled);
}

#[test]
fn switch_defaults() {
    assert!(QoSUnicastConf::default().enabled);
    assert!(!QoSMulticastConf::default().enabled);
    assert!(!CompressionUnicastConf::default().enabled);
    assert!(!CompressionMulticastConf::default().enabled);
    assert!(ShmConf::default().enabled);
}

#[test]
fn connection_retry_defaults() {
    let c = ConnectionRetryModeDependentConf::default();
    assert!(matches!(c.period_init_ms, Some(ModeDependentValue::Unique(1000))));
    assert!(matches!(c.period_max_ms, Some(ModeDependentValue::Unique(4000))));
    assert!(matches!(c.period_increase_factor, Some(ModeDependentValue::Unique(2))));
}

#[test]
fn listen_and_connect_defaults() {
    let l = ListenConfig::default();
    assert!(l.timeout_ms.is_none() && l.exit_on_failure.is_none() && l.retry.is_none());
    assert_eq!(
        l.endpoints.get(WhatAmI::Router),
        Some(&vec!["tcp/[::]:7447".to_string()])
    );
    assert_eq!(l.endpoints.get(WhatAmI::Peer), Some(&vec!["tcp/[::]:0".to_string()]));
    assert_eq!(l.endpoints.get(WhatAmI::Client), None);
    let c = ConnectConfig::default();
    assert_eq!(c.endpoints.get(WhatAmI::Peer), Some(&Vec::new()));
}

#[test]
fn mode_dependent_lookup() {
    let unique: ModeDependentValue<u64> = ModeDependentValue::Unique(7);
    assert_eq!(unique.get(WhatAmI::Router), Some(&7));
    assert_eq!(unique.get(WhatAmI::Client), Some(&7));
    let dep: ModeDependentValue<u64> = ModeDependentValue::Dependent(ModeValues {
        router: Some(1),
        peer: Some(2),
        client: None,
    });
    assert_eq!(dep.get(WhatAmI::Router), Some(&1));
    assert_eq!(dep.get(WhatAmI::Peer), Some(&2));
    assert_eq!(dep.get(WhatAmI::Client), None);
}

#[test]
fn droprate_is_zero_when_nothing_was_tried() {
    let stats = QueueStats::new(3);
    let report = stats.report();
    assert_eq!(report.droprate, 0);
    assert_eq!(report.mcnt, 0);
    assert_eq!(report.priority, 3);
    assert_eq!(report.avg_qsize, 0);
    assert_eq!(report.avg_qdelay, 0);
}

#[test]
fn droprate_is_exact_thousandths() {
    let mut stats = QueueStats::new(0);
    stats.inc_tried();
    stats.inc_tried();
    stats.inc_tried();
    stats.inc_dropped();
    let report = stats.report();
    assert_eq!(report.mcnt, 3);
    // one dropped of three tried: a third, floored to thousandths
    assert_eq!(report.droprate, 333);
}

#[test]
fn ema_of_a_constant_history_is_the_constant() {
    let mut stats = QueueStats::new(0);
    for _ in 0..5 {
        stats.push_qdelay(7);
    }
    // thousandths of a microsecond
    assert_eq!(stats.report().avg_qdelay, 7000);
}

#[test]
fn ema_single_sample_is_the_seed() {
    let mut stats = QueueStats::new(0);
    stats.push_qdelay(10000);
    assert_eq!(stats.report().avg_qdelay, 10000 * 1000);
}

#[test]
fn ema_moves_a_tenth_towards_each_sample() {
    let mut stats = QueueStats::new(0);
    stats.push_qdelay(0);
    stats.push_qdelay(10);
    // seeded with 0, stepped with 0, then a tenth of 10: one thousand thousandths
    assert_eq!(stats.report().avg_qdelay, 1000);
}

#[test]
fn depth_counter_follows_queue_events() {
    let mut stats = QueueStats::new(0);
    stats.inc_qcnt();
    stats.inc_qcnt();
    stats.record_qsize();
    stats.dec_qcnt();
    stats.record_qsize();
    let report = stats.report();
    // history [2, 1]: seed 2000, step with 2 keeps 2000, step with 1 gives 1900
    assert_eq!(report.avg_qsize, 1900);
}
