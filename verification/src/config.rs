//! Link transmit configuration: per-class lane capacities, the
//! congestion-control policy parameters, batching, and link-level transport
//! parameters, each with its documented default.
//!
//! The scheduling core is role-agnostic: values that depend on the node's
//! role (router, peer or client) are resolved through `ModeDependentValue`
//! before the core sees them.

use vstd::prelude::*;
use crate::NUM_CLASSES;

verus! {

/// A node's role in the network.
#[derive(Clone, Copy, Debug, PartialEq, Eq, Structural)]
pub enum WhatAmI {
    Router,
    Peer,
    Client,
}

/// A value given separately per role; any role may be left without one.
pub struct ModeValues<T> {
    pub router: Option<T>,
    pub peer: Option<T>,
    pub client: Option<T>,
}

/// A configuration value that is either the same for every role or looked up
/// by role.
pub enum ModeDependentValue<T> {
    Unique(T),
    Dependent(ModeValues<T>),
}

impl<T> ModeDependentValue<T> {
    /// The value resolved for a role.
    pub open spec fn get_spec(self, whatami: WhatAmI) -> Option<T> {
        match self {
            ModeDependentValue::Unique(v) => Some(v),
            ModeDependentValue::Dependent(values) => match whatami {
                WhatAmI::Router => values.router,
                WhatAmI::Peer => values.peer,
                WhatAmI::Client => values.client,
            },
        }
    }

    /// Resolve the value for the given role.
    pub fn get(&self, whatami: WhatAmI) -> (r: Option<&T>)
        ensures
            r is Some <==> self.get_spec(whatami) is Some,
            r is Some ==> *r->Some_0 == self.get_spec(whatami)->Some_0,
    {
        match self {
            ModeDependentValue::Unique(v) => Some(v),
            ModeDependentValue::Dependent(values) => match whatami {
                WhatAmI::Router => values.router.as_ref(),
                WhatAmI::Peer => values.peer.as_ref(),
                WhatAmI::Client => values.client.as_ref(),
            },
        }
    }
}

/// Width of the sequence numbers used for wraparound arithmetic on a link.
#[derive(Clone, Copy, Debug, PartialEq, Eq, Structural)]
pub enum Bits {
    U8,
    U16,
    U32,
    U64,
}

/// Per-class lane capacities, in messages.
pub struct QueueSizeConf {
    pub control: usize,
    pub real_time: usize,
    pub interactive_high: usize,
    pub interactive_low: usize,
    pub data_high: usize,
    pub data: usize,
    pub data_low: usize,
    pub background: usize,
}

impl QueueSizeConf {
    /// Smallest accepted lane capacity.
    pub const MIN: usize = 1;

    /// Largest accepted lane capacity.
    pub const MAX: usize = 16;

    /// Every capacity lies between `MIN` and `MAX`.
    pub open spec fn wf(self) -> bool {
        &&& 1 <= self.control <= 16
        &&& 1 <= self.real_time <= 16
        &&& 1 <= self.interactive_high <= 16
        &&& 1 <= self.interactive_low <= 16
        &&& 1 <= self.data_high <= 16
        &&& 1 <= self.data <= 16
        &&& 1 <= self.data_low <= 16
        &&& 1 <= self.background <= 16
    }

    /// The capacities as a vector indexed by class rank, highest priority
    /// first, ready for `PriorityLaneSet::new`.
    pub fn capacities(&self) -> (caps: Vec<usize>)
        ensures
            caps@.len() == NUM_CLASSES,
            caps@[0] == self.control,
            caps@[1] == self.real_time,
            caps@[2] == self.interactive_high,
            caps@[3] == self.interactive_low,
            caps@[4] == self.data_high,
            caps@[5] == self.data,
            caps@[6] == self.data_low,
            caps@[7] == self.background,
            self.wf() ==> forall|i: int| 0 <= i < NUM_CLASSES ==> 1 <= #[trigger] caps@[i] <= 16,
    {
        let mut caps: Vec<usize> = Vec::new();
        caps.push(self.control);
        caps.push(self.real_time);
        caps.push(self.interactive_high);
        caps.push(self.interactive_low);
        caps.push(self.data_high);
        caps.push(self.data);
        caps.push(self.data_low);
        caps.push(self.background);
        caps
    }
}

/// The default per-class capacities, as a spec-level value.
pub open spec fn queue_size_default() -> QueueSizeConf {
    QueueSizeConf {
        control: 1,
        real_time: 1,
        interactive_high: 1,
        interactive_low: 1,
        data_high: 2,
        data: 4,
        data_low: 2,
        background: 1,
    }
}

impl Default for QueueSizeConf {
    /// Default capacities: single-slot lanes for latency-sensitive classes,
    /// a few slots for the data classes.
    fn default() -> (c: Self)
        ensures
            c == (QueueSizeConf {
                control: 1,
                real_time: 1,
                interactive_high: 1,
                interactive_low: 1,
                data_high: 2,
                data: 4,
                data_low: 2,
                background: 1,
            }),
            c.wf(),
    {
        QueueSizeConf {
            control: 1,
            real_time: 1,
            interactive_high: 1,
            interactive_low: 1,
            data_high: 2,
            data: 4,
            data_low: 2,
            background: 1,
        }
    }
}

/// Timing of the Drop congestion policy.
pub struct CongestionControlDropConf {
    /// How long admission may wait for lane space before a message is
    /// dropped, in milliseconds.
    pub wait_before_drop: u64,
    /// The longer bound applied when the message is a fragment of a larger
    /// logical message, in milliseconds.
    pub max_wait_before_drop_fragments: u64,
}

impl Default for CongestionControlDropConf {
    fn default() -> (c: Self)
        ensures
            c.wait_before_drop == 1000,
            c.max_wait_before_drop_fragments == 50000,
    {
        CongestionControlDropConf { wait_before_drop: 1000, max_wait_before_drop_fragments: 50000 }
    }
}

/// Timing of the Block congestion policy.
pub struct CongestionControlBlockConf {
    /// How long admission may block before the link is declared unusable, in
    /// microseconds.
    pub wait_before_close: u64,
}

impl Default for CongestionControlBlockConf {
    fn default() -> (c: Self)
        ensures
            c.wait_before_close == 5000000,
    {
        CongestionControlBlockConf { wait_before_close: 5000000 }
    }
}

/// Parameters of both congestion policies; which one applies is chosen per
/// link.
pub struct CongestionControlConf {
    pub drop: CongestionControlDropConf,
    pub block: CongestionControlBlockConf,
}

impl Default for CongestionControlConf {
    fn default() -> (c: Self)
        ensures
            c.drop.wait_before_drop == 1000,
            c.drop.max_wait_before_drop_fragments == 50000,
            c.block.wait_before_close == 5000000,
    {
        CongestionControlConf {
            drop: CongestionControlDropConf::default(),
            block: CongestionControlBlockConf::default(),
        }
    }
}

/// Batching switch and time budget.
pub struct BatchingConf {
    /// Whether consecutively dequeued messages are coalesced at all.
    pub enabled: bool,
    /// How long a partially filled batch may wait for more messages before
    /// it is flushed regardless of size, in milliseconds.
    pub time_limit: u64,
}

impl Default for BatchingConf {
    fn default() -> (c: Self)
        ensures
            c.enabled == true,
            c.time_limit == 1,
    {
        BatchingConf { enabled: true, time_limit: 1 }
    }
}

/// The whole queueing configuration of one outbound link.
pub struct QueueConf {
    pub size: QueueSizeConf,
    pub congestion_control: CongestionControlConf,
    pub batching: BatchingConf,
}

impl Default for QueueConf {
    fn default() -> (c: Self)
        ensures
            c.size == queue_size_default(),
            c.size.wf(),
            c.congestion_control.drop.wait_before_drop == 1000,
            c.congestion_control.drop.max_wait_before_drop_fragments == 50000,
            c.congestion_control.block.wait_before_close == 5000000,
            c.batching.enabled == true,
            c.batching.time_limit == 1,
    {
        QueueConf {
            size: QueueSizeConf::default(),
            congestion_control: CongestionControlConf::default(),
            batching: BatchingConf::default(),
        }
    }
}

/// Largest batch the link accepts, in bytes.
pub const BATCH_SIZE_MAX: u16 = u16::MAX;

/// Relies on num_cpus::get for the number of logical CPUs available to the
/// process; its documentation promises at least one.
#[verifier::external_body]
fn num_cpus_get() -> (n: usize)
    ensures
        1 <= n,
{
    num_cpus::get()
}

/// Worker threads for a given CPU count: one, plus one more per four
/// further CPUs.
pub fn worker_threads(ncpus: usize) -> (t: usize)
    requires
        1 <= ncpus,
    ensures
        t == 1 + (ncpus - 1) / 4,
        1 <= t,
{
    1 + ((ncpus - 1) / 4)
}

/// Transmission side of a link.
pub struct LinkTxConf {
    /// Bit width for wraparound arithmetic on sequence numbers.
    pub sequence_number_resolution: Bits,
    /// Link lease, in milliseconds; liveness timing external to the core.
    pub lease: u64,
    /// Keep-alive messages per lease period; liveness timing external to the
    /// core.
    pub keep_alive: usize,
    /// Largest batch handed to the link writer, in bytes.
    pub batch_size: u16,
    /// The queueing configuration.
    pub queue: QueueConf,
    /// Number of scheduler worker threads.
    pub threads: usize,
}

impl Default for LinkTxConf {
    /// Defaults: 32-bit sequence numbers (the transport sequence number is a
    /// 32-bit integer), the largest batch the wire format can carry, and one
    /// worker thread per four CPUs.
    fn default() -> (c: Self)
        ensures
            c.sequence_number_resolution == Bits::U32,
            c.lease == 10000,
            c.keep_alive == 4,
            c.batch_size == u16::MAX,
            c.queue.size == queue_size_default(),
            c.queue.size.wf(),
            c.queue.batching.enabled == true,
            c.queue.batching.time_limit == 1,
            c.queue.congestion_control.drop.wait_before_drop == 1000,
            c.queue.congestion_control.drop.max_wait_before_drop_fragments == 50000,
            c.queue.congestion_control.block.wait_before_close == 5000000,
            1 <= c.threads,
    {
        let num = worker_threads(num_cpus_get());
        LinkTxConf {
            sequence_number_resolution: Bits::U32,
            lease: 10000,
            keep_alive: 4,
            batch_size: BATCH_SIZE_MAX,
            queue: QueueConf::default(),
            threads: num,
        }
    }
}

/// Reception side of a link.
pub struct LinkRxConf {
    /// Reception buffer size, in bytes.
    pub buffer_size: usize,
    /// Largest accepted message, in bytes.
    pub max_message_size: usize,
}

impl Default for LinkRxConf {
    fn default() -> (c: Self)
        ensures
            c.buffer_size == u16::MAX as usize,
            c.max_message_size == 0x40000000,
    {
        LinkRxConf { buffer_size: u16::MAX as usize, max_message_size: 0x40000000 }
    }
}

/// Unicast quality-of-service switch.
pub struct QoSUnicastConf {
    pub enabled: bool,
}

impl Default for QoSUnicastConf {
    fn default() -> (c: Self)
        ensures
            c.enabled == true,
    {
        QoSUnicastConf { enabled: true }
    }
}

/// Multicast quality-of-service switch.
pub struct QoSMulticastConf {
    pub enabled: bool,
}

impl Default for QoSMulticastConf {
    fn default() -> (c: Self)
        ensures
            c.enabled == false,
    {
        QoSMulticastConf { enabled: false }
    }
}

/// Unicast compression switch.
pub struct CompressionUnicastConf {
    pub enabled: bool,
}

impl Default for CompressionUnicastConf {
    fn default() -> (c: Self)
        ensures
            c.enabled == false,
    {
        CompressionUnicastConf { enabled: false }
    }
}

/// Multicast compression switch.
pub struct CompressionMulticastConf {
    pub enabled: bool,
}

impl Default for CompressionMulticastConf {
    fn default() -> (c: Self)
        ensures
            c.enabled == false,
    {
        CompressionMulticastConf { enabled: false }
    }
}

/// Shared-memory transport switch.
pub struct ShmConf {
    pub enabled: bool,
}

impl Default for ShmConf {
    fn default() -> (c: Self)
        ensures
            c.enabled == true,
    {
        ShmConf { enabled: true }
    }
}

/// Unicast transport session limits.
pub struct TransportUnicastConf {
    pub accept_timeout: u64,
    pub accept_pending: usize,
    pub max_sessions: usize,
    pub max_links: usize,
    pub lowlatency: bool,
    pub qos: QoSUnicastConf,
    pub compression: CompressionUnicastConf,
}

impl Default for TransportUnicastConf {
    fn default() -> (c: Self)
        ensures
            c.accept_timeout == 10000,
            c.accept_pending == 100,
            c.max_sessions == 1000,
            c.max_links == 1,
            c.lowlatency == false,
            c.qos.enabled == true,
            c.compression.enabled == false,
    {
        TransportUnicastConf {
            accept_timeout: 10000,
            accept_pending: 100,
            max_sessions: 1000,
            max_links: 1,
            lowlatency: false,
            qos: QoSUnicastConf::default(),
            compression: CompressionUnicastConf::default(),
        }
    }
}

/// Multicast transport session limits.
pub struct TransportMulticastConf {
    pub join_interval: Option<u64>,
    pub max_sessions: Option<usize>,
    pub qos: QoSMulticastConf,
    pub compression: CompressionMulticastConf,
}

impl Default for TransportMulticastConf {
    fn default() -> (c: Self)
        ensures
            c.join_interval == Some(2500u64),
            c.max_sessions == Some(1000usize),
            c.qos.enabled == false,
            c.compression.enabled == false,
    {
        TransportMulticastConf {
            join_interval: Some(2500),
            max_sessions: Some(1000),
            qos: QoSMulticastConf::default(),
            compression: CompressionMulticastConf::default(),
        }
    }
}

/// Connection retry pacing, resolved per role.  The pacing factor is an
/// integral multiplier applied to the period at each retry.
pub struct ConnectionRetryModeDependentConf {
    pub period_init_ms: Option<ModeDependentValue<i64>>,
    pub period_max_ms: Option<ModeDependentValue<i64>>,
    pub period_increase_factor: Option<ModeDependentValue<u64>>,
}

impl Default for ConnectionRetryModeDependentConf {
    fn default() -> (c: Self)
        ensures
            c.period_init_ms == Some(ModeDependentValue::Unique(1000i64)),
            c.period_max_ms == Some(ModeDependentValue::Unique(4000i64)),
            c.period_increase_factor == Some(ModeDependentValue::Unique(2u64)),
    {
        ConnectionRetryModeDependentConf {
            period_init_ms: Some(ModeDependentValue::Unique(1000)),
            period_max_ms: Some(ModeDependentValue::Unique(4000)),
            period_increase_factor: Some(ModeDependentValue::Unique(2)),
        }
    }
}

/// Where and how the node listens for incoming links.  Endpoints are kept
/// as their textual form (`"tcp/[::]:7447"`); parsing them into addresses
/// belongs to the link layer, outside this core.
pub struct ListenConfig {
    pub timeout_ms: Option<ModeDependentValue<i64>>,
    pub endpoints: ModeDependentValue<Vec<String>>,
    pub exit_on_failure: Option<ModeDependentValue<bool>>,
    pub retry: Option<ConnectionRetryModeDependentConf>,
}

impl Default for ListenConfig {
    /// Defaults: routers listen on TCP port 7447, peers on an ephemeral TCP
    /// port, clients do not listen.
    fn default() -> (c: Self)
        ensures
            c.timeout_ms is None,
            c.exit_on_failure is None,
            c.retry is None,
            c.endpoints matches ModeDependentValue::Dependent(v) && {
                &&& v.router matches Some(e) && e@.len() == 1 && e@[0]@ == "tcp/[::]:7447"@
                &&& v.peer matches Some(e) && e@.len() == 1 && e@[0]@ == "tcp/[::]:0"@
                &&& v.client is None
            },
    {
        let mut router_endpoints: Vec<String> = Vec::new();
        router_endpoints.push(String::from_str("tcp/[::]:7447"));
        let mut peer_endpoints: Vec<String> = Vec::new();
        peer_endpoints.push(String::from_str("tcp/[::]:0"));
        ListenConfig {
            timeout_ms: None,
            endpoints: ModeDependentValue::Dependent(ModeValues {
                router: Some(router_endpoints),
                peer: Some(peer_endpoints),
                client: None,
            }),
            exit_on_failure: None,
            retry: None,
        }
    }
}

/// Where and how the node connects out.
pub struct ConnectConfig {
    pub timeout_ms: Option<ModeDependentValue<i64>>,
    pub endpoints: ModeDependentValue<Vec<String>>,
    pub exit_on_failure: Option<ModeDependentValue<bool>>,
    pub retry: Option<ConnectionRetryModeDependentConf>,
}

impl Default for ConnectConfig {
    /// Defaults: no endpoint is dialled for any role.
    fn default() -> (c: Self)
        ensures
            c.timeout_ms is None,
            c.exit_on_failure is None,
            c.retry is None,
            c.endpoints matches ModeDependentValue::Unique(e) && e@.len() == 0,
    {
        ConnectConfig {
            timeout_ms: None,
            endpoints: ModeDependentValue::Unique(Vec::new()),
            exit_on_failure: None,
            retry: None,
        }
    }
}

} // verus!
