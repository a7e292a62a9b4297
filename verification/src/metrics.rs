//! The publisher's metrics: what they are called, what kind they are of, and what
//! changes them.

use vstd::prelude::*;

use crate::effects::MetricUpdate;
use crate::time::Duration;

verus! {

/// One of the publisher's metrics.
#[derive(Clone, Copy, Debug, PartialEq, Eq, Structural)]
pub enum Metric {
    /// The number of connected sidecars.
    ConnectionsActive,
    /// The messages that came in.
    MessagesReceived,
    /// The messages that were sent out.
    BroadcastsSent,
    /// The transactions that were started.
    XtStarted,
    /// The transactions that were committed.
    XtDecidedCommit,
    /// The transactions that were aborted.
    XtDecidedAbort,
    /// The transactions that the settlement layer confirmed in the last period.
    XtFinalisedPerPeriod,
    /// How long transactions were undecided.
    XtDecisionLatency,
    /// How long it took until all chains had included a transaction.
    XtBlockInclusionLatency,
    /// The periods that were announced.
    PeriodBroadcast,
}

/// A kind of metric.
#[derive(Clone, Copy, Debug, PartialEq, Eq, Structural)]
pub enum MetricKind {
    /// A number that only goes up.
    Counter,
    /// A number that goes up and down.
    Gauge,
    /// A distribution of spans of time.
    Histogram,
}

/// A change to a metric.
#[derive(Clone, Copy, Debug, PartialEq, Eq, Structural)]
pub enum MetricChange {
    /// One more.
    Increment,
    /// One less.
    Decrement,
    /// A new value.
    Assign(u64),
    /// Another span of time.
    Observe(Duration),
}

/// The name under which a metric is registered.
pub open spec fn metric_name(m: Metric) -> Seq<char> {
    match m {
        Metric::ConnectionsActive => "publisher_connections_active"@,
        Metric::MessagesReceived => "publisher_messages_received"@,
        Metric::BroadcastsSent => "publisher_broadcasts_sent"@,
        Metric::XtStarted => "publisher_xt_started"@,
        Metric::XtDecidedCommit => "publisher_xt_decided_commit"@,
        Metric::XtDecidedAbort => "publisher_xt_decided_abort"@,
        Metric::XtFinalisedPerPeriod => "publisher_xt_finalized_per_period"@,
        Metric::XtDecisionLatency => "publisher_xt_decision_latency_seconds"@,
        Metric::XtBlockInclusionLatency => "publisher_xt_block_inclusion_latency_seconds"@,
        Metric::PeriodBroadcast => "publisher_period_broadcast"@,
    }
}

/// What a metric is described as.
pub open spec fn metric_help(m: Metric) -> Seq<char> {
    match m {
        Metric::ConnectionsActive => "Active sidecar connections"@,
        Metric::MessagesReceived => "Inbound messages from sidecars"@,
        Metric::BroadcastsSent => "Broadcast messages sent to sidecars"@,
        Metric::XtStarted => "Cross-chain transactions started"@,
        Metric::XtDecidedCommit => "Cross-chain transactions committed"@,
        Metric::XtDecidedAbort => "Cross-chain transactions aborted"@,
        Metric::XtFinalisedPerPeriod => {
            "Cross-chain transactions finalized in the last period (L1-confirmed)"@
        },
        Metric::XtDecisionLatency => "Time from XT start to decision"@,
        Metric::XtBlockInclusionLatency => {
            "Time from XT submission to all chains confirming block inclusion"@
        },
        Metric::PeriodBroadcast => "Period broadcasts sent"@,
    }
}

/// The kind that a metric is of.
pub open spec fn metric_kind(m: Metric) -> MetricKind {
    match m {
        Metric::ConnectionsActive => MetricKind::Gauge,
        Metric::MessagesReceived => MetricKind::Counter,
        Metric::BroadcastsSent => MetricKind::Counter,
        Metric::XtStarted => MetricKind::Counter,
        Metric::XtDecidedCommit => MetricKind::Counter,
        Metric::XtDecidedAbort => MetricKind::Counter,
        Metric::XtFinalisedPerPeriod => MetricKind::Gauge,
        Metric::XtDecisionLatency => MetricKind::Histogram,
        Metric::XtBlockInclusionLatency => MetricKind::Histogram,
        Metric::PeriodBroadcast => MetricKind::Counter,
    }
}

/// The upper bounds of a histogram's buckets, in milliseconds.
pub open spec fn metric_bounds(m: Metric) -> Seq<u64> {
    match m {
        Metric::XtDecisionLatency => seq![10u64, 50, 100, 250, 500, 1000, 2500, 5000, 10000],
        Metric::XtBlockInclusionLatency => Seq::new(17, |i: int| (1000 + 250 * i) as u64),
        _ => Seq::empty(),
    }
}

/// All metrics, in the order in which they are registered.
pub open spec fn all_metrics() -> Seq<Metric> {
    seq![
        Metric::ConnectionsActive,
        Metric::MessagesReceived,
        Metric::BroadcastsSent,
        Metric::XtStarted,
        Metric::XtDecidedCommit,
        Metric::XtDecidedAbort,
        Metric::XtFinalisedPerPeriod,
        Metric::XtDecisionLatency,
        Metric::XtBlockInclusionLatency,
        Metric::PeriodBroadcast,
    ]
}

impl Metric {
    /// All metrics, in the order in which they are registered.
    pub fn all() -> (list: Vec<Metric>)
        ensures
            list@ == all_metrics(),
    {
        let list = vec![
            Metric::ConnectionsActive,
            Metric::MessagesReceived,
            Metric::BroadcastsSent,
            Metric::XtStarted,
            Metric::XtDecidedCommit,
            Metric::XtDecidedAbort,
            Metric::XtFinalisedPerPeriod,
            Metric::XtDecisionLatency,
            Metric::XtBlockInclusionLatency,
            Metric::PeriodBroadcast,
        ];
        assert(list@ =~= all_metrics());
        list
    }

    /// The name under which the metric is registered.
    pub fn name(&self) -> (name: &'static str)
        ensures
            name@ == metric_name(*self),
    {
        match self {
            Metric::ConnectionsActive => "publisher_connections_active",
            Metric::MessagesReceived => "publisher_messages_received",
            Metric::BroadcastsSent => "publisher_broadcasts_sent",
            Metric::XtStarted => "publisher_xt_started",
            Metric::XtDecidedCommit => "publisher_xt_decided_commit",
            Metric::XtDecidedAbort => "publisher_xt_decided_abort",
            Metric::XtFinalisedPerPeriod => "publisher_xt_finalized_per_period",
            Metric::XtDecisionLatency => "publisher_xt_decision_latency_seconds",
            Metric::XtBlockInclusionLatency => "publisher_xt_block_inclusion_latency_seconds",
            Metric::PeriodBroadcast => "publisher_period_broadcast",
        }
    }

    /// What the metric is described as.
    pub fn help(&self) -> (help: &'static str)
        ensures
            help@ == metric_help(*self),
    {
        match self {
            Metric::ConnectionsActive => "Active sidecar connections",
            Metric::MessagesReceived => "Inbound messages from sidecars",
            Metric::BroadcastsSent => "Broadcast messages sent to sidecars",
            Metric::XtStarted => "Cross-chain transactions started",
            Metric::XtDecidedCommit => "Cross-chain transactions committed",
            Metric::XtDecidedAbort => "Cross-chain transactions aborted",
            Metric::XtFinalisedPerPeriod => {
                "Cross-chain transactions finalized in the last period (L1-confirmed)"
            },
            Metric::XtDecisionLatency => "Time from XT start to decision",
            Metric::XtBlockInclusionLatency => {
                "Time from XT submission to all chains confirming block inclusion"
            },
            Metric::PeriodBroadcast => "Period broadcasts sent",
        }
    }

    /// The kind that the metric is of.
    pub fn kind(&self) -> (kind: MetricKind)
        ensures
            kind == metric_kind(*self),
    {
        match self {
            Metric::ConnectionsActive => MetricKind::Gauge,
            Metric::MessagesReceived => MetricKind::Counter,
            Metric::BroadcastsSent => MetricKind::Counter,
            Metric::XtStarted => MetricKind::Counter,
            Metric::XtDecidedCommit => MetricKind::Counter,
            Metric::XtDecidedAbort => MetricKind::Counter,
            Metric::XtFinalisedPerPeriod => MetricKind::Gauge,
            Metric::XtDecisionLatency => MetricKind::Histogram,
            Metric::XtBlockInclusionLatency => MetricKind::Histogram,
            Metric::PeriodBroadcast => MetricKind::Counter,
        }
    }

    /// The upper bounds of a histogram's buckets, in milliseconds.
    pub fn bounds_ms(&self) -> (bounds: Vec<u64>)
        ensures
            bounds@ == metric_bounds(*self),
    {
        match self {
            Metric::XtDecisionLatency => {
                let bounds: Vec<u64> = vec![10, 50, 100, 250, 500, 1000, 2500, 5000, 10000];
                assert(bounds@ =~= metric_bounds(*self));
                bounds
            },
            Metric::XtBlockInclusionLatency => {
                let mut bounds: Vec<u64> = Vec::new();
                for i in 0..17u64
                    invariant
                        bounds.len() == i,
                        forall|j: int| 0 <= j < i ==> bounds@[j] == 1000 + 250 * j,
                {
                    bounds.push(1000 + 250 * i);
                }
                assert(bounds@ =~= metric_bounds(*self));
                bounds
            },
            _ => Vec::new(),
        }
    }
}

/// What an update changes, and how.
pub open spec fn update_change(u: MetricUpdate) -> (Metric, MetricChange) {
    match u {
        MetricUpdate::ConnectionOpened => (Metric::ConnectionsActive, MetricChange::Increment),
        MetricUpdate::ConnectionClosed => (Metric::ConnectionsActive, MetricChange::Decrement),
        MetricUpdate::MessageReceived => (Metric::MessagesReceived, MetricChange::Increment),
        MetricUpdate::BroadcastSent => (Metric::BroadcastsSent, MetricChange::Increment),
        MetricUpdate::XtStarted => (Metric::XtStarted, MetricChange::Increment),
        MetricUpdate::XtCommitted => (Metric::XtDecidedCommit, MetricChange::Increment),
        MetricUpdate::XtAborted => (Metric::XtDecidedAbort, MetricChange::Increment),
        MetricUpdate::DecisionLatency(d) => (Metric::XtDecisionLatency, MetricChange::Observe(d)),
        MetricUpdate::BlockInclusionLatency(d) => (
            Metric::XtBlockInclusionLatency,
            MetricChange::Observe(d),
        ),
        MetricUpdate::XtFinalisedPerPeriod(n) => (
            Metric::XtFinalisedPerPeriod,
            MetricChange::Assign(n),
        ),
        MetricUpdate::PeriodBroadcast => (Metric::PeriodBroadcast, MetricChange::Increment),
    }
}

impl MetricUpdate {
    /// What the update changes, and how.
    pub fn change(&self) -> (r: (Metric, MetricChange))
        ensures
            r == update_change(*self),
    {
        match self {
            MetricUpdate::ConnectionOpened => (Metric::ConnectionsActive, MetricChange::Increment),
            MetricUpdate::ConnectionClosed => (Metric::ConnectionsActive, MetricChange::Decrement),
            MetricUpdate::MessageReceived => (Metric::MessagesReceived, MetricChange::Increment),
            MetricUpdate::BroadcastSent => (Metric::BroadcastsSent, MetricChange::Increment),
            MetricUpdate::XtStarted => (Metric::XtStarted, MetricChange::Increment),
            MetricUpdate::XtCommitted => (Metric::XtDecidedCommit, MetricChange::Increment),
            MetricUpdate::XtAborted => (Metric::XtDecidedAbort, MetricChange::Increment),
            MetricUpdate::DecisionLatency(d) => {
                (Metric::XtDecisionLatency, MetricChange::Observe(*d))
            },
            MetricUpdate::BlockInclusionLatency(d) => {
                (Metric::XtBlockInclusionLatency, MetricChange::Observe(*d))
            },
            MetricUpdate::XtFinalisedPerPeriod(n) => {
                (Metric::XtFinalisedPerPeriod, MetricChange::Assign(*n))
            },
            MetricUpdate::PeriodBroadcast => (Metric::PeriodBroadcast, MetricChange::Increment),
        }
    }
}

/// No two metrics have the same name.
pub proof fn names_are_distinct(a: Metric, b: Metric)
    requires
        metric_name(a) == metric_name(b),
    ensures
        a == b,
{
    reveal_strlit("publisher_connections_active");
    reveal_strlit("publisher_messages_received");
    reveal_strlit("publisher_broadcasts_sent");
    reveal_strlit("publisher_xt_started");
    reveal_strlit("publisher_xt_decided_commit");
    reveal_strlit("publisher_xt_decided_abort");
    reveal_strlit("publisher_xt_finalized_per_period");
    reveal_strlit("publisher_xt_decision_latency_seconds");
    reveal_strlit("publisher_xt_block_inclusion_latency_seconds");
    reveal_strlit("publisher_period_broadcast");
    assert("publisher_connections_active"@.len() == 28);
    assert("publisher_messages_received"@.len() == 27);
    assert("publisher_broadcasts_sent"@.len() == 25);
    assert("publisher_xt_started"@.len() == 20);
    assert("publisher_xt_decided_commit"@.len() == 27);
    assert("publisher_xt_decided_abort"@.len() == 26);
    assert("publisher_xt_finalized_per_period"@.len() == 33);
    assert("publisher_xt_decision_latency_seconds"@.len() == 37);
    assert("publisher_xt_block_inclusion_latency_seconds"@.len() == 44);
    assert("publisher_period_broadcast"@.len() == 26);
    assert("publisher_messages_received"@[10] != "publisher_xt_decided_commit"@[10]);
    assert("publisher_xt_decided_abort"@[10] != "publisher_period_broadcast"@[10]);
}

/// Every metric is registered, and once only.
pub proof fn every_metric_is_registered(m: Metric)
    ensures
        all_metrics().contains(m),
        all_metrics().no_duplicates(),
{
    let place: int = match m {
        Metric::ConnectionsActive => 0,
        Metric::MessagesReceived => 1,
        Metric::BroadcastsSent => 2,
        Metric::XtStarted => 3,
        Metric::XtDecidedCommit => 4,
        Metric::XtDecidedAbort => 5,
        Metric::XtFinalisedPerPeriod => 6,
        Metric::XtDecisionLatency => 7,
        Metric::XtBlockInclusionLatency => 8,
        Metric::PeriodBroadcast => 9,
    };
    assert(all_metrics()[place] == m);
}

/// The buckets of a histogram do not overlap: their upper bounds increase.
pub proof fn bounds_increase(m: Metric, i: int, j: int)
    requires
        0 <= i < j < metric_bounds(m).len(),
    ensures
        metric_bounds(m)[i] < metric_bounds(m)[j],
{
}

/// Every update suits the kind of the metric that it changes: only a gauge goes down
/// or is set, and only a histogram takes in spans of time, and nothing else.
pub proof fn updates_suit_their_metric(u: MetricUpdate)
    ensures
        match update_change(u).1 {
            MetricChange::Increment => !(metric_kind(update_change(u).0) is Histogram),
            MetricChange::Decrement => metric_kind(update_change(u).0) is Gauge,
            MetricChange::Assign(n) => metric_kind(update_change(u).0) is Gauge,
            MetricChange::Observe(d) => metric_kind(update_change(u).0) is Histogram,
        },
{
}

/// Every metric is named for what it shows.
pub proof fn metrics_are_named()
    ensures
        metric_name(Metric::ConnectionsActive) == "publisher_connections_active"@,
        metric_name(Metric::MessagesReceived) == "publisher_messages_received"@,
        metric_name(Metric::BroadcastsSent) == "publisher_broadcasts_sent"@,
        metric_name(Metric::XtStarted) == "publisher_xt_started"@,
        metric_name(Metric::XtDecidedCommit) == "publisher_xt_decided_commit"@,
        metric_name(Metric::XtDecidedAbort) == "publisher_xt_decided_abort"@,
        metric_name(Metric::XtFinalisedPerPeriod) == "publisher_xt_finalized_per_period"@,
        metric_name(Metric::XtDecisionLatency) == "publisher_xt_decision_latency_seconds"@,
        metric_name(Metric::XtBlockInclusionLatency)
            == "publisher_xt_block_inclusion_latency_seconds"@,
        metric_name(Metric::PeriodBroadcast) == "publisher_period_broadcast"@,
{
}

/// Every metric is described by what it shows.
pub proof fn metrics_are_described()
    ensures
        metric_help(Metric::ConnectionsActive) == "Active sidecar connections"@,
        metric_help(Metric::MessagesReceived) == "Inbound messages from sidecars"@,
        metric_help(Metric::BroadcastsSent) == "Broadcast messages sent to sidecars"@,
        metric_help(Metric::XtStarted) == "Cross-chain transactions started"@,
        metric_help(Metric::XtDecidedCommit) == "Cross-chain transactions committed"@,
        metric_help(Metric::XtDecidedAbort) == "Cross-chain transactions aborted"@,
        metric_help(Metric::XtFinalisedPerPeriod)
            == "Cross-chain transactions finalized in the last period (L1-confirmed)"@,
        metric_help(Metric::XtDecisionLatency) == "Time from XT start to decision"@,
        metric_help(Metric::XtBlockInclusionLatency)
            == "Time from XT submission to all chains confirming block inclusion"@,
        metric_help(Metric::PeriodBroadcast) == "Period broadcasts sent"@,
{
}

/// Latencies are histograms, what can go down or is set is a gauge, and all else counts
/// up.
pub proof fn metrics_have_their_kinds(m: Metric)
    ensures
        metric_kind(m) is Histogram <==> m is XtDecisionLatency || m is XtBlockInclusionLatency,
        metric_kind(m) is Gauge <==> m is ConnectionsActive || m is XtFinalisedPerPeriod,
{
}

/// Decisions are told apart from ten milliseconds up to ten seconds, and inclusions in
/// steps of a quarter of a second from one second up to five; nothing else has buckets.
pub proof fn histograms_have_their_buckets(m: Metric, i: int)
    ensures
        metric_bounds(Metric::XtDecisionLatency).len() == 9,
        metric_bounds(Metric::XtDecisionLatency)[0] == 10,
        metric_bounds(Metric::XtDecisionLatency)[1] == 50,
        metric_bounds(Metric::XtDecisionLatency)[2] == 100,
        metric_bounds(Metric::XtDecisionLatency)[3] == 250,
        metric_bounds(Metric::XtDecisionLatency)[4] == 500,
        metric_bounds(Metric::XtDecisionLatency)[5] == 1000,
        metric_bounds(Metric::XtDecisionLatency)[6] == 2500,
        metric_bounds(Metric::XtDecisionLatency)[7] == 5000,
        metric_bounds(Metric::XtDecisionLatency)[8] == 10000,
        metric_bounds(Metric::XtBlockInclusionLatency).len() == 17,
        metric_bounds(Metric::XtBlockInclusionLatency)[0] == 1000,
        metric_bounds(Metric::XtBlockInclusionLatency)[16] == 5000,
        0 < i < 17 ==> metric_bounds(Metric::XtBlockInclusionLatency)[i] == metric_bounds(
            Metric::XtBlockInclusionLatency,
        )[i - 1] + 250,
        !(metric_kind(m) is Histogram) ==> metric_bounds(m).len() == 0,
{
}

/// Every update goes to the metric that shows it: connections up and down, one more of
/// each event, the spans and the count as they were given.
pub proof fn updates_reach_their_metric(d: Duration, n: u64)
    ensures
        update_change(MetricUpdate::ConnectionOpened) == (
            Metric::ConnectionsActive,
            MetricChange::Increment,
        ),
        update_change(MetricUpdate::ConnectionClosed) == (
            Metric::ConnectionsActive,
            MetricChange::Decrement,
        ),
        update_change(MetricUpdate::MessageReceived) == (
            Metric::MessagesReceived,
            MetricChange::Increment,
        ),
        update_change(MetricUpdate::BroadcastSent) == (
            Metric::BroadcastsSent,
            MetricChange::Increment,
        ),
        update_change(MetricUpdate::XtStarted) == (Metric::XtStarted, MetricChange::Increment),
        update_change(MetricUpdate::XtCommitted) == (
            Metric::XtDecidedCommit,
            MetricChange::Increment,
        ),
        update_change(MetricUpdate::XtAborted) == (Metric::XtDecidedAbort, MetricChange::Increment),
        update_change(MetricUpdate::DecisionLatency(d)) == (
            Metric::XtDecisionLatency,
            MetricChange::Observe(d),
        ),
        update_change(MetricUpdate::BlockInclusionLatency(d)) == (
            Metric::XtBlockInclusionLatency,
            MetricChange::Observe(d),
        ),
        update_change(MetricUpdate::XtFinalisedPerPeriod(n)) == (
            Metric::XtFinalisedPerPeriod,
            MetricChange::Assign(n),
        ),
        update_change(MetricUpdate::PeriodBroadcast) == (
            Metric::PeriodBroadcast,
            MetricChange::Increment,
        ),
{
}

} // verus!
