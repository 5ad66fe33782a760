//! Prometheus metrics.
use vstd::prelude::*;
use vstd::multiset::Multiset;
use crate::collectors::{
    are_label_names, are_name_chars, counted_up, counter_family_cell,
    counter_family_help, counter_family_labels, counter_family_name, counter_family_values,
    descriptor_id, gauge_added, gauge_at, gauge_cell, gauge_family_cell, gauge_family_help,
    gauge_family_labels, gauge_family_name, gauge_family_values, gauge_help, gauge_name,
    gauge_set, gauge_value, is_name, label_key, new_registry, occupied_ids, registered_cells,
    registered_names, texts, CounterFamily, Gauge, GaugeFamily,
};
use crate::version::Version;

verus! {

/// What the metrics show. The labelled ones are kept by the key of their label values, with the
/// label values that they were made for.
#[verifier::ext_equal]
pub struct MetricsState {
    /// The versions that were announced.
    pub version: Map<u64, (Seq<Seq<char>>, u64)>,
    /// The latest slot that was received, for each status.
    pub slot_status: Map<u64, (Seq<Seq<char>>, i64)>,
    /// The latest slot that was handed to the clients, for each status.
    pub slot_status_plugin: Map<u64, (Seq<Seq<char>>, i64)>,
    /// The number of blocks that could not be put together, for each reason.
    pub invalid_full_blocks: Map<u64, (Seq<Seq<char>>, i64)>,
    /// The number of messages in the queue to the gRPC service.
    pub message_queue_size: i64,
    /// The number of connections.
    pub connections_total: i64,
    /// The number of subscriptions, for each endpoint and kind.
    pub subscriptions_total: Map<u64, (Seq<Seq<char>>, i64)>,
    /// The number of status messages that were missed, for each status.
    pub missed_status_message: Map<u64, (Seq<Seq<char>>, u64)>,
    /// The names of the metrics that can be scraped, as often as they are registered.
    pub registered: Multiset<Seq<char>>,
    /// The descriptor numbers that the registry has seen.
    pub occupied: Set<u64>,
    /// Whether the metrics were registered and the version was announced.
    pub announced: bool,
}

/// The text in which the registered metrics are shown to Prometheus.
pub uninterp spec fn exposition(state: MetricsState) -> Seq<char>;

/// The metrics of the plugin.
pub struct Metrics {
    registry: prometheus::Registry,
    announced: bool,
    version: CounterFamily,
    slot_status: GaugeFamily,
    slot_status_plugin: GaugeFamily,
    invalid_full_blocks: GaugeFamily,
    message_queue_size: Gauge,
    connections_total: Gauge,
    subscriptions_total: GaugeFamily,
    missed_status_message: CounterFamily,
}

impl View for Metrics {
    type V = MetricsState;

    closed spec fn view(&self) -> MetricsState {
        MetricsState {
            version: counter_family_values(self.version),
            slot_status: gauge_family_values(self.slot_status),
            slot_status_plugin: gauge_family_values(self.slot_status_plugin),
            invalid_full_blocks: gauge_family_values(self.invalid_full_blocks),
            message_queue_size: gauge_value(self.message_queue_size),
            connections_total: gauge_value(self.connections_total),
            subscriptions_total: gauge_family_values(self.subscriptions_total),
            missed_status_message: counter_family_values(self.missed_status_message),
            registered: registered_names(self.registry),
            occupied: occupied_ids(self.registry),
            announced: self.announced,
        }
    }
}

impl Metrics {
    /// Whether each metric has the name, the help text and the label names that belong to it, and
    /// the registry holds none but these metrics.
    pub closed spec fn wf(self) -> bool {
        &&& counter_family_name(self.version) == "version"@
        &&& counter_family_help(self.version) == "Plugin version info"@
        &&& counter_family_labels(self.version) == version_label_names()
        &&& gauge_family_name(self.slot_status) == "slot_status"@
        &&& gauge_family_help(self.slot_status) == "Lastest received slot from Geyser"@
        &&& gauge_family_labels(self.slot_status) == seq!["status"@]
        &&& gauge_family_name(self.slot_status_plugin) == "slot_status_plugin"@
        &&& gauge_family_help(self.slot_status_plugin)
            == "Latest processed slot in the plugin to client queues"@
        &&& gauge_family_labels(self.slot_status_plugin) == seq!["status"@]
        &&& gauge_family_name(self.invalid_full_blocks) == "invalid_full_blocks_total"@
        &&& gauge_family_help(self.invalid_full_blocks)
            == "Total number of fails on constructin full blocks"@
        &&& gauge_family_labels(self.invalid_full_blocks) == seq!["reason"@]
        &&& gauge_name(self.message_queue_size) == "message_queue_size"@
        &&& gauge_help(self.message_queue_size) == "Size of geyser message queue"@
        &&& gauge_name(self.connections_total) == "connections_total"@
        &&& gauge_help(self.connections_total) == "Total number of connections to gRPC service"@
        &&& gauge_family_name(self.subscriptions_total) == "subscriptions_total"@
        &&& gauge_family_help(self.subscriptions_total)
            == "Total number of subscriptions to gRPC service"@
        &&& gauge_family_labels(self.subscriptions_total) == seq!["endpoint"@, "subscription"@]
        &&& counter_family_name(self.missed_status_message) == "missed_status_message_total"@
        &&& counter_family_help(self.missed_status_message)
            == "Number of missed messages by commitment"@
        &&& counter_family_labels(self.missed_status_message) == seq!["status"@]
        &&& registered_cells(self.registry).subset_of(self.cells())
    }

    /// The collectors behind the metrics.
    spec fn cells(self) -> Set<int> {
        set![
            counter_family_cell(self.version),
            gauge_family_cell(self.slot_status),
            gauge_family_cell(self.slot_status_plugin),
            gauge_family_cell(self.invalid_full_blocks),
            gauge_cell(self.message_queue_size),
            gauge_cell(self.connections_total),
            gauge_family_cell(self.subscriptions_total),
            counter_family_cell(self.missed_status_message),
        ]
    }

    /// Makes the metrics, all of them empty and none of them registered.
    pub fn new() -> (r: Metrics)
        ensures
            r.wf(),
            r@ == MetricsState::initial(),
    {
        let version_labels = ["buildts", "git", "package", "proto", "rustc", "solana", "version"];
        let status_label = ["status"];
        let reason_label = ["reason"];
        let subscription_labels = ["endpoint", "subscription"];
        proof {
            lemma_metric_names();
            lemma_help_texts();
            lemma_label_names();
            lemma_version_labels();
            assert(texts(version_labels@) =~= version_label_names());
            assert(texts(status_label@) =~= seq!["status"@]);
            assert(texts(reason_label@) =~= seq!["reason"@]);
            assert(texts(subscription_labels@) =~= seq!["endpoint"@, "subscription"@]);
        }
        Metrics {
            registry: new_registry(),
            announced: false,
            version: CounterFamily::new("version", "Plugin version info", &version_labels),
            slot_status: GaugeFamily::new(
                "slot_status",
                "Lastest received slot from Geyser",
                &status_label,
            ),
            slot_status_plugin: GaugeFamily::new(
                "slot_status_plugin",
                "Latest processed slot in the plugin to client queues",
                &status_label,
            ),
            invalid_full_blocks: GaugeFamily::new(
                "invalid_full_blocks_total",
                "Total number of fails on constructin full blocks",
                &reason_label,
            ),
            message_queue_size: Gauge::new("message_queue_size", "Size of geyser message queue"),
            connections_total: Gauge::new(
                "connections_total",
                "Total number of connections to gRPC service",
            ),
            subscriptions_total: GaugeFamily::new(
                "subscriptions_total",
                "Total number of subscriptions to gRPC service",
                &subscription_labels,
            ),
            missed_status_message: CounterFamily::new(
                "missed_status_message_total",
                "Number of missed messages by commitment",
                &status_label,
            ),
        }
    }
}

/// The status of a slot, as the validator reports it.
#[derive(Debug, Clone, Copy, PartialEq, Eq, Structural)]
pub enum SlotStatus {
    /// The highest slot of the heaviest fork that the node has processed.
    Processed,
    /// The highest slot that has reached the maximum vote lockout.
    Rooted,
    /// The highest slot that a supermajority of the cluster has voted on.
    Confirmed,
    /// The first shred of the slot has come.
    FirstShredReceived,
    /// All shreds of the slot have come.
    Completed,
    /// A bank fork was created with the slot.
    CreatedBank,
    /// The slot is dead.
    Dead,
}

impl SlotStatus {
    /// The name of the status.
    pub open spec fn name(self) -> Seq<char> {
        match self {
            SlotStatus::Processed => "processed"@,
            SlotStatus::Rooted => "rooted"@,
            SlotStatus::Confirmed => "confirmed"@,
            SlotStatus::FirstShredReceived => "first_shred_received"@,
            SlotStatus::Completed => "completed"@,
            SlotStatus::CreatedBank => "created_bank"@,
            SlotStatus::Dead => "dead"@,
        }
    }

    /// The name of the status.
    pub fn as_str(&self) -> (r: &'static str)
        ensures
            r@ == self.name(),
    {
        match self {
            SlotStatus::Processed => "processed",
            SlotStatus::Rooted => "rooted",
            SlotStatus::Confirmed => "confirmed",
            SlotStatus::FirstShredReceived => "first_shred_received",
            SlotStatus::Completed => "completed",
            SlotStatus::CreatedBank => "created_bank",
            SlotStatus::Dead => "dead",
        }
    }
}

/// The key of a single label value.
pub open spec fn key1(label: Seq<char>) -> u64 {
    label_key(seq![label])
}

/// The key of two label values.
pub open spec fn key2(first: Seq<char>, second: Seq<char>) -> u64 {
    label_key(seq![first, second])
}

/// Updates the `slot_status` metric.
pub fn update_slot_status(metrics: &mut Metrics, status: &SlotStatus, slot: u64)
    requires
        old(metrics).wf(),
    ensures
        final(metrics).wf(),
        final(metrics)@ == (MetricsState {
            slot_status: gauge_set(
                old(metrics)@.slot_status,
                seq![status.name()],
                slot as i64,
            ),
            ..old(metrics)@
        }),
{
    let labels = [status.as_str()];
    proof {
        assert(texts(labels@) =~= seq![status.name()]);
    }
    metrics.slot_status.set(&labels, slot as i64);
}

/// Updates the `slot_status_plugin` metric. The status is given by its name.
pub fn update_slot_plugin_status(metrics: &mut Metrics, status: &str, slot: u64)
    requires
        old(metrics).wf(),
    ensures
        final(metrics).wf(),
        final(metrics)@ == (MetricsState {
            slot_status_plugin: gauge_set(
                old(metrics)@.slot_status_plugin,
                seq![status@],
                slot as i64,
            ),
            ..old(metrics)@
        }),
{
    let labels = [status];
    proof {
        assert(texts(labels@) =~= seq![status@]);
    }
    metrics.slot_status_plugin.set(&labels, slot as i64);
}

/// Increments the `invalid_full_blocks_total` metric, for the reason and for all reasons.
pub fn update_invalid_blocks(metrics: &mut Metrics, reason: &str)
    requires
        old(metrics).wf(),
    ensures
        final(metrics).wf(),
        final(metrics)@ == (MetricsState {
            invalid_full_blocks: gauge_added(
                gauge_added(old(metrics)@.invalid_full_blocks, seq![reason@], 1),
                seq!["all"@],
                1,
            ),
            ..old(metrics)@
        }),
{
    let labels = [reason];
    let all = ["all"];
    proof {
        assert(texts(labels@) =~= seq![reason@]);
        assert(texts(all@) =~= seq!["all"@]);
    }
    metrics.invalid_full_blocks.inc(&labels);
    metrics.invalid_full_blocks.inc(&all);
}

/// Increments the `message_queue_size` metric.
pub fn message_queue_size_inc(metrics: &mut Metrics)
    requires
        old(metrics).wf(),
    ensures
        final(metrics).wf(),
        final(metrics)@ == (MetricsState {
            message_queue_size: old(metrics)@.message_queue_size.wrapping_add(1),
            ..old(metrics)@
        }),
{
    metrics.message_queue_size.inc();
}

/// Decrements the `message_queue_size` metric.
pub fn message_queue_size_dec(metrics: &mut Metrics)
    requires
        old(metrics).wf(),
    ensures
        final(metrics).wf(),
        final(metrics)@ == (MetricsState {
            message_queue_size: old(metrics)@.message_queue_size.wrapping_sub(1),
            ..old(metrics)@
        }),
{
    metrics.message_queue_size.dec();
}

/// Increments the `connections_total` metric.
pub fn connections_total_inc(metrics: &mut Metrics)
    requires
        old(metrics).wf(),
    ensures
        final(metrics).wf(),
        final(metrics)@ == (MetricsState {
            connections_total: old(metrics)@.connections_total.wrapping_add(1),
            ..old(metrics)@
        }),
{
    metrics.connections_total.inc();
}

/// Decrements the `connections_total` metric.
pub fn connections_total_dec(metrics: &mut Metrics)
    requires
        old(metrics).wf(),
    ensures
        final(metrics).wf(),
        final(metrics)@ == (MetricsState {
            connections_total: old(metrics)@.connections_total.wrapping_sub(1),
            ..old(metrics)@
        }),
{
    metrics.connections_total.dec();
}

/// Increments the `missed_status_message_total` metric. The status is given by its name.
pub fn missed_status_message_inc(metrics: &mut Metrics, status: &str)
    requires
        old(metrics).wf(),
    ensures
        final(metrics).wf(),
        final(metrics)@ == (MetricsState {
            missed_status_message: counted_up(
                old(metrics)@.missed_status_message,
                seq![status@],
            ),
            ..old(metrics)@
        }),
{
    let labels = [status];
    proof {
        assert(texts(labels@) =~= seq![status@]);
    }
    metrics.missed_status_message.inc(&labels);
}

/// What a filter counts: the name of a kind of subscription and how often it holds it.
pub type FilterMetrics = Vec<(String, usize)>;

/// A count, taken upwards or downwards.
pub open spec fn signed(count: usize, up: bool) -> i64 {
    if up {
        count as i64
    } else {
        0i64.wrapping_sub(count as i64)
    }
}

/// The subscriptions after the counts of a filter were added or taken away one by one.
pub open spec fn counts_applied(
    values: Map<u64, (Seq<Seq<char>>, i64)>,
    endpoint: Seq<char>,
    counts: Seq<(String, usize)>,
    up: bool,
) -> Map<u64, (Seq<Seq<char>>, i64)>
    decreases counts.len(),
{
    if counts.len() == 0 {
        values
    } else {
        gauge_added(
            counts_applied(values, endpoint, counts.drop_last(), up),
            seq![endpoint, counts.last().0@],
            signed(counts.last().1, up),
        )
    }
}

/// The subscriptions after a filter was added or taken away: one for the filter itself, and
/// its counts.
pub open spec fn filter_applied(
    values: Map<u64, (Seq<Seq<char>>, i64)>,
    endpoint: Seq<char>,
    filter: Option<&FilterMetrics>,
    up: bool,
) -> Map<u64, (Seq<Seq<char>>, i64)> {
    match filter {
        None => values,
        Some(counts) => counts_applied(
            gauge_added(values, seq![endpoint, "grpc_total"@], signed(1, up)),
            endpoint,
            counts@,
            up,
        ),
    }
}

/// Adds the counts of a filter to the `subscriptions_total` metric, or takes them away.
fn apply_filter(metrics: &mut Metrics, endpoint: &str, counts: &FilterMetrics, up: bool)
    requires
        old(metrics).wf(),
    ensures
        final(metrics).wf(),
        final(metrics)@ == (MetricsState {
            subscriptions_total: filter_applied(
                old(metrics)@.subscriptions_total,
                endpoint@,
                Some(counts),
                up,
            ),
            ..old(metrics)@
        }),
{
    let total = [endpoint, "grpc_total"];
    proof {
        assert(texts(total@) =~= seq![endpoint@, "grpc_total"@]);
    }
    let one: i64 = if up {
        1
    } else {
        -1
    };
    let ghost before = metrics@;
    metrics.subscriptions_total.add(&total, one);
    let ghost started = gauge_added(
        before.subscriptions_total,
        seq![endpoint@, "grpc_total"@],
        signed(1, up),
    );
    for i in 0..counts.len()
        invariant
            metrics.wf(),
            metrics@ == (MetricsState {
                subscriptions_total: counts_applied(
                    started,
                    endpoint@,
                    counts@.take(i as int),
                    up,
                ),
                ..before
            }),
    {
        let labels = [endpoint, counts[i].0.as_str()];
        let count = counts[i].1 as i64;
        let delta: i64 = if up {
            count
        } else {
            0i64.wrapping_sub(count)
        };
        proof {
            assert(texts(labels@) =~= seq![endpoint@, counts@[i as int].0@]);
            assert(counts@.take(i + 1).drop_last() =~= counts@.take(i as int));
        }
        metrics.subscriptions_total.add(&labels, delta);
    }
    proof {
        assert(counts@.take(counts@.len() as int) =~= counts@);
    }
}

/// Updates the `subscriptions_total` metric when a filter changes: the counts of the old
/// filter are taken away, those of the new one added.
pub fn update_subscriptions(
    metrics: &mut Metrics,
    endpoint: &str,
    old_filter: Option<&FilterMetrics>,
    new_filter: Option<&FilterMetrics>,
)
    requires
        old(metrics).wf(),
    ensures
        final(metrics).wf(),
        final(metrics)@ == (MetricsState {
            subscriptions_total: subscriptions_changed(
                old(metrics)@.subscriptions_total,
                endpoint@,
                old_filter,
                new_filter,
            ),
            ..old(metrics)@
        }),
{
    if let Some(counts) = old_filter {
        apply_filter(metrics, endpoint, counts, false);
    }
    if let Some(counts) = new_filter {
        apply_filter(metrics, endpoint, counts, true);
    }
}

/// The label names of the version metric.
spec fn version_label_names() -> Seq<Seq<char>> {
    seq!["buildts"@, "git"@, "package"@, "proto"@, "rustc"@, "solana"@, "version"@]
}

/// The names of the metrics are valid.
proof fn lemma_metric_names()
    ensures
        is_name("version"@),
        is_name("slot_status"@),
        is_name("slot_status_plugin"@),
        is_name("invalid_full_blocks_total"@),
        is_name("message_queue_size"@),
        is_name("connections_total"@),
        is_name("subscriptions_total"@),
        is_name("missed_status_message_total"@),
{
    reveal_with_fuel(are_name_chars, 28);
    reveal_strlit("version");
    reveal_strlit("slot_status");
    reveal_strlit("slot_status_plugin");
    reveal_strlit("invalid_full_blocks_total");
    reveal_strlit("message_queue_size");
    reveal_strlit("connections_total");
    reveal_strlit("subscriptions_total");
    reveal_strlit("missed_status_message_total");
}

/// No help text of a metric is empty.
proof fn lemma_help_texts()
    ensures
        "Plugin version info"@.len() > 0,
        "Lastest received slot from Geyser"@.len() > 0,
        "Latest processed slot in the plugin to client queues"@.len() > 0,
        "Total number of fails on constructin full blocks"@.len() > 0,
        "Size of geyser message queue"@.len() > 0,
        "Total number of connections to gRPC service"@.len() > 0,
        "Total number of subscriptions to gRPC service"@.len() > 0,
        "Number of missed messages by commitment"@.len() > 0,
{
    reveal_strlit("Plugin version info");
    reveal_strlit("Lastest received slot from Geyser");
    reveal_strlit("Latest processed slot in the plugin to client queues");
    reveal_strlit("Total number of fails on constructin full blocks");
    reveal_strlit("Size of geyser message queue");
    reveal_strlit("Total number of connections to gRPC service");
    reveal_strlit("Total number of subscriptions to gRPC service");
    reveal_strlit("Number of missed messages by commitment");
}

/// The label names of the metrics other than the version are valid.
proof fn lemma_label_names()
    ensures
        are_label_names(seq!["status"@]),
        are_label_names(seq!["reason"@]),
        are_label_names(seq!["endpoint"@, "subscription"@]),
{
    reveal_with_fuel(are_name_chars, 13);
    reveal_strlit("status");
    reveal_strlit("reason");
    reveal_strlit("endpoint");
    reveal_strlit("subscription");
    assert(is_name("endpoint"@) && is_name("subscription"@));
    assert("endpoint"@.len() != "subscription"@.len());
}

/// The label names of the version metric are valid and different.
proof fn lemma_version_labels()
    ensures
        are_label_names(version_label_names()),
{
    reveal_with_fuel(are_name_chars, 8);
    reveal_strlit("buildts");
    reveal_strlit("git");
    reveal_strlit("package");
    reveal_strlit("proto");
    reveal_strlit("rustc");
    reveal_strlit("solana");
    reveal_strlit("version");
    let names = version_label_names();
    assert(is_name("buildts"@) && is_name("git"@) && is_name("package"@) && is_name("proto"@)
        && is_name("rustc"@) && is_name("solana"@) && is_name("version"@));
    assert(names[0][0] == 'b' && names[1][0] == 'g' && names[2][0] == 'p' && names[3][0] == 'p'
        && names[4][0] == 'r' && names[5][0] == 's' && names[6][0] == 'v');
    assert(names[2].len() != names[3].len());
}

/// A metric that the registry did not take.
#[derive(Debug)]
pub struct CollectorRefused {
    /// The name of the metric.
    pub name: &'static str,
    /// Why the registry did not take it.
    pub error: prometheus::Error,
}

/// The names of all metrics, in the order in which they are registered.
pub open spec fn metric_names() -> Seq<Seq<char>> {
    seq![
        "version"@,
        "slot_status"@,
        "slot_status_plugin"@,
        "invalid_full_blocks_total"@,
        "message_queue_size"@,
        "connections_total"@,
        "subscriptions_total"@,
        "missed_status_message_total"@,
    ]
}

/// The descriptor numbers of all metrics.
pub open spec fn metric_ids() -> Seq<u64> {
    metric_names().map_values(|name: Seq<char>| descriptor_id(name))
}

/// Whether a registry takes all metrics: no descriptor number occurs twice among them, and it
/// has seen none of them.
pub open spec fn can_register(occupied: Set<u64>) -> bool {
    &&& metric_ids().no_duplicates()
    &&& forall|i: int|
        0 <= i < metric_ids().len() ==> !occupied.contains(#[trigger] metric_ids()[i])
}

/// A registry that has seen nothing takes all metrics.
pub proof fn law_fresh_registry_takes_all()
    ensures
        can_register(Set::<u64>::empty()),
{
    crate::metric_ids::lemma_ids_differ();
}

/// The elements of a sequence up to one more.
proof fn lemma_one_more<T>(s: Seq<T>, n: int)
    requires
        0 <= n < s.len(),
    ensures
        s.take(n + 1).to_set() == s.take(n).to_set().insert(s[n]),
{
    assert(s.take(n + 1) =~= s.take(n).push(s[n]));
    assert forall|x: T| s.take(n).to_set().insert(s[n]).contains(x) implies s.take(
        n + 1,
    ).to_set().contains(x) by {
        if s.take(n).to_set().contains(x) {
            let i = choose|i: int| 0 <= i < n && s.take(n)[i] == x;
            assert(s.take(n + 1)[i] == x);
        } else {
            assert(s.take(n + 1)[n] == x);
        }
    }
    assert(s.take(n + 1).to_set() =~= s.take(n).to_set().insert(s[n]));
}

/// The label values under which a version is announced.
pub open spec fn version_labels(version: Version) -> Seq<Seq<char>> {
    seq![
        version.buildts@,
        version.git@,
        version.package@,
        version.proto@,
        version.rustc@,
        version.solana@,
        version.version@,
    ]
}

/// What an attempt to register a metric comes to.
pub fn accepted(name: &'static str, result: Result<(), prometheus::Error>) -> (r: Result<
    (),
    CollectorRefused,
>)
    ensures
        r is Ok <==> result is Ok,
        r matches Err(refused) ==> refused.name == name && result == Err::<(), prometheus::Error>(
            refused.error,
        ),
{
    match result {
        Ok(()) => Ok(()),
        Err(error) => Err(CollectorRefused { name, error }),
    }
}

impl Metrics {
    /// Registers all metrics, up to the first that the registry refuses.
    fn register_all(&mut self) -> (r: Result<(), CollectorRefused>)
        requires
            old(self).wf(),
        ensures
            final(self).wf(),
            r is Ok ==> final(self)@ == old(self)@.with_registered(8, 8),
            r matches Err(refused) ==> final(self)@.is_refused(old(self)@, refused),
            can_register(old(self)@.occupied) ==> r is Ok,
    {
        let ghost before = self@;
        proof {
            before.lemma_nothing_registered();
            before.lemma_registration_step(0);
        }
        accepted("version", self.version.register(&mut self.registry))?;
        proof {
            before.lemma_registration_step(1);
        }
        accepted("slot_status", self.slot_status.register(&mut self.registry))?;
        proof {
            before.lemma_registration_step(2);
        }
        accepted("slot_status_plugin", self.slot_status_plugin.register(&mut self.registry))?;
        proof {
            before.lemma_registration_step(3);
        }
        accepted(
            "invalid_full_blocks_total",
            self.invalid_full_blocks.register(&mut self.registry),
        )?;
        proof {
            before.lemma_registration_step(4);
        }
        accepted("message_queue_size", self.message_queue_size.register(&mut self.registry))?;
        proof {
            before.lemma_registration_step(5);
        }
        accepted("connections_total", self.connections_total.register(&mut self.registry))?;
        proof {
            before.lemma_registration_step(6);
        }
        accepted("subscriptions_total", self.subscriptions_total.register(&mut self.registry))?;
        proof {
            before.lemma_registration_step(7);
        }
        accepted(
            "missed_status_message_total",
            self.missed_status_message.register(&mut self.registry),
        )?;
        Ok(())
    }

    /// Registers all metrics and announces the version, unless that has been done before.
    pub fn register(&mut self, version: &Version) -> (r: Result<(), CollectorRefused>)
        requires
            old(self).wf(),
        ensures
            final(self).wf(),
            r is Ok ==> final(self)@ == old(self)@.after_register(*version),
            r matches Err(refused) ==> final(self)@.is_refused(old(self)@, refused),
            old(self)@.announced || can_register(old(self)@.occupied) ==> r is Ok,
    {
        if self.announced {
            return Ok(());
        }
        self.register_all()?;
        let labels = [
            version.buildts,
            version.git,
            version.package,
            version.proto,
            version.rustc,
            version.solana,
            version.version,
        ];
        proof {
            assert(texts(labels@) =~= version_labels(*version));
        }
        self.version.inc(&labels);
        self.announced = true;
        Ok(())
    }

    /// Reads the registered metrics with `prometheus::Registry::gather` and writes what they
    /// show in the text format, with `prometheus::TextEncoder::encode_to_string`. Families and
    /// the metrics in them come in a fixed order, each with its name, its help text, its labels
    /// and its number. Names, help texts and label names are those of `wf`, and the registry holds
    /// none but these metrics, so the text depends on what they show and which of them are
    /// registered, and is empty where none is. A family without metrics is left out and none
    /// lacks a name, so the encoder does not fail.
    #[verifier::external_body]
    pub(crate) fn encode_text(&self) -> (r: Result<String, prometheus::Error>)
        requires
            self.wf(),
        ensures
            r is Ok,
            r matches Ok(text) ==> text@ == exposition(self@),
            self@.registered == Multiset::<Seq<char>>::empty() ==> (r matches Ok(text) ==> text@
                == Seq::<char>::empty()),
    {
        prometheus::TextEncoder::new().encode_to_string(&self.registry.gather())
    }
}

impl MetricsState {
    /// The state after the first `taken` metrics were taken by the registry, and the first `seen`
    /// shown to it.
    pub open spec fn with_registered(self, taken: int, seen: int) -> MetricsState {
        MetricsState {
            registered: self.registered.add(metric_names().take(taken).to_multiset()),
            occupied: self.occupied.union(metric_ids().take(seen).to_set()),
            ..self
        }
    }

    /// The state after all metrics were registered and the version was announced.
    pub open spec fn with_version(self, version: Version) -> MetricsState {
        MetricsState {
            version: counted_up(self.version, version_labels(version)),
            announced: true,
            ..self.with_registered(8, 8)
        }
    }

    /// The state after an attempt to register that was not refused: only the first makes a
    /// difference.
    pub open spec fn after_register(self, version: Version) -> MetricsState {
        if self.announced {
            self
        } else {
            self.with_version(version)
        }
    }

    /// The state after a change.
    pub open spec fn after(self, change: Change) -> MetricsState {
        match change {
            Change::Register(version) => self.after_register(version),
            Change::Update(shown) => MetricsState {
                version: self.version,
                registered: self.registered,
                occupied: self.occupied,
                announced: self.announced,
                ..shown
            },
        }
    }

    /// The state after several changes, one after the other.
    pub open spec fn after_all(self, changes: Seq<Change>) -> MetricsState
        decreases changes.len(),
    {
        if changes.len() == 0 {
            self
        } else {
            self.after_all(changes.drop_last()).after(changes.last())
        }
    }

    /// Whether the same metrics are registered and the same versions announced as in `other`.
    pub open spec fn is_registered_like(self, other: MetricsState) -> bool {
        &&& self.version == other.version
        &&& self.registered == other.registered
        &&& self.occupied == other.occupied
        &&& self.announced == other.announced
    }

    /// Whether this is the state after the registry has refused a metric, having taken those
    /// before it.
    pub open spec fn is_refused(self, before: MetricsState, refused: CollectorRefused) -> bool {
        exists|n: int|
            {
                &&& 0 <= n < metric_names().len()
                &&& #[trigger] metric_names()[n] == refused.name@
                &&& self == before.with_registered(n, n + 1)
            }
    }

    /// Before any metric is registered, nothing has changed.
    proof fn lemma_nothing_registered(self)
        ensures
            self.with_registered(0, 0) == self,
    {
        assert(metric_names().take(0) =~= Seq::<Seq<char>>::empty());
        Seq::<Seq<char>>::empty().to_multiset_ensures();
        assert(self.registered.add(metric_names().take(0).to_multiset()) =~= self.registered);
        assert(self.occupied.union(metric_ids().take(0).to_set()) =~= self.occupied);
    }

    /// One more metric is shown to the registry, and one more taken.
    proof fn lemma_registration_step(self, n: int)
        requires
            0 <= n < 8,
        ensures
            self.with_registered(n, n + 1) == (MetricsState {
                occupied: self.with_registered(n, n).occupied.insert(metric_ids()[n]),
                ..self.with_registered(n, n)
            }),
            self.with_registered(n + 1, n + 1) == (MetricsState {
                registered: self.with_registered(n, n).registered.insert(metric_names()[n]),
                ..self.with_registered(n, n + 1)
            }),
            metric_ids()[n] == descriptor_id(metric_names()[n]),
            can_register(self.occupied) ==> !self.with_registered(n, n).occupied.contains(
                metric_ids()[n],
            ),
    {
        lemma_one_more(metric_ids(), n);
        let names = metric_names().take(n).to_multiset();
        metric_names().take(n).to_multiset_ensures();
        assert(metric_names().take(n + 1) =~= metric_names().take(n).push(metric_names()[n]));
        let ids = metric_ids().take(n).to_set();
        let name = metric_names()[n];
        let id = metric_ids()[n];
        assert(self.registered.add(names.insert(name)) =~= self.registered.add(names).insert(name));
        assert(self.occupied.union(ids.insert(id)) =~= self.occupied.union(ids).insert(id));
        if can_register(self.occupied) && ids.contains(id) {
            let i = choose|i: int| 0 <= i < n && #[trigger] metric_ids().take(n)[i] == id;
            assert(metric_ids()[i] == metric_ids()[n]);
        }
    }

    /// The state of metrics that show nothing yet.
    pub open spec fn initial() -> MetricsState {
        MetricsState {
            version: Map::empty(),
            slot_status: Map::empty(),
            slot_status_plugin: Map::empty(),
            invalid_full_blocks: Map::empty(),
            message_queue_size: 0,
            connections_total: 0,
            subscriptions_total: Map::empty(),
            missed_status_message: Map::empty(),
            registered: Multiset::empty(),
            occupied: Set::empty(),
            announced: false,
        }
    }
}

/// What happens to the metrics.
pub ghost enum Change {
    /// They are registered, and the version is announced.
    Register(Version),
    /// What they show changes to this, but for the version.
    Update(MetricsState),
}

/// Whether several changes hold an attempt to register, and the first of them is with `version`.
pub open spec fn first_registered(changes: Seq<Change>, version: Version) -> bool {
    exists|first: int|
        {
            &&& 0 <= first < changes.len()
            &&& #[trigger] changes[first] == Change::Register(version)
            &&& forall|i: int| 0 <= i < first ==> #[trigger] changes[i] is Update
        }
}

/// However often the metrics are registered, and whatever is shown in between: each of them is
/// registered once, and nothing else is, and the version that was announced first is counted
/// once, and no other.
pub proof fn law_registered_once(changes: Seq<Change>, version: Version)
    requires
        first_registered(changes, version),
    ensures
        ({
            let later = MetricsState::initial().after_all(changes);
            let key = label_key(version_labels(version));
            &&& later.announced
            &&& later.registered == metric_names().to_multiset()
            &&& forall|name: Seq<char>|
                metric_names().contains(name) ==> #[trigger] later.registered.count(name) == 1
            &&& later.registered.len() == 8
            &&& later.version.dom() == set![key]
            &&& later.version[key] == (version_labels(version), 1u64)
        }),
{
    lemma_registration(changes, version);
    lemma_names_differ();
    metric_names().to_multiset_ensures();
    metric_names().lemma_multiset_has_no_duplicates();
    let key = label_key(version_labels(version));
    let announced = MetricsState::initial().with_version(version);
    assert(metric_names().take(8) =~= metric_names());
    assert(announced.registered =~= metric_names().to_multiset());
    assert(announced.version.dom() =~= set![key]);
    assert forall|name: Seq<char>| metric_names().contains(name) implies (
    #[trigger] announced.registered.count(name)) == 1 by {
        assert(metric_names().to_multiset().contains(name));
    }
}

/// However often the metrics are registered, and whatever is shown in between, the registry does
/// not refuse any of them.
pub proof fn law_registration_succeeds(changes: Seq<Change>)
    ensures
        ({
            let later = MetricsState::initial().after_all(changes);
            later.announced || can_register(later.occupied)
        }),
    decreases changes.len(),
{
    law_fresh_registry_takes_all();
    if forall|i: int| 0 <= i < changes.len() ==> #[trigger] changes[i] is Update {
        lemma_not_registered(changes);
    } else {
        let i = choose|i: int| 0 <= i < changes.len() && !(#[trigger] changes[i] is Update);
        lemma_announced(changes, i);
    }
}

/// Once the version is announced, further attempts to register change nothing.
pub proof fn law_further_attempts_change_nothing(state: MetricsState, changes: Seq<Change>)
    requires
        state.announced,
        forall|i: int| 0 <= i < changes.len() ==> #[trigger] changes[i] is Register,
    ensures
        state.after_all(changes) == state,
    decreases changes.len(),
{
    if changes.len() > 0 {
        let front = changes.drop_last();
        assert forall|i: int| 0 <= i < front.len() implies #[trigger] front[i] is Register by {
            assert(front[i] == changes[i]);
        }
        law_further_attempts_change_nothing(state, front);
        assert(changes[changes.len() - 1] is Register);
    }
}

/// After an attempt to register, the version is announced.
proof fn lemma_announced(changes: Seq<Change>, i: int)
    requires
        0 <= i < changes.len(),
        changes[i] is Register,
    ensures
        MetricsState::initial().after_all(changes).announced,
    decreases changes.len(),
{
    if i < changes.len() - 1 {
        assert(changes.drop_last()[i] == changes[i]);
        lemma_announced(changes.drop_last(), i);
    }
}

/// Without an attempt to register, nothing is registered.
proof fn lemma_not_registered(changes: Seq<Change>)
    requires
        forall|i: int| 0 <= i < changes.len() ==> #[trigger] changes[i] is Update,
    ensures
        MetricsState::initial().after_all(changes).is_registered_like(MetricsState::initial()),
    decreases changes.len(),
{
    if changes.len() > 0 {
        let front = changes.drop_last();
        assert forall|i: int| 0 <= i < front.len() implies #[trigger] front[i] is Update by {
            assert(front[i] == changes[i]);
        }
        lemma_not_registered(front);
        assert(changes[changes.len() - 1] is Update);
    }
}

/// The first attempt to register decides what is registered and announced.
proof fn lemma_registration(changes: Seq<Change>, version: Version)
    requires
        first_registered(changes, version),
    ensures
        MetricsState::initial().after_all(changes).is_registered_like(
            MetricsState::initial().with_version(version),
        ),
    decreases changes.len(),
{
    let first = choose|first: int|
        {
            &&& 0 <= first < changes.len()
            &&& #[trigger] changes[first] == Change::Register(version)
            &&& forall|i: int| 0 <= i < first ==> #[trigger] changes[i] is Update
        };
    let front = changes.drop_last();
    if first == changes.len() - 1 {
        assert forall|i: int| 0 <= i < front.len() implies #[trigger] front[i] is Update by {
            assert(front[i] == changes[i]);
        }
        lemma_not_registered(front);
    } else {
        assert(front[first] == Change::Register(version));
        assert forall|i: int| 0 <= i < first implies #[trigger] front[i] is Update by {
            assert(front[i] == changes[i]);
        }
        lemma_registration(front, version);
    }
}

/// No two metrics have the same name.
proof fn lemma_names_differ()
    ensures
        metric_names().no_duplicates(),
{
    crate::metric_ids::lemma_ids_differ();
    let names = metric_names();
    assert forall|i: int, j: int| 0 <= i < names.len() && 0 <= j < names.len() && i
        != j implies names[i] != names[j] by {
        assert(metric_ids()[i] != metric_ids()[j]);
    }
}

/// What the counts of a filter add to the number under a key, or take away from it.
pub open spec fn counts_delta(
    endpoint: Seq<char>,
    counts: Seq<(String, usize)>,
    up: bool,
    key: u64,
) -> i64
    decreases counts.len(),
{
    if counts.len() == 0 {
        0
    } else {
        let before = counts_delta(endpoint, counts.drop_last(), up, key);
        if key2(endpoint, counts.last().0@) == key {
            before.wrapping_add(signed(counts.last().1, up))
        } else {
            before
        }
    }
}

/// What a filter adds to the number under a key.
pub open spec fn filter_delta(
    endpoint: Seq<char>,
    filter: Option<&FilterMetrics>,
    key: u64,
) -> i64 {
    match filter {
        None => 0,
        Some(counts) => {
            let own: i64 = if key2(endpoint, "grpc_total"@) == key {
                1
            } else {
                0
            };
            own.wrapping_add(counts_delta(endpoint, counts@, true, key))
        },
    }
}

/// The counts of a filter are added up key by key.
proof fn lemma_counts_applied(
    values: Map<u64, (Seq<Seq<char>>, i64)>,
    endpoint: Seq<char>,
    counts: Seq<(String, usize)>,
    up: bool,
    key: u64,
)
    ensures
        gauge_at(counts_applied(values, endpoint, counts, up), key) == gauge_at(
            values,
            key,
        ).wrapping_add(counts_delta(endpoint, counts, up, key)),
    decreases counts.len(),
{
    if counts.len() > 0 {
        lemma_counts_applied(values, endpoint, counts.drop_last(), up, key);
    }
}

/// Downwards, the counts of a filter come to the opposite.
proof fn lemma_counts_opposite(
    endpoint: Seq<char>,
    counts: Seq<(String, usize)>,
    key: u64,
)
    ensures
        counts_delta(endpoint, counts, false, key) == 0i64.wrapping_sub(
            counts_delta(endpoint, counts, true, key),
        ),
    decreases counts.len(),
{
    if counts.len() > 0 {
        lemma_counts_opposite(endpoint, counts.drop_last(), key);
    }
}

/// A filter changes the number under each key by what it counts there, upwards or downwards.
pub proof fn law_filter_changes_by_its_counts(
    values: Map<u64, (Seq<Seq<char>>, i64)>,
    endpoint: Seq<char>,
    filter: Option<&FilterMetrics>,
    key: u64,
)
    ensures
        gauge_at(filter_applied(values, endpoint, filter, true), key) == gauge_at(
            values,
            key,
        ).wrapping_add(filter_delta(endpoint, filter, key)),
        gauge_at(filter_applied(values, endpoint, filter, false), key) == gauge_at(
            values,
            key,
        ).wrapping_sub(filter_delta(endpoint, filter, key)),
{
    if let Some(counts) = filter {
        let total = seq![endpoint, "grpc_total"@];
        let up = gauge_added(values, total, signed(1, true));
        let down = gauge_added(values, total, signed(1, false));
        lemma_counts_applied(up, endpoint, counts@, true, key);
        lemma_counts_applied(down, endpoint, counts@, false, key);
        lemma_counts_opposite(endpoint, counts@, key);
    }
}

/// The subscriptions after an endpoint went over from one filter to another.
pub open spec fn subscriptions_changed(
    values: Map<u64, (Seq<Seq<char>>, i64)>,
    endpoint: Seq<char>,
    old_filter: Option<&FilterMetrics>,
    new_filter: Option<&FilterMetrics>,
) -> Map<u64, (Seq<Seq<char>>, i64)> {
    filter_applied(filter_applied(values, endpoint, old_filter, false), endpoint, new_filter, true)
}

/// A client that subscribes and then leaves has no trace in the subscriptions.
pub proof fn law_subscription_undone(
    values: Map<u64, (Seq<Seq<char>>, i64)>,
    endpoint: Seq<char>,
    filter: Option<&FilterMetrics>,
    key: u64,
)
    ensures
        ({
            let subscribed = subscriptions_changed(values, endpoint, None, filter);
            gauge_at(subscriptions_changed(subscribed, endpoint, filter, None), key) == gauge_at(
                values,
                key,
            )
        }),
{
    let subscribed = subscriptions_changed(values, endpoint, None, filter);
    law_filter_changes_by_its_counts(values, endpoint, filter, key);
    law_filter_changes_by_its_counts(subscribed, endpoint, filter, key);
}

/// Going over to a filter by way of another one comes to the same as going over at once.
pub proof fn law_subscription_by_way_of_another(
    values: Map<u64, (Seq<Seq<char>>, i64)>,
    endpoint: Seq<char>,
    first: Option<&FilterMetrics>,
    second: Option<&FilterMetrics>,
    third: Option<&FilterMetrics>,
    key: u64,
)
    ensures
        ({
            let between = subscriptions_changed(values, endpoint, first, second);
            gauge_at(subscriptions_changed(between, endpoint, second, third), key) == gauge_at(
                subscriptions_changed(values, endpoint, first, third),
                key,
            )
        }),
{
    let gone = filter_applied(values, endpoint, first, false);
    let between = filter_applied(gone, endpoint, second, true);
    let left = filter_applied(between, endpoint, second, false);
    law_filter_changes_by_its_counts(gone, endpoint, second, key);
    law_filter_changes_by_its_counts(between, endpoint, second, key);
    law_filter_changes_by_its_counts(left, endpoint, third, key);
    law_filter_changes_by_its_counts(gone, endpoint, third, key);
}

/// A block that fails for a reason is counted once under the reason and once among all. Where
/// the two share a gauge, as for the reason `all` itself, it goes up by two. No other does.
pub proof fn law_invalid_block_counts_twice(
    values: Map<u64, (Seq<Seq<char>>, i64)>,
    reason: Seq<char>,
    key: u64,
)
    ensures
        ({
            let after = gauge_added(gauge_added(values, seq![reason], 1), seq!["all"@], 1);
            let once: i64 = if key == key1(reason) {
                1
            } else {
                0
            };
            let among_all: i64 = if key == key1("all"@) {
                1
            } else {
                0
            };
            gauge_at(after, key) == gauge_at(values, key).wrapping_add(
                (once + among_all) as i64,
            )
        }),
{
}

/// Counting a message or a connection in and out again comes to nothing.
pub proof fn law_in_and_out(size: i64)
    ensures
        size.wrapping_add(1).wrapping_sub(1) == size,
        size.wrapping_sub(1).wrapping_add(1) == size,
{
}

/// A count as a signed number is the count, or lies a whole turn of 64 bits below it.
proof fn lemma_signed_turn(count: usize)
    ensures
        (count as i64) as int == count || (count as i64) as int == count
            - 0x1_0000_0000_0000_0000,
{
    let wide = count as u64;
    assert(wide as i64 == wide || wide as i64 == wide - 0x1_0000_0000_0000_0000) by (bit_vector);
    assert(wide as i64 == count as i64);
}

/// The counts of a filter, added or taken away one by one, change the number under a key by the
/// sum of those that are kept there.
proof fn lemma_counts_sum(
    values: Map<u64, (Seq<Seq<char>>, i64)>,
    endpoint: Seq<char>,
    counts: Seq<(String, usize)>,
    up: bool,
    key: u64,
)
    ensures
        ({
            let sum = counts.fold_left(
                0int,
                |total: int, count: (String, usize)|
                    if label_key(seq![endpoint, count.0@]) == key {
                        total + count.1
                    } else {
                        total
                    },
            );
            let change = if up {
                sum
            } else {
                -sum
            };
            (gauge_at(counts_applied(values, endpoint, counts, up), key) - gauge_at(values, key)
                - change) % 0x1_0000_0000_0000_0000 == 0
        }),
    decreases counts.len(),
{
    reveal(Seq::fold_left);
    if counts.len() > 0 {
        lemma_counts_sum(values, endpoint, counts.drop_last(), up, key);
        lemma_signed_turn(counts.last().1);
    }
}

/// An endpoint that gets a filter adds one to its total, and each count of the filter to the
/// number under the endpoint and the name of the count; the numbers that are kept under the same
/// key add up. An endpoint that gives its filter up takes the same away. The sums are exact as
/// long as 64 bits hold them.
pub proof fn law_subscriptions_add_up(
    values: Map<u64, (Seq<Seq<char>>, i64)>,
    endpoint: Seq<char>,
    filter: &FilterMetrics,
    key: u64,
)
    ensures
        ({
            let counts = filter@.fold_left(
                0int,
                |total: int, count: (String, usize)|
                    if label_key(seq![endpoint, count.0@]) == key {
                        total + count.1
                    } else {
                        total
                    },
            );
            let sum = counts + if key == label_key(seq![endpoint, "grpc_total"@]) {
                1int
            } else {
                0
            };
            let before = if values.contains_key(key) {
                values[key].1
            } else {
                0
            };
            let got = subscriptions_changed(values, endpoint, None, Some(filter));
            let gone = subscriptions_changed(values, endpoint, Some(filter), None);
            let shown_got = if got.contains_key(key) {
                got[key].1
            } else {
                0
            };
            let shown_gone = if gone.contains_key(key) {
                gone[key].1
            } else {
                0
            };
            &&& (shown_got - before - sum) % 0x1_0000_0000_0000_0000 == 0
            &&& before + sum <= i64::MAX ==> shown_got == before + sum
            &&& (shown_gone - before + sum) % 0x1_0000_0000_0000_0000 == 0
            &&& before - sum >= i64::MIN ==> shown_gone == before - sum
        }),
{
    let total = seq![endpoint, "grpc_total"@];
    let up = gauge_added(values, total, signed(1, true));
    let down = gauge_added(values, total, signed(1, false));
    lemma_counts_sum(up, endpoint, filter@, true, key);
    lemma_counts_sum(down, endpoint, filter@, false, key);
    lemma_sum_not_negative(endpoint, filter@, key);
    let counts = filter@.fold_left(
        0int,
        |total: int, count: (String, usize)|
            if label_key(seq![endpoint, count.0@]) == key {
                total + count.1
            } else {
                total
            },
    );
    let own = if key == label_key(total) {
        1int
    } else {
        0
    };
    let got = subscriptions_changed(values, endpoint, None, Some(filter));
    let gone = subscriptions_changed(values, endpoint, Some(filter), None);
    assert(got == counts_applied(up, endpoint, filter@, true));
    assert(gone == counts_applied(down, endpoint, filter@, false));
    lemma_whole_turns(gauge_at(values, key), own, gauge_at(up, key), counts, gauge_at(got, key));
    lemma_whole_turns(
        gauge_at(values, key),
        -own,
        gauge_at(down, key),
        -counts,
        gauge_at(gone, key),
    );
}

/// Changes that are right but for whole turns of 64 bits add up to one that is, and that is right
/// where 64 bits hold it.
proof fn lemma_whole_turns(before: i64, first: int, between: i64, second: int, after: i64)
    requires
        (between - before - first) % 0x1_0000_0000_0000_0000 == 0,
        (after - between - second) % 0x1_0000_0000_0000_0000 == 0,
    ensures
        (after - before - (first + second)) % 0x1_0000_0000_0000_0000 == 0,
        i64::MIN <= before + first + second <= i64::MAX ==> after == before + first + second,
{
}

/// Counts add up to no less than nothing.
proof fn lemma_sum_not_negative(endpoint: Seq<char>, counts: Seq<(String, usize)>, key: u64)
    ensures
        counts.fold_left(
            0int,
            |total: int, count: (String, usize)|
                if label_key(seq![endpoint, count.0@]) == key {
                    total + count.1
                } else {
                    total
                },
        ) >= 0,
    decreases counts.len(),
{
    reveal(Seq::fold_left);
    if counts.len() > 0 {
        lemma_sum_not_negative(endpoint, counts.drop_last(), key);
    }
}

/// With one more count, a filter adds that count to the number under its name, and changes
/// nothing else. A filter without counts adds one to the total of the endpoint, and nothing else.
pub proof fn law_one_more_count(
    values: Map<u64, (Seq<Seq<char>>, i64)>,
    endpoint: Seq<char>,
    fewer: &FilterMetrics,
    more: &FilterMetrics,
    name: String,
    count: usize,
    key: u64,
)
    requires
        more@ == fewer@.push((name, count)),
    ensures
        ({
            let one = subscriptions_changed(values, endpoint, None, Some(fewer));
            let other = subscriptions_changed(values, endpoint, None, Some(more));
            let under = label_key(seq![endpoint, name@]);
            let step = if key == under {
                count as int
            } else {
                0
            };
            let total = if key == label_key(seq![endpoint, "grpc_total"@]) {
                1int
            } else {
                0
            };
            &&& (gauge_at(other, key) - gauge_at(one, key) - step) % 0x1_0000_0000_0000_0000 == 0
            &&& gauge_at(one, key) + step <= i64::MAX ==> gauge_at(other, key) == gauge_at(
                one,
                key,
            ) + step
            &&& other.dom() == one.dom().insert(under)
            &&& fewer@.len() == 0 && gauge_at(values, key) + total <= i64::MAX ==> gauge_at(
                one,
                key,
            ) == gauge_at(values, key) + total
        }),
{
    lemma_signed_turn(count);
    assert(more@.drop_last() =~= fewer@);
    let one = subscriptions_changed(values, endpoint, None, Some(fewer));
    let other = subscriptions_changed(values, endpoint, None, Some(more));
    assert(other.dom() =~= one.dom().insert(label_key(seq![endpoint, name@])));
}

/// An endpoint that goes over from one filter to another first gives the one up, and then gets
/// the other.
pub proof fn law_subscription_goes_over(
    values: Map<u64, (Seq<Seq<char>>, i64)>,
    endpoint: Seq<char>,
    old_filter: &FilterMetrics,
    new_filter: &FilterMetrics,
)
    ensures
        subscriptions_changed(values, endpoint, Some(old_filter), Some(new_filter))
            == subscriptions_changed(
            subscriptions_changed(values, endpoint, Some(old_filter), None),
            endpoint,
            None,
            Some(new_filter),
        ),
        subscriptions_changed(values, endpoint, None, None) == values,
{
}

/// The version is announced under its seven parts, in the order of the label names.
pub proof fn law_version_labels(version: Version)
    ensures
        ({
            let labels = version_labels(version);
            &&& labels.len() == 7
            &&& labels[0] == version.buildts@ && labels[1] == version.git@
            &&& labels[2] == version.package@ && labels[3] == version.proto@
            &&& labels[4] == version.rustc@ && labels[5] == version.solana@
            &&& labels[6] == version.version@
        }),
{
}

/// The first registration announces the version, adds each metric to what can be scraped, and
/// leaves what the other metrics show alone. A later one changes nothing.
pub proof fn law_registration_effect(state: MetricsState, version: Version)
    ensures
        ({
            let after = state.after_register(version);
            let key = label_key(version_labels(version));
            &&& state.announced ==> after == state
            &&& after.announced
            &&& after.slot_status == state.slot_status
            &&& after.slot_status_plugin == state.slot_status_plugin
            &&& after.invalid_full_blocks == state.invalid_full_blocks
            &&& after.message_queue_size == state.message_queue_size
            &&& after.connections_total == state.connections_total
            &&& after.subscriptions_total == state.subscriptions_total
            &&& after.missed_status_message == state.missed_status_message
            &&& !state.announced ==> after.registered == state.registered.add(
                metric_names().to_multiset(),
            )
            &&& !state.announced && !state.version.contains_key(key) ==> after.version
                == state.version.insert(key, (version_labels(version), 1u64))
        }),
{
    assert(metric_names().take(8) =~= metric_names());
}

/// A number that is new in the subscriptions stands under the endpoint and the name that it was
/// counted for. One that was there before keeps its labels.
pub proof fn law_subscription_labels(
    values: Map<u64, (Seq<Seq<char>>, i64)>,
    endpoint: Seq<char>,
    fewer: &FilterMetrics,
    more: &FilterMetrics,
    name: String,
    count: usize,
    key: u64,
)
    requires
        more@ == fewer@.push((name, count)),
    ensures
        ({
            let one = subscriptions_changed(values, endpoint, None, Some(fewer));
            let other = subscriptions_changed(values, endpoint, None, Some(more));
            let under = label_key(seq![endpoint, name@]);
            let total = label_key(seq![endpoint, "grpc_total"@]);
            &&& !one.contains_key(under) ==> other[under].0 == seq![endpoint, name@]
            &&& one.contains_key(key) ==> other.contains_key(key) && other[key].0 == one[key].0
            &&& fewer@.len() == 0 && !values.contains_key(total) ==> one[total].0 == seq![
                endpoint,
                "grpc_total"@,
            ]
            &&& fewer@.len() == 0 && values.contains_key(key) ==> one.contains_key(key)
                && one[key].0 == values[key].0
        }),
        ({
            let one = subscriptions_changed(values, endpoint, Some(fewer), None);
            let other = subscriptions_changed(values, endpoint, Some(more), None);
            let under = label_key(seq![endpoint, name@]);
            let total = label_key(seq![endpoint, "grpc_total"@]);
            &&& !one.contains_key(under) ==> other[under].0 == seq![endpoint, name@]
            &&& one.contains_key(key) ==> other.contains_key(key) && other[key].0 == one[key].0
            &&& fewer@.len() == 0 && !values.contains_key(total) ==> one[total].0 == seq![
                endpoint,
                "grpc_total"@,
            ]
            &&& fewer@.len() == 0 && values.contains_key(key) ==> one.contains_key(key)
                && one[key].0 == values[key].0
        }),
{
    assert(more@.drop_last() =~= fewer@);
}

/// A block that fails is counted under its reason and among all; a gauge that is new for it has
/// the reason, or the word for all, as its label.
pub proof fn law_invalid_block_labels(values: Map<u64, (Seq<Seq<char>>, i64)>, reason: Seq<char>)
    ensures
        ({
            let after = gauge_added(gauge_added(values, seq![reason], 1), seq!["all"@], 1);
            let under = label_key(seq![reason]);
            let all = label_key(seq!["all"@]);
            &&& !values.contains_key(under) ==> after[under].0 == seq![reason]
            &&& !values.contains_key(all) && all != under ==> after[all].0 == seq!["all"@]
        }),
{
}

} // verus!
