//! The Prometheus collectors that the plugin fills.
//!
//! A collector is reached through one handle at a time: the handles lie in private fields, the
//! only clone of a handle goes to the registry, and the registry only reads. So a `&mut` handle
//! stands for the values that it leads to.
use vstd::prelude::*;
use vstd::multiset::Multiset;
use crate::hash::{separated_hash, texts_hash};

verus! {

/// The registry of `prometheus`, from which the registered collectors are read.
#[verifier::external_type_specification]
#[verifier::external_body]
pub struct ExRegistry(prometheus::Registry);

/// The error type of `prometheus`.
#[verifier::external_type_specification]
#[verifier::external_body]
pub struct ExPrometheusError(prometheus::Error);

/// A `prometheus::IntGauge`: a single integer that can go up and down.
#[verifier::external_body]
pub struct Gauge {
    cell: prometheus::IntGauge,
}

/// A `prometheus::IntGaugeVec`: integer gauges, one for each combination of label values.
#[verifier::external_body]
pub struct GaugeFamily {
    vec: prometheus::IntGaugeVec,
}

/// A `prometheus::IntCounterVec`: integer counters, one for each combination of label values.
#[verifier::external_body]
pub struct CounterFamily {
    vec: prometheus::IntCounterVec,
}

/// The number that a gauge shows.
pub uninterp spec fn gauge_value(gauge: Gauge) -> i64;

/// The metric name that a gauge was made with.
pub uninterp spec fn gauge_name(gauge: Gauge) -> Seq<char>;

/// The help text that a gauge was made with.
pub uninterp spec fn gauge_help(gauge: Gauge) -> Seq<char>;

/// The collector that a gauge is a handle of. Each collector has a number of its own.
pub uninterp spec fn gauge_cell(gauge: Gauge) -> int;

/// The gauges of a family, by the key of their label values: the label values that each was
/// made for, and the number that it shows.
pub uninterp spec fn gauge_family_values(family: GaugeFamily) -> Map<u64, (Seq<Seq<char>>, i64)>;

/// The label names that a family of gauges was made with, in their order.
pub uninterp spec fn gauge_family_labels(family: GaugeFamily) -> Seq<Seq<char>>;

/// The metric name that a family of gauges was made with.
pub uninterp spec fn gauge_family_name(family: GaugeFamily) -> Seq<char>;

/// The help text that a family of gauges was made with.
pub uninterp spec fn gauge_family_help(family: GaugeFamily) -> Seq<char>;

/// The collector that a family of gauges is a handle of. Each collector has a number of its own.
pub uninterp spec fn gauge_family_cell(family: GaugeFamily) -> int;

/// The counters of a family, by the key of their label values: the label values that each was
/// made for, and the number that it shows.
pub uninterp spec fn counter_family_values(family: CounterFamily) -> Map<
    u64,
    (Seq<Seq<char>>, u64),
>;

/// The label names that a family of counters was made with, in their order.
pub uninterp spec fn counter_family_labels(family: CounterFamily) -> Seq<Seq<char>>;

/// The metric name that a family of counters was made with.
pub uninterp spec fn counter_family_name(family: CounterFamily) -> Seq<char>;

/// The help text that a family of counters was made with.
pub uninterp spec fn counter_family_help(family: CounterFamily) -> Seq<char>;

/// The collector that a family of counters is a handle of. Each collector has a number of its own.
pub uninterp spec fn counter_family_cell(family: CounterFamily) -> int;

/// The key under which a family keeps the collector for the given label values: a hash of
/// their bytes, one value after the other. Different label values can have the same key, and
/// then share a collector.
pub open spec fn label_key(labels: Seq<Seq<char>>) -> u64 {
    texts_hash(labels)
}

/// The metric names of the collectors in a registry, one for each collector.
pub uninterp spec fn registered_names(registry: prometheus::Registry) -> Multiset<Seq<char>>;

/// The collectors in a registry.
pub uninterp spec fn registered_cells(registry: prometheus::Registry) -> Set<int>;

/// The descriptor numbers that a registry has seen: those of its collectors, and those of the
/// names that it knows the labels of.
pub uninterp spec fn occupied_ids(registry: prometheus::Registry) -> Set<u64>;

/// The descriptor number of a metric without constant labels: a hash of its name.
pub open spec fn descriptor_id(name: Seq<char>) -> u64 {
    separated_hash(name)
}

/// The texts of a list of string slices.
pub open spec fn texts(labels: Seq<&str>) -> Seq<Seq<char>> {
    labels.map_values(|label: &str| label@)
}

/// Whether `c` is an ASCII letter or an underscore.
pub open spec fn is_name_start(c: char) -> bool {
    'a' <= c <= 'z' || 'A' <= c <= 'Z' || c == '_'
}

/// Whether the characters of `s` from `i` on are letters, underscores and digits.
pub open spec fn are_name_chars(s: Seq<char>, i: int) -> bool
    decreases s.len() - i,
{
    i >= s.len() || ((is_name_start(s[i]) || '0' <= s[i] <= '9') && are_name_chars(s, i + 1))
}

/// Whether `s` can be the name of a metric or a label: letters, underscores and digits, with
/// no digit in front.
pub open spec fn is_name(s: Seq<char>) -> bool {
    s.len() > 0 && is_name_start(s[0]) && are_name_chars(s, 1)
}

/// Whether `labels` can be the label names of a family: names, all of them different.
pub open spec fn are_label_names(labels: Seq<Seq<char>>) -> bool {
    &&& forall|i: int| 0 <= i < labels.len() ==> is_name(#[trigger] labels[i])
    &&& labels.no_duplicates()
}

/// The number that the gauge under a key shows; one that is new starts at zero.
pub open spec fn gauge_at(values: Map<u64, (Seq<Seq<char>>, i64)>, key: u64) -> i64 {
    if values.contains_key(key) {
        values[key].1
    } else {
        0
    }
}

/// The number that the counter under a key shows; one that is new starts at zero.
pub open spec fn count_at(values: Map<u64, (Seq<Seq<char>>, u64)>, key: u64) -> u64 {
    if values.contains_key(key) {
        values[key].1
    } else {
        0
    }
}

/// The label values of the collector under a key; one that is new gets the given ones.
pub open spec fn labels_at<N>(
    values: Map<u64, (Seq<Seq<char>>, N)>,
    key: u64,
    labels: Seq<Seq<char>>,
) -> Seq<Seq<char>> {
    if values.contains_key(key) {
        values[key].0
    } else {
        labels
    }
}

/// A family after the collector under a key was picked for the given label values, and has come
/// to show `value`.
pub open spec fn shown_at<N>(
    values: Map<u64, (Seq<Seq<char>>, N)>,
    key: u64,
    labels: Seq<Seq<char>>,
    value: N,
) -> Map<u64, (Seq<Seq<char>>, N)> {
    values.insert(key, (labels_at(values, key, labels), value))
}

/// A family of gauges after the one for the label values was given a value.
pub open spec fn gauge_set(
    values: Map<u64, (Seq<Seq<char>>, i64)>,
    labels: Seq<Seq<char>>,
    value: i64,
) -> Map<u64, (Seq<Seq<char>>, i64)> {
    shown_at(values, label_key(labels), labels, value)
}

/// A family of gauges after `delta` was added to the one for the label values. The sum wraps
/// around at the ends of the 64-bit range.
pub open spec fn gauge_added(
    values: Map<u64, (Seq<Seq<char>>, i64)>,
    labels: Seq<Seq<char>>,
    delta: i64,
) -> Map<u64, (Seq<Seq<char>>, i64)> {
    let key = label_key(labels);
    shown_at(values, key, labels, gauge_at(values, key).wrapping_add(delta))
}

/// A family of counters after the one for the label values was counted up. The count wraps
/// around at the end of the 64-bit range.
pub open spec fn counted_up(
    values: Map<u64, (Seq<Seq<char>>, u64)>,
    labels: Seq<Seq<char>>,
) -> Map<u64, (Seq<Seq<char>>, u64)> {
    let key = label_key(labels);
    shown_at(values, key, labels, count_at(values, key).wrapping_add(1))
}

impl Gauge {
    /// Makes a gauge with `prometheus::IntGauge::new`, which accepts a valid name with a help
    /// text and starts at zero.
    #[verifier::external_body]
    pub(crate) fn new(name: &str, help: &str) -> (r: Gauge)
        requires
            is_name(name@),
            help@.len() > 0,
        ensures
            gauge_value(r) == 0,
            gauge_name(r) == name@,
            gauge_help(r) == help@,
    {
        Gauge { cell: prometheus::IntGauge::new(name, help).unwrap() }
    }

    /// Adds one with `prometheus::IntGauge::inc`, an atomic addition that wraps around.
    #[verifier::external_body]
    pub(crate) fn inc(&mut self)
        ensures
            gauge_value(*final(self)) == gauge_value(*old(self)).wrapping_add(1),
            gauge_name(*final(self)) == gauge_name(*old(self)),
            gauge_help(*final(self)) == gauge_help(*old(self)),
            gauge_cell(*final(self)) == gauge_cell(*old(self)),
    {
        self.cell.inc();
    }

    /// Takes one away with `prometheus::IntGauge::dec`, an atomic subtraction that wraps around.
    #[verifier::external_body]
    pub(crate) fn dec(&mut self)
        ensures
            gauge_value(*final(self)) == gauge_value(*old(self)).wrapping_sub(1),
            gauge_name(*final(self)) == gauge_name(*old(self)),
            gauge_help(*final(self)) == gauge_help(*old(self)),
            gauge_cell(*final(self)) == gauge_cell(*old(self)),
    {
        self.cell.dec();
    }

    /// Hands the gauge to `prometheus::Registry::register`. Where the registry takes it, it
    /// is registered once more under its name; where it refuses, nothing is. It takes a gauge
    /// whose descriptor number it has not seen. For others that is left open.
    #[verifier::external_body]
    pub(crate) fn register(&self, registry: &mut prometheus::Registry) -> (r: Result<
        (),
        prometheus::Error,
    >)
        ensures
            registered_names(*final(registry)) == if r is Ok {
                registered_names(*old(registry)).insert(gauge_name(*self))
            } else {
                registered_names(*old(registry))
            },
            registered_cells(*final(registry)) == if r is Ok {
                registered_cells(*old(registry)).insert(gauge_cell(*self))
            } else {
                registered_cells(*old(registry))
            },
            occupied_ids(*final(registry)) == occupied_ids(*old(registry)).insert(
                descriptor_id(gauge_name(*self)),
            ),
            !occupied_ids(*old(registry)).contains(descriptor_id(gauge_name(*self))) ==> r is Ok,
    {
        registry.register(Box::new(self.cell.clone()))
    }
}

impl GaugeFamily {
    /// Makes a family with `prometheus::IntGaugeVec::new`, which accepts a valid name with a
    /// help text and different valid label names. It holds no gauge yet.
    #[verifier::external_body]
    pub(crate) fn new(name: &str, help: &str, labels: &[&str]) -> (r: GaugeFamily)
        requires
            is_name(name@),
            help@.len() > 0,
            are_label_names(texts(labels@)),
        ensures
            (gauge_family_values(r) == Map::<u64, (Seq<Seq<char>>, i64)>::empty()),
            gauge_family_labels(r) == texts(labels@),
            gauge_family_name(r) == name@,
            gauge_family_help(r) == help@,
    {
        let opts = prometheus::Opts::new(name, help);
        GaugeFamily { vec: prometheus::IntGaugeVec::new(opts, labels).unwrap() }
    }

    /// Picks the gauge with the given label values by `with_label_values`, which makes one for
    /// them at zero where there is none under their key, and adds `delta` to it with
    /// `prometheus::IntGauge::add`, an atomic addition that wraps around.
    #[verifier::external_body]
    pub(crate) fn add(&mut self, labels: &[&str], delta: i64)
        requires
            labels@.len() == gauge_family_labels(*old(self)).len(),
        ensures
            gauge_family_values(*final(self)) == shown_at(
                gauge_family_values(*old(self)),
                label_key(texts(labels@)),
                texts(labels@),
                gauge_at(
                    gauge_family_values(*old(self)),
                    label_key(texts(labels@)),
                ).wrapping_add(delta),
            ),
            gauge_family_labels(*final(self)) == gauge_family_labels(*old(self)),
            gauge_family_name(*final(self)) == gauge_family_name(*old(self)),
            gauge_family_help(*final(self)) == gauge_family_help(*old(self)),
            gauge_family_cell(*final(self)) == gauge_family_cell(*old(self)),
    {
        self.vec.with_label_values(labels).add(delta);
    }

    /// Picks the gauge with the given label values by `with_label_values`, which makes one for
    /// them at zero where there is none under their key, and adds one to it with
    /// `prometheus::IntGauge::inc`, an atomic addition that wraps around.
    #[verifier::external_body]
    pub(crate) fn inc(&mut self, labels: &[&str])
        requires
            labels@.len() == gauge_family_labels(*old(self)).len(),
        ensures
            gauge_family_values(*final(self)) == shown_at(
                gauge_family_values(*old(self)),
                label_key(texts(labels@)),
                texts(labels@),
                gauge_at(
                    gauge_family_values(*old(self)),
                    label_key(texts(labels@)),
                ).wrapping_add(1),
            ),
            gauge_family_labels(*final(self)) == gauge_family_labels(*old(self)),
            gauge_family_name(*final(self)) == gauge_family_name(*old(self)),
            gauge_family_help(*final(self)) == gauge_family_help(*old(self)),
            gauge_family_cell(*final(self)) == gauge_family_cell(*old(self)),
    {
        self.vec.with_label_values(labels).inc();
    }

    /// Picks the gauge with the given label values by `with_label_values`, which makes one for
    /// them where there is none under their key, and gives it the value with
    /// `prometheus::IntGauge::set`.
    #[verifier::external_body]
    pub(crate) fn set(&mut self, labels: &[&str], value: i64)
        requires
            labels@.len() == gauge_family_labels(*old(self)).len(),
        ensures
            gauge_family_values(*final(self)) == shown_at(
                gauge_family_values(*old(self)),
                label_key(texts(labels@)),
                texts(labels@),
                value,
            ),
            gauge_family_labels(*final(self)) == gauge_family_labels(*old(self)),
            gauge_family_name(*final(self)) == gauge_family_name(*old(self)),
            gauge_family_help(*final(self)) == gauge_family_help(*old(self)),
            gauge_family_cell(*final(self)) == gauge_family_cell(*old(self)),
    {
        self.vec.with_label_values(labels).set(value);
    }

    /// Hands the family to `prometheus::Registry::register`. Where the registry takes it, it
    /// is registered once more under its name; where it refuses, nothing is. It takes a family
    /// whose descriptor number it has not seen. For others that is left open.
    #[verifier::external_body]
    pub(crate) fn register(&self, registry: &mut prometheus::Registry) -> (r: Result<
        (),
        prometheus::Error,
    >)
        ensures
            registered_names(*final(registry)) == if r is Ok {
                registered_names(*old(registry)).insert(gauge_family_name(*self))
            } else {
                registered_names(*old(registry))
            },
            registered_cells(*final(registry)) == if r is Ok {
                registered_cells(*old(registry)).insert(gauge_family_cell(*self))
            } else {
                registered_cells(*old(registry))
            },
            occupied_ids(*final(registry)) == occupied_ids(*old(registry)).insert(
                descriptor_id(gauge_family_name(*self)),
            ),
            !occupied_ids(*old(registry)).contains(
                descriptor_id(gauge_family_name(*self)),
            ) ==> r is Ok,
    {
        registry.register(Box::new(self.vec.clone()))
    }
}

impl CounterFamily {
    /// Makes a family with `prometheus::IntCounterVec::new`, which accepts a valid name with a
    /// help text and different valid label names. It holds no counter yet.
    #[verifier::external_body]
    pub(crate) fn new(name: &str, help: &str, labels: &[&str]) -> (r: CounterFamily)
        requires
            is_name(name@),
            help@.len() > 0,
            are_label_names(texts(labels@)),
        ensures
            (counter_family_values(r) == Map::<u64, (Seq<Seq<char>>, u64)>::empty()),
            counter_family_labels(r) == texts(labels@),
            counter_family_name(r) == name@,
            counter_family_help(r) == help@,
    {
        let opts = prometheus::Opts::new(name, help);
        CounterFamily { vec: prometheus::IntCounterVec::new(opts, labels).unwrap() }
    }

    /// Picks the counter with the given label values by `with_label_values`, which makes one for
    /// them at zero where there is none under their key, and adds one to it with
    /// `prometheus::IntCounter::inc`, an atomic addition that wraps around.
    #[verifier::external_body]
    pub(crate) fn inc(&mut self, labels: &[&str])
        requires
            labels@.len() == counter_family_labels(*old(self)).len(),
        ensures
            counter_family_values(*final(self)) == shown_at(
                counter_family_values(*old(self)),
                label_key(texts(labels@)),
                texts(labels@),
                count_at(
                    counter_family_values(*old(self)),
                    label_key(texts(labels@)),
                ).wrapping_add(1),
            ),
            counter_family_labels(*final(self)) == counter_family_labels(*old(self)),
            counter_family_name(*final(self)) == counter_family_name(*old(self)),
            counter_family_help(*final(self)) == counter_family_help(*old(self)),
            counter_family_cell(*final(self)) == counter_family_cell(*old(self)),
    {
        self.vec.with_label_values(labels).inc();
    }

    /// Hands the family to `prometheus::Registry::register`. Where the registry takes it, it
    /// is registered once more under its name; where it refuses, nothing is. It takes a family
    /// whose descriptor number it has not seen. For others that is left open.
    #[verifier::external_body]
    pub(crate) fn register(&self, registry: &mut prometheus::Registry) -> (r: Result<
        (),
        prometheus::Error,
    >)
        ensures
            registered_names(*final(registry)) == if r is Ok {
                registered_names(*old(registry)).insert(counter_family_name(*self))
            } else {
                registered_names(*old(registry))
            },
            registered_cells(*final(registry)) == if r is Ok {
                registered_cells(*old(registry)).insert(counter_family_cell(*self))
            } else {
                registered_cells(*old(registry))
            },
            occupied_ids(*final(registry)) == occupied_ids(*old(registry)).insert(
                descriptor_id(counter_family_name(*self)),
            ),
            !occupied_ids(*old(registry)).contains(
                descriptor_id(counter_family_name(*self)),
            ) ==> r is Ok,
    {
        registry.register(Box::new(self.vec.clone()))
    }
}

/// Makes a registry with `prometheus::Registry::new`. It holds no collector and has seen none.
#[verifier::external_body]
pub(crate) fn new_registry() -> (r: prometheus::Registry)
    ensures
        registered_names(r) == Multiset::<Seq<char>>::empty(),
        registered_cells(r) == Set::<int>::empty(),
        occupied_ids(r) == Set::<u64>::empty(),
{
    prometheus::Registry::new()
}

/// A gauge that is given a value shows that value. It keeps the label values that it was made
/// for, and every other gauge stays as it is.
pub proof fn law_gauge_set(
    values: Map<u64, (Seq<Seq<char>>, i64)>,
    labels: Seq<Seq<char>>,
    value: i64,
    other: u64,
)
    ensures
        ({
            let key = label_key(labels);
            let after = gauge_set(values, labels, value);
            &&& after.contains_key(key)
            &&& after[key].1 == value
            &&& !values.contains_key(key) ==> after[key].0 == labels
            &&& values.contains_key(key) ==> after[key].0 == values[key].0
            &&& other != key ==> after.contains_key(other) == values.contains_key(other)
            &&& other != key && values.contains_key(other) ==> after[other] == values[other]
        }),
{
}

/// A gauge that is added to shows the sum, as far as 64 bits hold it, and starts at zero where it
/// is new. It keeps the label values that it was made for, and every other gauge stays as it is.
pub proof fn law_gauge_added(
    values: Map<u64, (Seq<Seq<char>>, i64)>,
    labels: Seq<Seq<char>>,
    delta: i64,
    other: u64,
)
    ensures
        ({
            let key = label_key(labels);
            let after = gauge_added(values, labels, delta);
            let sum = (if values.contains_key(key) {
                values[key].1
            } else {
                0
            }) + delta;
            &&& after.contains_key(key)
            &&& i64::MIN <= sum <= i64::MAX ==> after[key].1 == sum
            &&& (after[key].1 - sum) % 0x1_0000_0000_0000_0000 == 0
            &&& !values.contains_key(key) ==> after[key].0 == labels
            &&& values.contains_key(key) ==> after[key].0 == values[key].0
            &&& other != key ==> after.contains_key(other) == values.contains_key(other)
            &&& other != key && values.contains_key(other) ==> after[other] == values[other]
        }),
{
}

/// A counter that is counted up shows one more, until it starts again at zero, and shows one
/// where it is new. It keeps the label values that it was made for, and every other counter stays
/// as it is.
pub proof fn law_counted_up(
    values: Map<u64, (Seq<Seq<char>>, u64)>,
    labels: Seq<Seq<char>>,
    other: u64,
)
    ensures
        ({
            let key = label_key(labels);
            let after = counted_up(values, labels);
            &&& after.contains_key(key)
            &&& !values.contains_key(key) ==> after[key] == (labels, 1u64)
            &&& values.contains_key(key) ==> after[key].0 == values[key].0
            &&& values.contains_key(key) && values[key].1 < u64::MAX ==> after[key].1
                == values[key].1 + 1
            &&& values.contains_key(key) && values[key].1 == u64::MAX ==> after[key].1 == 0
            &&& other != key ==> after.contains_key(other) == values.contains_key(other)
            &&& other != key && values.contains_key(other) ==> after[other] == values[other]
        }),
{
}

/// What a family shows under a key is the number that is kept there, and zero where none is.
pub proof fn law_shown_number(
    gauges: Map<u64, (Seq<Seq<char>>, i64)>,
    counters: Map<u64, (Seq<Seq<char>>, u64)>,
    key: u64,
)
    ensures
        gauges.contains_key(key) ==> gauge_at(gauges, key) == gauges[key].1,
        !gauges.contains_key(key) ==> gauge_at(gauges, key) == 0,
        counters.contains_key(key) ==> count_at(counters, key) == counters[key].1,
        !counters.contains_key(key) ==> count_at(counters, key) == 0,
{
}

/// The texts of string slices are these slices, one by one.
pub proof fn law_texts(labels: Seq<&str>)
    ensures
        texts(labels).len() == labels.len(),
        forall|i: int| 0 <= i < labels.len() ==> #[trigger] texts(labels)[i] == labels[i]@,
{
}

} // verus!
