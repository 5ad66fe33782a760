//! The state of the plugin and what it does when the validator calls it.
use vstd::prelude::*;
use crate::collectors::gauge_set;
use crate::config::Interval;
use crate::metrics::{
    message_queue_size_inc, update_slot_status, Metrics, MetricsState, SlotStatus,
};
use crate::text::{decimal, push_decimal};

verus! {

/// A kind of record that the validator hands over in several versions.
#[derive(Debug, Clone, Copy, PartialEq, Eq, Structural)]
pub enum Record {
    /// An account.
    Account,
    /// A transaction.
    Transaction,
    /// An entry.
    Entry,
    /// The metadata of a block.
    BlockMetadata,
}

impl Record {
    /// The version of the record that is supported: the number behind `V0_0_`.
    pub open spec fn supported_version(self) -> u8 {
        match self {
            Record::Account => 3,
            Record::Transaction => 2,
            Record::Entry => 2,
            Record::BlockMetadata => 4,
        }
    }

    /// The type that the message for an unsupported version names.
    pub open spec fn family(self) -> Seq<char> {
        match self {
            Record::Account => "ReplicaAccountInfoVersions"@,
            Record::Transaction => "ReplicaAccountInfoVersions"@,
            Record::Entry => "ReplicaEntryInfoVersions"@,
            Record::BlockMetadata => "ReplicaBlockInfoVersions"@,
        }
    }

    /// The message for a version that is not supported.
    pub open spec fn unsupported_text(self, version: u8) -> Seq<char> {
        self.family() + "::V0_0_"@ + decimal(version as nat) + " is not supported"@
    }

    /// Why a version of the record is not supported; `None` where it is.
    pub fn unsupported(&self, version: u8) -> (r: Option<String>)
        ensures
            r is None <==> version == self.supported_version(),
            r matches Some(message) ==> message@ == self.unsupported_text(version),
    {
        let supported: u8 = match self {
            Record::Account => 3,
            Record::Transaction => 2,
            Record::Entry => 2,
            Record::BlockMetadata => 4,
        };
        if version == supported {
            return None;
        }
        let mut out = String::new();
        out.append(
            match self {
                Record::Account => "ReplicaAccountInfoVersions",
                Record::Transaction => "ReplicaAccountInfoVersions",
                Record::Entry => "ReplicaEntryInfoVersions",
                Record::BlockMetadata => "ReplicaBlockInfoVersions",
            },
        );
        out.append("::V0_0_");
        push_decimal(&mut out, version as u64);
        out.append(" is not supported");
        proof {
            assert(out@ =~= self.unsupported_text(version));
        }
        Some(out)
    }
}

/// Where a message goes.
#[derive(Debug)]
pub enum Delivery<'a, S> {
    /// Into the channel for the startup snapshot, which blocks when it is full.
    Snapshot(&'a S),
    /// Into the channel to the gRPC service, which does not block.
    Grpc,
    /// Nowhere.
    Skip,
}

/// The state of a loaded plugin. `S` is the sending end of the snapshot channel.
#[derive(Debug)]
pub struct PluginInner<S> {
    /// A channel to send accounts data during the startup snapshot.
    pub snapshot_channel: Option<S>,
    /// A flag to indicate that the snapshot channel is closed. Used to prevent logging multiple
    /// errors if the channel is already closed.
    pub snapshot_channel_closed: bool,
}

/// The main plugin struct, which wraps the inner state in an `Option`. This allows for safe
/// initialization and destruction of the plugin's state.
#[derive(Debug)]
pub struct Plugin<S> {
    /// The state, once the plugin is loaded.
    pub inner: Option<PluginInner<S>>,
}

/// The step at which loading has failed.
#[derive(Debug, Clone, Copy, PartialEq, Eq, Structural)]
pub enum LoadFailure {
    /// The configuration could not be loaded.
    Config,
    /// The runtime could not be built.
    Runtime,
    /// The gRPC service could not be created.
    Grpc,
    /// The Prometheus service could not be created.
    Prometheus,
}

/// How the error of a failed step is reported to the validator.
#[derive(Debug, Clone, Copy, PartialEq, Eq, Structural)]
pub enum FailureReport {
    /// The error is one of the plugin interface, and is handed on as it is.
    AsItIs,
    /// A custom error that holds the error.
    Custom,
    /// A custom error that holds the `Debug` text of the error.
    CustomText,
}

/// A step of unloading.
#[derive(Debug, Clone, Copy, PartialEq, Eq, Structural)]
pub enum UnloadStep {
    /// Tell the gRPC service to stop.
    NotifyGrpcShutdown,
    /// Close the channel to the gRPC service.
    DropGrpcChannel,
    /// Stop the Prometheus service.
    ShutdownPrometheus,
    /// Stop the runtime, and wait for it no longer than this.
    ShutdownRuntime(Interval),
    /// Close the snapshot channel, where it is still there.
    DropSnapshotChannel,
}

/// What is left to do of a plugin that was unloaded.
#[derive(Debug)]
pub struct Unloading<S> {
    /// The steps, in their order.
    pub steps: Vec<UnloadStep>,
    /// The snapshot channel, which stays open until its step.
    pub snapshot_channel: Option<S>,
}

/// The steps of unloading a plugin that is loaded.
pub open spec fn unload_steps() -> Seq<UnloadStep> {
    seq![
        UnloadStep::NotifyGrpcShutdown,
        UnloadStep::DropGrpcChannel,
        UnloadStep::ShutdownPrometheus,
        UnloadStep::ShutdownRuntime(Interval { secs: 30, nanos: 0 }),
        UnloadStep::DropSnapshotChannel,
    ]
}

/// The metrics after a message was sent, or could not be.
pub open spec fn counted(metrics: MetricsState, sent: bool) -> MetricsState {
    if sent {
        MetricsState {
            message_queue_size: metrics.message_queue_size.wrapping_add(1),
            ..metrics
        }
    } else {
        metrics
    }
}

/// What happens to a plugin.
pub ghost enum Event<S> {
    /// It is loaded, or a step of that fails.
    Load(Result<Option<S>, LoadFailure>),
    /// It is unloaded.
    Unload,
    /// A message was sent into the snapshot channel, or could not be.
    SnapshotSent(bool),
    /// The startup has ended.
    EndOfStartup,
}

impl<S> Event<S> {
    /// Whether the plugin gets a new state.
    pub open spec fn is_load(self) -> bool {
        self matches Event::Load(outcome) && outcome is Ok
    }
}

impl LoadFailure {
    /// How the failure of the step is reported to the validator.
    pub open spec fn report(self) -> FailureReport {
        match self {
            LoadFailure::Config => FailureReport::AsItIs,
            LoadFailure::Runtime => FailureReport::Custom,
            LoadFailure::Grpc => FailureReport::CustomText,
            LoadFailure::Prometheus => FailureReport::Custom,
        }
    }

    /// How the failure of the step is reported to the validator.
    pub fn reported_as(&self) -> (r: FailureReport)
        ensures
            r == self.report(),
    {
        match self {
            LoadFailure::Config => FailureReport::AsItIs,
            LoadFailure::Runtime => FailureReport::Custom,
            LoadFailure::Grpc => FailureReport::CustomText,
            LoadFailure::Prometheus => FailureReport::Custom,
        }
    }
}

impl<S> PluginInner<S> {
    /// The state right after loading.
    pub open spec fn loaded(snapshot_channel: Option<S>) -> Self {
        PluginInner { snapshot_channel, snapshot_channel_closed: false }
    }

    /// The state after a message was sent into the snapshot channel, or could not be.
    pub open spec fn snapshot_noted(self, sent: bool) -> Self {
        PluginInner {
            snapshot_channel: self.snapshot_channel,
            snapshot_channel_closed: self.snapshot_channel_closed || !sent,
        }
    }

    /// The state after the end of the startup.
    pub open spec fn startup_ended(self) -> Self {
        PluginInner {
            snapshot_channel: None,
            snapshot_channel_closed: self.snapshot_channel_closed,
        }
    }

    /// Where a message about an account goes. During startup it uses a blocking channel to
    /// handle backpressure, as long as that channel is there. After startup it uses a
    /// non-blocking channel.
    pub open spec fn account_delivery(self, is_startup: bool) -> Delivery<'static, S> {
        if !is_startup {
            Delivery::Grpc
        } else {
            match self.snapshot_channel {
                Some(channel) => Delivery::Snapshot(&channel),
                None => Delivery::Skip,
            }
        }
    }

    /// Takes note of what became of a message to the gRPC service. If the send is successful,
    /// it increments the message queue size metric.
    pub fn send_message(metrics: &mut Metrics, sent: bool)
        requires
            old(metrics).wf(),
        ensures
            final(metrics).wf(),
            final(metrics)@ == counted(old(metrics)@, sent),
    {
        if sent {
            message_queue_size_inc(metrics);
        }
    }
}

impl<S> Plugin<S> {
    /// The plugin after an event. Without a state, only loading makes a difference.
    pub open spec fn after(self, event: Event<S>) -> Self {
        match (event, self.inner) {
            (Event::Load(Ok(channel)), _) => Plugin { inner: Some(PluginInner::loaded(channel)) },
            (Event::Load(Err(_)), _) => self,
            (Event::Unload, _) => Plugin { inner: None },
            (_, None) => self,
            (Event::SnapshotSent(sent), Some(inner)) => Plugin {
                inner: Some(inner.snapshot_noted(sent)),
            },
            (Event::EndOfStartup, Some(inner)) => Plugin { inner: Some(inner.startup_ended()) },
        }
    }

    /// The plugin after several events, one after the other.
    pub open spec fn after_all(self, events: Seq<Event<S>>) -> Self
        decreases events.len(),
    {
        if events.len() == 0 {
            self
        } else {
            self.after(events.first()).after_all(events.drop_first())
        }
    }

    /// Whether an event is to be reported: a message that finds the snapshot channel closed,
    /// when none has before.
    pub open spec fn reports(self, event: Event<S>) -> bool {
        event == Event::<S>::SnapshotSent(false) && self.inner is Some
            && !self.inner->0.snapshot_channel_closed
    }

    /// How many of several events, one after the other, are to be reported.
    pub open spec fn reports_of(self, events: Seq<Event<S>>) -> nat
        decreases events.len(),
    {
        if events.len() == 0 {
            0
        } else {
            (if self.reports(events.first()) {
                1nat
            } else {
                0
            }) + self.after(events.first()).reports_of(events.drop_first())
        }
    }

    /// A plugin that is not loaded.
    pub fn new() -> (r: Self)
        ensures
            r.inner is None,
    {
        Plugin { inner: None }
    }

    /// Called when the plugin is loaded, with what came of the steps: the snapshot channel that
    /// the gRPC service has asked for, or the step that failed. Only if all steps have
    /// succeeded, the plugin has a new state.
    pub fn on_load(&mut self, outcome: Result<Option<S>, LoadFailure>) -> (r: Result<
        (),
        LoadFailure,
    >)
        ensures
            *final(self) == old(self).after(Event::Load(outcome)),
            r == match outcome {
                Ok(_) => Ok::<(), LoadFailure>(()),
                Err(failure) => Err(failure),
            },
    {
        match outcome {
            Ok(snapshot_channel) => {
                self.inner = Some(
                    PluginInner { snapshot_channel, snapshot_channel_closed: false },
                );
                Ok(())
            },
            Err(failure) => Err(failure),
        }
    }

    /// Called when the plugin is unloaded. Says how to gracefully shut down the gRPC service,
    /// the Prometheus service and the runtime, where the plugin is loaded. The snapshot channel
    /// is handed out, to be closed behind them.
    pub fn on_unload(&mut self) -> (r: Unloading<S>)
        ensures
            *final(self) == old(self).after(Event::Unload),
            match old(self).inner {
                Some(inner) => {
                    &&& r.steps@ == unload_steps()
                    &&& r.snapshot_channel == inner.snapshot_channel
                },
                None => r.steps@.len() == 0 && r.snapshot_channel is None,
            },
    {
        match self.inner.take() {
            Some(inner) => Unloading {
                steps: vec![
                    UnloadStep::NotifyGrpcShutdown,
                    UnloadStep::DropGrpcChannel,
                    UnloadStep::ShutdownPrometheus,
                    UnloadStep::ShutdownRuntime(Interval { secs: 30, nanos: 0 }),
                    UnloadStep::DropSnapshotChannel,
                ],
                snapshot_channel: inner.snapshot_channel,
            },
            None => Unloading { steps: Vec::new(), snapshot_channel: None },
        }
    }

    /// Called when an account is updated. Says where the message about it goes.
    pub fn update_account(&self, version: u8, is_startup: bool) -> (r: Delivery<'_, S>)
        requires
            self.inner is Some,
            version == Record::Account.supported_version(),
        ensures
            r == self.inner->0.account_delivery(is_startup),
    {
        if is_startup {
            match &self.inner {
                Some(inner) => match &inner.snapshot_channel {
                    Some(channel) => Delivery::Snapshot(channel),
                    None => Delivery::Skip,
                },
                None => Delivery::Skip,
            }
        } else {
            Delivery::Grpc
        }
    }

    /// Takes note of what became of a message in the snapshot channel. The first message that
    /// finds the channel closed is to be reported: then the result is `true`.
    pub fn snapshot_sent(&mut self, metrics: &mut Metrics, sent: bool) -> (r: bool)
        requires
            old(self).inner is Some,
            old(metrics).wf(),
        ensures
            final(metrics).wf(),
            final(metrics)@ == counted(old(metrics)@, sent),
            *final(self) == old(self).after(Event::SnapshotSent(sent)),
            r == old(self).reports(Event::SnapshotSent(sent)),
    {
        if sent {
            message_queue_size_inc(metrics);
            return false;
        }
        match self.inner.take() {
            Some(inner) => {
                self.inner = Some(
                    PluginInner {
                        snapshot_channel: inner.snapshot_channel,
                        snapshot_channel_closed: true,
                    },
                );
                !inner.snapshot_channel_closed
            },
            None => false,
        }
    }

    /// Called when the validator has finished sending the initial snapshot of account data.
    /// Takes the snapshot channel out, which closes it as soon as it is dropped.
    pub fn notify_end_of_startup(&mut self) -> (r: Option<S>)
        requires
            old(self).inner is Some,
        ensures
            r == old(self).inner->0.snapshot_channel,
            *final(self) == old(self).after(Event::EndOfStartup),
    {
        match self.inner.take() {
            Some(inner) => {
                self.inner = Some(
                    PluginInner {
                        snapshot_channel: None,
                        snapshot_channel_closed: inner.snapshot_channel_closed,
                    },
                );
                inner.snapshot_channel
            },
            None => None,
        }
    }

    /// Called when the status of a slot changes, once the message about it was sent to the gRPC
    /// service or could not be.
    pub fn update_slot_status(
        &self,
        metrics: &mut Metrics,
        status: &SlotStatus,
        slot: u64,
        sent: bool,
    )
        requires
            self.inner is Some,
            old(metrics).wf(),
        ensures
            final(metrics).wf(),
            final(metrics)@ == (MetricsState {
                slot_status: gauge_set(
                    old(metrics)@.slot_status,
                    seq![status.name()],
                    slot as i64,
                ),
                ..counted(old(metrics)@, sent)
            }),
    {
        PluginInner::<S>::send_message(metrics, sent);
        update_slot_status(metrics, status, slot);
    }

    /// Called when a transaction is processed, once the message about it was sent to the gRPC
    /// service or could not be.
    pub fn notify_transaction(&self, metrics: &mut Metrics, version: u8, sent: bool)
        requires
            self.inner is Some,
            version == Record::Transaction.supported_version(),
            old(metrics).wf(),
        ensures
            final(metrics).wf(),
            final(metrics)@ == counted(old(metrics)@, sent),
    {
        PluginInner::<S>::send_message(metrics, sent);
    }

    /// Called when a new entry is observed, once the message about it was sent to the gRPC service
    /// or could not be.
    pub fn notify_entry(&self, metrics: &mut Metrics, version: u8, sent: bool)
        requires
            self.inner is Some,
            version == Record::Entry.supported_version(),
            old(metrics).wf(),
        ensures
            final(metrics).wf(),
            final(metrics)@ == counted(old(metrics)@, sent),
    {
        PluginInner::<S>::send_message(metrics, sent);
    }

    /// Called to notify the plugin of block metadata, once the message about it was sent to the
    /// gRPC service or could not be.
    pub fn notify_block_metadata(&self, metrics: &mut Metrics, version: u8, sent: bool)
        requires
            self.inner is Some,
            version == Record::BlockMetadata.supported_version(),
            old(metrics).wf(),
        ensures
            final(metrics).wf(),
            final(metrics)@ == counted(old(metrics)@, sent),
    {
        PluginInner::<S>::send_message(metrics, sent);
    }

    /// Checks if account data notifications are enabled. This plugin is interested in account
    /// data, so it returns true.
    pub fn account_data_notifications_enabled(&self) -> (r: bool)
        ensures
            r,
    {
        true
    }

    /// Whether the startup snapshot is wanted: the plugin is loaded, and its snapshot channel is
    /// still there.
    pub open spec fn wants_snapshot(self) -> bool {
        self.inner is Some && self.inner->0.snapshot_channel is Some
    }

    /// Checks if account data notifications for the initial snapshot are enabled. This is
    /// required to get the initial state of accounts.
    pub fn account_data_snapshot_notifications_enabled(&self) -> (r: bool)
        ensures
            r == self.wants_snapshot(),
    {
        match &self.inner {
            Some(inner) => inner.snapshot_channel.is_some(),
            None => false,
        }
    }

    /// Checks if transaction notifications are enabled. This plugin is interested in
    /// transactions, so it returns true.
    pub fn transaction_notifications_enabled(&self) -> (r: bool)
        ensures
            r,
    {
        true
    }

    /// Checks if entry notifications are enabled. This plugin is interested in entries, so it
    /// returns true.
    pub fn entry_notifications_enabled(&self) -> (r: bool)
        ensures
            r,
    {
        true
    }
}

/// Whether no event of several gives the plugin a new state.
pub open spec fn without_load<S>(events: Seq<Event<S>>) -> bool {
    forall|i: int| 0 <= i < events.len() ==> !(#[trigger] events[i]).is_load()
}

/// Once startup has ended, no account of the snapshot is wanted or sent, until the plugin is
/// loaded again. Other accounts still go to the gRPC service.
pub proof fn law_startup_ends<S>(plugin: Plugin<S>, events: Seq<Event<S>>)
    requires
        without_load(events),
    ensures
        ({
            let later = plugin.after(Event::EndOfStartup).after_all(events);
            &&& !later.wants_snapshot()
            &&& later.inner matches Some(inner) ==> {
                &&& inner.account_delivery(true) is Skip
                &&& inner.account_delivery(false) is Grpc
            }
        }),
{
    lemma_no_snapshot(plugin.after(Event::EndOfStartup), events);
}

/// A plugin without a snapshot channel gets none but by loading.
proof fn lemma_no_snapshot<S>(plugin: Plugin<S>, events: Seq<Event<S>>)
    requires
        without_load(events),
        !plugin.wants_snapshot(),
    ensures
        !plugin.after_all(events).wants_snapshot(),
    decreases events.len(),
{
    if events.len() > 0 {
        let rest = events.drop_first();
        assert forall|i: int| 0 <= i < rest.len() implies !(#[trigger] rest[i]).is_load() by {
            assert(rest[i] == events[i + 1]);
        }
        assert(!events[0].is_load());
        lemma_no_snapshot(plugin.after(events.first()), rest);
    }
}

/// Until the plugin is loaded again, a closed snapshot channel is reported at most once, and not
/// at all where that was done before.
pub proof fn law_closed_channel_reported_once<S>(plugin: Plugin<S>, events: Seq<Event<S>>)
    requires
        without_load(events),
    ensures
        plugin.reports_of(events) <= 1,
        plugin.inner is None ==> plugin.reports_of(events) == 0,
        plugin.inner matches Some(inner) ==> inner.snapshot_channel_closed ==> plugin.reports_of(
            events,
        ) == 0,
    decreases events.len(),
{
    if events.len() > 0 {
        let rest = events.drop_first();
        assert forall|i: int| 0 <= i < rest.len() implies !(#[trigger] rest[i]).is_load() by {
            assert(rest[i] == events[i + 1]);
        }
        assert(!events[0].is_load());
        law_closed_channel_reported_once(plugin.after(events.first()), rest);
    }
}

/// While a plugin stays loaded, the first message that finds the snapshot channel closed is
/// reported.
pub proof fn law_closed_channel_is_reported<S>(plugin: Plugin<S>, events: Seq<Event<S>>)
    requires
        plugin.inner is Some,
        !plugin.inner->0.snapshot_channel_closed,
        forall|i: int|
            0 <= i < events.len() ==> !(#[trigger] events[i]).is_load() && events[i] !is Unload,
        events.contains(Event::SnapshotSent(false)),
    ensures
        plugin.reports_of(events) == 1,
    decreases events.len(),
{
    let rest = events.drop_first();
    assert forall|i: int| 0 <= i < rest.len() implies !(#[trigger] rest[i]).is_load() && rest[i]
        !is Unload by {
        assert(rest[i] == events[i + 1]);
    }
    assert(!events[0].is_load() && events[0] !is Unload);
    if plugin.reports(events.first()) {
        law_closed_channel_reported_once(plugin.after(events.first()), rest);
    } else {
        let closed = Event::<S>::SnapshotSent(false);
        let i = choose|i: int| 0 <= i < events.len() && events[i] == closed;
        assert(rest[i - 1] == closed);
        law_closed_channel_is_reported(plugin.after(events.first()), rest);
    }
}

/// A plugin that could not be loaded is as it was, and one that is unloaded has nothing left to
/// shut down.
pub proof fn law_load_and_unload<S>(
    plugin: Plugin<S>,
    failure: LoadFailure,
    snapshot_channel: Option<S>,
)
    ensures
        plugin.after(Event::Load(Err(failure))) == plugin,
        plugin.after(Event::Load(Ok(snapshot_channel))).wants_snapshot() <==> snapshot_channel
            is Some,
        plugin.after(Event::Unload).inner is None,
        plugin.after(Event::Unload).after(Event::Load(Ok(snapshot_channel))) == plugin.after(
            Event::Load(Ok(snapshot_channel)),
        ),
{
}

/// The metrics after several messages were sent, or could not be, one after the other.
pub open spec fn counted_all(metrics: MetricsState, sent: Seq<bool>) -> MetricsState
    decreases sent.len(),
{
    if sent.len() == 0 {
        metrics
    } else {
        counted(counted_all(metrics, sent.drop_last()), sent.last())
    }
}

/// How many messages were sent.
pub open spec fn sent_count(sent: Seq<bool>) -> nat {
    sent.filter(|ok: bool| ok).len()
}

/// The queue grows by one for each message that was sent, and by none that was not. Nothing else
/// changes in the metrics.
pub proof fn law_queue_grows_by_what_was_sent(metrics: MetricsState, sent: Seq<bool>)
    requires
        metrics.message_queue_size + sent_count(sent) <= i64::MAX,
    ensures
        counted_all(metrics, sent) == (MetricsState {
            message_queue_size: (metrics.message_queue_size + sent_count(sent)) as i64,
            ..metrics
        }),
    decreases sent.len(),
{
    reveal(Seq::filter);
    if sent.len() > 0 {
        assert(sent_count(sent) == sent_count(sent.drop_last()) + (if sent.last() {
            1nat
        } else {
            0
        }));
        law_queue_grows_by_what_was_sent(metrics, sent.drop_last());
    }
}

/// Whatever comes of the messages in it, a loaded plugin keeps its snapshot channel until startup
/// ends, it is loaded again or it is unloaded. So accounts of the snapshot still go there, and
/// the snapshot is still wanted. The channel counts as closed once a message could not be sent.
pub proof fn law_snapshot_channel_stays<S>(plugin: Plugin<S>, events: Seq<Event<S>>)
    requires
        plugin.inner is Some,
        forall|i: int| 0 <= i < events.len() ==> #[trigger] events[i] is SnapshotSent,
    ensures
        ({
            let before = plugin.inner->0;
            let later = plugin.after_all(events);
            &&& later.inner matches Some(inner)
            &&& inner.snapshot_channel == before.snapshot_channel
            &&& inner.snapshot_channel_closed <==> (before.snapshot_channel_closed
                || events.contains(Event::SnapshotSent(false)))
            &&& later.wants_snapshot() <==> before.snapshot_channel is Some
            &&& before.snapshot_channel matches Some(channel) ==> inner.account_delivery(true)
                == Delivery::Snapshot(&channel)
        }),
    decreases events.len(),
{
    if events.len() > 0 {
        let rest = events.drop_first();
        assert forall|i: int| 0 <= i < rest.len() implies #[trigger] rest[i] is SnapshotSent by {
            assert(rest[i] == events[i + 1]);
        }
        assert(events[0] is SnapshotSent);
        law_snapshot_channel_stays(plugin.after(events.first()), rest);
        let failed = Event::<S>::SnapshotSent(false);
        if events.contains(failed) {
            let i = choose|i: int| 0 <= i < events.len() && events[i] == failed;
            if i > 0 {
                assert(rest[i - 1] == failed);
            }
        }
        if rest.contains(failed) {
            let i = choose|i: int| 0 <= i < rest.len() && rest[i] == failed;
            assert(events[i + 1] == failed);
        }
    } else {
        assert(!events.contains(Event::SnapshotSent(false)));
    }
}

/// What each event makes of the parts of the state, and what it leaves alone.
pub proof fn law_event_effects<S>(plugin: Plugin<S>, channel: Option<S>, sent: bool)
    ensures
        plugin.after(Event::Load(Ok(channel))).inner matches Some(inner) && inner.snapshot_channel
            == channel && !inner.snapshot_channel_closed,
        plugin.after(Event::Unload).inner is None,
        plugin.inner is None ==> plugin.after(Event::SnapshotSent(sent)).inner is None,
        plugin.inner is None ==> plugin.after(Event::EndOfStartup).inner is None,
        plugin.inner matches Some(before) ==> {
            &&& plugin.after(Event::SnapshotSent(sent)).inner matches Some(noted)
            &&& noted.snapshot_channel == before.snapshot_channel
            &&& noted.snapshot_channel_closed == (before.snapshot_channel_closed || !sent)
        },
        plugin.inner matches Some(before) ==> {
            &&& plugin.after(Event::EndOfStartup).inner matches Some(ended)
            &&& ended.snapshot_channel is None
            &&& ended.snapshot_channel_closed == before.snapshot_channel_closed
        },
{
}

/// After loading, exactly the first message that could not be sent into the snapshot channel is
/// reported.
pub proof fn law_first_failure_reported<S>(
    plugin: Plugin<S>,
    channel: Option<S>,
    sends: Seq<bool>,
    next: bool,
)
    ensures
        ({
            let events = sends.map_values(|sent: bool| Event::<S>::SnapshotSent(sent));
            plugin.after(Event::Load(Ok(channel))).after_all(events).reports(
                Event::SnapshotSent(next),
            ) <==> !next && forall|i: int| 0 <= i < sends.len() ==> #[trigger] sends[i]
        }),
{
    let events = sends.map_values(|sent: bool| Event::<S>::SnapshotSent(sent));
    let loaded = plugin.after(Event::Load(Ok(channel)));
    law_snapshot_channel_stays(loaded, events);
    let failed = Event::<S>::SnapshotSent(false);
    if events.contains(failed) {
        let i = choose|i: int| 0 <= i < events.len() && events[i] == failed;
        assert(!sends[i]);
    }
    if exists|i: int| 0 <= i < sends.len() && !(#[trigger] sends[i]) {
        let i = choose|i: int| 0 <= i < sends.len() && !(#[trigger] sends[i]);
        assert(events[i] == failed);
    }
}

/// Nothing but a message that could not be sent into the snapshot channel is reported, and
/// nothing is where the plugin is not loaded.
pub proof fn law_nothing_else_reported<S>(plugin: Plugin<S>, event: Event<S>)
    ensures
        plugin.reports(event) ==> event == Event::<S>::SnapshotSent(false) && plugin.inner is Some,
{
}

/// Where an account goes: outside startup always to the gRPC service; during startup into the
/// snapshot channel while there is one, and then the snapshot is wanted; otherwise nowhere.
pub proof fn law_account_goes<S>(inner: PluginInner<S>)
    ensures
        inner.account_delivery(false) == Delivery::<S>::Grpc,
        inner.snapshot_channel matches Some(channel) ==> inner.account_delivery(true)
            == Delivery::Snapshot(&channel),
        inner.snapshot_channel is None ==> inner.account_delivery(true) == Delivery::<S>::Skip,
        (Plugin { inner: Some(inner) }).wants_snapshot() <==> inner.snapshot_channel is Some,
        !(Plugin::<S> { inner: None }).wants_snapshot(),
{
}

/// A message that was sent makes the queue longer by one, as far as 64 bits hold it; one that was
/// not changes nothing. Nothing else changes in the metrics.
pub proof fn law_message_counted(metrics: MetricsState)
    ensures
        counted(metrics, false) == metrics,
        ({
            let after = counted(metrics, true);
            &&& metrics.message_queue_size < i64::MAX ==> after.message_queue_size
                == metrics.message_queue_size + 1
            &&& metrics.message_queue_size == i64::MAX ==> after.message_queue_size == i64::MIN
            &&& after == (MetricsState { message_queue_size: after.message_queue_size, ..metrics })
        }),
{
}

/// The version that is supported of each record, and how others are named.
pub proof fn law_supported_versions(version: u8)
    ensures
        Record::Account.supported_version() == 3,
        Record::Transaction.supported_version() == 2,
        Record::Entry.supported_version() == 2,
        Record::BlockMetadata.supported_version() == 4,
        Record::Account.unsupported_text(version) == "ReplicaAccountInfoVersions"@ + "::V0_0_"@
            + decimal(version as nat) + " is not supported"@,
        Record::Transaction.unsupported_text(version) == "ReplicaAccountInfoVersions"@ + "::V0_0_"@
            + decimal(version as nat) + " is not supported"@,
        Record::Entry.unsupported_text(version) == "ReplicaEntryInfoVersions"@ + "::V0_0_"@
            + decimal(version as nat) + " is not supported"@,
        Record::BlockMetadata.unsupported_text(version) == "ReplicaBlockInfoVersions"@
            + "::V0_0_"@ + decimal(version as nat) + " is not supported"@,
{
}

/// What is left to do of a loaded plugin that is unloaded: the gRPC service is told to stop before
/// its channel is closed, both services end before the runtime, and the snapshot channel is closed
/// last. Each step comes once.
pub proof fn law_unload_order()
    ensures
        ({
            let steps = unload_steps();
            &&& steps.len() == 5
            &&& steps[0] is NotifyGrpcShutdown
            &&& steps[1] is DropGrpcChannel
            &&& steps[2] is ShutdownPrometheus
            &&& steps[3] == UnloadStep::ShutdownRuntime(Interval { secs: 30, nanos: 0 })
            &&& steps[4] is DropSnapshotChannel
        }),
{
}

/// Only the error of the configuration is handed on as it is, and only that of the gRPC service
/// becomes a text.
pub proof fn law_failure_reports(failure: LoadFailure)
    ensures
        failure.report() is AsItIs <==> failure is Config,
        failure.report() is CustomText <==> failure is Grpc,
{
}

} // verus!
