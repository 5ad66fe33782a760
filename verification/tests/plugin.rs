use yellowstone_grpc_geyser::config::Interval;
use yellowstone_grpc_geyser::get_thread_name;
use yellowstone_grpc_geyser::metrics::{Metrics, SlotStatus};
use yellowstone_grpc_geyser::plugin::{
    Delivery, FailureReport, LoadFailure, Plugin, PluginInner, Record, UnloadStep,
};
use yellowstone_grpc_geyser::service::metrics_handler;
use yellowstone_grpc_geyser::version::Version;

fn visible_metrics() -> Metrics {
    let mut metrics = Metrics::new();
    let version = Version {
        package: "p",
        version: "v",
        proto: "p",
        solana: "s",
        git: "g",
        rustc: "r",
        buildts: "b",
    };
    metrics.register(&version).unwrap();
    metrics
}

fn has_line(metrics: &Metrics, line: &str) -> bool {
    metrics_handler(metrics).body.lines().any(|shown| shown == line)
}

fn loaded(channel: Option<u8>) -> Plugin<u8> {
    let mut plugin = Plugin::new();
    plugin.on_load(Ok(channel)).unwrap();
    plugin
}

#[test]
fn thread_names_count_up() {
    let mut next: u64 = 0;
    assert_eq!(get_thread_name(&mut next), "solGeyserGrpc00");
    assert_eq!(get_thread_name(&mut next), "solGeyserGrpc01");
    next = 9;
    assert_eq!(get_thread_name(&mut next), "solGeyserGrpc09");
    assert_eq!(get_thread_name(&mut next), "solGeyserGrpc10");
    next = 99;
    assert_eq!(get_thread_name(&mut next), "solGeyserGrpc99");
    assert_eq!(get_thread_name(&mut next), "solGeyserGrpc100");
    next = u64::MAX;
    assert_eq!(get_thread_name(&mut next), format!("solGeyserGrpc{}", u64::MAX));
    assert_eq!(next, 0);
}

#[test]
fn a_new_plugin_is_not_loaded() {
    let plugin: Plugin<u8> = Plugin::new();
    assert!(plugin.inner.is_none());
    assert!(!plugin.account_data_snapshot_notifications_enabled());
    assert!(plugin.account_data_notifications_enabled());
    assert!(plugin.transaction_notifications_enabled());
    assert!(plugin.entry_notifications_enabled());
}

#[test]
fn loading_sets_the_state() {
    let plugin = loaded(Some(5));
    assert!(plugin.account_data_snapshot_notifications_enabled());
    let inner = plugin.inner.as_ref().unwrap();
    assert_eq!(inner.snapshot_channel, Some(5));
    assert!(!inner.snapshot_channel_closed);
    assert!(!loaded(None).account_data_snapshot_notifications_enabled());
}

#[test]
fn a_failed_load_changes_nothing() {
    for failure in
        [LoadFailure::Config, LoadFailure::Runtime, LoadFailure::Grpc, LoadFailure::Prometheus]
    {
        let mut plugin = loaded(Some(1));
        assert_eq!(plugin.on_load(Err(failure)), Err(failure));
        assert_eq!(plugin.inner.as_ref().unwrap().snapshot_channel, Some(1));
        let mut empty: Plugin<u8> = Plugin::new();
        assert_eq!(empty.on_load(Err(failure)), Err(failure));
        assert!(empty.inner.is_none());
    }
}

#[test]
fn unloading_shuts_everything_down_once() {
    let mut plugin = loaded(Some(1));
    let unloading = plugin.on_unload();
    assert_eq!(
        unloading.steps,
        vec![
            UnloadStep::NotifyGrpcShutdown,
            UnloadStep::DropGrpcChannel,
            UnloadStep::ShutdownPrometheus,
            UnloadStep::ShutdownRuntime(Interval { secs: 30, nanos: 0 }),
            UnloadStep::DropSnapshotChannel,
        ]
    );
    assert_eq!(unloading.snapshot_channel, Some(1));
    assert!(plugin.inner.is_none());
    let again = plugin.on_unload();
    assert_eq!(again.steps, Vec::new());
    assert_eq!(again.snapshot_channel, None);
}

#[test]
fn the_snapshot_channel_stays_open_while_unloading() {
    let (sender, receiver) = crossbeam_channel::unbounded::<u8>();
    let mut plugin = Plugin::new();
    plugin.on_load(Ok(Some(sender))).unwrap();
    let unloading = plugin.on_unload();
    assert_eq!(receiver.try_recv(), Err(crossbeam_channel::TryRecvError::Empty));
    drop(unloading);
    assert_eq!(receiver.try_recv(), Err(crossbeam_channel::TryRecvError::Disconnected));
}

#[test]
fn no_snapshot_channel_is_left_after_startup() {
    let mut plugin = loaded(Some(1));
    plugin.notify_end_of_startup();
    let unloading = plugin.on_unload();
    assert_eq!(unloading.steps.len(), 5);
    assert_eq!(unloading.snapshot_channel, None);
}

#[test]
fn each_failure_has_its_report() {
    assert_eq!(LoadFailure::Config.reported_as(), FailureReport::AsItIs);
    assert_eq!(LoadFailure::Runtime.reported_as(), FailureReport::Custom);
    assert_eq!(LoadFailure::Grpc.reported_as(), FailureReport::CustomText);
    assert_eq!(LoadFailure::Prometheus.reported_as(), FailureReport::Custom);
}

#[test]
fn accounts_go_where_they_belong() {
    let plugin = loaded(Some(5));
    assert!(matches!(plugin.update_account(3, true), Delivery::Snapshot(5)));
    assert!(matches!(plugin.update_account(3, false), Delivery::Grpc));
    let without = loaded(None);
    assert!(matches!(without.update_account(3, true), Delivery::Skip));
    assert!(matches!(without.update_account(3, false), Delivery::Grpc));
}

#[test]
fn startup_ends_for_good() {
    let mut metrics = visible_metrics();
    let mut plugin = loaded(Some(5));
    assert_eq!(plugin.notify_end_of_startup(), Some(5));
    assert_eq!(plugin.notify_end_of_startup(), None);
    plugin.snapshot_sent(&mut metrics, false);
    assert!(!plugin.account_data_snapshot_notifications_enabled());
    assert!(matches!(plugin.update_account(3, true), Delivery::Skip));
    assert!(matches!(plugin.update_account(3, false), Delivery::Grpc));
    plugin.on_load(Ok(Some(6))).unwrap();
    assert!(plugin.account_data_snapshot_notifications_enabled());
}

#[test]
fn a_closed_channel_is_reported_once() {
    let mut metrics = visible_metrics();
    let mut plugin = loaded(Some(5));
    assert!(!plugin.snapshot_sent(&mut metrics, true));
    assert!(plugin.snapshot_sent(&mut metrics, false));
    assert!(!plugin.snapshot_sent(&mut metrics, false));
    assert!(!plugin.snapshot_sent(&mut metrics, true));
    assert!(!plugin.snapshot_sent(&mut metrics, false));
    assert!(has_line(&metrics, "message_queue_size 2"));
    plugin.on_load(Ok(Some(5))).unwrap();
    assert!(plugin.snapshot_sent(&mut metrics, false));
}

#[test]
fn only_sent_messages_are_counted() {
    let mut metrics = visible_metrics();
    for sent in [true, false, true, true, false] {
        PluginInner::<u8>::send_message(&mut metrics, sent);
    }
    assert!(has_line(&metrics, "message_queue_size 3"));
}

#[test]
fn a_slot_status_is_sent_and_shown() {
    let mut metrics = visible_metrics();
    let plugin = loaded(None);
    plugin.update_slot_status(&mut metrics, &SlotStatus::Confirmed, 42, true);
    assert!(has_line(&metrics, "message_queue_size 1"));
    assert!(has_line(&metrics, "slot_status{status=\"confirmed\"} 42"));
    plugin.update_slot_status(&mut metrics, &SlotStatus::Confirmed, 43, false);
    assert!(has_line(&metrics, "message_queue_size 1"));
    assert!(has_line(&metrics, "slot_status{status=\"confirmed\"} 43"));
}

#[test]
fn other_records_are_counted_when_sent() {
    let mut metrics = visible_metrics();
    let plugin = loaded(Some(1));
    plugin.notify_transaction(&mut metrics, 2, true);
    assert!(has_line(&metrics, "message_queue_size 1"));
    plugin.notify_entry(&mut metrics, 2, true);
    assert!(has_line(&metrics, "message_queue_size 2"));
    plugin.notify_block_metadata(&mut metrics, 4, true);
    assert!(has_line(&metrics, "message_queue_size 3"));
    plugin.notify_transaction(&mut metrics, 2, false);
    plugin.notify_entry(&mut metrics, 2, false);
    plugin.notify_block_metadata(&mut metrics, 4, false);
    assert!(has_line(&metrics, "message_queue_size 3"));
}

#[test]
fn one_version_of_each_record_is_supported() {
    let supported = [
        (Record::Account, 3),
        (Record::Transaction, 2),
        (Record::Entry, 2),
        (Record::BlockMetadata, 4),
    ];
    for (record, version) in supported {
        for other in 0..=6u8 {
            assert_eq!(record.unsupported(other).is_none(), other == version);
        }
    }
    assert_eq!(
        Record::Account.unsupported(2).unwrap(),
        "ReplicaAccountInfoVersions::V0_0_2 is not supported"
    );
    assert_eq!(
        Record::Transaction.unsupported(1).unwrap(),
        "ReplicaAccountInfoVersions::V0_0_1 is not supported"
    );
    assert_eq!(
        Record::Entry.unsupported(1).unwrap(),
        "ReplicaEntryInfoVersions::V0_0_1 is not supported"
    );
    assert_eq!(
        Record::BlockMetadata.unsupported(3).unwrap(),
        "ReplicaBlockInfoVersions::V0_0_3 is not supported"
    );
}
