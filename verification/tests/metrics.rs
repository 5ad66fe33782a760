use yellowstone_grpc_geyser::metrics::{
    accepted, connections_total_dec, connections_total_inc, message_queue_size_dec,
    message_queue_size_inc, missed_status_message_inc, update_invalid_blocks,
    update_slot_plugin_status, update_slot_status, update_subscriptions, Metrics, SlotStatus,
};
use yellowstone_grpc_geyser::service::metrics_handler;
use yellowstone_grpc_geyser::version::Version;

fn build() -> Version {
    Version {
        package: "p",
        version: "v",
        proto: "pr",
        solana: "s",
        git: "g",
        rustc: "r",
        buildts: "b",
    }
}

fn registered() -> Metrics {
    let mut metrics = Metrics::new();
    metrics.register(&build()).unwrap();
    metrics
}

fn scrape(metrics: &Metrics) -> String {
    let reply = metrics_handler(metrics);
    assert_eq!(reply.status, 200);
    reply.body
}

fn shows(metrics: &Metrics, line: &str) -> bool {
    scrape(metrics).lines().any(|shown| shown == line)
}

#[test]
fn nothing_is_shown_before_registration() {
    let mut metrics = Metrics::new();
    message_queue_size_inc(&mut metrics);
    update_slot_plugin_status(&mut metrics, "processed", 3);
    assert_eq!(scrape(&metrics), "");
}

#[test]
fn registered_metrics_are_shown() {
    assert_eq!(
        scrape(&registered()),
        "# HELP connections_total Total number of connections to gRPC service\n\
         # TYPE connections_total gauge\n\
         connections_total 0\n\
         # HELP message_queue_size Size of geyser message queue\n\
         # TYPE message_queue_size gauge\n\
         message_queue_size 0\n\
         # HELP version Plugin version info\n\
         # TYPE version counter\n\
         version{buildts=\"b\",git=\"g\",package=\"p\",proto=\"pr\",rustc=\"r\",solana=\"s\",version=\"v\"} 1\n"
    );
}

#[test]
fn registration_happens_once() {
    let mut metrics = registered();
    let before = scrape(&metrics);
    metrics.register(&build()).unwrap();
    let mut other = build();
    other.git = "other";
    metrics.register(&other).unwrap();
    assert_eq!(scrape(&metrics), before);
}

#[test]
fn values_from_before_registration_are_kept() {
    let mut metrics = Metrics::new();
    message_queue_size_inc(&mut metrics);
    metrics.register(&build()).unwrap();
    assert!(shows(&metrics, "message_queue_size 1"));
}

#[test]
fn a_refused_collector_is_named() {
    assert!(accepted("version", Ok(())).is_ok());
    let refused = accepted("version", Err(prometheus::Error::AlreadyReg)).unwrap_err();
    assert_eq!(refused.name, "version");
    assert!(matches!(refused.error, prometheus::Error::AlreadyReg));
}

#[test]
fn registration_stays_the_same_whatever_is_shown_in_between() {
    let mut metrics = Metrics::new();
    message_queue_size_inc(&mut metrics);
    for slot in 0..3 {
        metrics.register(&build()).unwrap();
        update_slot_status(&mut metrics, &SlotStatus::Rooted, slot);
    }
    let shown = scrape(&metrics);
    assert_eq!(shown.matches("# TYPE version counter\n").count(), 1);
    assert_eq!(shown.matches("version=\"v\"} 1\n").count(), 1);
    assert_eq!(shown.matches("# TYPE ").count(), 4);
}

#[test]
fn label_values_that_run_together_share_a_gauge() {
    let mut metrics = registered();
    let one = vec![("c".to_owned(), 2usize)];
    let other = vec![("bc".to_owned(), 3usize)];
    update_subscriptions(&mut metrics, "ab", None, Some(&one));
    update_subscriptions(&mut metrics, "a", None, Some(&other));
    assert!(shows(&metrics, "subscriptions_total{endpoint=\"ab\",subscription=\"c\"} 5"));
    assert!(!scrape(&metrics).contains("subscription=\"bc\""));
}

#[test]
fn every_metric_has_its_help_text_and_labels() {
    let mut metrics = registered();
    update_slot_status(&mut metrics, &SlotStatus::Dead, 1);
    update_slot_plugin_status(&mut metrics, "s", 2);
    update_invalid_blocks(&mut metrics, "r");
    missed_status_message_inc(&mut metrics, "m");
    update_subscriptions(&mut metrics, "e", None, Some(&Vec::new()));
    assert_eq!(
        scrape(&metrics),
        "# HELP connections_total Total number of connections to gRPC service\n\
         # TYPE connections_total gauge\n\
         connections_total 0\n\
         # HELP invalid_full_blocks_total Total number of fails on constructin full blocks\n\
         # TYPE invalid_full_blocks_total gauge\n\
         invalid_full_blocks_total{reason=\"all\"} 1\n\
         invalid_full_blocks_total{reason=\"r\"} 1\n\
         # HELP message_queue_size Size of geyser message queue\n\
         # TYPE message_queue_size gauge\n\
         message_queue_size 0\n\
         # HELP missed_status_message_total Number of missed messages by commitment\n\
         # TYPE missed_status_message_total counter\n\
         missed_status_message_total{status=\"m\"} 1\n\
         # HELP slot_status Lastest received slot from Geyser\n\
         # TYPE slot_status gauge\n\
         slot_status{status=\"dead\"} 1\n\
         # HELP slot_status_plugin Latest processed slot in the plugin to client queues\n\
         # TYPE slot_status_plugin gauge\n\
         slot_status_plugin{status=\"s\"} 2\n\
         # HELP subscriptions_total Total number of subscriptions to gRPC service\n\
         # TYPE subscriptions_total gauge\n\
         subscriptions_total{endpoint=\"e\",subscription=\"grpc_total\"} 1\n\
         # HELP version Plugin version info\n\
         # TYPE version counter\n\
         version{buildts=\"b\",git=\"g\",package=\"p\",proto=\"pr\",rustc=\"r\",solana=\"s\",version=\"v\"} 1\n"
    );
}

#[test]
fn slot_statuses_show_the_latest_slot() {
    let mut metrics = registered();
    let statuses = [
        (SlotStatus::Processed, "processed"),
        (SlotStatus::Rooted, "rooted"),
        (SlotStatus::Confirmed, "confirmed"),
        (SlotStatus::FirstShredReceived, "first_shred_received"),
        (SlotStatus::Completed, "completed"),
        (SlotStatus::CreatedBank, "created_bank"),
        (SlotStatus::Dead, "dead"),
    ];
    for (i, (status, name)) in statuses.iter().enumerate() {
        assert_eq!(status.as_str(), *name);
        update_slot_status(&mut metrics, status, 10 + i as u64);
    }
    for (i, (_, name)) in statuses.iter().enumerate() {
        let line = format!("slot_status{{status=\"{name}\"}} {}", 10 + i);
        assert!(shows(&metrics, &line), "{line}");
    }
    update_slot_status(&mut metrics, &SlotStatus::Dead, 3);
    assert!(shows(&metrics, "slot_status{status=\"dead\"} 3"));
    assert!(shows(&metrics, "# HELP slot_status Lastest received slot from Geyser"));
}

#[test]
fn a_slot_beyond_the_signed_range_wraps() {
    let mut metrics = registered();
    update_slot_status(&mut metrics, &SlotStatus::Rooted, u64::MAX);
    assert!(shows(&metrics, "slot_status{status=\"rooted\"} -1"));
}

#[test]
fn plugin_statuses_show_the_latest_slot() {
    let mut metrics = registered();
    update_slot_plugin_status(&mut metrics, "confirmed", 8);
    update_slot_plugin_status(&mut metrics, "confirmed", 9);
    assert!(shows(&metrics, "slot_status_plugin{status=\"confirmed\"} 9"));
    assert!(shows(
        &metrics,
        "# HELP slot_status_plugin Latest processed slot in the plugin to client queues"
    ));
}

#[test]
fn an_invalid_block_counts_twice() {
    let mut metrics = registered();
    update_invalid_blocks(&mut metrics, "first");
    update_invalid_blocks(&mut metrics, "second");
    update_invalid_blocks(&mut metrics, "first");
    assert!(shows(&metrics, "invalid_full_blocks_total{reason=\"first\"} 2"));
    assert!(shows(&metrics, "invalid_full_blocks_total{reason=\"second\"} 1"));
    assert!(shows(&metrics, "invalid_full_blocks_total{reason=\"all\"} 3"));
    update_invalid_blocks(&mut metrics, "all");
    assert!(shows(&metrics, "invalid_full_blocks_total{reason=\"all\"} 5"));
    assert!(shows(
        &metrics,
        "# HELP invalid_full_blocks_total Total number of fails on constructin full blocks"
    ));
}

#[test]
fn messages_and_connections_go_in_and_out() {
    let mut metrics = registered();
    for _ in 0..3 {
        message_queue_size_inc(&mut metrics);
    }
    message_queue_size_dec(&mut metrics);
    connections_total_inc(&mut metrics);
    connections_total_dec(&mut metrics);
    connections_total_dec(&mut metrics);
    assert!(shows(&metrics, "message_queue_size 2"));
    assert!(shows(&metrics, "connections_total -1"));
}

#[test]
fn missed_messages_are_counted() {
    let mut metrics = registered();
    missed_status_message_inc(&mut metrics, "finalized");
    missed_status_message_inc(&mut metrics, "finalized");
    assert!(shows(&metrics, "missed_status_message_total{status=\"finalized\"} 2"));
    assert!(shows(&metrics, "# TYPE missed_status_message_total counter"));
    assert!(shows(
        &metrics,
        "# HELP missed_status_message_total Number of missed messages by commitment"
    ));
}

#[test]
fn subscriptions_follow_the_filter() {
    let mut metrics = registered();
    let small = vec![("accounts".to_owned(), 2usize), ("slots".to_owned(), 1usize)];
    let large = vec![("accounts".to_owned(), 5usize), ("all".to_owned(), 6usize)];
    update_subscriptions(&mut metrics, "ep", None, Some(&small));
    assert!(shows(&metrics, "subscriptions_total{endpoint=\"ep\",subscription=\"grpc_total\"} 1"));
    assert!(shows(&metrics, "subscriptions_total{endpoint=\"ep\",subscription=\"accounts\"} 2"));
    assert!(shows(&metrics, "subscriptions_total{endpoint=\"ep\",subscription=\"slots\"} 1"));
    update_subscriptions(&mut metrics, "ep", Some(&small), Some(&large));
    assert!(shows(&metrics, "subscriptions_total{endpoint=\"ep\",subscription=\"grpc_total\"} 1"));
    assert!(shows(&metrics, "subscriptions_total{endpoint=\"ep\",subscription=\"accounts\"} 5"));
    assert!(shows(&metrics, "subscriptions_total{endpoint=\"ep\",subscription=\"slots\"} 0"));
    assert!(shows(&metrics, "subscriptions_total{endpoint=\"ep\",subscription=\"all\"} 6"));
    update_subscriptions(&mut metrics, "ep", Some(&large), None);
    for name in ["grpc_total", "accounts", "slots", "all"] {
        let line = format!("subscriptions_total{{endpoint=\"ep\",subscription=\"{name}\"}} 0");
        assert!(shows(&metrics, &line), "{line}");
    }
    assert!(shows(
        &metrics,
        "# HELP subscriptions_total Total number of subscriptions to gRPC service"
    ));
}

#[test]
fn a_filter_may_be_reached_by_way_of_another() {
    let first = vec![("blocks".to_owned(), 3usize)];
    let second = vec![("blocks".to_owned(), 8usize), ("blocks".to_owned(), 1usize)];
    let mut by_way = registered();
    update_subscriptions(&mut by_way, "ep", None, Some(&first));
    update_subscriptions(&mut by_way, "ep", Some(&first), Some(&second));
    let mut at_once = registered();
    update_subscriptions(&mut at_once, "ep", None, Some(&second));
    assert_eq!(scrape(&by_way), scrape(&at_once));
    assert!(shows(&at_once, "subscriptions_total{endpoint=\"ep\",subscription=\"blocks\"} 9"));
}

#[test]
fn endpoints_are_kept_apart() {
    let mut metrics = registered();
    let filter = vec![("slots".to_owned(), 4usize)];
    update_subscriptions(&mut metrics, "one", None, Some(&filter));
    update_subscriptions(&mut metrics, "two", None, Some(&filter));
    update_subscriptions(&mut metrics, "one", Some(&filter), None);
    assert!(shows(&metrics, "subscriptions_total{endpoint=\"one\",subscription=\"slots\"} 0"));
    assert!(shows(&metrics, "subscriptions_total{endpoint=\"two\",subscription=\"slots\"} 4"));
}
