use yellowstone_grpc_geyser::config::{ConfigPrometheus, SocketAddress};
use yellowstone_grpc_geyser::debug_clients::{DebugClientMessage, DebugClientStatuses};
use yellowstone_grpc_geyser::metrics::Metrics;
use yellowstone_grpc_geyser::service::{
    debug_clients_handler, metrics_handler, metrics_reply, not_found_handler, ListenerEvent,
    ListenerStep, PrometheusService, Route, StatusesAnswer,
};
use yellowstone_grpc_geyser::version::{GrpcVersionInfo, Version};

const BUILD: Version = Version {
    package: "yellowstone-grpc-geyser",
    version: "1.2.3",
    proto: "4.5.6",
    solana: "2.3",
    git: "abc",
    rustc: "1.80",
    buildts: "now",
};

const ADDRESS: SocketAddress =
    SocketAddress::V6 { segments: [0, 0, 0, 0, 0, 0, 0, 1], port: 8999, flowinfo: 0, scope_id: 0 };

fn filter(id: usize, filter: &str) -> DebugClientMessage {
    DebugClientMessage::UpdateFilter { id, filter: filter.to_owned() }
}

fn start(config: bool, debug_clients: bool) -> PrometheusService {
    let config = if config { Some(ConfigPrometheus { address: ADDRESS }) } else { None };
    PrometheusService::new(&mut Metrics::new(), &BUILD, config, debug_clients).unwrap()
}

#[test]
fn the_service_listens_where_configured() {
    assert_eq!(start(true, true).listen, Some(ADDRESS));
    assert_eq!(start(false, true).listen, None);
    assert!(start(true, true).debug_clients);
    assert!(!start(true, false).debug_clients);
    assert!(!start(false, true).debug_clients);
}

#[test]
fn the_service_registers_the_metrics_once() {
    let mut metrics = Metrics::new();
    PrometheusService::new(&mut metrics, &BUILD, None, false).unwrap();
    let shown = metrics_handler(&metrics).body;
    assert!(shown.contains("version=\"1.2.3\"} 1\n"));
    PrometheusService::new(&mut metrics, &BUILD, None, false).unwrap();
    assert_eq!(metrics_handler(&metrics).body, shown);
}

#[test]
fn requests_are_routed_by_path() {
    let tracking = start(true, true);
    assert_eq!(tracking.route("/metrics"), Route::Metrics);
    assert_eq!(tracking.route("/debug_clients"), Route::DebugClients);
    for path in ["", "/", "/metrics/", "/Metrics", "metrics", "/debug_clients/"] {
        assert_eq!(tracking.route(path), Route::NotFound, "{path}");
    }
    let plain = start(true, false);
    assert_eq!(plain.route("/metrics"), Route::Metrics);
    assert_eq!(plain.route("/debug_clients"), Route::NotFound);
}

#[test]
fn requests_are_answered_by_path() {
    let mut metrics = Metrics::new();
    let config = Some(ConfigPrometheus { address: ADDRESS });
    let tracking = PrometheusService::new(&mut metrics, &BUILD, config, true).unwrap();
    let answered = || Some(StatusesAnswer::Answered("lines\n".to_owned()));
    let reply = tracking.respond(&metrics, "/metrics", None);
    assert_eq!((reply.status, reply.body), (200, metrics_handler(&metrics).body));
    let reply = tracking.respond(&metrics, "/debug_clients", answered());
    assert_eq!((reply.status, reply.body.as_str()), (200, "lines\n"));
    let reply = tracking.respond(&metrics, "/debug_clients", Some(StatusesAnswer::NotSent));
    assert_eq!((reply.status, reply.body.as_str()), (500, "failed to send request"));
    let reply = tracking.respond(&metrics, "/other", answered());
    assert_eq!((reply.status, reply.body.as_str()), (404, ""));
    let plain = PrometheusService::new(&mut metrics, &BUILD, config, false).unwrap();
    let reply = plain.respond(&metrics, "/debug_clients", answered());
    assert_eq!((reply.status, reply.body.as_str()), (404, ""));
}

#[test]
fn replies_have_their_status_and_body() {
    let reply = not_found_handler();
    assert_eq!((reply.status, reply.body.as_str()), (404, ""));
    let reply = debug_clients_handler(StatusesAnswer::Answered("lines\n".to_owned()));
    assert_eq!((reply.status, reply.body.as_str()), (200, "lines\n"));
    let reply = debug_clients_handler(StatusesAnswer::NotSent);
    assert_eq!((reply.status, reply.body.as_str()), (500, "failed to send request"));
    let reply = debug_clients_handler(StatusesAnswer::NotAnswered);
    assert_eq!((reply.status, reply.body.as_str()), (500, "failed to wait response"));
    let reply = metrics_reply(Ok("text".to_owned()));
    assert_eq!((reply.status, reply.body.as_str()), (200, "text"));
    let reply = metrics_reply(Err(prometheus::Error::AlreadyReg));
    assert_eq!((reply.status, reply.body.as_str()), (200, ""));
}

#[test]
fn only_connections_keep_the_listener_going() {
    assert_eq!(PrometheusService::next_step(ListenerEvent::Connected), ListenerStep::Serve);
    assert_eq!(PrometheusService::next_step(ListenerEvent::Shutdown), ListenerStep::Stop);
    assert_eq!(PrometheusService::next_step(ListenerEvent::AcceptFailed), ListenerStep::Stop);
}

#[test]
fn clients_are_shown_in_the_order_of_their_numbers() {
    let mut statuses = DebugClientStatuses::new();
    assert_eq!(statuses.get_statuses(), "");
    statuses.update(filter(12, "F12"));
    statuses.update(filter(3, "F3"));
    statuses.update(DebugClientMessage::UpdateSlot { id: 12, slot: 77 });
    assert_eq!(statuses.get_statuses(), "client#000003, 0, F3\nclient#000012, 77, F12\n");
    statuses.update(filter(1_234_567, ""));
    assert_eq!(
        statuses.get_statuses(),
        "client#000003, 0, F3\nclient#000012, 77, F12\nclient#1234567, 0, \n"
    );
}

#[test]
fn a_message_concerns_one_client() {
    let mut statuses = DebugClientStatuses::new();
    statuses.update(filter(1, "one"));
    statuses.update(filter(2, "two"));
    statuses.update(DebugClientMessage::UpdateSlot { id: 1, slot: 5 });
    statuses.update(filter(1, "uno"));
    assert_eq!(statuses.get_statuses(), "client#000001, 5, uno\nclient#000002, 0, two\n");
    statuses.update(DebugClientMessage::Removed { id: 2 });
    assert_eq!(statuses.get_statuses(), "client#000001, 5, uno\n");
}

#[test]
fn a_removed_client_starts_anew() {
    let mut statuses = DebugClientStatuses::new();
    statuses.update(filter(1, "one"));
    statuses.update(DebugClientMessage::UpdateSlot { id: 1, slot: 5 });
    statuses.update(DebugClientMessage::Removed { id: 1 });
    statuses.update(DebugClientMessage::UpdateSlot { id: 1, slot: 6 });
    assert_eq!(statuses.get_statuses(), "");
    statuses.update(filter(1, "one"));
    assert_eq!(statuses.get_statuses(), "client#000001, 0, one\n");
}

#[test]
fn messages_are_made_only_for_a_listener() {
    let made = DebugClientMessage::maybe_send(true, || DebugClientMessage::Removed { id: 4 });
    assert!(matches!(made, Some(DebugClientMessage::Removed { id: 4 })));
    assert!(DebugClientMessage::maybe_send(false, || unreachable!()).is_none());
}

#[test]
fn the_version_is_shown() {
    assert_eq!(
        BUILD.display(),
        "solana-geyser-grpc=1.2.3, proto=4.5.6, solana=2.3, git=abc, rustc=1.80, buildts=now"
    );
    assert_eq!(BUILD.plugin_name(), "yellowstone-grpc-geyser-1.2.3");
    let named = GrpcVersionInfo::with_hostname(BUILD, Some("box".to_owned()));
    assert_eq!(named.display(), format!("{}, hostname=box", BUILD.display()));
    let unnamed = GrpcVersionInfo::with_hostname(BUILD, None);
    assert_eq!(unnamed.display(), BUILD.display());
}

#[test]
fn the_machine_gives_the_host_name() {
    let info = GrpcVersionInfo::get(BUILD);
    assert_eq!(info.version.display(), BUILD.display());
    assert_eq!(info.extra.hostname, hostname::get().ok().and_then(|name| name.into_string().ok()));
}
