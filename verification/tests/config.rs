use yellowstone_grpc_geyser::config::{
    deserialize_int_str, deserialize_int_str_maybe, CompressionEncoding, CompressionSettings,
    Config, ConfigGrpc, ConfigGrpcCompression, ConfigGrpcServerTls, ConfigLog, ConfigPrometheus,
    ConfigTokio, GrpcSettings, Interval, Settings, SocketAddress, ValueIntStr,
};
use yellowstone_grpc_geyser::text::IntError;

fn local(port: u16) -> SocketAddress {
    SocketAddress::V4 { octets: [127, 0, 0, 1], port }
}

fn sparse_grpc() -> GrpcSettings<u8> {
    GrpcSettings {
        address: local(10_000),
        tls_config: None,
        compression: None,
        max_decoding_message_size: None,
        snapshot_plugin_channel_capacity: None,
        snapshot_client_channel_capacity: None,
        channel_capacity: None,
        unary_concurrency_limit: None,
        unary_disabled: None,
        filter_limits: 7,
        x_token: None,
        filter_name_size_limit: None,
        filter_names_size_limit: None,
        filter_names_cleanup_interval: None,
        replay_stored_slots: None,
        server_http2_adaptive_window: None,
        server_http2_keepalive_interval: None,
        server_http2_keepalive_timeout: None,
        server_initial_connection_window_size: None,
        server_initial_stream_window_size: None,
    }
}

fn str_value<T>(text: &str) -> ValueIntStr<T> {
    ValueIntStr::Str(text.to_owned())
}

#[test]
fn sparse_settings_get_the_defaults() {
    let config = Config::from_settings(Settings {
        libpath: "lib.so".to_owned(),
        log: None,
        tokio: None,
        grpc: sparse_grpc(),
        prometheus: None,
        debug_clients_http: None,
    });
    assert_eq!(config.libpath, "lib.so");
    assert_eq!(config.log.level, "info");
    assert_eq!(config.tokio.worker_threads, None);
    assert_eq!(config.tokio.affinity, None);
    assert!(config.prometheus.is_none());
    assert!(!config.debug_clients_http);
    assert_eq!(config.debug_client_channel("end"), None);
    let grpc = config.grpc;
    assert_eq!(grpc.address, local(10_000));
    assert!(grpc.tls_config.is_none());
    assert_eq!(grpc.compression.accept, vec![CompressionEncoding::Gzip]);
    assert_eq!(grpc.compression.send, vec![CompressionEncoding::Gzip]);
    assert_eq!(grpc.max_decoding_message_size, 4 * 1024 * 1024);
    assert_eq!(grpc.snapshot_plugin_channel_capacity, None);
    assert_eq!(grpc.snapshot_client_channel_capacity, 50_000_000);
    assert_eq!(grpc.channel_capacity, 250_000);
    assert_eq!(grpc.unary_concurrency_limit, tokio::sync::Semaphore::MAX_PERMITS);
    assert!(!grpc.unary_disabled);
    assert_eq!(grpc.filter_limits, 7);
    assert_eq!(grpc.x_token, None);
    assert_eq!(grpc.filter_name_size_limit, 128);
    assert_eq!(grpc.filter_names_size_limit, 4_096);
    assert_eq!(grpc.filter_names_cleanup_interval, Interval { secs: 1, nanos: 0 });
    assert_eq!(grpc.replay_stored_slots, 0);
    assert_eq!(grpc.server_http2_adaptive_window, None);
    assert_eq!(grpc.server_http2_keepalive_interval, None);
    assert_eq!(grpc.server_http2_keepalive_timeout, None);
    assert_eq!(grpc.server_initial_connection_window_size, None);
    assert_eq!(grpc.server_initial_stream_window_size, None);
}

#[test]
fn given_settings_are_kept() {
    let mut grpc = sparse_grpc();
    grpc.tls_config = Some(ConfigGrpcServerTls {
        cert_path: "cert".to_owned(),
        key_path: "key".to_owned(),
    });
    grpc.compression = Some(CompressionSettings {
        accept: Some(Vec::new()),
        send: Some(vec![CompressionEncoding::Zstd]),
    });
    grpc.max_decoding_message_size = Some(1);
    grpc.snapshot_plugin_channel_capacity = Some(Some(2));
    grpc.snapshot_client_channel_capacity = Some(3);
    grpc.channel_capacity = Some(4);
    grpc.unary_concurrency_limit = Some(5);
    grpc.unary_disabled = Some(true);
    grpc.x_token = Some("token".to_owned());
    grpc.filter_name_size_limit = Some(6);
    grpc.filter_names_size_limit = Some(7);
    grpc.filter_names_cleanup_interval = Some(Interval { secs: 0, nanos: 8 });
    grpc.replay_stored_slots = Some(9);
    grpc.server_http2_adaptive_window = Some(false);
    grpc.server_http2_keepalive_interval = Some(Interval { secs: 10, nanos: 0 });
    grpc.server_http2_keepalive_timeout = Some(Interval { secs: 11, nanos: 0 });
    grpc.server_initial_connection_window_size = Some(12);
    grpc.server_initial_stream_window_size = Some(13);
    let config = Config::from_settings(Settings {
        libpath: "lib.so".to_owned(),
        log: Some(ConfigLog { level: "debug".to_owned() }),
        tokio: Some(ConfigTokio { worker_threads: Some(2), affinity: Some(vec![0, 1]) }),
        grpc,
        prometheus: Some(ConfigPrometheus { address: local(8_999) }),
        debug_clients_http: Some(true),
    });
    assert_eq!(config.log.level, "debug");
    assert_eq!(config.tokio.worker_threads, Some(2));
    assert_eq!(config.tokio.affinity, Some(vec![0, 1]));
    assert_eq!(config.prometheus.unwrap().address, local(8_999));
    assert!(config.debug_clients_http);
    assert_eq!(config.debug_client_channel("end"), Some("end"));
    let grpc = config.grpc;
    let tls = grpc.tls_config.unwrap();
    assert_eq!((tls.cert_path.as_str(), tls.key_path.as_str()), ("cert", "key"));
    assert_eq!(grpc.compression.accept, Vec::new());
    assert_eq!(grpc.compression.send, vec![CompressionEncoding::Zstd]);
    assert_eq!(grpc.max_decoding_message_size, 1);
    assert_eq!(grpc.snapshot_plugin_channel_capacity, Some(2));
    assert_eq!(grpc.snapshot_client_channel_capacity, 3);
    assert_eq!(grpc.channel_capacity, 4);
    assert_eq!(grpc.unary_concurrency_limit, 5);
    assert!(grpc.unary_disabled);
    assert_eq!(grpc.x_token.as_deref(), Some("token"));
    assert_eq!(grpc.filter_name_size_limit, 6);
    assert_eq!(grpc.filter_names_size_limit, 7);
    assert_eq!(grpc.filter_names_cleanup_interval, Interval { secs: 0, nanos: 8 });
    assert_eq!(grpc.replay_stored_slots, 9);
    assert_eq!(grpc.server_http2_adaptive_window, Some(false));
    assert_eq!(grpc.server_http2_keepalive_interval, Some(Interval { secs: 10, nanos: 0 }));
    assert_eq!(grpc.server_http2_keepalive_timeout, Some(Interval { secs: 11, nanos: 0 }));
    assert_eq!(grpc.server_initial_connection_window_size, Some(12));
    assert_eq!(grpc.server_initial_stream_window_size, Some(13));
}

#[test]
fn a_null_capacity_is_kept() {
    let mut grpc = sparse_grpc();
    grpc.snapshot_plugin_channel_capacity = Some(None);
    assert_eq!(ConfigGrpc::from_settings(grpc).snapshot_plugin_channel_capacity, None);
}

#[test]
fn compression_may_be_given_in_part() {
    let compression = ConfigGrpcCompression::from_settings(CompressionSettings {
        accept: Some(vec![CompressionEncoding::Zstd]),
        send: None,
    });
    assert_eq!(compression.accept, vec![CompressionEncoding::Zstd]);
    assert_eq!(compression.send, vec![CompressionEncoding::Gzip]);
}

#[test]
fn the_largest_concurrency_is_the_default() {
    assert_eq!(ConfigGrpc::<u8>::unary_concurrency_limit_default(), usize::MAX >> 3);
}

#[test]
fn encodings_are_read_name_by_name() {
    let names = vec!["zstd".to_owned(), "gzip".to_owned(), "zstd".to_owned()];
    assert_eq!(
        ConfigGrpcCompression::deserialize_compression(&names).unwrap(),
        vec![CompressionEncoding::Zstd, CompressionEncoding::Gzip, CompressionEncoding::Zstd]
    );
    assert_eq!(
        ConfigGrpcCompression::deserialize_compression(&Vec::new()).unwrap(),
        Vec::new()
    );
}

#[test]
fn the_first_unknown_encoding_is_reported() {
    let names = vec!["gzip".to_owned(), "Gzip".to_owned(), "br".to_owned()];
    assert_eq!(
        ConfigGrpcCompression::deserialize_compression(&names).unwrap_err(),
        "Unknown compression format: Gzip"
    );
    let empty = vec![String::new()];
    assert_eq!(
        ConfigGrpcCompression::deserialize_compression(&empty).unwrap_err(),
        "Unknown compression format: "
    );
}

#[test]
fn numbers_come_as_such_or_as_text() {
    assert_eq!(deserialize_int_str(ValueIntStr::Int(5usize)), Ok(5));
    assert_eq!(deserialize_int_str::<usize>(str_value("4_194_304")), Ok(4_194_304));
    assert_eq!(deserialize_int_str::<u64>(str_value("1000")), Ok(1000));
    assert_eq!(deserialize_int_str_maybe::<usize>(None), Ok(None));
    assert_eq!(deserialize_int_str_maybe(Some(ValueIntStr::Int(6usize))), Ok(Some(6)));
    assert_eq!(deserialize_int_str_maybe::<usize>(Some(str_value("1_0"))), Ok(Some(10)));
    assert_eq!(
        deserialize_int_str_maybe::<usize>(Some(str_value("x"))),
        Err(IntError::InvalidDigit)
    );
}

#[test]
fn underscores_group_in_any_way() {
    for text in ["50000000", "50_000_000", "_5__0000000_", "+50_000_000", "0_050000000"] {
        assert_eq!(deserialize_int_str::<usize>(str_value(text)), Ok(50_000_000), "{text}");
    }
}

#[test]
fn each_number_error_has_its_text() {
    assert_eq!(deserialize_int_str::<u64>(str_value("")), Err(IntError::Empty));
    assert_eq!(deserialize_int_str::<u64>(str_value("_")), Err(IntError::Empty));
    assert_eq!(deserialize_int_str::<u64>(str_value("-1")), Err(IntError::InvalidDigit));
    assert_eq!(deserialize_int_str::<u64>(str_value("+")), Err(IntError::InvalidDigit));
    assert_eq!(
        deserialize_int_str::<u64>(str_value("18446744073709551616")),
        Err(IntError::PosOverflow)
    );
    assert_eq!(IntError::Empty.message(), "cannot parse integer from empty string");
    assert_eq!(IntError::InvalidDigit.message(), "invalid digit found in string");
    assert_eq!(IntError::PosOverflow.message(), "number too large to fit in target type");
}

#[test]
fn numbers_are_read_like_std_reads_them() {
    let mut texts: Vec<String> = vec![String::new()];
    let mut start = 0;
    for _ in 0..4 {
        let end = texts.len();
        for i in start..end {
            for c in ['0', '1', '9', '+', '-', '_', 'x', ' '] {
                texts.push(format!("{}{}", texts[i], c));
            }
        }
        start = end;
    }
    for text in [
        "18446744073709551614",
        "18446744073709551615",
        "18446744073709551616",
        "18446744073709551620",
        "184467440737095516150",
        "184467440737095516150x",
        "18446744073709551615x",
        "x18446744073709551616",
        "99999999999999999999999999",
        "00000000000000000000000000000001",
        "+18446744073709551615",
        "1e3",
        "\u{663}",
    ] {
        texts.push(text.to_owned());
    }
    for text in texts {
        let expected = text.replace('_', "").parse::<u64>().map_err(|error| error.to_string());
        let read = deserialize_int_str::<u64>(str_value(&text)).map_err(|error| error.message());
        assert_eq!(read, expected, "{text}");
        let expected = text.replace('_', "").parse::<usize>().map_err(|error| error.to_string());
        let read = deserialize_int_str::<usize>(str_value(&text)).map_err(|error| error.message());
        assert_eq!(read, expected, "{text}");
    }
}
