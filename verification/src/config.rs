//! Plugin configuration.
use vstd::prelude::*;
use crate::taskset::{is_outcome, parse_taskset, taskset_cores};
use crate::text::{chars_of, parse_unsigned, remove_char, unsigned, without, IntError};

verus! {

/// Reads `tokio::sync::Semaphore::MAX_PERMITS`, the largest number of permits that a semaphore
/// can hold. It is documented as `usize::MAX >> 3`.
#[verifier::external_body]
fn max_permits() -> (r: usize)
    ensures
        r == usize::MAX >> 3usize,
{
    tokio::sync::Semaphore::MAX_PERMITS
}

/// The value, or the default where there is none.
pub open spec fn or_default<T>(value: Option<T>, default: T) -> T {
    match value {
        Some(value) => value,
        None => default,
    }
}

/// The address of a service: an IP address and a port.
#[derive(Debug, Clone, Copy, PartialEq, Eq)]
pub enum SocketAddress {
    /// An IPv4 address, octet by octet, and a port.
    V4 { octets: [u8; 4], port: u16 },
    /// An IPv6 address, segment by segment, and a port.
    V6 { segments: [u16; 8], port: u16, flowinfo: u32, scope_id: u32 },
}

/// A span of time.
#[derive(Debug, Clone, Copy, PartialEq, Eq, Structural)]
pub struct Interval {
    /// The whole seconds.
    pub secs: u64,
    /// The nanoseconds beyond the whole seconds.
    pub nanos: u32,
}

/// The main configuration for the plugin. It is loaded from a JSON file. `L` are the limits
/// for filters, which only the gRPC service reads.
#[derive(Debug, Clone)]
pub struct Config<L> {
    /// Path to the plugin's shared library.
    pub libpath: String,
    /// Logging configuration.
    pub log: ConfigLog,
    /// Tokio runtime configuration.
    pub tokio: ConfigTokio,
    /// gRPC service configuration.
    pub grpc: ConfigGrpc<L>,
    /// Prometheus metrics endpoint configuration.
    pub prometheus: Option<ConfigPrometheus>,
    /// Collect client filters, processed slot and make it available on prometheus port
    /// `/debug_clients`.
    pub debug_clients_http: bool,
}

/// What a configuration file says. `None` stands for a key that it leaves out.
#[derive(Debug, Clone)]
pub struct Settings<L> {
    /// Path to the plugin's shared library.
    pub libpath: String,
    /// Logging configuration.
    pub log: Option<ConfigLog>,
    /// Tokio runtime configuration.
    pub tokio: Option<ConfigTokio>,
    /// gRPC service configuration.
    pub grpc: GrpcSettings<L>,
    /// Prometheus metrics endpoint configuration.
    pub prometheus: Option<ConfigPrometheus>,
    /// Collect the state of the clients.
    pub debug_clients_http: Option<bool>,
}

impl<L> Config<L> {
    /// Hands on an end of the channel for the state of the clients, where that state is to be
    /// collected.
    pub fn debug_client_channel<T>(&self, end: T) -> (r: Option<T>)
        ensures
            r == if self.debug_clients_http {
                Some(end)
            } else {
                None
            },
    {
        if self.debug_clients_http {
            Some(end)
        } else {
            None
        }
    }

    /// The configuration that a file gives: what it says, and the defaults for what it leaves
    /// out.
    pub fn from_settings(settings: Settings<L>) -> (r: Self)
        ensures
            r.libpath == settings.libpath,
            settings.log matches Some(log) ==> r.log == log,
            settings.log is None ==> r.log.is_default(),
            settings.tokio matches Some(tokio) ==> r.tokio == tokio,
            settings.tokio is None ==> r.tokio.is_default(),
            r.grpc.is_given_by(settings.grpc),
            r.prometheus == settings.prometheus,
            r.debug_clients_http == or_default(settings.debug_clients_http, false),
    {
        Config {
            libpath: settings.libpath,
            log: match settings.log {
                Some(log) => log,
                None => ConfigLog::default(),
            },
            tokio: match settings.tokio {
                Some(tokio) => tokio,
                None => ConfigTokio::default(),
            },
            grpc: ConfigGrpc::from_settings(settings.grpc),
            prometheus: settings.prometheus,
            debug_clients_http: match settings.debug_clients_http {
                Some(enabled) => enabled,
                None => false,
            },
        }
    }
}

/// Logging configuration.
#[derive(Debug, Clone)]
pub struct ConfigLog {
    /// Log level.
    pub level: String,
}

impl ConfigLog {
    /// Whether this is the configuration of a file that says nothing of logging.
    pub open spec fn is_default(self) -> bool {
        self.level@ == "info"@
    }

    /// The log level of a file that gives none.
    pub fn default_level() -> (r: String)
        ensures
            r@ == "info"@,
    {
        "info".to_owned()
    }
}

impl Default for ConfigLog {
    fn default() -> (r: Self)
        ensures
            r.is_default(),
    {
        ConfigLog { level: Self::default_level() }
    }
}

/// What comes of a list of cores that a file gives.
pub open spec fn given(result: Result<Option<Vec<usize>>, String>) -> Result<
    Vec<usize>,
    String,
> {
    match result {
        Ok(list) => Ok(list->0),
        Err(message) => Err(message),
    }
}

/// Tokio runtime configuration.
#[derive(Debug, Clone)]
pub struct ConfigTokio {
    /// Number of worker threads in Tokio runtime.
    pub worker_threads: Option<usize>,
    /// Threads affinity. A list of CPU cores to which the Tokio worker threads will be bound.
    pub affinity: Option<Vec<usize>>,
}

impl ConfigTokio {
    /// Whether this is the configuration of a file that says nothing of the runtime.
    pub open spec fn is_default(self) -> bool {
        self.worker_threads is None && self.affinity is None
    }

    /// Reads the `affinity` field: a comma-separated list of cores and ranges (e.g.,
    /// "0,1,2-4"), or nothing.
    pub fn deserialize_affinity(taskset: Option<&str>) -> (r: Result<Option<Vec<usize>>, String>)
        ensures
            taskset is None ==> r == Ok::<Option<Vec<usize>>, String>(None),
            taskset is Some && r is Ok ==> r->Ok_0 is Some,
            taskset matches Some(taskset) ==> {
                &&& exists|bound: Option<Seq<usize>>| #[trigger]
                    is_outcome(given(r), taskset@, bound)
                &&& taskset_cores(taskset@) is Err ==> is_outcome(given(r), taskset@, None)
            },
    {
        match taskset {
            Some(taskset) => match parse_taskset(taskset) {
                Ok(cores) => Ok(Some(cores)),
                Err(message) => Err(message),
            },
            None => Ok(None),
        }
    }
}

impl Default for ConfigTokio {
    fn default() -> (r: Self)
        ensures
            r.is_default(),
    {
        ConfigTokio { worker_threads: None, affinity: None }
    }
}

/// gRPC service configuration.
#[derive(Debug, Clone)]
pub struct ConfigGrpc<L> {
    /// Address of Grpc service.
    pub address: SocketAddress,
    /// TLS configuration for the gRPC server.
    pub tls_config: Option<ConfigGrpcServerTls>,
    /// Possible compression options
    pub compression: ConfigGrpcCompression,
    /// Limits the maximum size of a decoded message, default is 4MiB
    pub max_decoding_message_size: usize,
    /// Capacity of the channel used for accounts from snapshot,
    /// on reaching the limit Sender block validator startup.
    pub snapshot_plugin_channel_capacity: Option<usize>,
    /// Capacity of the client channel, applicable only with snapshot
    pub snapshot_client_channel_capacity: usize,
    /// Capacity of the channel per connection
    pub channel_capacity: usize,
    /// Concurrency limit for unary requests
    pub unary_concurrency_limit: usize,
    /// Enable/disable unary methods
    pub unary_disabled: bool,
    /// Limits for possible filters
    pub filter_limits: L,
    /// x_token to enforce on connections
    pub x_token: Option<String>,
    /// Filter name size limit
    pub filter_name_size_limit: usize,
    /// Number of cached filter names before doing cleanup
    pub filter_names_size_limit: usize,
    /// Cleanup interval once filter names reached `filter_names_size_limit`
    pub filter_names_cleanup_interval: Interval,
    /// Number of slots stored for re-broadcast (replay)
    pub replay_stored_slots: u64,
    /// Enables or disables the HTTP/2 adaptive window size.
    pub server_http2_adaptive_window: Option<bool>,
    /// The interval for sending HTTP/2 keepalive pings.
    pub server_http2_keepalive_interval: Option<Interval>,
    /// The timeout for receiving an acknowledgement of a keepalive ping.
    pub server_http2_keepalive_timeout: Option<Interval>,
    /// The initial connection-level window size for HTTP/2.
    pub server_initial_connection_window_size: Option<u32>,
    /// The initial stream-level window size for HTTP/2.
    pub server_initial_stream_window_size: Option<u32>,
}

/// What a configuration file says of the gRPC service. `None` stands for a key that it leaves
/// out.
#[derive(Debug, Clone)]
pub struct GrpcSettings<L> {
    /// Address of Grpc service.
    pub address: SocketAddress,
    /// TLS configuration for the gRPC server.
    pub tls_config: Option<ConfigGrpcServerTls>,
    /// Possible compression options.
    pub compression: Option<CompressionSettings>,
    /// Limits the maximum size of a decoded message.
    pub max_decoding_message_size: Option<usize>,
    /// Capacity of the channel used for accounts from snapshot.
    pub snapshot_plugin_channel_capacity: Option<Option<usize>>,
    /// Capacity of the client channel, applicable only with snapshot.
    pub snapshot_client_channel_capacity: Option<usize>,
    /// Capacity of the channel per connection.
    pub channel_capacity: Option<usize>,
    /// Concurrency limit for unary requests.
    pub unary_concurrency_limit: Option<usize>,
    /// Enable/disable unary methods.
    pub unary_disabled: Option<bool>,
    /// Limits for possible filters.
    pub filter_limits: L,
    /// The token to enforce on connections.
    pub x_token: Option<String>,
    /// Filter name size limit.
    pub filter_name_size_limit: Option<usize>,
    /// Number of cached filter names before doing cleanup.
    pub filter_names_size_limit: Option<usize>,
    /// Cleanup interval once filter names reached their limit.
    pub filter_names_cleanup_interval: Option<Interval>,
    /// Number of slots stored for re-broadcast.
    pub replay_stored_slots: Option<u64>,
    /// Enables or disables the HTTP/2 adaptive window size.
    pub server_http2_adaptive_window: Option<bool>,
    /// The interval for sending HTTP/2 keepalive pings.
    pub server_http2_keepalive_interval: Option<Interval>,
    /// The timeout for receiving an acknowledgement of a keepalive ping.
    pub server_http2_keepalive_timeout: Option<Interval>,
    /// The initial connection-level window size for HTTP/2.
    pub server_initial_connection_window_size: Option<u32>,
    /// The initial stream-level window size for HTTP/2.
    pub server_initial_stream_window_size: Option<u32>,
}

impl<L> ConfigGrpc<L> {
    /// Whether this is the configuration for what a file says: each value is the one that the
    /// file gives, or the default of its key.
    pub open spec fn is_given_by(self, settings: GrpcSettings<L>) -> bool {
        &&& self.address == settings.address
        &&& self.tls_config == settings.tls_config
        &&& match settings.compression {
            Some(compression) => self.compression.is_given_by(compression),
            None => self.compression.is_default(),
        }
        &&& self.max_decoding_message_size == or_default(
            settings.max_decoding_message_size,
            4_194_304,
        )
        &&& self.snapshot_plugin_channel_capacity == or_default(
            settings.snapshot_plugin_channel_capacity,
            None,
        )
        &&& self.snapshot_client_channel_capacity == or_default(
            settings.snapshot_client_channel_capacity,
            50_000_000,
        )
        &&& self.channel_capacity == or_default(settings.channel_capacity, 250_000)
        &&& self.unary_concurrency_limit == or_default(
            settings.unary_concurrency_limit,
            usize::MAX >> 3usize,
        )
        &&& self.unary_disabled == or_default(settings.unary_disabled, false)
        &&& self.filter_limits == settings.filter_limits
        &&& self.x_token == settings.x_token
        &&& self.filter_name_size_limit == or_default(settings.filter_name_size_limit, 128)
        &&& self.filter_names_size_limit == or_default(settings.filter_names_size_limit, 4_096)
        &&& self.filter_names_cleanup_interval == or_default(
            settings.filter_names_cleanup_interval,
            Interval { secs: 1, nanos: 0 },
        )
        &&& self.replay_stored_slots == or_default(settings.replay_stored_slots, 0)
        &&& self.server_http2_adaptive_window == settings.server_http2_adaptive_window
        &&& self.server_http2_keepalive_interval == settings.server_http2_keepalive_interval
        &&& self.server_http2_keepalive_timeout == settings.server_http2_keepalive_timeout
        &&& self.server_initial_connection_window_size
            == settings.server_initial_connection_window_size
        &&& self.server_initial_stream_window_size == settings.server_initial_stream_window_size
    }

    /// The configuration of the gRPC service: what a file says, and the defaults for what it
    /// leaves out.
    pub fn from_settings(settings: GrpcSettings<L>) -> (r: Self)
        ensures
            r.is_given_by(settings),
    {
        ConfigGrpc {
            address: settings.address,
            tls_config: settings.tls_config,
            compression: match settings.compression {
                Some(compression) => ConfigGrpcCompression::from_settings(compression),
                None => ConfigGrpcCompression::default(),
            },
            max_decoding_message_size: match settings.max_decoding_message_size {
                Some(size) => size,
                None => Self::max_decoding_message_size_default(),
            },
            snapshot_plugin_channel_capacity: match settings.snapshot_plugin_channel_capacity {
                Some(capacity) => capacity,
                None => Self::snapshot_plugin_channel_capacity_default(),
            },
            snapshot_client_channel_capacity: match settings.snapshot_client_channel_capacity {
                Some(capacity) => capacity,
                None => Self::snapshot_client_channel_capacity_default(),
            },
            channel_capacity: match settings.channel_capacity {
                Some(capacity) => capacity,
                None => Self::channel_capacity_default(),
            },
            unary_concurrency_limit: match settings.unary_concurrency_limit {
                Some(limit) => limit,
                None => Self::unary_concurrency_limit_default(),
            },
            unary_disabled: match settings.unary_disabled {
                Some(disabled) => disabled,
                None => false,
            },
            filter_limits: settings.filter_limits,
            x_token: settings.x_token,
            filter_name_size_limit: match settings.filter_name_size_limit {
                Some(limit) => limit,
                None => Self::default_filter_name_size_limit(),
            },
            filter_names_size_limit: match settings.filter_names_size_limit {
                Some(limit) => limit,
                None => Self::default_filter_names_size_limit(),
            },
            filter_names_cleanup_interval: match settings.filter_names_cleanup_interval {
                Some(interval) => interval,
                None => Self::default_filter_names_cleanup_interval(),
            },
            replay_stored_slots: match settings.replay_stored_slots {
                Some(slots) => slots,
                None => Self::default_replay_stored_slots(),
            },
            server_http2_adaptive_window: settings.server_http2_adaptive_window,
            server_http2_keepalive_interval: settings.server_http2_keepalive_interval,
            server_http2_keepalive_timeout: settings.server_http2_keepalive_timeout,
            server_initial_connection_window_size: settings.server_initial_connection_window_size,
            server_initial_stream_window_size: settings.server_initial_stream_window_size,
        }
    }

    /// The default for the maximum size of a decoded message: 4 MiB.
    pub fn max_decoding_message_size_default() -> (r: usize)
        ensures
            r == 4 * 1024 * 1024,
    {
        4 * 1024 * 1024
    }

    /// The default for the capacity of the snapshot channel: none is set.
    pub fn snapshot_plugin_channel_capacity_default() -> (r: Option<usize>)
        ensures
            r is None,
    {
        None
    }

    /// The default for the capacity of the client channel with snapshot.
    pub fn snapshot_client_channel_capacity_default() -> (r: usize)
        ensures
            r == 50_000_000,
    {
        50_000_000
    }

    /// The default for the capacity of the channel per connection.
    pub fn channel_capacity_default() -> (r: usize)
        ensures
            r == 250_000,
    {
        250_000
    }

    /// The default for the number of unary requests at a time: as many as a semaphore admits.
    pub fn unary_concurrency_limit_default() -> (r: usize)
        ensures
            r == usize::MAX >> 3usize,
    {
        max_permits()
    }

    /// The default for the size of a filter name.
    pub fn default_filter_name_size_limit() -> (r: usize)
        ensures
            r == 128,
    {
        128
    }

    /// The default for the number of cached filter names.
    pub fn default_filter_names_size_limit() -> (r: usize)
        ensures
            r == 4_096,
    {
        4_096
    }

    /// The default for the interval of cleaning up filter names: a second.
    pub fn default_filter_names_cleanup_interval() -> (r: Interval)
        ensures
            r == (Interval { secs: 1, nanos: 0 }),
    {
        Interval { secs: 1, nanos: 0 }
    }

    /// The default for the number of slots that are kept for replay.
    pub fn default_replay_stored_slots() -> (r: u64)
        ensures
            r == 0,
    {
        0
    }
}

/// TLS configuration for the gRPC server.
#[derive(Debug, Clone)]
pub struct ConfigGrpcServerTls {
    /// Path to the server's certificate file.
    pub cert_path: String,
    /// Path to the server's private key file.
    pub key_path: String,
}

/// A compression of messages.
#[derive(Debug, Clone, Copy, PartialEq, Eq, Structural)]
pub enum CompressionEncoding {
    /// The gzip format.
    Gzip,
    /// The Zstandard format.
    Zstd,
}

/// The compression that a text names.
pub open spec fn encoding_named(name: Seq<char>) -> Option<CompressionEncoding> {
    if name == "gzip"@ {
        Some(CompressionEncoding::Gzip)
    } else if name == "zstd"@ {
        Some(CompressionEncoding::Zstd)
    } else {
        None
    }
}

/// The compressions that a list of texts names, or the first text that names none.
pub open spec fn encodings_named(names: Seq<String>) -> Result<
    Seq<CompressionEncoding>,
    Seq<char>,
>
    decreases names.len(),
{
    if names.len() == 0 {
        Ok(Seq::<CompressionEncoding>::empty())
    } else {
        match encodings_named(names.drop_last()) {
            Err(unknown) => Err(unknown),
            Ok(encodings) => match encoding_named(names.last()@) {
                Some(encoding) => Ok(encodings.push(encoding)),
                None => Err(names.last()@),
            },
        }
    }
}

/// gRPC compression configuration.
#[derive(Debug, Clone)]
pub struct ConfigGrpcCompression {
    /// A list of compression encodings that the server will accept from clients.
    pub accept: Vec<CompressionEncoding>,
    /// A list of compression encodings that the server will use to send messages.
    pub send: Vec<CompressionEncoding>,
}

/// What a configuration file says of compression. `None` stands for a key that it leaves out.
#[derive(Debug, Clone)]
pub struct CompressionSettings {
    /// The encodings to accept.
    pub accept: Option<Vec<CompressionEncoding>>,
    /// The encodings to send with.
    pub send: Option<Vec<CompressionEncoding>>,
}

/// The encodings that are used where none are given.
pub open spec fn default_encodings() -> Seq<CompressionEncoding> {
    seq![CompressionEncoding::Gzip]
}

impl ConfigGrpcCompression {
    /// Whether this is the configuration of a file that says nothing of compression.
    pub open spec fn is_default(self) -> bool {
        self.accept@ == default_encodings() && self.send@ == default_encodings()
    }

    /// Whether this is the configuration for what a file says.
    pub open spec fn is_given_by(self, settings: CompressionSettings) -> bool {
        &&& self.accept@ == match settings.accept {
            Some(accept) => accept@,
            None => default_encodings(),
        }
        &&& self.send@ == match settings.send {
            Some(send) => send@,
            None => default_encodings(),
        }
    }

    /// The compression that a file gives: what it says, and the defaults for what it leaves
    /// out.
    pub fn from_settings(settings: CompressionSettings) -> (r: Self)
        ensures
            r.is_given_by(settings),
    {
        ConfigGrpcCompression {
            accept: match settings.accept {
                Some(accept) => accept,
                None => Self::default_compression(),
            },
            send: match settings.send {
                Some(send) => send,
                None => Self::default_compression(),
            },
        }
    }

    /// Reads a list of encodings by their names. The error names the first one that is not
    /// known.
    pub fn deserialize_compression(values: &Vec<String>) -> (r: Result<
        Vec<CompressionEncoding>,
        String,
    >)
        ensures
            match encodings_named(values@) {
                Ok(encodings) => r is Ok && r->Ok_0@ == encodings,
                Err(unknown) => {
                    &&& r matches Err(message)
                    &&& message@ == "Unknown compression format: "@ + unknown
                },
            },
    {
        let gzip = "gzip".to_owned();
        let zstd = "zstd".to_owned();
        let mut encodings: Vec<CompressionEncoding> = Vec::new();
        let mut i: usize = 0;
        while i < values.len()
            invariant
                i <= values@.len(),
                gzip@ == "gzip"@,
                zstd@ == "zstd"@,
                encodings_named(values@.take(i as int)) == Ok::<
                    Seq<CompressionEncoding>,
                    Seq<char>,
                >(encodings@),
            decreases values@.len() - i,
        {
            proof {
                assert(values@.take(i + 1).drop_last() =~= values@.take(i as int));
            }
            if values[i] == gzip {
                encodings.push(CompressionEncoding::Gzip);
            } else if values[i] == zstd {
                encodings.push(CompressionEncoding::Zstd);
            } else {
                proof {
                    lemma_unknown_encoding_stays(values@, i + 1);
                }
                let mut message = String::new();
                message.append("Unknown compression format: ");
                message.append(values[i].as_str());
                proof {
                    assert(message@ =~= "Unknown compression format: "@ + values@[i as int]@);
                }
                return Err(message);
            }
            i = i + 1;
        }
        proof {
            assert(values@.take(i as int) =~= values@);
        }
        Ok(encodings)
    }

    /// Default compression settings (Gzip).
    pub fn default_compression() -> (r: Vec<CompressionEncoding>)
        ensures
            r@ == default_encodings(),
    {
        vec![CompressionEncoding::Gzip]
    }
}

impl Default for ConfigGrpcCompression {
    fn default() -> (r: Self)
        ensures
            r.is_default(),
    {
        ConfigGrpcCompression {
            accept: Self::default_compression(),
            send: Self::default_compression(),
        }
    }
}

/// A list whose first names hold an unknown one is not known for the same reason.
proof fn lemma_unknown_encoding_stays(names: Seq<String>, n: int)
    requires
        0 <= n <= names.len(),
        encodings_named(names.take(n)) is Err,
    ensures
        encodings_named(names) == encodings_named(names.take(n)),
    decreases names.len() - n,
{
    if n == names.len() {
        assert(names.take(n) =~= names);
    } else {
        assert(names.take(n + 1).drop_last() =~= names.take(n));
        lemma_unknown_encoding_stays(names, n + 1);
    }
}

/// A list of encodings is read where every name in it is known, and then name by name.
/// Otherwise it is the first unknown name that is reported.
pub proof fn law_encodings_by_name(names: Seq<String>)
    ensures
        encodings_named(names) matches Ok(encodings) ==> {
            &&& encodings.len() == names.len()
            &&& forall|i: int|
                0 <= i < names.len() ==> encoding_named((#[trigger] names[i])@) == Some(
                    encodings[i],
                )
        },
        encodings_named(names) matches Err(unknown) ==> exists|i: int|
            {
                &&& 0 <= i < names.len()
                &&& (#[trigger] names[i])@ == unknown
                &&& encoding_named(unknown) is None
                &&& forall|j: int| 0 <= j < i ==> encoding_named((#[trigger] names[j])@) is Some
            },
    decreases names.len(),
{
    if names.len() > 0 {
        let front = names.drop_last();
        law_encodings_by_name(front);
        assert(forall|i: int| 0 <= i < front.len() ==> #[trigger] names[i] == front[i]);
        match encodings_named(front) {
            Err(unknown) => {
                let i = choose|i: int|
                    {
                        &&& 0 <= i < front.len()
                        &&& (#[trigger] front[i])@ == unknown
                        &&& encoding_named(unknown) is None
                        &&& forall|j: int|
                            0 <= j < i ==> encoding_named((#[trigger] front[j])@) is Some
                    };
                assert(names[i]@ == unknown);
            },
            Ok(encodings) => {
                let last = names.len() - 1;
                assert(names[last] == names.last());
            },
        }
    }
}

/// The Prometheus endpoint.
#[derive(Debug, Clone, Copy)]
pub struct ConfigPrometheus {
    /// Address of Prometheus service.
    pub address: SocketAddress,
}

/// An unsigned integer type.
pub trait UnsignedInt: Sized {
    /// The largest value of the type.
    spec fn max() -> nat;

    /// The value of the type for a number.
    spec fn of(n: nat) -> Self;

    /// The largest value of the type.
    fn max_value() -> (r: u64)
        ensures
            r == Self::max(),
    ;

    /// The value of the type for a number.
    fn from_u64(n: u64) -> (r: Self)
        requires
            n <= Self::max(),
        ensures
            r == Self::of(n as nat),
    ;
}

impl UnsignedInt for usize {
    open spec fn max() -> nat {
        usize::MAX as nat
    }

    open spec fn of(n: nat) -> usize {
        n as usize
    }

    fn max_value() -> (r: u64) {
        usize::MAX as u64
    }

    fn from_u64(n: u64) -> (r: usize) {
        n as usize
    }
}

impl UnsignedInt for u64 {
    open spec fn max() -> nat {
        u64::MAX as nat
    }

    open spec fn of(n: nat) -> u64 {
        n as u64
    }

    fn max_value() -> (r: u64) {
        u64::MAX
    }

    fn from_u64(n: u64) -> (r: u64) {
        n
    }
}

/// A number as a configuration file can give it: as such, or as a text.
#[derive(Debug, Clone)]
pub enum ValueIntStr<T> {
    /// The number itself.
    Int(T),
    /// A text with the digits of the number, which underscores may group.
    Str(String),
}

/// The number that a configuration file gives.
pub open spec fn int_str<T: UnsignedInt>(value: ValueIntStr<T>) -> Result<T, IntError> {
    match value {
        ValueIntStr::Int(value) => Ok(value),
        ValueIntStr::Str(text) => match unsigned(without(text@, '_'), T::max()) {
            Ok(n) => Ok(T::of(n)),
            Err(error) => Err(error),
        },
    }
}

/// Reads a number that is given as such or as a text.
pub fn deserialize_int_str<T: UnsignedInt>(value: ValueIntStr<T>) -> (r: Result<T, IntError>)
    ensures
        r == int_str(value),
{
    match value {
        ValueIntStr::Int(value) => Ok(value),
        ValueIntStr::Str(text) => {
            let digits = remove_char(&chars_of(text.as_str()), '_');
            match parse_unsigned(&digits, T::max_value()) {
                Ok(n) => {
                    proof {
                        crate::text::law_unsigned_bound(digits@, T::max());
                    }
                    Ok(T::from_u64(n))
                },
                Err(error) => Err(error),
            }
        },
    }
}

/// Reads a number that is given as such or as a text, or not at all.
pub fn deserialize_int_str_maybe<T: UnsignedInt>(value: Option<ValueIntStr<T>>) -> (r: Result<
    Option<T>,
    IntError,
>)
    ensures
        match value {
            None => r == Ok::<Option<T>, IntError>(None),
            Some(value) => match int_str(value) {
                Ok(n) => r == Ok::<Option<T>, IntError>(Some(n)),
                Err(error) => r == Err::<Option<T>, IntError>(error),
            },
        },
{
    match value {
        Some(value) => match deserialize_int_str(value) {
            Ok(n) => Ok(Some(n)),
            Err(error) => Err(error),
        },
        None => Ok(None),
    }
}

/// The digits of a number may be grouped with underscores in any way.
pub proof fn law_underscores_group<T: UnsignedInt>(text: String, n: nat)
    requires
        n <= T::max(),
        without(text@, '_') == crate::text::decimal(n),
    ensures
        int_str(ValueIntStr::<T>::Str(text)) == Ok::<T, IntError>(T::of(n)),
{
    crate::text::law_decimal_reads_back(n, T::max());
}

/// Each key of the gRPC service is read on its own. A key that the file gives has its value,
/// whatever the others are, and one that it leaves out has its own default.
pub proof fn law_grpc_keys<L>(config: ConfigGrpc<L>, settings: GrpcSettings<L>)
    requires
        config.is_given_by(settings),
    ensures
        config.address == settings.address,
        config.tls_config == settings.tls_config,
        config.filter_limits == settings.filter_limits,
        config.x_token == settings.x_token,
        config.server_http2_adaptive_window == settings.server_http2_adaptive_window,
        config.server_http2_keepalive_interval == settings.server_http2_keepalive_interval,
        config.server_http2_keepalive_timeout == settings.server_http2_keepalive_timeout,
        config.server_initial_connection_window_size
            == settings.server_initial_connection_window_size,
        config.server_initial_stream_window_size == settings.server_initial_stream_window_size,
        settings.max_decoding_message_size is None ==> config.max_decoding_message_size
            == 4 * 1024 * 1024,
        settings.max_decoding_message_size matches Some(given) ==> config.max_decoding_message_size
            == given,
        settings.snapshot_client_channel_capacity is None
            ==> config.snapshot_client_channel_capacity == 50_000_000,
        settings.snapshot_client_channel_capacity matches Some(given)
            ==> config.snapshot_client_channel_capacity == given,
        settings.channel_capacity is None ==> config.channel_capacity == 250_000,
        settings.channel_capacity matches Some(given) ==> config.channel_capacity
            == given,
        settings.filter_name_size_limit is None ==> config.filter_name_size_limit == 128,
        settings.filter_name_size_limit matches Some(given) ==> config.filter_name_size_limit
            == given,
        settings.filter_names_size_limit is None ==> config.filter_names_size_limit == 4_096,
        settings.filter_names_size_limit matches Some(given) ==> config.filter_names_size_limit
            == given,
        settings.replay_stored_slots is None ==> config.replay_stored_slots == 0,
        settings.replay_stored_slots matches Some(given) ==> config.replay_stored_slots
            == given,
        settings.snapshot_plugin_channel_capacity is None
            ==> config.snapshot_plugin_channel_capacity is None,
        settings.snapshot_plugin_channel_capacity matches Some(given)
            ==> config.snapshot_plugin_channel_capacity == given,
        settings.unary_concurrency_limit is None ==> config.unary_concurrency_limit
            == usize::MAX / 8,
        settings.unary_concurrency_limit matches Some(given) ==> config.unary_concurrency_limit
            == given,
        settings.unary_disabled is None ==> !config.unary_disabled,
        settings.unary_disabled matches Some(given) ==> config.unary_disabled == given,
        settings.filter_names_cleanup_interval is None
            ==> config.filter_names_cleanup_interval.secs == 1
            && config.filter_names_cleanup_interval.nanos == 0,
        settings.filter_names_cleanup_interval matches Some(given)
            ==> config.filter_names_cleanup_interval == given,
        settings.compression is None ==> config.compression.accept@ == seq![
            CompressionEncoding::Gzip,
        ] && config.compression.send@ == seq![CompressionEncoding::Gzip],
        settings.compression matches Some(given) ==> {
            &&& given.accept is None ==> config.compression.accept@ == seq![
                CompressionEncoding::Gzip,
            ]
            &&& given.accept is Some ==> config.compression.accept@ == given.accept->0@
            &&& given.send is None ==> config.compression.send@ == seq![CompressionEncoding::Gzip]
            &&& given.send is Some ==> config.compression.send@ == given.send->0@
        },
{
    let all = usize::MAX;
    assert(all >> 3usize == all / 8) by (bit_vector);
}

/// Two files that agree on a key of the gRPC service give it the same value, whatever else they
/// say.
pub proof fn law_grpc_keys_apart<L>(
    one: ConfigGrpc<L>,
    other: ConfigGrpc<L>,
    first: GrpcSettings<L>,
    second: GrpcSettings<L>,
)
    requires
        one.is_given_by(first),
        other.is_given_by(second),
    ensures
        first.max_decoding_message_size == second.max_decoding_message_size
            ==> one.max_decoding_message_size == other.max_decoding_message_size,
        first.snapshot_plugin_channel_capacity == second.snapshot_plugin_channel_capacity
            ==> one.snapshot_plugin_channel_capacity == other.snapshot_plugin_channel_capacity,
        first.snapshot_client_channel_capacity == second.snapshot_client_channel_capacity
            ==> one.snapshot_client_channel_capacity == other.snapshot_client_channel_capacity,
        first.channel_capacity == second.channel_capacity
            ==> one.channel_capacity == other.channel_capacity,
        first.unary_concurrency_limit == second.unary_concurrency_limit
            ==> one.unary_concurrency_limit == other.unary_concurrency_limit,
        first.unary_disabled == second.unary_disabled
            ==> one.unary_disabled == other.unary_disabled,
        first.filter_name_size_limit == second.filter_name_size_limit
            ==> one.filter_name_size_limit == other.filter_name_size_limit,
        first.filter_names_size_limit == second.filter_names_size_limit
            ==> one.filter_names_size_limit == other.filter_names_size_limit,
        first.filter_names_cleanup_interval == second.filter_names_cleanup_interval
            ==> one.filter_names_cleanup_interval == other.filter_names_cleanup_interval,
        first.replay_stored_slots == second.replay_stored_slots
            ==> one.replay_stored_slots == other.replay_stored_slots,
        first.compression == second.compression ==> one.compression.accept@
            == other.compression.accept@ && one.compression.send@ == other.compression.send@,
{
}

/// A value that is given is used; only where there is none, the default is.
pub proof fn law_default_is_last<T>(value: T, default: T)
    ensures
        or_default(Some(value), default) == value,
        or_default(None, default) == default,
{
}

/// Compression is read key by key: one that is given is used, and the other is gzip.
pub proof fn law_compression_keys(
    compression: ConfigGrpcCompression,
    settings: CompressionSettings,
)
    requires
        compression.is_given_by(settings),
    ensures
        settings.accept is None ==> compression.accept@ == seq![CompressionEncoding::Gzip],
        settings.accept is Some ==> compression.accept@ == settings.accept->0@,
        settings.send is None ==> compression.send@ == seq![CompressionEncoding::Gzip],
        settings.send is Some ==> compression.send@ == settings.send->0@,
{
}

/// What a file that says nothing of logging, the runtime or compression comes to.
pub proof fn law_silent_file(log: ConfigLog, tokio: ConfigTokio, compression: ConfigGrpcCompression)
    ensures
        log.is_default() <==> log.level@ == "info"@,
        tokio.is_default() <==> tokio.worker_threads is None && tokio.affinity is None,
        compression.is_default() <==> compression.accept@ == seq![CompressionEncoding::Gzip]
            && compression.send@ == seq![CompressionEncoding::Gzip],
        default_encodings() == seq![CompressionEncoding::Gzip],
{
}

/// Two names are known, each for its own encoding.
pub proof fn law_encoding_names(name: Seq<char>)
    ensures
        encoding_named(name) == Some(CompressionEncoding::Gzip) <==> name == "gzip"@,
        encoding_named(name) == Some(CompressionEncoding::Zstd) <==> name == "zstd"@,
        encoding_named(name) is None <==> name != "gzip"@ && name != "zstd"@,
{
    reveal_strlit("gzip");
    reveal_strlit("zstd");
    assert("gzip"@[0] != "zstd"@[0]);
}

/// The types of numbers in a configuration go up to their largest values, and hold each number up
/// to there as it is.
pub proof fn law_number_types(n: nat)
    ensures
        <usize as UnsignedInt>::max() == usize::MAX,
        <u64 as UnsignedInt>::max() == u64::MAX,
        n <= usize::MAX ==> usize::of(n) == n,
        n <= u64::MAX ==> u64::of(n) == n,
{
}

/// A number that is given as such is taken as it is. One that is given as a text is read from
/// the text without its underscores.
pub proof fn law_number_given<T: UnsignedInt>(value: T, text: String)
    requires
        !text@.contains('_'),
    ensures
        int_str(ValueIntStr::Int(value)) == Ok::<T, IntError>(value),
        unsigned(text@, T::max()) matches Ok(n) ==> int_str(ValueIntStr::<T>::Str(text)) == Ok::<
            T,
            IntError,
        >(T::of(n)),
        unsigned(text@, T::max()) matches Err(error) ==> int_str(ValueIntStr::<T>::Str(text))
            == Err::<T, IntError>(error),
{
    lemma_nothing_to_remove(text@, '_');
}

/// A text that does not hold a character stays as it is without it.
proof fn lemma_nothing_to_remove(s: Seq<char>, c: char)
    requires
        !s.contains(c),
    ensures
        without(s, c) == s,
    decreases s.len(),
{
    reveal(Seq::filter);
    if s.len() > 0 {
        let front = s.drop_last();
        assert(s.contains(s.last()));
        assert forall|i: int| 0 <= i < front.len() implies front[i] != c by {
            assert(s.contains(s[i]));
        }
        lemma_nothing_to_remove(front, c);
        assert(front.push(s.last()) =~= s);
    }
}

/// One more underscore, wherever it stands, does not change the number.
pub proof fn law_underscore_changes_nothing<T: UnsignedInt>(
    a: Seq<char>,
    b: Seq<char>,
    plain: String,
    grouped: String,
)
    requires
        plain@ == a + b,
        grouped@ == a + seq!['_'] + b,
    ensures
        int_str(ValueIntStr::<T>::Str(grouped)) == int_str(ValueIntStr::<T>::Str(plain)),
{
    crate::text::law_without(a, '_', b, '_');
}

/// A list of cores that a file gives comes to what parsing it comes to.
pub proof fn law_given(list: Vec<usize>, message: String)
    ensures
        given(Ok(Some(list))) == Ok::<Vec<usize>, String>(list),
        given(Err(message)) == Err::<Vec<usize>, String>(message),
{
}

} // verus!
