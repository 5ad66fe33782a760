# yellowstone-grpc-geyser

The logic of a Geyser plugin that streams validator events over gRPC, written in Verus: each
function states what it returns or changes, and Verus proves it.

- `src/` is the library.
  - `config`: the configuration, its defaults, and the values that a file gives as texts.
  - `taskset`: lists of CPU cores such as `0,1,5-7`.
  - `metrics`: what the Prometheus metrics show and how they change.
  - `collectors`: the Prometheus collectors behind them.
  - `hash`, `metric_ids`: the hash by which Prometheus finds collectors, and that the metrics
    differ in it.
  - `service`: the answers of the HTTP service.
  - `debug_clients`: the status of the connected clients.
  - `plugin`: the state of the plugin and where messages go.
  - `version`: version information.
  - `text`, `order`: numbers in decimal notation, splitting of texts, ascending lists.
- `app/` is the plugin around the library: configuration files, the process-wide metrics, the
  HTTP server and the calls of the validator. The gRPC service itself is a trait there.
- `tests/` run the library with the real outside crates.

What is not proved is what the outside crates do. Each item that stands for one of them is
marked `external_body` or `assume_specification`, and its doc comment says what it claims.
