//! The Prometheus HTTP service.
use vstd::prelude::*;
use vstd::multiset::Multiset;
use crate::config::{ConfigPrometheus, SocketAddress};
use crate::metrics::{can_register, exposition, CollectorRefused, Metrics, MetricsState};
use crate::version::Version;

verus! {

/// An answer to an HTTP request.
#[derive(Debug)]
pub struct HttpReply {
    /// The status code.
    pub status: u16,
    /// The body.
    pub body: String,
}

impl HttpReply {
    /// Whether this is the answer to a request for the metrics.
    pub open spec fn is_metrics(self, metrics: MetricsState) -> bool {
        self.status == 200 && self.body@ == exposition(metrics)
    }

    /// Whether this is the answer to a request for what is not there.
    pub open spec fn is_not_found(self) -> bool {
        self.status == 404 && self.body@.len() == 0
    }

    /// Whether this is the answer to a request for the clients, given what became of it.
    pub open spec fn is_answer(self, answer: StatusesAnswer) -> bool {
        match answer {
            StatusesAnswer::Answered(body) => self.status == 200 && self.body == body,
            StatusesAnswer::NotSent => self.status == 500 && self.body@
                == "failed to send request"@,
            StatusesAnswer::NotAnswered => self.status == 500 && self.body@
                == "failed to wait response"@,
        }
    }
}

/// The text of the metrics, or nothing where they could not be encoded.
pub open spec fn metrics_body(encoded: Result<String, prometheus::Error>) -> Seq<char> {
    match encoded {
        Ok(text) => text@,
        Err(_) => Seq::<char>::empty(),
    }
}

/// The answer to a request for the metrics, given how they could be encoded.
pub fn metrics_reply(encoded: Result<String, prometheus::Error>) -> (r: HttpReply)
    ensures
        r.status == 200,
        r.body@ == metrics_body(encoded),
{
    match encoded {
        Ok(text) => HttpReply { status: 200, body: text },
        Err(_) => HttpReply { status: 200, body: String::new() },
    }
}

/// Handles requests to the `/metrics` endpoint. Before the metrics are registered, there is
/// nothing to show.
pub fn metrics_handler(metrics: &Metrics) -> (r: HttpReply)
    requires
        metrics.wf(),
    ensures
        r.is_metrics(metrics@),
        metrics@.registered == Multiset::<Seq<char>>::empty() ==> r.body@ == Seq::<char>::empty(),
{
    metrics_reply(metrics.encode_text())
}

/// Handles requests to unknown endpoints.
pub fn not_found_handler() -> (r: HttpReply)
    ensures
        r.is_not_found(),
{
    HttpReply { status: 404, body: String::new() }
}

/// What became of a request to the tracker of the clients.
#[derive(Debug)]
pub enum StatusesAnswer {
    /// The request could not be sent.
    NotSent,
    /// No answer came.
    NotAnswered,
    /// The lines for the clients.
    Answered(String),
}

/// Handles requests to the `/debug_clients` endpoint.
pub fn debug_clients_handler(answer: StatusesAnswer) -> (r: HttpReply)
    ensures
        r.is_answer(answer),
{
    match answer {
        StatusesAnswer::Answered(body) => HttpReply { status: 200, body },
        StatusesAnswer::NotSent => HttpReply {
            status: 500,
            body: "failed to send request".to_owned(),
        },
        StatusesAnswer::NotAnswered => HttpReply {
            status: 500,
            body: "failed to wait response".to_owned(),
        },
    }
}

/// Who answers a request.
#[derive(Debug, Clone, Copy, PartialEq, Eq, Structural)]
pub enum Route {
    /// The metrics.
    Metrics,
    /// The tracker of the clients.
    DebugClients,
    /// Nobody.
    NotFound,
}

/// What the listener has to report.
#[derive(Debug, Clone, Copy, PartialEq, Eq, Structural)]
pub enum ListenerEvent {
    /// The service is to stop.
    Shutdown,
    /// A client has connected.
    Connected,
    /// A connection could not be accepted.
    AcceptFailed,
}

/// What the listener does next.
#[derive(Debug, Clone, Copy, PartialEq, Eq, Structural)]
pub enum ListenerStep {
    /// It serves the connection and waits for the next.
    Serve,
    /// It stops listening.
    Stop,
}

/// The service that runs the Prometheus HTTP server.
#[derive(Debug)]
pub struct PrometheusService {
    /// Where the server listens, if it is to run.
    pub listen: Option<SocketAddress>,
    /// Whether the clients are tracked.
    pub debug_clients: bool,
}

impl PrometheusService {
    /// Creates a new `PrometheusService`. This registers all metrics, once, and says where the
    /// HTTP server is to listen, if configured. The clients are tracked if there is a server and
    /// a source of messages about them.
    pub fn new(
        metrics: &mut Metrics,
        version: &Version,
        config: Option<ConfigPrometheus>,
        has_debug_clients: bool,
    ) -> (r: Result<Self, CollectorRefused>)
        requires
            old(metrics).wf(),
        ensures
            final(metrics).wf(),
            r is Ok ==> final(metrics)@ == old(metrics)@.after_register(*version),
            old(metrics)@.announced || can_register(old(metrics)@.occupied) ==> r is Ok,
            r matches Ok(service) ==> {
                &&& service.listen == match config {
                    Some(prometheus) => Some(prometheus.address),
                    None => None,
                }
                &&& service.debug_clients == (config is Some && has_debug_clients)
            },
            r matches Err(refused) ==> final(metrics)@.is_refused(old(metrics)@, refused),
    {
        metrics.register(version)?;
        Ok(
            match config {
                Some(ConfigPrometheus { address }) => PrometheusService {
                    listen: Some(address),
                    debug_clients: has_debug_clients,
                },
                None => PrometheusService { listen: None, debug_clients: false },
            },
        )
    }

    /// Who answers a request for a path.
    pub open spec fn route_of(self, path: Seq<char>) -> Route {
        if path == "/metrics"@ {
            Route::Metrics
        } else if path == "/debug_clients"@ && self.debug_clients {
            Route::DebugClients
        } else {
            Route::NotFound
        }
    }

    /// Who answers a request for a path.
    pub fn route(&self, path: &str) -> (r: Route)
        ensures
            r == self.route_of(path@),
    {
        let path = path.to_owned();
        if path == "/metrics".to_owned() {
            Route::Metrics
        } else if path == "/debug_clients".to_owned() {
            if self.debug_clients {
                Route::DebugClients
            } else {
                Route::NotFound
            }
        } else {
            Route::NotFound
        }
    }

    /// Answers a request for a path: with the metrics, with what the tracker of the clients has
    /// answered, or with the word that nothing is there.
    pub fn respond(
        &self,
        metrics: &Metrics,
        path: &str,
        answer: Option<StatusesAnswer>,
    ) -> (r: HttpReply)
        requires
            metrics.wf(),
            self.route_of(path@) is DebugClients ==> answer is Some,
        ensures
            match self.route_of(path@) {
                Route::Metrics => r.is_metrics(metrics@),
                Route::DebugClients => r.is_answer(answer->0),
                Route::NotFound => r.is_not_found(),
            },
    {
        match (self.route(path), answer) {
            (Route::Metrics, _) => metrics_handler(metrics),
            (Route::DebugClients, Some(answer)) => debug_clients_handler(answer),
            _ => not_found_handler(),
        }
    }

    /// What the listener does after an event: only a connection keeps it going.
    pub fn next_step(event: ListenerEvent) -> (r: ListenerStep)
        ensures
            r == match event {
                ListenerEvent::Connected => ListenerStep::Serve,
                ListenerEvent::Shutdown => ListenerStep::Stop,
                ListenerEvent::AcceptFailed => ListenerStep::Stop,
            },
    {
        match event {
            ListenerEvent::Connected => ListenerStep::Serve,
            ListenerEvent::Shutdown => ListenerStep::Stop,
            ListenerEvent::AcceptFailed => ListenerStep::Stop,
        }
    }
}

/// Two paths have somebody who answers, the second of them only where the clients are tracked. No
/// other path has.
pub proof fn law_routes(service: PrometheusService, path: Seq<char>)
    ensures
        service.route_of(path) is Metrics <==> path == "/metrics"@,
        service.route_of(path) is DebugClients <==> path == "/debug_clients"@
            && service.debug_clients,
        service.route_of(path) is NotFound <==> path != "/metrics"@ && (path != "/debug_clients"@
            || !service.debug_clients),
{
    reveal_strlit("/metrics");
    reveal_strlit("/debug_clients");
    assert("/metrics"@.len() != "/debug_clients"@.len());
}

/// What a reply says follows from what it replies to.
pub proof fn law_replies(
    reply: HttpReply,
    metrics: MetricsState,
    encoded: Result<String, prometheus::Error>,
    body: String,
)
    ensures
        reply.is_metrics(metrics) <==> reply.status == 200 && reply.body@ == exposition(metrics),
        reply.is_not_found() <==> reply.status == 404 && reply.body@ == Seq::<char>::empty(),
        reply.is_answer(StatusesAnswer::Answered(body)) <==> reply.status == 200 && reply.body
            == body,
        reply.is_answer(StatusesAnswer::NotSent) <==> reply.status == 500 && reply.body@
            == "failed to send request"@,
        reply.is_answer(StatusesAnswer::NotAnswered) <==> reply.status == 500 && reply.body@
            == "failed to wait response"@,
        encoded matches Ok(text) ==> metrics_body(encoded) == text@,
        encoded is Err ==> metrics_body(encoded) == Seq::<char>::empty(),
{
    assert(reply.body@.len() == 0 ==> reply.body@ =~= Seq::<char>::empty());
}

} // verus!
