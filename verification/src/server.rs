//! What the HTTP endpoint answers.
use vstd::prelude::*;

use crate::exposition::exposed;
use crate::metrics::{Metrics, MetricsError};

verus! {

/// Path of the metrics in the Prometheus text format.
pub const METRICS_PATH: &'static str = "/metrics";

/// Path of the liveness check.
pub const HEALTH_PATH: &'static str = "/healthz";

/// What the liveness check answers.
pub const HEALTH_BODY: &'static str = "ok";

/// An answer to a request for the metrics.
#[derive(Debug)]
pub enum Reply {
    /// The metrics, with status 200.
    Metrics { content_type: String, body: Vec<u8> },
    /// A text, with the status of an error.
    Failure { status: u16, text: String },
}

/// The contents of a `Reply`.
pub enum ReplyView {
    Metrics { content_type: Seq<char>, body: Seq<u8> },
    Failure { status: u16, text: Seq<char> },
}

impl View for Reply {
    type V = ReplyView;

    open spec fn view(&self) -> ReplyView {
        match self {
            Reply::Metrics { content_type, body } => ReplyView::Metrics {
                content_type: content_type@,
                body: body@,
            },
            Reply::Failure { status, text } => ReplyView::Failure { status: *status, text: text@ },
        }
    }
}

/// Answers a request for the metrics.
pub fn metrics_handler(metrics: &Metrics) -> (r: Reply)
    ensures
        r@ == (ReplyView::Metrics {
            content_type: "text/plain; version=0.0.4"@,
            body: exposed(metrics@.gauges, metrics@.int_gauges, metrics@.counters),
        }),
{
    metrics_reply(metrics.encode())
}

/// The contents of an answer are those of its fields.
pub proof fn law_reply_fields(r: Reply)
    ensures
        match r {
            Reply::Metrics { content_type, body } => r@ == (ReplyView::Metrics {
                content_type: content_type@,
                body: body@,
            }),
            Reply::Failure { status, text } => r@ == (ReplyView::Failure { status, text: text@ }),
        },
{
}

/// Where the metrics and the liveness check are found, and what the check
/// answers.
pub proof fn law_paths()
    ensures
        METRICS_PATH@ == "/metrics"@,
        HEALTH_PATH@ == "/healthz"@,
        HEALTH_BODY@ == "ok"@,
{
}

/// Answers a request for the metrics, given what came of encoding them: the
/// text and its content type, or why there is none.
pub fn metrics_reply(encoded: Result<(Vec<u8>, String), MetricsError>) -> (r: Reply)
    ensures
        r@ == match encoded {
            Ok((body, content_type)) => ReplyView::Metrics {
                content_type: content_type@,
                body: body@,
            },
            Err(e) => ReplyView::Failure {
                status: 500,
                text: "failed to encode metrics: "@ + e.message@,
            },
        },
{
    match encoded {
        Ok((body, content_type)) => Reply::Metrics { content_type, body },
        Err(e) => Reply::Failure {
            status: 500,
            text: "failed to encode metrics: ".to_owned().concat(e.message.as_str()),
        },
    }
}

} // verus!
