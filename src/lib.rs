//! Ingestion core of a telemetry pipeline: a resumable watch client for a
//! streaming change API, a periodic metrics poller, and the bounded conduit
//! that both feed.

pub mod framing;
pub mod k8s;
pub mod api_watcher;
pub mod metrics_text;
pub mod apache_metrics;
pub mod pipeline;
