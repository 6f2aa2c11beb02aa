//! Page retrieval: the outcome of one request, the report that follows it, and
//! the scheduling of a whole batch.

pub mod batch;
pub mod fetch;
pub mod page;
pub mod telemetry;

pub use batch::{BatchFetcher, ConfigurationError, FetchState};
pub use fetch::{conclude, Conclusion, Exchange, FetchRequest, ResponseHead};
pub use page::{FailureReason, Outcome, PageResult};
pub use telemetry::{
    FetchTelemetry, ReportReply, ReportRequest, ReportState, TelemetryConfig, TelemetryReporter,
};
