//! Collects, deduplicates and reports exceptions.
//!
//! An exception becomes an [`ExceptionRecord`]. A buffer, the
//! [`ExceptionBuffer`], aggregates records by signature: records of the same
//! component, kind, normalized message and first stack frames share one (see
//! [`compute_signature`]). What the buffer holds is stored in rows, and read
//! back from them.
//!
//! What waits to be reported goes out in an [`ExceptionBatch`]: to GitHub, as
//! issues and comments ([`GitHubReporter`]), or to a collecting platform
//! ([`CustomPlatformReporter`]). A language model can tell which exceptions
//! repeat an open issue ([`LlmClassifier`]). A report that failed is tried again
//! by a [`RetryPolicy`].
//!
//! The library computes and decides. Files, databases, commands and requests
//! are the business of its callers, who hand it what they read and do what it
//! says.

pub mod active;
pub mod buffer;
pub mod buffer_laws;
pub mod channel;
pub mod collector;
pub mod config;
pub mod dedup;
pub mod digits;
pub mod encoding;
pub mod error;
pub mod github;
pub mod ids;
pub mod issue;
pub mod json;
pub mod lines;
pub mod llm;
pub mod location;
pub mod normalize;
pub mod pipeline;
pub mod platform;
pub mod record;
pub mod record_json;
pub mod retry;
pub mod signature;
pub mod storage;
pub mod text;
pub mod text_laws;
pub mod time;
pub mod title;

pub use buffer::ExceptionBuffer;
pub use channel::{ChatReply, HttpLlmChannel};
pub use collector::{
    collect_result_err, collect_unreported, try_collect_result_err, FileContents, ScannedFile,
};
pub use config::{CollectorConfig, RepoMap, RepoMapFile};
pub use dedup::DedupEngine;
pub use error::{BufferError, BufferResult, CollectorError, CollectorResult};
pub use github::{GhCommand, GhOutcome, GhTask, GitHubReporter};
pub use issue::{build_fallback_body, build_issue_body};
pub use json::Json;
pub use llm::{
    build_system_prompt, build_user_prompt, fallback_classify, response_json, Answer,
    ClassificationAction, ClassificationResult, ExistingIssueData, LlmClassifier, Next, Request,
};
pub use location::exceptions_dir;
pub use normalize::normalize_message;
pub use pipeline::{PendingBatch, PipelineRunner};
pub use platform::{CustomPlatformReporter, PostOutcome};
pub use record::{
    AggregatedException, BatchStatus, ExceptionBatch, ExceptionKind, ExceptionRecord, ReportResult,
    ReportTarget,
};
pub use record_json::record_json;
pub use retry::{RetryPolicy, RetryStep};
pub use signature::{compute_signature, kind_to_bytes, top_stack_frames};
pub use storage::{FetchedRow, StoredRow};
pub use time::{Duration, Timestamp};
pub use title::truncate_for_title;
