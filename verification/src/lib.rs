//! Batch download planner for application packages.
//!
//! The crate verifies the decision logic of a bounded-parallelism batch
//! downloader: extracting application identifiers from comma-separated
//! rows, scheduling downloads with a fixed concurrency width, classifying
//! per-item failures under a retry ceiling, and turning a completed
//! browser-driven download into a rename plan for its artifact.
//! The surrounding process (command line, HTTP, browser automation,
//! file system) performs the actions these decisions call for.

pub mod artifact;
pub mod config;
pub mod csv;
pub mod orchestrator;
pub mod retry;

pub use artifact::{app_page_url, join_path, plan_finalize, strip_size_annotation};
pub use artifact::{FinalizePlan, PendingArtifact};
pub use config::{validate_config, Config, DownloadSource, IdentifierSource, ListSource,
    StartupError};
pub use csv::parse_csv_text;
pub use orchestrator::Orchestrator;
pub use retry::{DownloadOutcome, ErrorClass, RetryState, ATTEMPT_CEILING};
