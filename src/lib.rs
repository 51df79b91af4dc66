//! Experiment tracking: experiments and their runs, buffered metric logging
//! into a metric store, and content-hashed artifacts.

pub mod artifact;
pub mod clock;
pub mod config;
pub mod error;
pub mod experiment;
pub mod ids;
pub mod metric_logger;
pub mod metric_store;
pub mod run;
pub mod storage;
pub mod strmap;
pub mod system;

pub use artifact::{Artifact, ArtifactMetadata};
pub use config::Config;
pub use error::{Result, TrackerError};
pub use experiment::Experiment;
pub use metric_logger::{FlushEvent, FlushStep, MetricLogger, MetricLoggerConfig};
pub use metric_store::{InMemoryMetricStore, MetricPoint, MetricStore};
pub use run::{Run, RunStatus};
pub use storage::LocalStorage;
pub use strmap::StrMap;
