use vstd::prelude::*;

use crate::metric_logger::MetricLoggerConfig;

verus! {

/// Settings of a tracker.
#[derive(Debug)]
pub struct Config {
    /// Root directory of the local artifact storage.
    pub storage_path: String,
    pub database_url: String,
    pub db_pool_size: u32,
    pub db_connection_timeout_secs: u64,
    /// A metric buffer that reaches this many points is flushed at once.
    pub metric_buffer_size: usize,
    /// The period of the background metric flush, in milliseconds.
    pub metric_flush_interval_ms: u64,
}

impl Default for Config {
    /// Storage in `./mltracker`, a local SQLite database, and metrics
    /// flushed every thousand points or every minute.
    fn default() -> (c: Config)
        ensures
            c.storage_path@ == "./mltracker"@,
            c.database_url@ == "sqlite:experiments.db"@,
            c.db_pool_size == 5,
            c.db_connection_timeout_secs == 30,
            c.metric_buffer_size == 1000,
            c.metric_flush_interval_ms == 60_000,
    {
        proof {
            reveal_strlit("./mltracker");
            reveal_strlit("sqlite:experiments.db");
        }
        Config {
            storage_path: "./mltracker".to_owned(),
            database_url: "sqlite:experiments.db".to_owned(),
            db_pool_size: 5,
            db_connection_timeout_secs: 30,
            metric_buffer_size: 1000,
            metric_flush_interval_ms: 60_000,
        }
    }
}

impl Clone for Config {
    fn clone(&self) -> (c: Config)
        ensures
            c == *self,
    {
        Config {
            storage_path: self.storage_path.clone(),
            database_url: self.database_url.clone(),
            db_pool_size: self.db_pool_size,
            db_connection_timeout_secs: self.db_connection_timeout_secs,
            metric_buffer_size: self.metric_buffer_size,
            metric_flush_interval_ms: self.metric_flush_interval_ms,
        }
    }
}

impl Config {
    /// The batching settings of the metric loggers of this tracker.
    pub fn logger_config(&self) -> (c: MetricLoggerConfig)
        ensures
            c.buffer_size == self.metric_buffer_size,
            c.flush_interval_ms == self.metric_flush_interval_ms,
    {
        MetricLoggerConfig {
            buffer_size: self.metric_buffer_size,
            flush_interval_ms: self.metric_flush_interval_ms,
        }
    }
}

} // verus!
