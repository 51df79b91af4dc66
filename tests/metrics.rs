use ml_tracker::metric_logger::{FlushEvent, FlushStep};
use ml_tracker::system::{memory_used, record_system_sample, system_batch};
use ml_tracker::{
    Experiment, InMemoryMetricStore, MetricLogger, MetricLoggerConfig, MetricStore, RunStatus,
};

fn config(buffer_size: usize) -> MetricLoggerConfig {
    MetricLoggerConfig { buffer_size, flush_interval_ms: 1000 }
}

fn values(store: &InMemoryMetricStore, run_id: u128, name: &str) -> Vec<f64> {
    store
        .get_metrics(run_id, name)
        .unwrap()
        .iter()
        .map(|p| f64::from_bits(p.value_bits))
        .collect()
}

#[test]
fn test_metric_batch_logging() {
    let mut exp = Experiment::new("test_experiment");
    let run = exp.start_run().unwrap();
    let mut store = InMemoryMetricStore::new().unwrap();
    let mut logger = MetricLogger::new(run.id(), config(2));

    let metrics = vec![("test_metric1", 1.0f64.to_bits()), ("test_metric2", 2.0f64.to_bits())];
    logger.log_batch(&metrics, &mut store).unwrap();

    let metrics1 = store.get_metrics(run.id(), "test_metric1").unwrap();
    let metrics2 = store.get_metrics(run.id(), "test_metric2").unwrap();
    assert_eq!(f64::from_bits(metrics1[0].value_bits), 1.0);
    assert_eq!(f64::from_bits(metrics2[0].value_bits), 2.0);
    assert_eq!(metrics1[0].timestamp, metrics2[0].timestamp);
}

#[test]
fn mnist_scenario() {
    let mut exp = Experiment::new("mnist");
    let mut run = exp.start_run().unwrap();
    let mut store = InMemoryMetricStore::new().unwrap();
    let mut logger = MetricLogger::new(run.id(), MetricLoggerConfig::default());
    logger.log("loss", 2.5f64.to_bits(), &mut store).unwrap();
    run.log_metric("loss", 2.5f64.to_bits());
    logger.log("loss", 1.25f64.to_bits(), &mut store).unwrap();
    run.log_metric("loss", 1.25f64.to_bits());
    logger.flush(&mut store).unwrap();
    run.finish(RunStatus::Completed);
    exp.end_run(run.id()).unwrap();

    assert_eq!(values(&store, run.id(), "loss"), vec![2.5, 1.25]);
    let logged: Vec<f64> = run.metric("loss").iter().map(|p| f64::from_bits(p.1)).collect();
    assert_eq!(logged, vec![2.5, 1.25]);
    assert_eq!(run.status(), RunStatus::Completed);
    assert!(run.end_time().is_some());
    assert!(run.end_time().unwrap() >= run.start_time());
}

#[test]
fn buffer_of_two_flushes_on_second_log() {
    let mut store = InMemoryMetricStore::new().unwrap();
    let mut logger = MetricLogger::new(9, config(2));
    logger.log("a", 1.0f64.to_bits(), &mut store).unwrap();
    assert_eq!(store.len(), 0);
    logger.log("b", 2.0f64.to_bits(), &mut store).unwrap();
    assert_eq!(store.len(), 2);
    logger.log("c", 3.0f64.to_bits(), &mut store).unwrap();
    assert_eq!(store.len(), 2);
    assert_eq!(logger.buffered_len(), 1);
    logger.flush(&mut store).unwrap();
    assert_eq!(store.len(), 3);
    assert_eq!(logger.buffered_len(), 0);
}

#[test]
fn threshold_of_three() {
    let mut store = InMemoryMetricStore::new().unwrap();
    let mut logger = MetricLogger::new(9, config(3));
    logger.log("x", 1.0f64.to_bits(), &mut store).unwrap();
    logger.log("x", 2.0f64.to_bits(), &mut store).unwrap();
    assert_eq!(store.len(), 0);
    logger.log("x", 3.0f64.to_bits(), &mut store).unwrap();
    assert_eq!(store.len(), 3);
    assert_eq!(values(&store, 9, "x"), vec![1.0, 2.0, 3.0]);
}

#[test]
fn zero_buffer_size_flushes_every_log() {
    let mut store = InMemoryMetricStore::new().unwrap();
    let mut logger = MetricLogger::new(9, config(0));
    logger.log("x", 1.0f64.to_bits(), &mut store).unwrap();
    assert_eq!(store.len(), 1);
    logger.log("x", 2.0f64.to_bits(), &mut store).unwrap();
    assert_eq!(store.len(), 2);
}

#[test]
fn second_flush_writes_nothing() {
    let mut store = InMemoryMetricStore::new().unwrap();
    let mut logger = MetricLogger::new(9, config(10));
    logger.log("x", 1.0f64.to_bits(), &mut store).unwrap();
    logger.flush(&mut store).unwrap();
    assert_eq!(store.len(), 1);
    logger.flush(&mut store).unwrap();
    assert_eq!(store.len(), 1);
}

#[test]
fn order_kept_across_flushes() {
    let mut store = InMemoryMetricStore::new().unwrap();
    let mut logger = MetricLogger::new(4, config(10));
    logger.log("loss", 5.0f64.to_bits(), &mut store).unwrap();
    logger.flush(&mut store).unwrap();
    logger.log("loss", 4.0f64.to_bits(), &mut store).unwrap();
    logger.log("acc", 0.1f64.to_bits(), &mut store).unwrap();
    logger.log("loss", 3.0f64.to_bits(), &mut store).unwrap();
    logger.flush(&mut store).unwrap();
    logger.log("loss", 2.0f64.to_bits(), &mut store).unwrap();
    logger.flush(&mut store).unwrap();
    assert_eq!(values(&store, 4, "loss"), vec![5.0, 4.0, 3.0, 2.0]);
    assert_eq!(values(&store, 4, "acc"), vec![0.1]);
    assert!(values(&store, 5, "loss").is_empty());
}

#[test]
fn loggers_for_two_runs_share_a_store() {
    let mut store = InMemoryMetricStore::new().unwrap();
    let mut a = MetricLogger::new(1, config(1));
    let mut b = MetricLogger::new(2, config(1));
    a.log("loss", 1.0f64.to_bits(), &mut store).unwrap();
    b.log("loss", 2.0f64.to_bits(), &mut store).unwrap();
    assert_eq!(values(&store, 1, "loss"), vec![1.0]);
    assert_eq!(values(&store, 2, "loss"), vec![2.0]);
}

#[test]
fn latest_metric_is_last_of_equal_times() {
    let mut store = InMemoryMetricStore::new().unwrap();
    let mut logger = MetricLogger::new(3, config(100));
    logger.log_at("loss", 1.0f64.to_bits(), 10, &mut store).unwrap();
    logger.log_at("loss", 2.0f64.to_bits(), 30, &mut store).unwrap();
    logger.log_at("loss", 3.0f64.to_bits(), 30, &mut store).unwrap();
    logger.log_at("loss", 4.0f64.to_bits(), 20, &mut store).unwrap();
    logger.log_at("acc", 9.0f64.to_bits(), 99, &mut store).unwrap();
    logger.flush(&mut store).unwrap();
    let latest = store.get_latest_metric(3, "loss").unwrap().unwrap();
    assert_eq!(f64::from_bits(latest.value_bits), 3.0);
    assert_eq!(latest.timestamp, 30);
    assert!(store.get_latest_metric(3, "none").unwrap().is_none());
}

#[test]
fn batch_shares_one_timestamp_and_keeps_order() {
    let mut store = InMemoryMetricStore::new().unwrap();
    let mut logger = MetricLogger::new(3, config(3));
    let entries = vec![("a", 1u64), ("b", 2u64)];
    logger.log_batch_at(&entries, 77, &mut store).unwrap();
    assert_eq!(store.len(), 0);
    assert_eq!(logger.buffered_len(), 2);
    logger.log_batch_at(&vec![("c", 3u64)], 78, &mut store).unwrap();
    assert_eq!(store.len(), 3);
    let a = store.get_metrics(3, "a").unwrap();
    let c = store.get_metrics(3, "c").unwrap();
    assert_eq!((a[0].value_bits, a[0].timestamp), (1, 77));
    assert_eq!((c[0].value_bits, c[0].timestamp), (3, 78));
}

#[test]
fn auto_flush_tick_continues_and_shutdown_stops() {
    let mut store = InMemoryMetricStore::new().unwrap();
    let mut logger = MetricLogger::new(3, config(100));
    logger.log("x", 1u64, &mut store).unwrap();
    assert_eq!(logger.auto_flush_step(FlushEvent::Tick, &mut store).unwrap(), FlushStep::Continue);
    assert_eq!(store.len(), 1);
    logger.log("x", 2u64, &mut store).unwrap();
    assert_eq!(logger.auto_flush_step(FlushEvent::Shutdown, &mut store).unwrap(), FlushStep::Stop);
    assert_eq!(store.len(), 2);
    assert_eq!(logger.buffered_len(), 0);
}

#[test]
fn logger_settings() {
    let logger = MetricLogger::new(42, MetricLoggerConfig::default());
    assert_eq!(logger.run_id(), 42);
    assert_eq!(logger.config().buffer_size, 1000);
    assert_eq!(logger.config().flush_interval_ms, 60_000);
}

#[test]
fn memory_used_is_total_minus_free() {
    assert_eq!(memory_used(1000, 250), Some(750));
    assert_eq!(memory_used(5, 5), Some(0));
    assert_eq!(memory_used(5, 6), None);
}

#[test]
fn system_batch_has_what_was_read() {
    assert_eq!(system_batch(Some(1), Some(2)), vec![("system.memory.used", 1), ("system.cpu.used", 2)]);
    assert_eq!(system_batch(None, Some(2)), vec![("system.cpu.used", 2)]);
    assert!(system_batch(None, None).is_empty());
}

#[test]
fn system_sample_logs_one_batch() {
    let mut store = InMemoryMetricStore::new().unwrap();
    let mut logger = MetricLogger::new(8, config(2));
    record_system_sample(&mut logger, &mut store, None, None).unwrap();
    assert_eq!(logger.buffered_len(), 0);
    record_system_sample(&mut logger, &mut store, Some(10), Some(20)).unwrap();
    assert_eq!(store.len(), 2);
    let mem = store.get_metrics(8, "system.memory.used").unwrap();
    let cpu = store.get_metrics(8, "system.cpu.used").unwrap();
    assert_eq!(mem[0].value_bits, 10);
    assert_eq!(cpu[0].value_bits, 20);
    assert_eq!(mem[0].timestamp, cpu[0].timestamp);
}
