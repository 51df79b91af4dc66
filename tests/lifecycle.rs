use ml_tracker::{Experiment, Run, RunStatus, TrackerError};

#[test]
fn test_basic_experiment_tracking() {
    let mut experiment = Experiment::new("test_experiment");
    let mut run = experiment.start_run().unwrap();

    run.set_param("learning_rate", "0.01");
    run.set_param("batch_size", "32");

    run.log_metric("loss", 0.5f64.to_bits());
    run.log_metric("accuracy", 0.95f64.to_bits());

    run.finish(RunStatus::Completed);
    assert_eq!(run.status(), RunStatus::Completed);
    assert!(run.end_time().is_some());
    assert_eq!(run.params().get("learning_rate").unwrap(), "0.01");
    assert_eq!(run.params().get("batch_size").unwrap(), "32");
}

#[test]
fn test_cleanup_active_run() {
    let mut experiment = Experiment::new("cleanup_test");
    let runs: Vec<Run> = Vec::new();
    assert!(experiment.get_active_run(&runs).unwrap().is_none());

    let mut run = experiment.start_run().unwrap();
    run.set_param("test", "value");
    run.finish(RunStatus::Completed);
}

#[test]
fn new_experiment_has_no_active_run() {
    let e = Experiment::new("mnist");
    assert_eq!(e.name(), "mnist");
    assert!(e.description().is_none());
    assert!(e.active_run().is_none());
    assert_eq!(e.tags().len(), 0);
}

#[test]
fn start_run_sets_active_slot() {
    let mut e = Experiment::new("mnist");
    let run = e.start_run().unwrap();
    assert_eq!(e.active_run(), Some(run.id()));
    assert_eq!(run.experiment_id(), e.id());
    assert_eq!(run.status(), RunStatus::Running);
    assert!(run.end_time().is_none());
}

#[test]
fn second_start_fails_and_changes_nothing() {
    let mut e = Experiment::new("mnist");
    let run = e.start_run().unwrap();
    let updated = e.updated_at();
    let err = e.start_run().err().unwrap();
    assert!(matches!(err, TrackerError::InvalidOperation(_)));
    assert_eq!(e.active_run(), Some(run.id()));
    assert_eq!(e.updated_at(), updated);
}

#[test]
fn end_run_with_wrong_id_keeps_active_slot() {
    let mut e = Experiment::new("mnist");
    let run = e.start_run().unwrap();
    let err = e.end_run(run.id().wrapping_add(1)).err().unwrap();
    assert!(matches!(err, TrackerError::InvalidOperation(_)));
    assert_eq!(e.active_run(), Some(run.id()));
}

#[test]
fn end_run_without_active_run_fails() {
    let mut e = Experiment::new("mnist");
    let err = e.end_run(7).err().unwrap();
    assert!(matches!(err, TrackerError::InvalidOperation(_)));
    assert!(e.active_run().is_none());
}

#[test]
fn end_run_clears_slot_and_allows_next_start() {
    let mut e = Experiment::new("mnist");
    let first = e.start_run().unwrap();
    e.end_run(first.id()).unwrap();
    assert!(e.active_run().is_none());
    let second = e.start_run().unwrap();
    assert_ne!(first.id(), second.id());
    assert_eq!(e.active_run(), Some(second.id()));
}

#[test]
fn get_active_run_finds_tracked_run() {
    let mut e = Experiment::new("mnist");
    let run = e.start_run().unwrap();
    let id = run.id();
    let other = Run::new_with(e.id(), id.wrapping_add(1), 0);
    let runs = vec![other, run];
    let found = e.get_active_run(&runs).unwrap().unwrap();
    assert_eq!(found.id(), id);
}

#[test]
fn get_active_run_missing_is_not_found() {
    let mut e = Experiment::new("mnist");
    let _run = e.start_run().unwrap();
    let runs: Vec<Run> = Vec::new();
    let err = e.get_active_run(&runs).err().unwrap();
    assert!(matches!(err, TrackerError::NotFound(_)));
}

#[test]
fn experiment_tags_and_description() {
    let e = Experiment::new("mnist").with_description("digits");
    assert_eq!(e.description().as_deref(), Some("digits"));
    let mut e = e;
    e.add_tag("team", "vision");
    e.add_tag("team", "nlp");
    assert_eq!(e.tags().get("team").unwrap(), "nlp");
    assert_eq!(e.tags().len(), 1);
}

#[test]
fn run_metrics_keep_log_order_per_name() {
    let mut run = Run::new_with(1, 2, 100);
    run.log_metric_at("loss", 2.5f64.to_bits(), 110);
    run.log_metric_at("acc", 0.5f64.to_bits(), 111);
    run.log_metric_at("loss", 1.25f64.to_bits(), 112);
    assert_eq!(
        run.metric("loss"),
        vec![(110, 2.5f64.to_bits()), (112, 1.25f64.to_bits())]
    );
    assert_eq!(run.metric("acc"), vec![(111, 0.5f64.to_bits())]);
    assert!(run.metric("missing").is_empty());
}

#[test]
fn run_params_tags_and_artifacts() {
    let mut run = Run::new_with(1, 2, 100);
    run.set_param("lr", "0.1");
    run.set_param("lr", "0.01");
    run.add_tag("kind", "baseline");
    run.add_artifact("a/model.bin");
    run.add_artifact("a/log.txt");
    assert_eq!(run.params().get("lr").unwrap(), "0.01");
    assert_eq!(run.tags().get("kind").unwrap(), "baseline");
    assert_eq!(run.artifacts(), &vec!["a/model.bin".to_string(), "a/log.txt".to_string()]);
}

#[test]
fn finish_twice_records_second() {
    let mut run = Run::new_with(1, 2, 100);
    run.finish_at(RunStatus::Failed, 150);
    assert_eq!(run.status(), RunStatus::Failed);
    assert_eq!(run.end_time(), Some(150));
    run.finish_at(RunStatus::Interrupted, 200);
    assert_eq!(run.status(), RunStatus::Interrupted);
    assert_eq!(run.end_time(), Some(200));
}

#[test]
fn finish_never_ends_before_start() {
    let mut run = Run::new_with(1, 2, i64::MAX);
    run.finish(RunStatus::Completed);
    assert_eq!(run.end_time(), Some(i64::MAX));
}

#[test]
fn new_experiment_times_are_equal() {
    let e = Experiment::new("mnist");
    assert_eq!(e.created_at(), e.updated_at());
    assert!(e.created_at() >= 0);
}

#[test]
fn changes_keep_creation_time_and_never_move_update_time_back() {
    let mut e = Experiment::new("mnist");
    let created = e.created_at();
    let mut last = e.updated_at();
    e.add_tag("k", "v");
    assert!(e.updated_at() >= last);
    last = e.updated_at();
    let run = e.start_run().unwrap();
    assert!(e.updated_at() >= last);
    last = e.updated_at();
    e.end_run(run.id()).unwrap();
    assert!(e.updated_at() >= last);
    let e = e.with_description("d");
    assert_eq!(e.created_at(), created);
}

#[test]
fn started_run_is_empty() {
    let mut e = Experiment::new("mnist");
    let run = e.start_run().unwrap();
    assert!(run.metric("loss").is_empty());
    assert!(run.samples().is_empty());
    assert_eq!(run.params().len(), 0);
    assert_eq!(run.tags().len(), 0);
    assert!(run.artifacts().is_empty());
}
