use transformation_engine::args::{
    default_batch_size, default_source_name, default_sources, default_topic, default_workers,
    JobArgs,
};

fn args(batch_size: usize, workers: usize, required_sources: Vec<String>) -> JobArgs {
    JobArgs {
        batch_size,
        workers,
        retry_failed: true,
        topic: "t".to_string(),
        required_sources,
        source_name: "s".to_string(),
    }
}

#[test]
fn values_stand_in_for_missing_arguments() {
    assert_eq!(default_batch_size(), 500);
    assert_eq!(default_workers(), 5);
    assert_eq!(default_topic(), "employee.data");
    assert_eq!(default_sources(), vec!["ORA_EMPLOYEE".to_string()]);
    assert_eq!(default_source_name(), "TRANSFORMATION");
}

#[test]
fn a_job_without_arguments_has_the_default_ones() {
    let args = JobArgs::default();
    assert_eq!(args.batch_size, 500);
    assert_eq!(args.workers, 5);
    assert!(!args.retry_failed);
    assert_eq!(args.topic, "employee.data");
    assert_eq!(args.required_sources, vec!["ORA_EMPLOYEE".to_string()]);
    assert_eq!(args.source_name, "TRANSFORMATION");
}

#[test]
fn arguments_that_no_job_can_run_with_are_replaced() {
    let shaped = args(0, 0, Vec::new()).normalized();
    assert_eq!(shaped.batch_size, 1);
    assert_eq!(shaped.workers, 1);
    assert_eq!(shaped.required_sources, vec!["ORA_EMPLOYEE".to_string()]);
    assert!(shaped.retry_failed);
    assert_eq!(shaped.topic, "t");
    assert_eq!(shaped.source_name, "s");
}

#[test]
fn arguments_that_a_job_can_run_with_stay() {
    let shaped = args(7, 3, vec!["A".to_string(), "B".to_string()]).normalized().normalized();
    assert_eq!(shaped.batch_size, 7);
    assert_eq!(shaped.workers, 3);
    assert_eq!(shaped.required_sources, vec!["A".to_string(), "B".to_string()]);
}
