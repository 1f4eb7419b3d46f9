use transformation_engine::job::{Job, JobAction, JobEvent};

type Event = JobEvent<&'static str>;
type Action = JobAction<&'static str>;

fn new_job(batch_size: usize, workers: usize) -> Job<&'static str> {
    Job::start(batch_size, workers).0
}

fn claimed(aggregates: &[&'static str]) -> Event {
    JobEvent::Claimed { aggregates: aggregates.to_vec() }
}

fn start(aggregate: &'static str) -> Action {
    JobAction::StartTask { aggregate, report: None }
}

fn report(aggregate: &'static str, processed: usize) -> Action {
    JobAction::StartTask { aggregate, report: Some(processed) }
}

fn run(job: &mut Job<&'static str>, events: Vec<Event>) -> Vec<Action> {
    events.into_iter().map(|event| job.step(event)).collect()
}

#[test]
fn a_job_begins_with_a_claim() {
    let (job, action) = Job::<u32>::start(10, 2);
    assert_eq!(action, JobAction::Claim);
    assert_eq!(job.processed(), 0);
    assert_eq!(job.running(), 0);
}

#[test]
fn a_job_without_records_finishes_at_once() {
    let mut job = new_job(10, 2);
    assert_eq!(job.step(claimed(&[])), JobAction::Finish);
    assert_eq!(job.processed(), 0);
}

#[test]
fn every_claimed_record_is_processed() {
    let mut job = new_job(2, 2);
    let actions = run(
        &mut job,
        vec![
            claimed(&["a", "b", "c"]),
            JobEvent::TaskStarted,
            JobEvent::TaskStarted,
            JobEvent::TaskEnded,
            JobEvent::TaskStarted,
            claimed(&[]),
            JobEvent::TaskEnded,
            JobEvent::TaskEnded,
        ],
    );
    let expected = vec![
        start("a"),
        report("b", 2),
        JobAction::AwaitTask,
        start("c"),
        JobAction::Claim,
        JobAction::AwaitTask,
        JobAction::AwaitTask,
        JobAction::Finish,
    ];
    assert_eq!(actions, expected);
    assert_eq!(job.processed(), 3);
    assert_eq!(job.running(), 0);
}

#[test]
fn aggregates_are_handed_out_in_the_order_of_the_claims() {
    let claims = [vec![7, 3, 7, 1], vec![9], vec![2, 8, 4, 6, 5], vec![]];
    let (mut job, mut action) = Job::start(3, 2);
    let mut next_claims = claims.clone().into_iter();
    let mut handed_out = Vec::new();
    while action != JobAction::Finish {
        let event = match action {
            JobAction::Claim => JobEvent::Claimed { aggregates: next_claims.next().unwrap() },
            JobAction::StartTask { aggregate, .. } => {
                handed_out.push(aggregate);
                JobEvent::TaskStarted
            }
            _ => JobEvent::TaskEnded,
        };
        action = job.step(event);
    }
    assert_eq!(handed_out, claims.concat());
    assert_eq!(job.processed(), handed_out.len());
}

#[test]
fn a_failed_job_has_handed_out_the_first_aggregates() {
    let mut job = new_job(10, 2);
    let actions = run(
        &mut job,
        vec![
            claimed(&["a", "b", "c"]),
            JobEvent::TaskStarted,
            JobEvent::TaskStarted,
            JobEvent::Failed,
        ],
    );
    assert_eq!(actions, vec![start("a"), start("b"), JobAction::AwaitTask, JobAction::Abort]);
    assert_eq!(job.processed(), 2);
}

#[test]
fn there_are_no_more_tasks_than_workers() {
    let mut job = Job::start(100, 3).0;
    let mut action = job.step(JobEvent::Claimed { aggregates: (0..20).collect::<Vec<u32>>() });
    let mut running = 0;
    let mut claims = 0;
    while action != JobAction::Finish {
        action = match action {
            JobAction::StartTask { .. } => {
                running += 1;
                assert!(running <= 3);
                job.step(JobEvent::TaskStarted)
            }
            JobAction::AwaitTask => {
                running -= 1;
                job.step(JobEvent::TaskEnded)
            }
            JobAction::Claim => {
                claims += 1;
                job.step(JobEvent::Claimed { aggregates: Vec::new() })
            }
            _ => panic!("the job failed"),
        };
    }
    assert_eq!(running, 0);
    assert_eq!(claims, 1);
    assert_eq!(job.processed(), 20);
}

#[test]
fn progress_is_reported_once_a_batch() {
    let mut job = Job::start(4, 1).0;
    let mut reports = Vec::new();
    let mut action = job.step(JobEvent::Claimed { aggregates: (0..11).collect::<Vec<u32>>() });
    while action != JobAction::Claim {
        action = match action {
            JobAction::StartTask { report, .. } => {
                reports.extend(report);
                job.step(JobEvent::TaskStarted)
            }
            _ => job.step(JobEvent::TaskEnded),
        };
    }
    assert_eq!(reports, vec![4, 8]);
    assert_eq!(reports.len(), job.processed() / 4);
}

#[test]
fn a_shutdown_waits_for_the_running_tasks() {
    let mut job = new_job(10, 5);
    let actions = run(
        &mut job,
        vec![
            claimed(&["a", "b"]),
            JobEvent::TaskStarted,
            JobEvent::TaskStarted,
            JobEvent::ShutdownRequested,
            JobEvent::TaskEnded,
            JobEvent::TaskEnded,
        ],
    );
    assert_eq!(actions[2], JobAction::Claim);
    assert_eq!(actions[3], JobAction::AwaitTask);
    assert_eq!(actions[4], JobAction::AwaitTask);
    assert_eq!(actions[5], JobAction::Finish);
}

#[test]
fn a_shutdown_without_tasks_finishes() {
    assert_eq!(new_job(1, 1).step(JobEvent::ShutdownRequested), JobAction::Finish);
}

#[test]
fn an_empty_claim_waits_for_the_running_tasks() {
    let mut job = new_job(10, 5);
    let actions = run(
        &mut job,
        vec![
            claimed(&["a", "b"]),
            JobEvent::TaskStarted,
            JobEvent::TaskStarted,
            claimed(&[]),
            JobEvent::TaskEnded,
            JobEvent::TaskEnded,
        ],
    );
    assert_eq!(actions[3], JobAction::AwaitTask);
    assert_eq!(actions[5], JobAction::Finish);
    assert_eq!(job.processed(), 2);
    assert_eq!(job.running(), 0);
}

#[test]
fn a_failure_aborts_the_job() {
    let mut job = new_job(10, 1);
    assert_eq!(job.step(JobEvent::Failed), JobAction::Abort);

    let mut job = new_job(10, 1);
    let actions = run(
        &mut job,
        vec![claimed(&["a", "b"]), JobEvent::TaskStarted, JobEvent::Failed],
    );
    assert_eq!(actions[1], JobAction::AwaitTask);
    assert_eq!(actions[2], JobAction::Abort);

    let mut job = new_job(10, 1);
    let actions = run(
        &mut job,
        vec![claimed(&["a"]), JobEvent::TaskStarted, claimed(&[]), JobEvent::Failed],
    );
    assert_eq!(actions[3], JobAction::Abort);
}
