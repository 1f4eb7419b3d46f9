//! The course of a job: claiming aggregates, starting a task for each, and waiting for them all.
use std::collections::VecDeque;
use vstd::prelude::*;

verus! {

/// What the job is about to do.
#[derive(Clone, Copy, PartialEq, Eq, Structural)]
pub enum Phase {
    /// Ask for the next aggregates.
    Claiming,
    /// Wait for a worker to become free for a claimed aggregate.
    Waiting,
    /// Start a task for an aggregate.
    Starting,
    /// Wait for the running tasks; nothing more is claimed.
    Draining,
    /// Everything claimed has been processed.
    Finished,
    /// A claim or a task has failed.
    Failed,
}

/// What has come of the job's last action.
pub enum JobEvent<A> {
    /// The job was told to stop in place of claiming aggregates.
    ShutdownRequested,
    /// These aggregates were claimed.
    Claimed { aggregates: Vec<A> },
    /// The task was started.
    TaskStarted,
    /// One of the running tasks has ended well.
    TaskEnded,
    /// The claim, or the task waited for, has failed.
    Failed,
}

/// What is to be done next.
#[derive(Debug, PartialEq, Eq)]
pub enum JobAction<A> {
    /// Claim aggregates, unless told to stop.
    Claim,
    /// Wait until one of the running tasks ends.
    AwaitTask,
    /// Report the number of aggregates processed, where one is given, and start the aggregate's task.
    StartTask { aggregate: A, report: Option<usize> },
    /// The job is over and has gone well.
    Finish,
    /// The job is over and has failed; tasks that still run are given up.
    Abort,
}

/// How far a job has come.
pub struct JobState<A> {
    pub batch_size: usize,
    pub workers: usize,
    /// The tasks that have been started and not been waited for.
    pub running: usize,
    /// The aggregates that have been handed out to be processed.
    pub processed: usize,
    pub phase: Phase,
    /// The claimed aggregates that have not been handed out, in the order of the claim.
    pub waiting: Seq<A>,
}

/// What holds of a job at all times.
pub open spec fn well_formed<A>(job: JobState<A>) -> bool {
    &&& job.batch_size >= 1
    &&& job.workers >= 1
    &&& job.running <= job.workers
    &&& job.running <= job.processed
    &&& match job.phase {
        Phase::Claiming => job.waiting.len() == 0,
        Phase::Waiting => job.waiting.len() >= 1 && job.running == job.workers,
        Phase::Starting => job.running < job.workers && job.running < job.processed,
        Phase::Draining => job.waiting.len() == 0 && job.running >= 1,
        Phase::Finished => job.waiting.len() == 0 && job.running == 0,
        Phase::Failed => true,
    }
}

/// Whether the event can come of what the job is about to do.
pub open spec fn expects<A>(job: JobState<A>, event: JobEvent<A>) -> bool {
    match job.phase {
        Phase::Claiming => event is ShutdownRequested || event is Claimed || event is Failed,
        Phase::Waiting => event is TaskEnded || event is Failed,
        Phase::Starting => event is TaskStarted,
        Phase::Draining => event is TaskEnded || event is Failed,
        Phase::Finished => false,
        Phase::Failed => false,
    }
}

/// The number of aggregates processed, where it is to be reported: at every full batch.
pub open spec fn report_at(processed: usize, batch_size: usize) -> Option<usize> {
    if processed % batch_size == 0 {
        Some(processed)
    } else {
        None
    }
}

/// The job with `running` tasks and claimed aggregates still to be handed out, and what it does: it
/// claims again where no aggregate waits, waits where every worker is busy, and otherwise hands out the
/// first of the aggregates.
pub open spec fn dispatched<A>(job: JobState<A>, running: int, waiting: Seq<A>) -> (
    JobState<A>,
    JobAction<A>,
) {
    let moved = JobState { running: running as usize, waiting, ..job };
    if waiting.len() == 0 {
        (JobState { phase: Phase::Claiming, ..moved }, JobAction::Claim)
    } else if running >= job.workers {
        (JobState { phase: Phase::Waiting, ..moved }, JobAction::AwaitTask)
    } else {
        let processed = (job.processed + 1) as usize;
        (
            JobState {
                phase: Phase::Starting,
                processed,
                waiting: waiting.drop_first(),
                ..moved
            },
            JobAction::StartTask {
                aggregate: waiting[0],
                report: report_at(processed, job.batch_size),
            },
        )
    }
}

/// The job with `running` tasks and nothing more to claim, and what it does.
pub open spec fn drained<A>(job: JobState<A>, running: int) -> (JobState<A>, JobAction<A>) {
    if running == 0 {
        (
            JobState { running: running as usize, phase: Phase::Finished, ..job },
            JobAction::Finish,
        )
    } else {
        (
            JobState { running: running as usize, phase: Phase::Draining, ..job },
            JobAction::AwaitTask,
        )
    }
}

/// The job after the event, and what it does next.
pub open spec fn turn<A>(job: JobState<A>, event: JobEvent<A>) -> (JobState<A>, JobAction<A>) {
    match (event, job.phase) {
        (JobEvent::Failed, _) => (JobState { phase: Phase::Failed, ..job }, JobAction::Abort),
        (JobEvent::ShutdownRequested, _) => drained(job, job.running as int),
        (JobEvent::Claimed { aggregates }, _) => if aggregates@.len() == 0 {
            drained(job, job.running as int)
        } else {
            dispatched(job, job.running as int, aggregates@)
        },
        (JobEvent::TaskStarted, _) => dispatched(job, job.running + 1, job.waiting),
        (JobEvent::TaskEnded, Phase::Waiting) => dispatched(job, job.running - 1, job.waiting),
        (JobEvent::TaskEnded, _) => drained(job, job.running - 1),
    }
}

/// The job after the event.
pub open spec fn next_job<A>(job: JobState<A>, event: JobEvent<A>) -> JobState<A> {
    turn(job, event).0
}

/// What the job does after the event.
pub open spec fn next_action<A>(job: JobState<A>, event: JobEvent<A>) -> JobAction<A> {
    turn(job, event).1
}

/// Whether the job can go on with the event.
pub open spec fn accepts<A>(job: JobState<A>, event: JobEvent<A>) -> bool {
    &&& expects(job, event)
    &&& next_job(job, event).phase is Starting ==> job.processed < usize::MAX
}

/// A job that is about to claim its first aggregates.
pub open spec fn new_job<A>(batch_size: usize, workers: usize) -> JobState<A> {
    JobState {
        batch_size,
        workers,
        running: 0,
        processed: 0,
        phase: Phase::Claiming,
        waiting: Seq::empty(),
    }
}

/// What a job keeps.
struct Ledger<A> {
    batch_size: usize,
    workers: usize,
    running: usize,
    processed: usize,
    phase: Phase,
    waiting: VecDeque<A>,
}

impl<A> View for Ledger<A> {
    type V = JobState<A>;

    closed spec fn view(&self) -> JobState<A> {
        JobState {
            batch_size: self.batch_size,
            workers: self.workers,
            running: self.running,
            processed: self.processed,
            phase: self.phase,
            waiting: self.waiting@,
        }
    }
}

impl<A> Ledger<A> {
    fn new(batch_size: usize, workers: usize) -> (ledger: Ledger<A>)
        ensures
            ledger@ == new_job::<A>(batch_size, workers),
    {
        Ledger {
            batch_size,
            workers,
            running: 0,
            processed: 0,
            phase: Phase::Claiming,
            waiting: VecDeque::new(),
        }
    }

    fn dispatch(&mut self) -> (action: JobAction<A>)
        requires
            old(self).batch_size >= 1,
            dispatched(old(self)@, old(self).running as int, old(self).waiting@).0.phase is Starting
                ==> old(self).processed < usize::MAX,
        ensures
            (final(self)@, action) == dispatched(
                old(self)@,
                old(self).running as int,
                old(self).waiting@,
            ),
    {
        if self.running >= self.workers && self.waiting.len() > 0 {
            self.phase = Phase::Waiting;
            return JobAction::AwaitTask;
        }
        match self.waiting.pop_front() {
            None => {
                self.phase = Phase::Claiming;
                JobAction::Claim
            },
            Some(aggregate) => {
                self.processed = self.processed + 1;
                self.phase = Phase::Starting;
                let report: Option<usize> = if self.processed % self.batch_size == 0 {
                    Some(self.processed)
                } else {
                    None
                };
                JobAction::StartTask { aggregate, report }
            },
        }
    }

    fn drain(&mut self) -> (action: JobAction<A>)
        ensures
            (final(self)@, action) == drained(old(self)@, old(self).running as int),
    {
        if self.running == 0 {
            self.phase = Phase::Finished;
            JobAction::Finish
        } else {
            self.phase = Phase::Draining;
            JobAction::AwaitTask
        }
    }

    /// Lets the aggregates wait, in their order.
    fn queue(&mut self, aggregates: Vec<A>)
        requires
            old(self).waiting@.len() == 0,
        ensures
            final(self)@ == (JobState { waiting: aggregates@, ..old(self)@ }),
    {
        let ghost all = aggregates@;
        let ghost before = self@;
        assert(self.waiting@ =~= all.take(0));
        for aggregate in it: aggregates
            invariant
                it.seq() == all,
                self@ == (JobState { waiting: all.take(it.index() as int), ..before }),
        {
            self.waiting.push_back(aggregate);
            assert(self.waiting@ =~= all.take(it.index() as int + 1));
        }
        assert(all.take(all.len() as int) =~= all);
    }

    fn turn(&mut self, event: JobEvent<A>) -> (action: JobAction<A>)
        requires
            well_formed(old(self)@),
            accepts(old(self)@, event),
        ensures
            (final(self)@, action) == turn(old(self)@, event),
            well_formed(final(self)@),
    {
        match event {
            JobEvent::Failed => {
                self.phase = Phase::Failed;
                JobAction::Abort
            },
            JobEvent::ShutdownRequested => self.drain(),
            JobEvent::Claimed { aggregates } => {
                if aggregates.len() == 0 {
                    self.drain()
                } else {
                    self.queue(aggregates);
                    self.dispatch()
                }
            },
            JobEvent::TaskStarted => {
                self.running = self.running + 1;
                self.dispatch()
            },
            JobEvent::TaskEnded => {
                self.running = self.running - 1;
                if let Phase::Waiting = self.phase {
                    self.dispatch()
                } else {
                    self.drain()
                }
            },
        }
    }
}

/// A job under way, which is well formed at all times. Its first action is to claim.
pub struct Job<A> {
    ledger: Ledger<A>,
}

impl<A> View for Job<A> {
    type V = JobState<A>;

    closed spec fn view(&self) -> JobState<A> {
        self.ledger@
    }
}

impl<A> Job<A> {
    #[verifier::type_invariant]
    spec fn holds(self) -> bool {
        well_formed(self.ledger@)
    }

    /// A job, and its first action.
    pub fn start(batch_size: usize, workers: usize) -> (started: (Job<A>, JobAction<A>))
        requires
            batch_size >= 1,
            workers >= 1,
        ensures
            started.0@ == new_job::<A>(batch_size, workers),
            started.1 is Claim,
    {
        (Job { ledger: Ledger::new(batch_size, workers) }, JobAction::Claim)
    }

    /// How many aggregates have been handed out to be processed.
    pub fn processed(&self) -> (processed: usize)
        ensures
            processed == self@.processed,
    {
        self.ledger.processed
    }

    /// How many tasks have been started and not been waited for.
    pub fn running(&self) -> (running: usize)
        ensures
            running == self@.running,
    {
        self.ledger.running
    }

    /// Takes note of what has come of the last action and says what is to be done next.
    pub fn step(&mut self, event: JobEvent<A>) -> (action: JobAction<A>)
        requires
            accepts(old(self)@, event),
        ensures
            final(self)@ == next_job(old(self)@, event),
            action == next_action(old(self)@, event),
            well_formed(final(self)@),
    {
        proof {
            use_type_invariant(&*self);
        }
        let mut taken: Job<A> = Job { ledger: Ledger::new(1, 1) };
        std::mem::swap(self, &mut taken);
        let mut ledger: Ledger<A> = taken.ledger;
        let action: JobAction<A> = ledger.turn(event);
        *self = Job { ledger };
        action
    }
}

/// The job after all of the events.
pub open spec fn job_after<A>(job: JobState<A>, events: Seq<JobEvent<A>>) -> JobState<A>
    decreases events.len(),
{
    if events.len() == 0 {
        job
    } else {
        next_job(job_after(job, events.drop_last()), events.last())
    }
}

/// Whether the events can come about one after the other.
pub open spec fn is_course<A>(job: JobState<A>, events: Seq<JobEvent<A>>) -> bool
    decreases events.len(),
{
    events.len() > 0 ==> {
        &&& is_course(job, events.drop_last())
        &&& accepts(job_after(job, events.drop_last()), events.last())
    }
}

/// The aggregates that the events claimed, in the order of the claims.
pub open spec fn claimed_in<A>(events: Seq<JobEvent<A>>) -> Seq<A>
    decreases events.len(),
{
    if events.len() == 0 {
        Seq::empty()
    } else {
        match events.last() {
            JobEvent::Claimed { aggregates } => claimed_in(events.drop_last()) + aggregates@,
            _ => claimed_in(events.drop_last()),
        }
    }
}

/// The aggregates that tasks were to be started for up to the end of the events, in that order.
pub open spec fn handed_out<A>(job: JobState<A>, events: Seq<JobEvent<A>>) -> Seq<A>
    decreases events.len(),
{
    if events.len() == 0 {
        Seq::empty()
    } else {
        match next_action(job_after(job, events.drop_last()), events.last()) {
            JobAction::StartTask { aggregate, .. } => handed_out(job, events.drop_last()).push(aggregate),
            _ => handed_out(job, events.drop_last()),
        }
    }
}

/// How many tasks the events started.
pub open spec fn started_in<A>(events: Seq<JobEvent<A>>) -> nat
    decreases events.len(),
{
    if events.len() == 0 {
        0
    } else {
        started_in(events.drop_last()) + if events.last() is TaskStarted {
            1nat
        } else {
            0
        }
    }
}

/// How many tasks ended well in the events.
pub open spec fn ended_in<A>(events: Seq<JobEvent<A>>) -> nat
    decreases events.len(),
{
    if events.len() == 0 {
        0
    } else {
        ended_in(events.drop_last()) + if events.last() is TaskEnded {
            1nat
        } else {
            0
        }
    }
}

/// How many times progress was to be reported up to the end of the events.
pub open spec fn reports_in<A>(job: JobState<A>, events: Seq<JobEvent<A>>) -> nat
    decreases events.len(),
{
    if events.len() == 0 {
        0
    } else {
        reports_in(job, events.drop_last()) + match next_action(
            job_after(job, events.drop_last()),
            events.last(),
        ) {
            JobAction::StartTask { report: Some(_), .. } => 1nat,
            _ => 0,
        }
    }
}

/// The tasks that the job has yet to start, and those that it has yet to wait for, each of the
/// former counted twice.
pub open spec fn work_ahead<A>(job: JobState<A>) -> int {
    2 * job.waiting.len() + job.running + if job.phase is Starting {
        2int
    } else {
        0
    }
}

/// What is true of a job at any point of its course: the aggregates handed out and those that wait are
/// the aggregates claimed, in their order, and the running tasks are those started and not ended.
pub proof fn law_course_of_a_job<A>(batch_size: usize, workers: usize, events: Seq<JobEvent<A>>)
    requires
        batch_size >= 1,
        workers >= 1,
        is_course(new_job::<A>(batch_size, workers), events),
    ensures
        ({
            let start = new_job::<A>(batch_size, workers);
            let job = job_after(start, events);
            &&& well_formed(job)
            &&& job.batch_size == batch_size && job.workers == workers
            &&& handed_out(start, events) + job.waiting == claimed_in(events)
            &&& job.processed == handed_out(start, events).len()
            &&& job.running + ended_in(events) == started_in(events)
            &&& job.processed == started_in(events) + if job.phase is Starting {
                1int
            } else {
                0
            }
        }),
    decreases events.len(),
{
    let start = new_job::<A>(batch_size, workers);
    let job = job_after(start, events);
    if events.len() > 0 {
        law_course_of_a_job(batch_size, workers, events.drop_last());
    }
    assert(handed_out(start, events) + job.waiting =~= claimed_in(events));
}

/// There are never more tasks under way than workers.
pub proof fn law_no_more_tasks_than_workers<A>(
    batch_size: usize,
    workers: usize,
    events: Seq<JobEvent<A>>,
)
    requires
        batch_size >= 1,
        workers >= 1,
        is_course(new_job::<A>(batch_size, workers), events),
    ensures
        started_in(events) - ended_in(events) <= workers,
{
    law_course_of_a_job(batch_size, workers, events);
}

/// A job that finishes has handed out every aggregate that it claimed, each once and in the order of
/// the claims, and has waited for the task of each.
pub proof fn law_finished_job_is_complete<A>(
    batch_size: usize,
    workers: usize,
    events: Seq<JobEvent<A>>,
)
    requires
        batch_size >= 1,
        workers >= 1,
        is_course(new_job::<A>(batch_size, workers), events),
        job_after(new_job::<A>(batch_size, workers), events).phase is Finished,
    ensures
        handed_out(new_job::<A>(batch_size, workers), events) == claimed_in(events),
        started_in(events) == claimed_in(events).len(),
        ended_in(events) == claimed_in(events).len(),
        job_after(new_job::<A>(batch_size, workers), events).processed == claimed_in(events).len(),
{
    law_course_of_a_job(batch_size, workers, events);
    assert(handed_out(new_job::<A>(batch_size, workers), events) =~= claimed_in(events));
}

/// At any point of its course a job has handed out the first of the aggregates that it claimed, each
/// once and in the order of the claims; so also where it fails.
pub proof fn law_aggregates_are_handed_out_in_order<A>(
    batch_size: usize,
    workers: usize,
    events: Seq<JobEvent<A>>,
)
    requires
        batch_size >= 1,
        workers >= 1,
        is_course(new_job::<A>(batch_size, workers), events),
    ensures
        handed_out(new_job::<A>(batch_size, workers), events).is_prefix_of(claimed_in(events)),
{
    law_course_of_a_job(batch_size, workers, events);
}

/// Progress is reported once for every full batch of aggregates.
pub proof fn law_one_report_per_batch<A>(
    batch_size: usize,
    workers: usize,
    events: Seq<JobEvent<A>>,
)
    requires
        batch_size >= 1,
        workers >= 1,
        is_course(new_job::<A>(batch_size, workers), events),
    ensures
        reports_in(new_job::<A>(batch_size, workers), events) == job_after(
            new_job::<A>(batch_size, workers),
            events,
        ).processed / batch_size,
    decreases events.len(),
{
    let start = new_job::<A>(batch_size, workers);
    if events.len() > 0 {
        let before = job_after(start, events.drop_last());
        let after = job_after(start, events);
        law_one_report_per_batch(batch_size, workers, events.drop_last());
        law_course_of_a_job(batch_size, workers, events.drop_last());
        if after.phase is Starting {
            lemma_next_quotient(before.processed as int, batch_size as int);
        }
    } else {
        assert(0int / batch_size as int == 0) by (nonlinear_arith)
            requires
                batch_size >= 1,
        ;
    }
}

/// Counting up by one reaches a new quotient exactly at the multiples.
proof fn lemma_next_quotient(n: int, d: int)
    requires
        n >= 0,
        d >= 1,
    ensures
        (n + 1) / d == n / d + if (n + 1) % d == 0 {
            1int
        } else {
            0
        },
{
    let q = n / d;
    let r = n % d;
    vstd::arithmetic::div_mod::lemma_fundamental_div_mod(n, d);
    if r + 1 == d {
        assert(n + 1 == (q + 1) * d + 0) by (nonlinear_arith)
            requires
                n == d * q + r,
                r + 1 == d,
        ;
        vstd::arithmetic::div_mod::lemma_fundamental_div_mod_converse(n + 1, d, q + 1, 0);
    } else {
        assert(n + 1 == q * d + (r + 1)) by (nonlinear_arith)
            requires
                n == d * q + r,
        ;
        vstd::arithmetic::div_mod::lemma_fundamental_div_mod_converse(n + 1, d, q, r + 1);
    }
}

/// Starting a task, and waiting for one, takes the job one step nearer to its next claim or its
/// end, so a job that claims nothing more comes to its end.
pub proof fn law_tasks_bring_the_job_forward<A>(job: JobState<A>, event: JobEvent<A>)
    requires
        well_formed(job),
        accepts(job, event),
        event is TaskStarted || event is TaskEnded,
    ensures
        work_ahead(next_job(job, event)) == work_ahead(job) - 1,
        work_ahead(next_job(job, event)) >= 0,
{
}

/// Whether the event ends the claiming: the job was told to stop, or found nothing to claim.
pub open spec fn ends_claiming<A>(event: JobEvent<A>) -> bool {
    match event {
        JobEvent::ShutdownRequested => true,
        JobEvent::Claimed { aggregates } => aggregates@.len() == 0,
        _ => false,
    }
}

/// Told to stop, or finding nothing to claim, a job claims nothing more: it waits for its tasks and
/// finishes.
pub proof fn law_end_of_claiming_is_graceful<A>(job: JobState<A>, events: Seq<JobEvent<A>>)
    requires
        well_formed(job),
        is_course(job, events),
        events.len() > 0,
        ends_claiming(events[0]),
        forall|i: int| 0 <= i < events.len() ==> !(#[trigger] events[i] is Failed),
    ensures
        job_after(job, events).phase is Draining || job_after(job, events).phase is Finished,
        job_after(job, events).processed == job.processed,
        job_after(job, events).running == job.running - (events.len() - 1),
    decreases events.len(),
{
    let earlier = events.drop_last();
    assert(events.last() == events[events.len() - 1]);
    if events.len() == 1 {
        assert(job_after(job, earlier) == job);
    } else {
        assert(earlier[0] == events[0]);
        law_end_of_claiming_is_graceful(job, earlier);
        lemma_well_formed_after(job, earlier);
    }
}

proof fn lemma_well_formed_after<A>(job: JobState<A>, events: Seq<JobEvent<A>>)
    requires
        well_formed(job),
        is_course(job, events),
    ensures
        well_formed(job_after(job, events)),
    decreases events.len(),
{
    if events.len() > 0 {
        lemma_well_formed_after(job, events.drop_last());
    }
}

/// A job begins with a claim: it has handed out nothing, nothing runs and nothing waits.
pub proof fn law_job_begins_with_a_claim<A>(
    batch_size: usize,
    workers: usize,
    started: (Job<A>, JobAction<A>),
)
    requires
        batch_size >= 1,
        workers >= 1,
        call_ensures(Job::<A>::start, (batch_size, workers), started),
    ensures
        call_requires(Job::<A>::start, (batch_size, workers)),
        started.1 is Claim,
        started.0@.phase is Claiming,
        started.0@.batch_size == batch_size,
        started.0@.workers == workers,
        started.0@.running == 0,
        started.0@.processed == 0,
        started.0@.waiting.len() == 0,
{
}

/// A job tells how many aggregates it has handed out and how many tasks run.
pub proof fn law_job_tells_its_counts<A>(job: &Job<A>, processed: usize, running: usize)
    requires
        call_ensures(Job::<A>::processed, (job,), processed),
        call_ensures(Job::<A>::running, (job,), running),
    ensures
        processed == job@.processed,
        running == job@.running,
{
}

/// A job that is about to claim can be told to stop, can be given any aggregates and can be told of a
/// failure; one that waits for a task can be told that it has ended, well or not; one that starts
/// a task can be told so.
pub proof fn law_job_takes_what_comes_of_its_action<A>(job: &mut Job<A>, event: JobEvent<A>)
    requires
        old(job)@.processed < usize::MAX,
        match old(job)@.phase {
            Phase::Claiming => event is ShutdownRequested || event is Claimed || event is Failed,
            Phase::Waiting => event is TaskEnded || event is Failed,
            Phase::Starting => event is TaskStarted,
            Phase::Draining => event is TaskEnded || event is Failed,
            Phase::Finished => false,
            Phase::Failed => false,
        },
    ensures
        call_requires(Job::<A>::step, (job, event)),
{
}

/// A job that is told of a failure gives up, whatever it has done before.
pub proof fn law_failure_aborts_the_job<A>(job: &mut Job<A>, action: JobAction<A>)
    requires
        call_ensures(Job::<A>::step, (job, JobEvent::Failed), action),
    ensures
        action is Abort,
        final(job)@.phase is Failed,
        final(job)@.processed == old(job)@.processed,
        final(job)@.running == old(job)@.running,
{
}

/// What a job does is what its phase says, so it finishes only where it has come to its end, and
/// gives up only where it has failed. It fails exactly where it is told of a failure, comes to its
/// end only with no task running, claims only with no aggregate waiting, and waits only for a task
/// that runs.
pub proof fn law_action_is_that_of_the_phase<A>(
    job: &mut Job<A>,
    event: JobEvent<A>,
    action: JobAction<A>,
)
    requires
        old(job)@.workers >= 1,
        event is TaskStarted ==> old(job)@.running < usize::MAX,
        event is TaskEnded ==> old(job)@.running > 0,
        call_ensures(Job::<A>::step, (job, event), action),
    ensures
        action is Claim <==> final(job)@.phase is Claiming,
        action is AwaitTask <==> final(job)@.phase is Waiting || final(job)@.phase is Draining,
        action is StartTask <==> final(job)@.phase is Starting,
        action is Finish <==> final(job)@.phase is Finished,
        action is Abort <==> final(job)@.phase is Failed,
        action is Abort <==> event is Failed,
        action is Finish ==> final(job)@.running == 0,
        action is Claim ==> final(job)@.waiting.len() == 0,
        action is AwaitTask ==> final(job)@.running >= 1,
{
}

/// Aggregates wait only while tasks are started or a worker is waited for, a worker is waited for
/// only while all are busy, and there are never more tasks than workers or aggregates handed out.
pub proof fn law_job_stays_in_order<A>(job: &mut Job<A>, event: JobEvent<A>, action: JobAction<A>)
    requires
        well_formed(old(job)@),
        accepts(old(job)@, event),
        call_ensures(Job::<A>::step, (job, event), action),
    ensures
        final(job)@.running <= final(job)@.workers,
        final(job)@.running <= final(job)@.processed,
        final(job)@.phase is Claiming || final(job)@.phase is Draining
            || final(job)@.phase is Finished ==> final(job)@.waiting.len() == 0,
        final(job)@.phase is Waiting ==> final(job)@.waiting.len() >= 1 && final(job)@.running
            == final(job)@.workers,
        final(job)@.phase is Starting ==> final(job)@.running < final(job)@.workers,
        final(job)@.phase is Draining ==> final(job)@.running >= 1,
{
}

/// A job keeps the size of its batches and the number of its workers. A task that is started is one
/// more that runs, one that has ended is one fewer, and nothing else changes their number.
pub proof fn law_running_tasks_are_counted<A>(
    job: &mut Job<A>,
    event: JobEvent<A>,
    action: JobAction<A>,
)
    requires
        event is TaskStarted ==> old(job)@.running < usize::MAX,
        event is TaskEnded ==> old(job)@.running > 0,
        call_ensures(Job::<A>::step, (job, event), action),
    ensures
        final(job)@.batch_size == old(job)@.batch_size,
        final(job)@.workers == old(job)@.workers,
        final(job)@.running == old(job)@.running + match event {
            JobEvent::TaskStarted => 1int,
            JobEvent::TaskEnded => -1,
            _ => 0,
        },
{
}

/// Told to stop, or given nothing by a claim, a job hands out nothing more. It is over where no
/// task runs, and waits for its tasks otherwise.
pub proof fn law_end_of_claiming_waits_for_the_tasks<A>(
    job: &mut Job<A>,
    event: JobEvent<A>,
    action: JobAction<A>,
)
    requires
        match event {
            JobEvent::ShutdownRequested => true,
            JobEvent::Claimed { aggregates } => aggregates@.len() == 0,
            _ => false,
        },
        call_ensures(Job::<A>::step, (job, event), action),
    ensures
        action is Finish <==> old(job)@.running == 0,
        action is AwaitTask <==> old(job)@.running > 0,
        old(job)@.running > 0 ==> final(job)@.phase is Draining,
        final(job)@.processed == old(job)@.processed,
        final(job)@.waiting == old(job)@.waiting,
{
}

/// A job that claims nothing more is over once the last of its tasks has ended, and no sooner.
pub proof fn law_last_task_ends_the_job<A>(job: &mut Job<A>, action: JobAction<A>)
    requires
        old(job)@.phase is Draining,
        old(job)@.running > 0,
        call_ensures(Job::<A>::step, (job, JobEvent::TaskEnded), action),
    ensures
        action is Finish <==> old(job)@.running == 1,
        action is AwaitTask <==> old(job)@.running > 1,
        old(job)@.running > 1 ==> final(job)@.phase is Draining,
        final(job)@.processed == old(job)@.processed,
        final(job)@.waiting == old(job)@.waiting,
{
}

/// A job that has claimed aggregates, has started a task or has waited for a free worker goes on
/// with the aggregates that it was given, or that still wait. Where there are none it claims; where
/// every worker is busy it waits; otherwise it hands out the first, which counts as processed, and
/// reports the count at every full batch.
pub proof fn law_next_aggregate_is_handed_out<A>(
    job: &mut Job<A>,
    event: JobEvent<A>,
    action: JobAction<A>,
    queue: Seq<A>,
    running: int,
)
    requires
        match event {
            JobEvent::Claimed { aggregates } => {
                &&& aggregates@.len() > 0
                &&& queue == aggregates@
                &&& running == old(job)@.running
            },
            JobEvent::TaskStarted => {
                &&& queue == old(job)@.waiting
                &&& running == old(job)@.running + 1
            },
            JobEvent::TaskEnded => {
                &&& old(job)@.phase is Waiting
                &&& queue == old(job)@.waiting
                &&& running == old(job)@.running - 1
            },
            _ => false,
        },
        0 <= running <= usize::MAX,
        old(job)@.processed < usize::MAX,
        call_ensures(Job::<A>::step, (job, event), action),
    ensures
        queue.len() == 0 ==> action is Claim,
        queue.len() > 0 && running >= old(job)@.workers ==> {
            &&& action is AwaitTask
            &&& final(job)@.phase is Waiting
        },
        queue.len() > 0 && running < old(job)@.workers ==> action is StartTask,
        match action {
            JobAction::StartTask { aggregate, report } => {
                &&& queue == seq![aggregate] + final(job)@.waiting
                &&& final(job)@.processed == old(job)@.processed + 1
                &&& report is Some <==> final(job)@.processed % old(job)@.batch_size == 0
                &&& report matches Some(count) ==> count == final(job)@.processed
            },
            _ => {
                &&& queue == final(job)@.waiting
                &&& final(job)@.processed == old(job)@.processed
            },
        },
{
    if queue.len() > 0 {
        assert(queue =~= seq![queue[0]] + queue.drop_first());
    }
}

} // verus!
