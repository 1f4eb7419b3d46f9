//! The arguments of a job and the values that stand in for those not given.
use vstd::prelude::*;

use crate::text::texts;

verus! {

/// What a job is asked to do.
pub struct JobArgs {
    /// How many records are claimed at once, and after how many progress is reported.
    pub batch_size: usize,
    /// How many aggregates are processed at the same time.
    pub workers: usize,
    /// Whether records that failed validation are claimed in place of pending ones.
    pub retry_failed: bool,
    pub topic: String,
    /// The source systems that must all have delivered before an aggregate is claimed.
    pub required_sources: Vec<String>,
    pub source_name: String,
}

/// Whether the job can run with these arguments: it claims something, it has a worker, and it
/// waits for some source.
pub open spec fn runnable(args: JobArgs) -> bool {
    &&& args.batch_size >= 1
    &&& args.workers >= 1
    &&& args.required_sources@.len() >= 1
}

/// Whether two sets of arguments read the same.
pub open spec fn same_args(left: JobArgs, right: JobArgs) -> bool {
    &&& left.batch_size == right.batch_size
    &&& left.workers == right.workers
    &&& left.retry_failed == right.retry_failed
    &&& left.topic@ == right.topic@
    &&& texts(left.required_sources@) == texts(right.required_sources@)
    &&& left.source_name@ == right.source_name@
}

/// The arguments that the job runs with when it is asked for `given`: a batch and a worker at
/// least, and the default sources where none are named.
pub open spec fn is_normalized(given: JobArgs, args: JobArgs) -> bool {
    &&& args.batch_size == if given.batch_size == 0 {
        1
    } else {
        given.batch_size
    }
    &&& args.workers == if given.workers == 0 {
        1
    } else {
        given.workers
    }
    &&& args.retry_failed == given.retry_failed
    &&& args.topic@ == given.topic@
    &&& texts(args.required_sources@) == if given.required_sources@.len() == 0 {
        default_source_texts()
    } else {
        texts(given.required_sources@)
    }
    &&& args.source_name@ == given.source_name@
}

/// The sources waited for when none are named.
pub open spec fn default_source_texts() -> Seq<Seq<char>> {
    seq!["ORA_EMPLOYEE"@]
}

pub fn default_batch_size() -> (size: usize)
    ensures
        size == 500,
{
    500
}

pub fn default_workers() -> (workers: usize)
    ensures
        workers == 5,
{
    5
}

pub fn default_topic() -> (topic: String)
    ensures
        topic@ == "employee.data"@,
{
    "employee.data".to_owned()
}

pub fn default_sources() -> (sources: Vec<String>)
    ensures
        texts(sources@) == default_source_texts(),
{
    let mut sources: Vec<String> = Vec::new();
    sources.push("ORA_EMPLOYEE".to_owned());
    assert(texts(sources@) =~= default_source_texts());
    sources
}

pub fn default_source_name() -> (name: String)
    ensures
        name@ == "TRANSFORMATION"@,
{
    "TRANSFORMATION".to_owned()
}

impl Default for JobArgs {
    /// The arguments of a job that is given none.
    fn default() -> (args: Self)
        ensures
            args.batch_size == 500,
            args.workers == 5,
            !args.retry_failed,
            args.topic@ == "employee.data"@,
            texts(args.required_sources@) == default_source_texts(),
            args.source_name@ == "TRANSFORMATION"@,
    {
        JobArgs {
            batch_size: default_batch_size(),
            workers: default_workers(),
            retry_failed: false,
            topic: default_topic(),
            required_sources: default_sources(),
            source_name: default_source_name(),
        }
    }
}

impl JobArgs {
    /// The arguments that the job runs with.
    pub fn normalized(self) -> (args: JobArgs)
        ensures
            is_normalized(self, args),
            runnable(args),
    {
        let batch_size: usize = if self.batch_size == 0 {
            1
        } else {
            self.batch_size
        };
        let workers: usize = if self.workers == 0 {
            1
        } else {
            self.workers
        };
        let required_sources: Vec<String> = if self.required_sources.len() == 0 {
            default_sources()
        } else {
            self.required_sources
        };
        assert(texts(required_sources@).len() == required_sources@.len());
        JobArgs {
            batch_size,
            workers,
            retry_failed: self.retry_failed,
            topic: self.topic,
            required_sources,
            source_name: self.source_name,
        }
    }
}

/// Arguments that a job can run with are left as they are.
pub proof fn law_runnable_args_stay(given: JobArgs, args: JobArgs)
    requires
        runnable(given),
        is_normalized(given, args),
    ensures
        same_args(given, args),
{
}

/// Arguments brought into shape once stay as they are when brought into shape again.
pub proof fn law_normalizing_twice_is_normalizing_once(given: JobArgs, once: JobArgs, twice: JobArgs)
    requires
        is_normalized(given, once),
        is_normalized(once, twice),
    ensures
        same_args(once, twice),
{
    assert(texts(once.required_sources@).len() == once.required_sources@.len());
    assert(texts(given.required_sources@).len() == given.required_sources@.len());
}

/// A job that is given no arguments takes 500 records at once with five workers, claims pending
/// records of `employee.data` and waits for `ORA_EMPLOYEE`.
pub proof fn law_default_args(args: JobArgs)
    requires
        call_ensures(<JobArgs as Default>::default, (), args),
    ensures
        args.batch_size == 500,
        args.workers == 5,
        !args.retry_failed,
        args.topic@ == "employee.data"@,
        args.required_sources@.len() == 1,
        args.required_sources@[0]@ == "ORA_EMPLOYEE"@,
        args.source_name@ == "TRANSFORMATION"@,
{
    assert(texts(args.required_sources@).len() == args.required_sources@.len());
    assert(texts(args.required_sources@)[0] == args.required_sources@[0]@);
}

/// The value that stands in for an argument that is not given is the one that a job without
/// arguments has.
pub proof fn law_missing_arguments_have_the_defaults(
    args: JobArgs,
    batch_size: usize,
    workers: usize,
    topic: String,
    sources: Vec<String>,
    source_name: String,
)
    requires
        call_ensures(<JobArgs as Default>::default, (), args),
        call_ensures(default_batch_size, (), batch_size),
        call_ensures(default_workers, (), workers),
        call_ensures(default_topic, (), topic),
        call_ensures(default_sources, (), sources),
        call_ensures(default_source_name, (), source_name),
    ensures
        batch_size == args.batch_size,
        workers == args.workers,
        topic@ == args.topic@,
        sources@.len() == 1,
        sources@[0]@ == "ORA_EMPLOYEE"@,
        source_name@ == args.source_name@,
{
    assert(texts(sources@).len() == sources@.len());
    assert(texts(sources@)[0] == sources@[0]@);
}

/// Before the job runs, a batch and a worker are counted at least, and the default source is
/// waited for where none is named; all else is kept.
pub proof fn law_args_are_brought_into_shape(given: JobArgs, args: JobArgs)
    requires
        call_ensures(JobArgs::normalized, (given,), args),
    ensures
        args.batch_size >= 1 && args.workers >= 1 && args.required_sources@.len() >= 1,
        given.batch_size >= 1 ==> args.batch_size == given.batch_size,
        given.batch_size == 0 ==> args.batch_size == 1,
        given.workers >= 1 ==> args.workers == given.workers,
        given.workers == 0 ==> args.workers == 1,
        args.retry_failed == given.retry_failed,
        args.topic@ == given.topic@,
        args.source_name@ == given.source_name@,
        given.required_sources@.len() == 0 ==> {
            &&& args.required_sources@.len() == 1
            &&& args.required_sources@[0]@ == "ORA_EMPLOYEE"@
        },
        given.required_sources@.len() >= 1 ==> {
            &&& args.required_sources@.len() == given.required_sources@.len()
            &&& forall|i: int|
                0 <= i < given.required_sources@.len() ==> (
                #[trigger] args.required_sources@[i])@ == given.required_sources@[i]@
        },
{
    let ours = args.required_sources@;
    let theirs = given.required_sources@;
    assert(texts(ours).len() == ours.len());
    assert(texts(theirs).len() == theirs.len());
    if theirs.len() == 0 {
        assert(texts(ours)[0] == ours[0]@);
    } else {
        assert forall|i: int| 0 <= i < theirs.len() implies (#[trigger] ours[i])@
            == theirs[i]@ by {
            assert(texts(ours)[i] == ours[i]@);
            assert(texts(theirs)[i] == theirs[i]@);
        }
    }
}

} // verus!
