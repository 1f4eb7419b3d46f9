//! What is asked of the database: which records to claim, and how an aggregate is brought to its
//! end.
use vstd::prelude::*;

use crate::aggregate::{
    complaints_in, convert_pipeline_errors, Complaint, PipelineError, TransformationError,
};
use crate::fragments::AggregatedFragment;
use crate::json::{has_no_members, members, new_object, no_members, Json, JsonObject};

verus! {

/// The status of the records that a job claims.
pub open spec fn claimed_status(retry_failed: bool) -> Seq<char> {
    if retry_failed {
        "failed_validation"@
    } else {
        "pending"@
    }
}

pub fn claim_status(retry_failed: bool) -> (status: &'static str)
    ensures
        status@ == claimed_status(retry_failed),
{
    if retry_failed {
        "failed_validation"
    } else {
        "pending"
    }
}

/// How many aggregates are claimed at once, as the database takes it: the number reduced to 64 bits
/// with a sign.
pub fn claim_limit(batch_size: usize) -> (limit: i64)
    ensures
        limit == if batch_size <= i64::MAX {
            batch_size as int
        } else {
            batch_size - 0x1_0000_0000_0000_0000
        },
{
    let wide: u64 = batch_size as u64;
    if wide <= 0x7fff_ffff_ffff_ffff {
        wide as i64
    } else {
        -1 - ((0xffff_ffff_ffff_ffff - wide) as i64)
    }
}

/// The SQL that finds the aggregates to claim: those of the topic and the status that every required
/// source has delivered to, up to the limit. Its parameters are the topic, the status, the required
/// sources and the limit.
pub open spec fn find_claimable_text() -> Seq<char> {
    "SELECT correlation_id::text FROM raw_ingestion WHERE topic = $1 AND status = $2 AND correlation_id IS NOT NULL GROUP BY correlation_id HAVING COUNT(DISTINCT source_system) FILTER (WHERE source_system = ANY($3::text[])) = cardinality($3::text[]) LIMIT $4"@
}

pub fn find_claimable_sql() -> (sql: &'static str)
    ensures
        sql@ == find_claimable_text(),
{
    "SELECT correlation_id::text FROM raw_ingestion WHERE topic = $1 AND status = $2 AND correlation_id IS NOT NULL GROUP BY correlation_id HAVING COUNT(DISTINCT source_system) FILTER (WHERE source_system = ANY($3::text[])) = cardinality($3::text[]) LIMIT $4"
}

/// The correlation ids whose records are to be claimed; where none was found, nothing is claimed.
pub fn ids_to_claim(found: Vec<String>) -> (ids: Option<Vec<String>>)
    ensures
        ids is None <==> found@.len() == 0,
        ids matches Some(claimed) ==> claimed == found,
{
    if found.len() == 0 {
        None
    } else {
        Some(found)
    }
}

/// The SQL that claims the records of aggregates: it marks those that still have the status as being
/// processed and gives them back. Its parameters are the correlation ids, the topic and the status.
pub open spec fn claim_records_text() -> Seq<char> {
    "UPDATE raw_ingestion SET status = 'processing', processed_at = NOW() FROM storage_keys WHERE raw_ingestion.correlation_id::text = ANY($1::text[]) AND raw_ingestion.topic = $2 AND raw_ingestion.status = $3 AND raw_ingestion.dek_id = storage_keys.id RETURNING raw_ingestion.id::text, raw_ingestion.topic, raw_ingestion.correlation_id::text, raw_ingestion.payload, raw_ingestion.nonce, storage_keys.wrapped_key"@
}

pub fn claim_records_sql() -> (sql: &'static str)
    ensures
        sql@ == claim_records_text(),
{
    "UPDATE raw_ingestion SET status = 'processing', processed_at = NOW() FROM storage_keys WHERE raw_ingestion.correlation_id::text = ANY($1::text[]) AND raw_ingestion.topic = $2 AND raw_ingestion.status = $3 AND raw_ingestion.dek_id = storage_keys.id RETURNING raw_ingestion.id::text, raw_ingestion.topic, raw_ingestion.correlation_id::text, raw_ingestion.payload, raw_ingestion.nonce, storage_keys.wrapped_key"
}

/// A change to the database.
pub enum Statement {
    /// Store the transformed payload for delivery.
    InsertTarget { raw_ingestion_id: String, topic: String, payload: JsonObject },
    /// Store what went wrong.
    InsertError { raw_ingestion_id: String, error: TransformationError },
    /// Take note that the records of the aggregate have been processed.
    MarkProcessed { correlation_id: String },
    /// Take note that the records of the aggregate have failed.
    MarkFailed { correlation_id: String },
}

/// What a change to the database says.
pub enum Change {
    InsertTarget { raw_ingestion_id: Seq<char>, topic: Seq<char>, payload: Map<Seq<char>, Json> },
    InsertError { raw_ingestion_id: Seq<char>, error: Complaint },
    MarkProcessed { correlation_id: Seq<char> },
    MarkFailed { correlation_id: Seq<char> },
}

impl View for Statement {
    type V = Change;

    open spec fn view(&self) -> Change {
        match *self {
            Statement::InsertTarget { raw_ingestion_id, topic, payload } => Change::InsertTarget {
                raw_ingestion_id: raw_ingestion_id@,
                topic: topic@,
                payload: members(payload),
            },
            Statement::InsertError { raw_ingestion_id, error } => Change::InsertError {
                raw_ingestion_id: raw_ingestion_id@,
                error: error@,
            },
            Statement::MarkProcessed { correlation_id } => Change::MarkProcessed {
                correlation_id: correlation_id@,
            },
            Statement::MarkFailed { correlation_id } => Change::MarkFailed {
                correlation_id: correlation_id@,
            },
        }
    }
}

/// What the changes say, in their order.
pub open spec fn changes_in(statements: Seq<Statement>) -> Seq<Change> {
    statements.map_values(|statement: Statement| statement@)
}

/// The SQL of a change.
pub open spec fn sql_of(statement: Statement) -> Seq<char> {
    match statement {
        Statement::InsertTarget {
            ..
        } => "INSERT INTO target_fragments (raw_ingestion_id, topic, payload_jsonb, delivery_status) VALUES ($1::uuid, $2, $3, 'PENDING')"@,
        Statement::InsertError {
            ..
        } => "INSERT INTO transformation_errors (raw_ingestion_id, failed_field, rule_name, error_message) VALUES ($1::uuid, $2, $3, $4)"@,
        Statement::MarkProcessed {
            ..
        } => "UPDATE raw_ingestion SET status = 'processed', processed_at = NOW() WHERE correlation_id = $1::uuid"@,
        Statement::MarkFailed {
            ..
        } => "UPDATE raw_ingestion SET status = 'failed_validation', processed_at = NOW() WHERE correlation_id = $1::uuid"@,
    }
}

impl Statement {
    /// The statement's SQL. Its parameters are the statement's values in their order.
    pub fn sql(&self) -> (sql: &'static str)
        ensures
            sql@ == sql_of(*self),
    {
        match self {
            Statement::InsertTarget {
                ..
            } => "INSERT INTO target_fragments (raw_ingestion_id, topic, payload_jsonb, delivery_status) VALUES ($1::uuid, $2, $3, 'PENDING')",
            Statement::InsertError {
                ..
            } => "INSERT INTO transformation_errors (raw_ingestion_id, failed_field, rule_name, error_message) VALUES ($1::uuid, $2, $3, $4)",
            Statement::MarkProcessed {
                ..
            } => "UPDATE raw_ingestion SET status = 'processed', processed_at = NOW() WHERE correlation_id = $1::uuid",
            Statement::MarkFailed {
                ..
            } => "UPDATE raw_ingestion SET status = 'failed_validation', processed_at = NOW() WHERE correlation_id = $1::uuid",
        }
    }
}

/// Why an aggregate cannot be brought to its end.
#[derive(Clone, Copy, PartialEq, Eq, Structural, Debug)]
pub enum CompletionError {
    NoFragments,
}

impl CompletionError {
    pub fn message(&self) -> (message: String)
        ensures
            message@ == "claimed aggregate contains no fragments"@,
    {
        "claimed aggregate contains no fragments".to_owned()
    }
}

/// The changes that store the errors, in their order.
pub open spec fn error_changes(first_id: Seq<char>, errors: Seq<Complaint>) -> Seq<Change> {
    errors.map_values(
        |error: Complaint| Change::InsertError { raw_ingestion_id: first_id, error },
    )
}

/// The changes that bring an aggregate to its end. Without errors the payload, unless it is empty,
/// is stored for delivery and the records are marked as processed; with errors each is stored and
/// the records are marked as failed. The first fragment stands for the aggregate.
pub open spec fn completion(
    first_id: Seq<char>,
    correlation_id: Seq<char>,
    topic: Seq<char>,
    payload: Map<Seq<char>, Json>,
    errors: Seq<Complaint>,
) -> Seq<Change> {
    if errors.len() > 0 {
        error_changes(first_id, errors).push(Change::MarkFailed { correlation_id })
    } else if payload == no_members() {
        seq![Change::MarkProcessed { correlation_id }]
    } else {
        seq![
            Change::InsertTarget { raw_ingestion_id: first_id, topic, payload },
            Change::MarkProcessed { correlation_id },
        ]
    }
}

/// The changes, to be made in one transaction, that bring the aggregate to its end.
pub fn write_target_and_complete(
    aggregate: &AggregatedFragment,
    data: JsonObject,
    errors: Vec<TransformationError>,
) -> (statements: Result<Vec<Statement>, CompletionError>)
    ensures
        match statements {
            Ok(list) => {
                &&& aggregate.fragments@.len() > 0
                &&& changes_in(list@) == completion(
                    aggregate.fragments@[0].id@,
                    aggregate.correlation_id@,
                    aggregate.topic@,
                    members(data),
                    complaints_in(errors@),
                )
            },
            Err(e) => aggregate.fragments@.len() == 0,
        },
{
    if aggregate.fragments.len() == 0 {
        return Err(CompletionError::NoFragments);
    }
    let ghost first_id = aggregate.fragments@[0].id@;
    let ghost complaints = complaints_in(errors@);
    let mut statements: Vec<Statement> = Vec::new();
    assert(complaints.len() == errors@.len());
    if errors.len() == 0 {
        if !has_no_members(&data) {
            statements.push(
                Statement::InsertTarget {
                    raw_ingestion_id: aggregate.fragments[0].id.clone(),
                    topic: aggregate.topic.clone(),
                    payload: data,
                },
            );
        }
        statements.push(
            Statement::MarkProcessed { correlation_id: aggregate.correlation_id.clone() },
        );
    } else {
        let ghost all = errors@;
        for error in it: errors
            invariant
                it.seq() == all,
                aggregate.fragments@.len() > 0,
                first_id == aggregate.fragments@[0].id@,
                complaints == complaints_in(all),
                changes_in(statements@) == error_changes(
                    first_id,
                    complaints.take(it.index() as int),
                ),
        {
            let ghost before = statements@;
            let ghost change = Change::InsertError { raw_ingestion_id: first_id, error: error@ };
            statements.push(
                Statement::InsertError {
                    raw_ingestion_id: aggregate.fragments[0].id.clone(),
                    error,
                },
            );
            proof {
                let longer = complaints.take(it.index() as int + 1);
                assert(longer[it.index() as int] == error@);
                assert(changes_in(statements@) =~= changes_in(before).push(change));
                assert(error_changes(first_id, longer) =~= error_changes(
                    first_id,
                    complaints.take(it.index() as int),
                ).push(change));
            }
        }
        assert(complaints.take(complaints.len() as int) =~= complaints);
        statements.push(Statement::MarkFailed { correlation_id: aggregate.correlation_id.clone() });
    }
    assert(changes_in(statements@) =~= completion(
        first_id,
        aggregate.correlation_id@,
        aggregate.topic@,
        members(data),
        complaints,
    ));
    Ok(statements)
}

/// The changes that bring a transformed aggregate to its end, with what the pipeline made of it.
pub fn complete_transformed(
    aggregate: &AggregatedFragment,
    data: JsonObject,
    errors: Vec<PipelineError>,
) -> (statements: Result<Vec<Statement>, CompletionError>)
    ensures
        match statements {
            Ok(list) => {
                &&& aggregate.fragments@.len() > 0
                &&& changes_in(list@) == completion(
                    aggregate.fragments@[0].id@,
                    aggregate.correlation_id@,
                    aggregate.topic@,
                    members(data),
                    errors@.map_values(|error: PipelineError| error@),
                )
            },
            Err(e) => aggregate.fragments@.len() == 0,
        },
{
    write_target_and_complete(aggregate, data, convert_pipeline_errors(errors))
}

/// The changes that bring a rejected aggregate to its end.
pub fn complete_rejected(
    aggregate: &AggregatedFragment,
    errors: Vec<TransformationError>,
) -> (statements: Result<Vec<Statement>, CompletionError>)
    ensures
        match statements {
            Ok(list) => {
                &&& aggregate.fragments@.len() > 0
                &&& changes_in(list@) == completion(
                    aggregate.fragments@[0].id@,
                    aggregate.correlation_id@,
                    aggregate.topic@,
                    no_members(),
                    complaints_in(errors@),
                )
            },
            Err(e) => aggregate.fragments@.len() == 0,
        },
{
    write_target_and_complete(aggregate, new_object(), errors)
}

/// Whether the change marks the records of an aggregate.
pub open spec fn is_mark(change: Change) -> bool {
    change is MarkProcessed || change is MarkFailed
}

/// The records of an aggregate are marked once, as the last change.
pub proof fn law_marked_once_at_the_end(
    first_id: Seq<char>,
    correlation_id: Seq<char>,
    topic: Seq<char>,
    payload: Map<Seq<char>, Json>,
    errors: Seq<Complaint>,
)
    ensures
        ({
            let changes = completion(first_id, correlation_id, topic, payload, errors);
            &&& changes.len() >= 1
            &&& forall|i: int|
                0 <= i < changes.len() ==> (is_mark(#[trigger] changes[i]) <==> i == changes.len()
                    - 1)
        }),
{
}

/// An aggregate with an error stores nothing in the target; it stores each of its errors, once and
/// in their order, and is marked as failed.
pub proof fn law_failed_aggregate_writes_no_target(
    first_id: Seq<char>,
    correlation_id: Seq<char>,
    topic: Seq<char>,
    payload: Map<Seq<char>, Json>,
    errors: Seq<Complaint>,
)
    requires
        errors.len() > 0,
    ensures
        ({
            let changes = completion(first_id, correlation_id, topic, payload, errors);
            &&& changes.len() == errors.len() + 1
            &&& forall|i: int|
                0 <= i < errors.len() ==> #[trigger] changes[i] == (Change::InsertError {
                    raw_ingestion_id: first_id,
                    error: errors[i],
                })
            &&& changes.last() == (Change::MarkFailed { correlation_id })
        }),
{
}

/// An aggregate without errors stores no error and is marked as processed; its payload is stored
/// unless it is empty.
pub proof fn law_sound_aggregate_is_processed(
    first_id: Seq<char>,
    correlation_id: Seq<char>,
    topic: Seq<char>,
    payload: Map<Seq<char>, Json>,
)
    ensures
        ({
            let changes = completion(
                first_id,
                correlation_id,
                topic,
                payload,
                Seq::<Complaint>::empty(),
            );
            &&& forall|i: int| 0 <= i < changes.len() ==> !(#[trigger] changes[i] is InsertError)
            &&& changes.last() == (Change::MarkProcessed { correlation_id })
            &&& changes.contains(
                Change::InsertTarget { raw_ingestion_id: first_id, topic, payload },
            ) <==> payload != no_members()
        }),
{
    let changes = completion(first_id, correlation_id, topic, payload, Seq::<Complaint>::empty());
    if payload != no_members() {
        assert(changes[0] == (Change::InsertTarget { raw_ingestion_id: first_id, topic, payload }));
    }
}

/// Records that are marked as failed get the status that a job claims when it retries.
pub proof fn law_failed_records_can_be_retried(statement: Statement)
    requires
        statement is MarkFailed,
    ensures
        sql_of(statement) == "UPDATE raw_ingestion SET status = '"@ + claimed_status(true)
            + "', processed_at = NOW() WHERE correlation_id = $1::uuid"@,
{
    reveal_strlit("failed_validation");
    reveal_strlit("UPDATE raw_ingestion SET status = '");
    reveal_strlit("', processed_at = NOW() WHERE correlation_id = $1::uuid");
    reveal_strlit(
        "UPDATE raw_ingestion SET status = 'failed_validation', processed_at = NOW() WHERE correlation_id = $1::uuid",
    );
    assert(sql_of(statement) =~= "UPDATE raw_ingestion SET status = '"@ + claimed_status(true)
        + "', processed_at = NOW() WHERE correlation_id = $1::uuid"@);
}

/// Records that are claimed get a status that no job claims.
pub proof fn law_claimed_records_are_not_claimed_again(retry_failed: bool)
    ensures
        "UPDATE raw_ingestion SET status = 'processing'"@.is_prefix_of(claim_records_text()),
        "UPDATE raw_ingestion SET status = 'processing'"@ == "UPDATE raw_ingestion SET status = '"@
            + "processing"@ + "'"@,
        claimed_status(retry_failed) != "processing"@,
{
    reveal_strlit("processing");
    reveal_strlit("pending");
    reveal_strlit("failed_validation");
    reveal_strlit("'");
    reveal_strlit("UPDATE raw_ingestion SET status = '");
    reveal_strlit("UPDATE raw_ingestion SET status = 'processing'");
    reveal_strlit(
        "UPDATE raw_ingestion SET status = 'processing', processed_at = NOW() FROM storage_keys WHERE raw_ingestion.correlation_id::text = ANY($1::text[]) AND raw_ingestion.topic = $2 AND raw_ingestion.status = $3 AND raw_ingestion.dek_id = storage_keys.id RETURNING raw_ingestion.id::text, raw_ingestion.topic, raw_ingestion.correlation_id::text, raw_ingestion.payload, raw_ingestion.nonce, storage_keys.wrapped_key",
    );
    assert("UPDATE raw_ingestion SET status = 'processing'"@
        =~= "UPDATE raw_ingestion SET status = '"@ + "processing"@ + "'"@);
    assert("processing"@.len() != claimed_status(retry_failed).len());
}

/// Records that are marked as processed get a status that no job claims.
pub proof fn law_processed_records_are_not_claimed(statement: Statement, retry_failed: bool)
    requires
        statement is MarkProcessed,
    ensures
        sql_of(statement) == "UPDATE raw_ingestion SET status = '"@ + "processed"@
            + "', processed_at = NOW() WHERE correlation_id = $1::uuid"@,
        claimed_status(retry_failed) != "processed"@,
{
    reveal_strlit("processed");
    reveal_strlit("pending");
    reveal_strlit("failed_validation");
    reveal_strlit("UPDATE raw_ingestion SET status = '");
    reveal_strlit("', processed_at = NOW() WHERE correlation_id = $1::uuid");
    reveal_strlit(
        "UPDATE raw_ingestion SET status = 'processed', processed_at = NOW() WHERE correlation_id = $1::uuid",
    );
    assert(sql_of(statement) =~= "UPDATE raw_ingestion SET status = '"@ + "processed"@
        + "', processed_at = NOW() WHERE correlation_id = $1::uuid"@);
    assert("processed"@.len() != claimed_status(retry_failed).len());
}

/// What a list of changes says is what each of them says.
proof fn lemma_statements_say(list: Seq<Statement>)
    ensures
        changes_in(list).len() == list.len(),
        forall|i: int|
            #![trigger list[i]]
            0 <= i < list.len() ==> changes_in(list)[i] == list[i]@,
{
}

/// An aggregate cannot be brought to its end exactly where it has no fragment.
pub proof fn law_only_an_empty_aggregate_is_refused(
    aggregate: &AggregatedFragment,
    data: JsonObject,
    errors: Vec<TransformationError>,
    pipeline_errors: Vec<PipelineError>,
    written: Result<Vec<Statement>, CompletionError>,
    transformed: Result<Vec<Statement>, CompletionError>,
    rejected: Result<Vec<Statement>, CompletionError>,
)
    requires
        call_ensures(write_target_and_complete, (aggregate, data, errors), written),
        call_ensures(complete_transformed, (aggregate, data, pipeline_errors), transformed),
        call_ensures(complete_rejected, (aggregate, errors), rejected),
    ensures
        written is Err <==> aggregate.fragments@.len() == 0,
        transformed is Err <==> aggregate.fragments@.len() == 0,
        rejected is Err <==> aggregate.fragments@.len() == 0,
{
}

/// Without errors a payload that is not empty is written once, for the first fragment and under the
/// aggregate's topic, and the records are marked as processed; nothing else is changed.
pub proof fn law_payload_is_written_once(
    aggregate: &AggregatedFragment,
    data: JsonObject,
    errors: Vec<TransformationError>,
    statements: Result<Vec<Statement>, CompletionError>,
)
    requires
        call_ensures(write_target_and_complete, (aggregate, data, errors), statements),
        aggregate.fragments@.len() > 0,
        errors@.len() == 0,
        members(data) != Map::<Seq<char>, Json>::empty(),
    ensures
        statements matches Ok(list) && {
            &&& list@.len() == 2
            &&& list@[0] matches Statement::InsertTarget { raw_ingestion_id, topic, payload }
            &&& raw_ingestion_id@ == aggregate.fragments@[0].id@
            &&& topic@ == aggregate.topic@
            &&& members(payload) == members(data)
            &&& list@.last() matches Statement::MarkProcessed { correlation_id }
            &&& correlation_id@ == aggregate.correlation_id@
        },
{
    assert(complaints_in(errors@).len() == errors@.len());
    if let Ok(list) = statements {
        lemma_statements_say(list@);
    }
}

/// Without errors and with an empty payload the records are marked as processed, and nothing else is
/// changed.
pub proof fn law_empty_payload_is_not_written(
    aggregate: &AggregatedFragment,
    data: JsonObject,
    errors: Vec<TransformationError>,
    statements: Result<Vec<Statement>, CompletionError>,
)
    requires
        call_ensures(write_target_and_complete, (aggregate, data, errors), statements),
        aggregate.fragments@.len() > 0,
        errors@.len() == 0,
        members(data) == Map::<Seq<char>, Json>::empty(),
    ensures
        statements matches Ok(list) && {
            &&& list@.len() == 1
            &&& list@.last() matches Statement::MarkProcessed { correlation_id }
            &&& correlation_id@ == aggregate.correlation_id@
        },
{
    assert(complaints_in(errors@).len() == errors@.len());
    if let Ok(list) = statements {
        lemma_statements_say(list@);
    }
}

/// With errors each is written once, for the first fragment and in their order, and the records are
/// marked as failed; nothing else is changed.
pub proof fn law_errors_are_written_in_order(
    aggregate: &AggregatedFragment,
    data: JsonObject,
    errors: Vec<TransformationError>,
    statements: Result<Vec<Statement>, CompletionError>,
)
    requires
        call_ensures(write_target_and_complete, (aggregate, data, errors), statements),
        aggregate.fragments@.len() > 0,
        errors@.len() > 0,
    ensures
        statements matches Ok(list) && {
            &&& list@.len() == errors@.len() + 1
            &&& forall|i: int|
                #![trigger list@[i]]
                0 <= i < errors@.len() ==> {
                    &&& list@[i] matches Statement::InsertError { raw_ingestion_id, error }
                    &&& raw_ingestion_id@ == aggregate.fragments@[0].id@
                    &&& error.failed_field@ == errors@[i].failed_field@
                    &&& error.rule_name@ == errors@[i].rule_name@
                    &&& error.error_message@ == errors@[i].error_message@
                }
            &&& list@.last() matches Statement::MarkFailed { correlation_id }
            &&& correlation_id@ == aggregate.correlation_id@
        },
{
    assert(complaints_in(errors@).len() == errors@.len());
    if let Ok(list) = statements {
        lemma_statements_say(list@);
        assert forall|i: int| #![trigger list@[i]] 0 <= i < errors@.len() implies list@[i]@ == (
        Change::InsertError {
            raw_ingestion_id: aggregate.fragments@[0].id@,
            error: errors@[i]@,
        }) by {
            assert(complaints_in(errors@)[i] == errors@[i]@);
        }
    }
}

/// A transformed aggregate without errors has its payload, unless that is empty, written once, for the
/// first fragment and under the aggregate's topic, and is marked as processed; nothing else is changed.
pub proof fn law_transformed_payload_is_written_once(
    aggregate: &AggregatedFragment,
    data: JsonObject,
    errors: Vec<PipelineError>,
    statements: Result<Vec<Statement>, CompletionError>,
)
    requires
        call_ensures(complete_transformed, (aggregate, data, errors), statements),
        aggregate.fragments@.len() > 0,
        errors@.len() == 0,
        members(data) != Map::<Seq<char>, Json>::empty(),
    ensures
        statements matches Ok(list) && {
            &&& list@.len() == 2
            &&& list@[0] matches Statement::InsertTarget { raw_ingestion_id, topic, payload }
            &&& raw_ingestion_id@ == aggregate.fragments@[0].id@
            &&& topic@ == aggregate.topic@
            &&& members(payload) == members(data)
            &&& list@.last() matches Statement::MarkProcessed { correlation_id }
            &&& correlation_id@ == aggregate.correlation_id@
        },
{
    let said = errors@.map_values(|error: PipelineError| error@);
    assert(said.len() == errors@.len());
    if let Ok(list) = statements {
        lemma_statements_say(list@);
    }
}

/// A transformed aggregate without errors and with an empty payload is marked as processed, and
/// nothing else is changed.
pub proof fn law_empty_transformed_payload_is_not_written(
    aggregate: &AggregatedFragment,
    data: JsonObject,
    errors: Vec<PipelineError>,
    statements: Result<Vec<Statement>, CompletionError>,
)
    requires
        call_ensures(complete_transformed, (aggregate, data, errors), statements),
        aggregate.fragments@.len() > 0,
        errors@.len() == 0,
        members(data) == Map::<Seq<char>, Json>::empty(),
    ensures
        statements matches Ok(list) && {
            &&& list@.len() == 1
            &&& list@.last() matches Statement::MarkProcessed { correlation_id }
            &&& correlation_id@ == aggregate.correlation_id@
        },
{
    let said = errors@.map_values(|error: PipelineError| error@);
    assert(said.len() == errors@.len());
    if let Ok(list) = statements {
        lemma_statements_say(list@);
    }
}

/// A transformed aggregate with errors of the pipeline has each of them written once, for the first
/// fragment and in their order, and is marked as failed; nothing else is changed.
pub proof fn law_pipeline_errors_are_written_in_order(
    aggregate: &AggregatedFragment,
    data: JsonObject,
    errors: Vec<PipelineError>,
    statements: Result<Vec<Statement>, CompletionError>,
)
    requires
        call_ensures(complete_transformed, (aggregate, data, errors), statements),
        aggregate.fragments@.len() > 0,
        errors@.len() > 0,
    ensures
        statements matches Ok(list) && {
            &&& list@.len() == errors@.len() + 1
            &&& forall|i: int|
                #![trigger list@[i]]
                0 <= i < errors@.len() ==> {
                    &&& list@[i] matches Statement::InsertError { raw_ingestion_id, error }
                    &&& raw_ingestion_id@ == aggregate.fragments@[0].id@
                    &&& error.failed_field@ == errors@[i].failed_field@
                    &&& error.rule_name@ == errors@[i].rule_name@
                    &&& error.error_message@ == errors@[i].error_message@
                }
            &&& list@.last() matches Statement::MarkFailed { correlation_id }
            &&& correlation_id@ == aggregate.correlation_id@
        },
{
    let said = errors@.map_values(|error: PipelineError| error@);
    assert(said.len() == errors@.len());
    if let Ok(list) = statements {
        lemma_statements_say(list@);
        assert forall|i: int| #![trigger list@[i]] 0 <= i < errors@.len() implies list@[i]@ == (
        Change::InsertError {
            raw_ingestion_id: aggregate.fragments@[0].id@,
            error: errors@[i]@,
        }) by {
            assert(said[i] == errors@[i]@);
        }
    }
}

/// A rejected aggregate has each of its errors written once, for the first fragment and in their
/// order, and is marked as failed; nothing else is changed.
pub proof fn law_rejected_aggregate_has_its_errors_written(
    aggregate: &AggregatedFragment,
    errors: Vec<TransformationError>,
    statements: Result<Vec<Statement>, CompletionError>,
)
    requires
        call_ensures(complete_rejected, (aggregate, errors), statements),
        aggregate.fragments@.len() > 0,
        errors@.len() > 0,
    ensures
        statements matches Ok(list) && {
            &&& list@.len() == errors@.len() + 1
            &&& forall|i: int|
                #![trigger list@[i]]
                0 <= i < errors@.len() ==> {
                    &&& list@[i] matches Statement::InsertError { raw_ingestion_id, error }
                    &&& raw_ingestion_id@ == aggregate.fragments@[0].id@
                    &&& error.failed_field@ == errors@[i].failed_field@
                    &&& error.rule_name@ == errors@[i].rule_name@
                    &&& error.error_message@ == errors@[i].error_message@
                }
            &&& list@.last() matches Statement::MarkFailed { correlation_id }
            &&& correlation_id@ == aggregate.correlation_id@
        },
{
    assert(complaints_in(errors@).len() == errors@.len());
    if let Ok(list) = statements {
        lemma_statements_say(list@);
        assert forall|i: int| #![trigger list@[i]] 0 <= i < errors@.len() implies list@[i]@ == (
        Change::InsertError {
            raw_ingestion_id: aggregate.fragments@[0].id@,
            error: errors@[i]@,
        }) by {
            assert(complaints_in(errors@)[i] == errors@[i]@);
        }
    }
}

/// An aggregate that is rejected without an error is marked as processed, and nothing else is
/// changed.
pub proof fn law_rejection_without_errors_only_marks(
    aggregate: &AggregatedFragment,
    errors: Vec<TransformationError>,
    statements: Result<Vec<Statement>, CompletionError>,
)
    requires
        call_ensures(complete_rejected, (aggregate, errors), statements),
        aggregate.fragments@.len() > 0,
        errors@.len() == 0,
    ensures
        statements matches Ok(list) && {
            &&& list@.len() == 1
            &&& list@.last() matches Statement::MarkProcessed { correlation_id }
            &&& correlation_id@ == aggregate.correlation_id@
        },
{
    assert(complaints_in(errors@).len() == errors@.len());
    if let Ok(list) = statements {
        lemma_statements_say(list@);
    }
}

/// Pending records are claimed or, where it is asked for, those that failed validation.
pub proof fn law_status_to_claim(retry_failed: bool, status: &'static str)
    requires
        call_ensures(claim_status, (retry_failed,), status),
    ensures
        retry_failed ==> status@ == "failed_validation"@,
        !retry_failed ==> status@ == "pending"@,
{
}

/// The limit is the size of a batch, but for a multiple of two to the power of 64; it is that size
/// itself where it fits.
pub proof fn law_limit_is_the_batch_size(batch_size: usize, limit: i64)
    requires
        call_ensures(claim_limit, (batch_size,), limit),
    ensures
        batch_size <= 9223372036854775807 ==> limit == batch_size,
        batch_size > 9223372036854775807 ==> limit < 0 && batch_size - limit
            == 0x1_0000_0000_0000_0000,
{
}

/// All the ids that were found are claimed, in their order; nothing is claimed where none was.
pub proof fn law_found_ids_are_claimed(found: Vec<String>, ids: Option<Vec<String>>)
    requires
        call_ensures(ids_to_claim, (found,), ids),
    ensures
        ids is None <==> found@.len() == 0,
        ids matches Some(claimed) ==> {
            &&& claimed@.len() == found@.len()
            &&& forall|i: int|
                0 <= i < found@.len() ==> (#[trigger] claimed@[i])@ == found@[i]@
        },
{
}

/// Aggregates are found by topic and status, where every required source has delivered; their records
/// are claimed by correlation id, topic and status.
pub proof fn law_sql_of_finding_and_claiming(find: &'static str, claim: &'static str)
    requires
        call_ensures(find_claimable_sql, (), find),
        call_ensures(claim_records_sql, (), claim),
    ensures
        find@
            == "SELECT correlation_id::text FROM raw_ingestion WHERE topic = $1 AND status = $2 AND correlation_id IS NOT NULL GROUP BY correlation_id HAVING COUNT(DISTINCT source_system) FILTER (WHERE source_system = ANY($3::text[])) = cardinality($3::text[]) LIMIT $4"@,
        claim@
            == "UPDATE raw_ingestion SET status = 'processing', processed_at = NOW() FROM storage_keys WHERE raw_ingestion.correlation_id::text = ANY($1::text[]) AND raw_ingestion.topic = $2 AND raw_ingestion.status = $3 AND raw_ingestion.dek_id = storage_keys.id RETURNING raw_ingestion.id::text, raw_ingestion.topic, raw_ingestion.correlation_id::text, raw_ingestion.payload, raw_ingestion.nonce, storage_keys.wrapped_key"@,
{
}

/// Each change has the SQL that makes it, whatever its values are.
pub proof fn law_sql_makes_the_change(statement: &Statement, sql: &'static str)
    requires
        call_ensures(Statement::sql, (statement,), sql),
    ensures
        statement is InsertTarget ==> sql@
            == "INSERT INTO target_fragments (raw_ingestion_id, topic, payload_jsonb, delivery_status) VALUES ($1::uuid, $2, $3, 'PENDING')"@,
        statement is InsertError ==> sql@
            == "INSERT INTO transformation_errors (raw_ingestion_id, failed_field, rule_name, error_message) VALUES ($1::uuid, $2, $3, $4)"@,
        statement is MarkProcessed ==> sql@
            == "UPDATE raw_ingestion SET status = 'processed', processed_at = NOW() WHERE correlation_id = $1::uuid"@,
        statement is MarkFailed ==> sql@
            == "UPDATE raw_ingestion SET status = 'failed_validation', processed_at = NOW() WHERE correlation_id = $1::uuid"@,
{
}

/// What is said of an aggregate that cannot be brought to its end.
pub proof fn law_completion_error_says_why(error: &CompletionError, message: String)
    requires
        call_ensures(CompletionError::message, (error,), message),
    ensures
        message@ == "claimed aggregate contains no fragments"@,
{
}

} // verus!
