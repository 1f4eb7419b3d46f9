use serde_json::Value;
use transformation_engine::aggregate::{PipelineError, TransformationError};
use transformation_engine::fragments::{AggregatedFragment, RawFragment};
use transformation_engine::store::{
    claim_limit, claim_records_sql, claim_status, complete_rejected, complete_transformed,
    find_claimable_sql, ids_to_claim, write_target_and_complete, CompletionError, Statement,
};

fn aggregate(ids: &[&str]) -> AggregatedFragment {
    AggregatedFragment {
        correlation_id: "c".to_string(),
        topic: "t".to_string(),
        fragments: ids
            .iter()
            .map(|id| RawFragment {
                id: id.to_string(),
                payload: Vec::new(),
                nonce: Vec::new(),
                wrapped_key: Vec::new(),
            })
            .collect(),
    }
}

fn data() -> serde_json::Map<String, Value> {
    let mut map = serde_json::Map::new();
    map.insert("name".to_string(), Value::from("x"));
    map
}

fn error(n: &str) -> TransformationError {
    TransformationError {
        failed_field: format!("field{n}"),
        rule_name: format!("rule{n}"),
        error_message: format!("message{n}"),
    }
}

fn is_target(statement: &Statement) -> bool {
    match statement {
        Statement::InsertTarget { raw_ingestion_id, topic, payload } => {
            raw_ingestion_id == "first" && topic == "t" && *payload == data()
        }
        _ => false,
    }
}

fn is_error(statement: &Statement, n: &str) -> bool {
    match statement {
        Statement::InsertError { raw_ingestion_id, error } => {
            raw_ingestion_id == "first"
                && error.failed_field == format!("field{n}")
                && error.rule_name == format!("rule{n}")
                && error.error_message == format!("message{n}")
        }
        _ => false,
    }
}

fn is_processed(statement: &Statement) -> bool {
    matches!(statement, Statement::MarkProcessed { correlation_id } if correlation_id == "c")
}

fn is_failed(statement: &Statement) -> bool {
    matches!(statement, Statement::MarkFailed { correlation_id } if correlation_id == "c")
}

#[test]
fn pending_records_are_claimed_and_failed_ones_on_retry() {
    assert_eq!(claim_status(false), "pending");
    assert_eq!(claim_status(true), "failed_validation");
}

#[test]
fn the_limit_is_the_size_of_a_batch() {
    assert_eq!(claim_limit(1), 1);
    assert_eq!(claim_limit(500), 500);
    for size in [0, i64::MAX as usize, i64::MAX as usize + 1, usize::MAX] {
        assert_eq!(claim_limit(size), size as i64);
    }
}

#[test]
fn a_sound_aggregate_is_stored_and_processed() {
    let statements =
        write_target_and_complete(&aggregate(&["first", "second"]), data(), Vec::new()).ok().unwrap();
    assert_eq!(statements.len(), 2);
    assert!(is_target(&statements[0]));
    assert!(is_processed(&statements[1]));
}

#[test]
fn nothing_is_stored_of_an_empty_payload() {
    let statements =
        complete_transformed(&aggregate(&["first"]), serde_json::Map::new(), Vec::new()).ok().unwrap();
    assert_eq!(statements.len(), 1);
    assert!(is_processed(&statements[0]));
}

#[test]
fn errors_are_stored_in_place_of_the_payload() {
    let statements =
        write_target_and_complete(&aggregate(&["first"]), data(), vec![error("1"), error("2")])
            .ok()
            .unwrap();
    assert_eq!(statements.len(), 3);
    assert!(is_error(&statements[0], "1"));
    assert!(is_error(&statements[1], "2"));
    assert!(is_failed(&statements[2]));
}

#[test]
fn errors_of_the_pipeline_are_stored() {
    let errors = vec![PipelineError {
        failed_field: "field9".to_string(),
        rule_name: "rule9".to_string(),
        error_message: "message9".to_string(),
    }];
    let statements = complete_transformed(&aggregate(&["first"]), data(), errors).ok().unwrap();
    assert_eq!(statements.len(), 2);
    assert!(is_error(&statements[0], "9"));
    assert!(is_failed(&statements[1]));
}

#[test]
fn a_rejected_aggregate_fails() {
    let statements = complete_rejected(&aggregate(&["first"]), vec![error("1")]).ok().unwrap();
    assert_eq!(statements.len(), 2);
    assert!(is_error(&statements[0], "1"));
    assert!(is_failed(&statements[1]));
}

#[test]
fn an_aggregate_without_fragments_cannot_be_completed() {
    let nothing = aggregate(&[]);
    assert_eq!(
        write_target_and_complete(&nothing, data(), Vec::new()).err(),
        Some(CompletionError::NoFragments)
    );
    assert_eq!(complete_rejected(&nothing, vec![error("1")]).err(), Some(CompletionError::NoFragments));
    assert_eq!(
        complete_transformed(&nothing, data(), Vec::new()).err(),
        Some(CompletionError::NoFragments)
    );
    assert_eq!(CompletionError::NoFragments.message(), "claimed aggregate contains no fragments");
}

#[test]
fn failed_records_get_the_status_that_is_retried() {
    let failed = Statement::MarkFailed { correlation_id: "c".to_string() };
    let processed = Statement::MarkProcessed { correlation_id: "c".to_string() };
    assert_eq!(
        failed.sql(),
        format!(
            "UPDATE raw_ingestion SET status = '{}', processed_at = NOW() WHERE correlation_id = $1::uuid",
            claim_status(true)
        )
    );
    assert_eq!(
        processed.sql(),
        "UPDATE raw_ingestion SET status = 'processed', processed_at = NOW() WHERE correlation_id = $1::uuid"
    );
}

#[test]
fn payloads_and_errors_have_their_tables() {
    let statements =
        write_target_and_complete(&aggregate(&["first"]), data(), Vec::new()).ok().unwrap();
    assert_eq!(
        statements[0].sql(),
        "INSERT INTO target_fragments (raw_ingestion_id, topic, payload_jsonb, delivery_status) VALUES ($1::uuid, $2, $3, 'PENDING')"
    );
    let statements =
        write_target_and_complete(&aggregate(&["first"]), data(), vec![error("1")]).ok().unwrap();
    assert_eq!(
        statements[0].sql(),
        "INSERT INTO transformation_errors (raw_ingestion_id, failed_field, rule_name, error_message) VALUES ($1::uuid, $2, $3, $4)"
    );
}

#[test]
fn claimed_records_get_a_status_that_is_not_claimed() {
    assert_eq!(find_claimable_sql(), "SELECT correlation_id::text FROM raw_ingestion WHERE topic = $1 AND status = $2 AND correlation_id IS NOT NULL GROUP BY correlation_id HAVING COUNT(DISTINCT source_system) FILTER (WHERE source_system = ANY($3::text[])) = cardinality($3::text[]) LIMIT $4");
    assert_eq!(claim_records_sql(), "UPDATE raw_ingestion SET status = 'processing', processed_at = NOW() FROM storage_keys WHERE raw_ingestion.correlation_id::text = ANY($1::text[]) AND raw_ingestion.topic = $2 AND raw_ingestion.status = $3 AND raw_ingestion.dek_id = storage_keys.id RETURNING raw_ingestion.id::text, raw_ingestion.topic, raw_ingestion.correlation_id::text, raw_ingestion.payload, raw_ingestion.nonce, storage_keys.wrapped_key");
    assert_ne!(claim_status(false), "processing");
    assert_ne!(claim_status(true), "processing");
}

#[test]
fn nothing_is_claimed_where_no_id_was_found() {
    assert!(ids_to_claim(Vec::new()).is_none());
    assert_eq!(
        ids_to_claim(vec!["b".to_string(), "a".to_string()]),
        Some(vec!["b".to_string(), "a".to_string()])
    );
}
