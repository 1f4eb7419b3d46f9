use serde_json::Value;
use transformation_engine::aggregate::{
    convert_pipeline_error, convert_pipeline_errors, open_fragment, plan_aggregate,
    process_aggregate, AggregatePlan, Opened, PipelineError, TransformationError,
};
use transformation_engine::registry::Registry;

fn sources() -> Registry<String> {
    let mut sources = Registry::new();
    sources.insert("7".to_string(), "Employee.Data".to_string());
    sources
}

fn object(key: &str, value: i64) -> serde_json::Map<String, Value> {
    let mut map = serde_json::Map::new();
    map.insert(key.to_string(), Value::from(value));
    map
}

fn says(error: &TransformationError) -> (&str, &str, &str) {
    (&error.failed_field, &error.rule_name, &error.error_message)
}

fn parse_error(bytes: &[u8]) -> String {
    serde_json::from_slice::<serde_json::Map<String, Value>>(bytes).unwrap_err().to_string()
}

fn pipeline_error(n: &str) -> PipelineError {
    PipelineError {
        failed_field: format!("field{n}"),
        rule_name: format!("rule{n}"),
        error_message: format!("message{n}"),
    }
}

#[test]
fn sound_fragments_are_transformed() {
    let decrypted = vec![Ok(b"{\"a\":1}".to_vec()), Ok(b" {\"b\":2} ".to_vec())];
    match process_aggregate(decrypted, "employee.data", &sources()) {
        AggregatePlan::Transform { source_id, payloads } => {
            assert_eq!(source_id, "7");
            assert_eq!(payloads, vec![object("a", 1), object("b", 2)]);
        }
        AggregatePlan::Reject { .. } => panic!("rejected"),
    }
}

#[test]
fn an_aggregate_without_fragments_is_transformed_to_nothing() {
    match process_aggregate(Vec::new(), "employee.data", &sources()) {
        AggregatePlan::Transform { payloads, .. } => assert!(payloads.is_empty()),
        AggregatePlan::Reject { .. } => panic!("rejected"),
    }
}

#[test]
fn every_unreadable_fragment_is_complained_of() {
    let decrypted = vec![
        Err("bad tag".to_string()),
        Ok(b"{\"a\":1}".to_vec()),
        Ok(b"[1]".to_vec()),
        Ok(b"{".to_vec()),
        Ok(vec![0xff]),
    ];
    match process_aggregate(decrypted, "employee.data", &sources()) {
        AggregatePlan::Reject { errors } => {
            assert_eq!(errors.len(), 4);
            assert_eq!(
                says(&errors[0]),
                ("payload", "decryption", "Failed to decrypt envelope: bad tag")
            );
            assert_eq!(says(&errors[1]), ("payload", "json_parse", parse_error(b"[1]").as_str()));
            assert_eq!(says(&errors[2]), ("payload", "json_parse", parse_error(b"{").as_str()));
            assert_eq!(says(&errors[3]), ("payload", "json_parse", parse_error(&[0xff]).as_str()));
        }
        AggregatePlan::Transform { .. } => panic!("transformed"),
    }
}

#[test]
fn a_topic_without_a_source_is_complained_of() {
    match process_aggregate(vec![Ok(b"{}".to_vec())], "orders", &sources()) {
        AggregatePlan::Reject { errors } => {
            assert_eq!(errors.len(), 1);
            assert_eq!(
                says(&errors[0]),
                ("topic", "source_lookup", "No mapping source found for topic")
            );
        }
        AggregatePlan::Transform { .. } => panic!("transformed"),
    }
}

#[test]
fn a_topic_without_a_source_is_not_looked_up_for_unreadable_fragments() {
    match process_aggregate(vec![Err("e".to_string())], "orders", &sources()) {
        AggregatePlan::Reject { errors } => {
            assert_eq!(errors.len(), 1);
            assert_eq!(errors[0].rule_name, "decryption");
        }
        AggregatePlan::Transform { .. } => panic!("transformed"),
    }
}

#[test]
fn fragments_are_opened_one_by_one() {
    match open_fragment(Ok(b"{\"a\":1}".to_vec())) {
        Opened::Payload(map) => assert_eq!(map, object("a", 1)),
        _ => panic!("not opened"),
    }
    match open_fragment(Ok(b"null".to_vec())) {
        Opened::NotJson(error) => assert_eq!(error, parse_error(b"null")),
        _ => panic!("opened"),
    }
    match open_fragment(Err("e".to_string())) {
        Opened::NotDecrypted(error) => assert_eq!(error, "e"),
        _ => panic!("opened"),
    }
}

#[test]
fn a_plan_follows_from_opened_fragments() {
    let opened = vec![Opened::Payload(object("a", 1)), Opened::NotJson("why".to_string())];
    match plan_aggregate(opened, "employee.data", &sources()) {
        AggregatePlan::Reject { errors } => {
            assert_eq!(errors.len(), 1);
            assert_eq!(says(&errors[0]), ("payload", "json_parse", "why"));
        }
        AggregatePlan::Transform { .. } => panic!("transformed"),
    }
}

#[test]
fn errors_of_the_pipeline_keep_what_they_say() {
    assert_eq!(says(&convert_pipeline_error(pipeline_error("1"))), ("field1", "rule1", "message1"));
    let converted = convert_pipeline_errors(vec![pipeline_error("1"), pipeline_error("2")]);
    assert_eq!(converted.len(), 2);
    assert_eq!(says(&converted[1]), ("field2", "rule2", "message2"));
}
