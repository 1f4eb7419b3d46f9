use serde_json::Value;
use transformation_engine::registry::Registry;
use transformation_engine::rules::{
    parse_chain, source_of, ChainError, MappingTargetField, RuleRow, RuleSet, SourceRow, StoredChain,
};

fn source(id: &str, topic: &str) -> SourceRow {
    SourceRow { id: id.to_string(), topic: topic.to_string() }
}

fn field(id: &str, field_name: &str) -> MappingTargetField {
    MappingTargetField {
        id: id.to_string(),
        field_name: field_name.to_string(),
        data_type: "text".to_string(),
        encrypted: true,
    }
}

/// A chain whose steps are the texts of the array.
fn chain(value: Option<Value>) -> StoredChain<String> {
    let steps = match &value {
        Some(v) => serde_json::from_value(v.clone()).map_err(|e| e.to_string()),
        None => Ok(Vec::new()),
    };
    StoredChain { value, steps }
}

fn rule(
    source_field: &str,
    transformations: Option<Value>,
    validations: Option<Value>,
) -> RuleRow<String> {
    RuleRow {
        source_id: "s".to_string(),
        target_field_id: "f".to_string(),
        source_field: source_field.to_string(),
        transformation_chain: chain(transformations),
        validation_chain: chain(validations),
    }
}

fn array() -> Value {
    Value::Array(vec![Value::from("trim"), Value::from("upper")])
}

fn no_steps() -> Value {
    Value::Array(vec![Value::from("trim"), Value::from(2)])
}

fn steps() -> Vec<String> {
    vec!["trim".to_string(), "upper".to_string()]
}

fn unreadable() -> ChainError {
    let error = serde_json::from_value::<Vec<String>>(no_steps()).unwrap_err();
    ChainError::InvalidSteps(error.to_string())
}

fn load(
    sources: Vec<SourceRow>,
    target_fields: Vec<MappingTargetField>,
    rules: Vec<RuleRow<String>>,
) -> Result<RuleSet<String>, ChainError> {
    RuleSet::load(sources, target_fields, rules)
}

#[test]
fn a_chain_is_an_array_of_steps() {
    assert_eq!(parse_chain(chain(Some(array()))), Ok(steps()));
    assert_eq!(parse_chain(chain(Some(Value::Array(Vec::new())))), Ok(Vec::new()));
}

#[test]
fn no_chain_has_no_steps() {
    assert_eq!(parse_chain(chain(None)), Ok(Vec::new()));
    assert_eq!(parse_chain(chain(Some(Value::Null))), Ok(Vec::new()));
}

#[test]
fn an_array_of_other_things_is_no_chain() {
    assert_eq!(parse_chain(chain(Some(no_steps()))), Err(unreadable()));
    assert_eq!(unreadable().message(), "invalid rule chain");
}

#[test]
fn anything_else_is_no_chain() {
    for value in [
        Value::Bool(true),
        Value::from(1),
        Value::from("[]"),
        Value::Object(serde_json::Map::new()),
    ] {
        assert_eq!(parse_chain(chain(Some(value))), Err(ChainError::NotAnArray));
    }
    assert_eq!(ChainError::NotAnArray.message(), "rule chain must be a JSON array");
}

#[test]
fn rules_are_loaded_in_their_order() {
    let set = load(
        vec![source("1", "a"), source("2", "b"), source("1", "c")],
        vec![field("f", "old"), field("f", "new")],
        vec![rule("x", Some(array()), None), rule("y", Some(Value::Null), Some(array()))],
    )
    .ok()
    .unwrap();
    assert_eq!(set.rules.len(), 2);
    assert_eq!(set.rules[0].source_field, "x");
    assert_eq!(set.rules[0].source_id, "s");
    assert_eq!(set.rules[0].target_field_id, "f");
    assert_eq!(set.rules[0].transformations, steps());
    assert!(set.rules[0].validations.is_empty());
    assert_eq!(set.rules[1].source_field, "y");
    assert!(set.rules[1].transformations.is_empty());
    assert_eq!(set.rules[1].validations, steps());
    assert_eq!(set.sources.len(), 2);
    assert_eq!(set.target_fields.len(), 1);
    assert_eq!(set.target_fields.entries()[0].1.field_name, "new");
    assert_eq!(set.summary(), "Loaded 2 sources, 1 targets, 2 rules");
}

#[test]
fn one_bad_chain_spoils_the_rules() {
    for bad in [
        rule("x", Some(Value::from(1)), None),
        rule("x", None, Some(Value::from("s"))),
    ] {
        let loaded = load(Vec::new(), Vec::new(), vec![rule("w", None, None), bad]);
        assert_eq!(loaded.err(), Some(ChainError::NotAnArray));
    }
}

#[test]
fn the_first_bad_chain_is_the_error() {
    let number = || Some(Value::from(1));
    let rows = vec![
        rule("w", Some(array()), None),
        rule("x", None, Some(no_steps())),
        rule("y", number(), None),
    ];
    assert_eq!(load(Vec::new(), Vec::new(), rows).err(), Some(unreadable()));
    let rows = vec![rule("x", number(), None), rule("y", Some(no_steps()), None)];
    assert_eq!(load(Vec::new(), Vec::new(), rows).err(), Some(ChainError::NotAnArray));
    let rows = vec![rule("x", Some(no_steps()), number())];
    assert_eq!(load(Vec::new(), Vec::new(), rows).err(), Some(unreadable()));
    let rows = vec![rule("x", number(), Some(no_steps()))];
    assert_eq!(load(Vec::new(), Vec::new(), rows).err(), Some(ChainError::NotAnArray));
}

#[test]
fn a_source_is_found_by_its_topic() {
    let set = load(
        vec![source("1", "employee.data"), source("2", "Orders")],
        Vec::new(),
        Vec::new(),
    )
    .ok()
    .unwrap();
    assert_eq!(source_of(&set.sources, "Employee.DATA"), Some("1".to_string()));
    assert_eq!(source_of(&set.sources, "orders"), Some("2".to_string()));
    assert_eq!(source_of(&set.sources, "order"), None);
    assert_eq!(source_of(&set.sources, ""), None);
}

#[test]
fn a_later_source_overrules_an_earlier_one() {
    let set =
        load(vec![source("1", "a"), source("1", "b")], Vec::new(), Vec::new()).ok().unwrap();
    assert_eq!(source_of(&set.sources, "a"), None);
    assert_eq!(source_of(&set.sources, "b"), Some("1".to_string()));
}

#[test]
fn an_id_has_one_value() {
    let mut registry: Registry<u8> = Registry::new();
    assert_eq!(registry.len(), 0);
    registry.insert("a".to_string(), 1);
    registry.insert("b".to_string(), 2);
    registry.insert("a".to_string(), 3);
    assert_eq!(registry.len(), 2);
    assert_eq!(*registry.entries(), vec![("a".to_string(), 3), ("b".to_string(), 2)]);
}
