//! The mapping rules: where the fields of a target come from.
use vstd::prelude::*;

use crate::json::{json_of, Json};
use crate::registry::{lemma_table_entries, Registry};
use crate::text::{decimal, decimal_text, matches_ignoring_case, same_ignoring_case};

verus! {

/// A field of the target.
pub struct MappingTargetField {
    pub id: String,
    pub field_name: String,
    pub data_type: String,
    pub encrypted: bool,
}

/// How a field of a source becomes a field of the target, by steps of the kind `S`.
pub struct MappingRule<S> {
    pub source_id: String,
    pub target_field_id: String,
    pub source_field: String,
    pub transformations: Vec<S>,
    pub validations: Vec<S>,
}

/// All that is known of sources, target fields and the rules between them.
pub struct RuleSet<S> {
    /// The topic of each source.
    pub sources: Registry<String>,
    pub target_fields: Registry<MappingTargetField>,
    /// The rules, in the order of their priority.
    pub rules: Vec<MappingRule<S>>,
}

/// A source as it is stored.
pub struct SourceRow {
    pub id: String,
    pub topic: String,
}

/// A chain as it is stored, and what came of reading the stored value as steps: the steps, or why it
/// could not be read so.
pub struct StoredChain<S> {
    pub value: Option<serde_json::Value>,
    pub steps: Result<Vec<S>, String>,
}

/// A rule as it is stored.
pub struct RuleRow<S> {
    pub source_id: String,
    pub target_field_id: String,
    pub source_field: String,
    pub transformation_chain: StoredChain<S>,
    pub validation_chain: StoredChain<S>,
}

/// What is wrong with a stored chain.
#[derive(PartialEq, Eq, Debug)]
pub enum ChainError {
    NotAnArray,
    /// It is an array, but not of steps, for this reason.
    InvalidSteps(String),
}

impl ChainError {
    pub fn message(&self) -> (message: String)
        ensures
            message@ == match *self {
                ChainError::NotAnArray => "rule chain must be a JSON array"@,
                ChainError::InvalidSteps(_) => "invalid rule chain"@,
            },
    {
        match self {
            ChainError::NotAnArray => "rule chain must be a JSON array".to_owned(),
            ChainError::InvalidSteps(_) => "invalid rule chain".to_owned(),
        }
    }
}

/// The steps of a stored chain: those of the array, where it can be read, and none where nothing or
/// null is stored; any other value is an error.
pub open spec fn chain_of<S>(chain: StoredChain<S>) -> Result<Seq<S>, ChainError> {
    match chain.value {
        None => Ok(Seq::empty()),
        Some(value) => match json_of(value) {
            Json::Array(_) => match chain.steps {
                Ok(steps) => Ok(steps@),
                Err(error) => Err(ChainError::InvalidSteps(error)),
            },
            Json::Null => Ok(Seq::empty()),
            _ => Err(ChainError::NotAnArray),
        },
    }
}

pub fn parse_chain<S>(chain: StoredChain<S>) -> (steps: Result<Vec<S>, ChainError>)
    ensures
        match steps {
            Ok(list) => chain_of(chain) == Ok::<Seq<S>, ChainError>(list@),
            Err(e) => chain_of(chain) == Err::<Seq<S>, ChainError>(e),
        },
{
    match chain.value {
        None => Ok(Vec::new()),
        Some(value) => {
            if value.is_array() {
                match chain.steps {
                    Ok(steps) => Ok(steps),
                    Err(error) => Err(ChainError::InvalidSteps(error)),
                }
            } else if value.is_null() {
                Ok(Vec::new())
            } else {
                Err(ChainError::NotAnArray)
            }
        },
    }
}

/// The topics of the stored sources; of two rows with one id the later counts.
pub open spec fn topics_of(rows: Seq<SourceRow>) -> Map<Seq<char>, String>
    decreases rows.len(),
{
    if rows.len() == 0 {
        Map::empty()
    } else {
        topics_of(rows.drop_last()).insert(rows.last().id@, rows.last().topic)
    }
}

/// The stored target fields by their ids; of two with one id the later counts.
pub open spec fn fields_of(rows: Seq<MappingTargetField>) -> Map<Seq<char>, MappingTargetField>
    decreases rows.len(),
{
    if rows.len() == 0 {
        Map::empty()
    } else {
        fields_of(rows.drop_last()).insert(rows.last().id@, rows.last())
    }
}

/// What is wrong with the chains of a row, the transformations' before the validations'.
pub open spec fn row_error<S>(row: RuleRow<S>) -> Option<ChainError> {
    match chain_of(row.transformation_chain) {
        Err(error) => Some(error),
        Ok(_) => match chain_of(row.validation_chain) {
            Err(error) => Some(error),
            Ok(_) => None,
        },
    }
}

/// What is wrong with the first row that has anything wrong with it.
pub open spec fn first_error<S>(rows: Seq<RuleRow<S>>) -> Option<ChainError>
    decreases rows.len(),
{
    if rows.len() == 0 {
        None
    } else {
        match first_error(rows.drop_last()) {
            Some(error) => Some(error),
            None => row_error(rows.last()),
        }
    }
}

/// Whether the rule is the one that the row stores.
pub open spec fn is_rule_of<S>(row: RuleRow<S>, rule: MappingRule<S>) -> bool {
    &&& rule.source_id == row.source_id
    &&& rule.target_field_id == row.target_field_id
    &&& rule.source_field == row.source_field
    &&& chain_of(row.transformation_chain) == Ok::<Seq<S>, ChainError>(rule.transformations@)
    &&& chain_of(row.validation_chain) == Ok::<Seq<S>, ChainError>(rule.validations@)
}

/// Whether the rules are those that the rows store, in their order.
pub open spec fn are_rules_of<S>(rows: Seq<RuleRow<S>>, rules: Seq<MappingRule<S>>) -> bool {
    &&& rules.len() == rows.len()
    &&& forall|i: int| 0 <= i < rows.len() ==> is_rule_of(#[trigger] rows[i], rules[i])
}

proof fn lemma_first_error_stays<S>(rows: Seq<RuleRow<S>>, count: int)
    requires
        0 <= count <= rows.len(),
        first_error(rows.take(count)) is Some,
    ensures
        first_error(rows) == first_error(rows.take(count)),
    decreases rows.len(),
{
    if count == rows.len() {
        assert(rows.take(count) =~= rows);
    } else {
        assert(rows.drop_last().take(count) =~= rows.take(count));
        lemma_first_error_stays(rows.drop_last(), count);
    }
}

/// The rule of a row; an error where a chain cannot be read.
fn load_rule<S>(row: RuleRow<S>) -> (rule: Result<MappingRule<S>, ChainError>)
    ensures
        match rule {
            Ok(r) => row_error(row) is None && is_rule_of(row, r),
            Err(e) => row_error(row) == Some(e),
        },
{
    let transformations: Vec<S> = match parse_chain(row.transformation_chain) {
        Ok(steps) => steps,
        Err(e) => return Err(e),
    };
    let validations: Vec<S> = match parse_chain(row.validation_chain) {
        Ok(steps) => steps,
        Err(e) => return Err(e),
    };
    Ok(
        MappingRule {
            source_id: row.source_id,
            target_field_id: row.target_field_id,
            source_field: row.source_field,
            transformations,
            validations,
        },
    )
}

/// The rules of the rows, in their order; the first error where a chain cannot be read.
fn load_rule_rows<S>(rows: Vec<RuleRow<S>>) -> (rules: Result<Vec<MappingRule<S>>, ChainError>)
    ensures
        match rules {
            Ok(list) => first_error(rows@) is None && are_rules_of(rows@, list@),
            Err(e) => first_error(rows@) == Some(e),
        },
{
    let ghost all = rows@;
    let mut rules: Vec<MappingRule<S>> = Vec::new();
    for row in it: rows
        invariant
            it.seq() == all,
            rows@ == all,
            first_error(all.take(it.index() as int)) is None,
            are_rules_of(all.take(it.index() as int), rules@),
    {
        let ghost seen = all.take(it.index() as int);
        let ghost longer = all.take(it.index() as int + 1);
        proof {
            assert(longer.drop_last() =~= seen);
            assert(longer.last() == row);
        }
        match load_rule(row) {
            Ok(rule) => {
                rules.push(rule);
                assert forall|i: int| 0 <= i < longer.len() implies is_rule_of(
                    #[trigger] longer[i],
                    rules@[i],
                ) by {
                    if i < seen.len() {
                        assert(longer[i] == seen[i]);
                    }
                }
            },
            Err(e) => {
                proof {
                    lemma_first_error_stays(all, it.index() as int + 1);
                }
                return Err(e);
            },
        }
    }
    assert(all.take(all.len() as int) =~= all);
    Ok(rules)
}

/// Whether the source has the topic, whatever the case of its letters.
pub open spec fn has_topic(
    topics: Map<Seq<char>, String>,
    source: Seq<char>,
    topic: Seq<char>,
) -> bool {
    topics.contains_key(source) && same_ignoring_case(topics[source]@, topic)
}

/// Whether `id` is a source of the topic, or is missing because there is none.
pub open spec fn is_source_of(
    topics: Map<Seq<char>, String>,
    topic: Seq<char>,
    id: Option<String>,
) -> bool {
    match id {
        Some(source) => has_topic(topics, source@, topic),
        None => forall|source: Seq<char>| !#[trigger] has_topic(topics, source, topic),
    }
}

/// The only source of a topic is the one that is found.
pub proof fn law_only_source_is_found(
    topics: Map<Seq<char>, String>,
    topic: Seq<char>,
    only: Seq<char>,
    id: Option<String>,
)
    requires
        has_topic(topics, only, topic),
        forall|source: Seq<char>| #[trigger] has_topic(topics, source, topic) ==> source == only,
        is_source_of(topics, topic, id),
    ensures
        id matches Some(source) && source@ == only,
{
}

/// The id of a source of the topic, whatever the case of its letters; which one, where there are
/// several, is left open.
pub fn source_of(sources: &Registry<String>, topic: &str) -> (id: Option<String>)
    ensures
        is_source_of(sources@, topic@, id),
{
    let entries: &Vec<(String, String)> = sources.entries();
    proof {
        lemma_table_entries(entries@);
    }
    let mut i: usize = 0;
    while i < entries.len()
        invariant
            i <= entries.len(),
            forall|j: int| 0 <= j < i ==> !same_ignoring_case((#[trigger] entries@[j]).1@, topic@),
            forall|j: int|
                0 <= j < entries.len() ==> {
                    &&& sources@.contains_key((#[trigger] entries@[j]).0@)
                    &&& sources@[entries@[j].0@] == entries@[j].1
                },
        decreases entries.len() - i,
    {
        if matches_ignoring_case(entries[i].1.as_str(), topic) {
            assert(has_topic(sources@, entries@[i as int].0@, topic@));
            return Some(entries[i].0.clone());
        }
        i += 1;
    }
    None
}

impl<S> RuleSet<S> {
    /// The rule set that the rows store. Where a chain is neither an array of steps nor null nor
    /// missing, it is an error, and the first such chain's.
    pub fn load(
        sources: Vec<SourceRow>,
        target_fields: Vec<MappingTargetField>,
        rules: Vec<RuleRow<S>>,
    ) -> (loaded: Result<RuleSet<S>, ChainError>)
        ensures
            match loaded {
                Ok(set) => {
                    &&& first_error(rules@) is None
                    &&& set.sources@ == topics_of(sources@)
                    &&& set.target_fields@ == fields_of(target_fields@)
                    &&& are_rules_of(rules@, set.rules@)
                },
                Err(e) => first_error(rules@) == Some(e),
            },
    {
        let ghost source_rows = sources@;
        let ghost field_rows = target_fields@;
        let mut topics: Registry<String> = Registry::new();
        for row in it: sources
            invariant
                it.seq() == source_rows,
                topics@ == topics_of(source_rows.take(it.index() as int)),
        {
            proof {
                let longer = source_rows.take(it.index() as int + 1);
                assert(longer.drop_last() =~= source_rows.take(it.index() as int));
                assert(longer.last() == row);
            }
            topics.insert(row.id, row.topic);
        }
        let mut fields: Registry<MappingTargetField> = Registry::new();
        for row in it: target_fields
            invariant
                it.seq() == field_rows,
                fields@ == fields_of(field_rows.take(it.index() as int)),
        {
            proof {
                let longer = field_rows.take(it.index() as int + 1);
                assert(longer.drop_last() =~= field_rows.take(it.index() as int));
                assert(longer.last() == row);
            }
            fields.insert(row.id.clone(), row);
        }
        assert(source_rows.take(source_rows.len() as int) =~= source_rows);
        assert(field_rows.take(field_rows.len() as int) =~= field_rows);
        match load_rule_rows(rules) {
            Ok(list) => Ok(RuleSet { sources: topics, target_fields: fields, rules: list }),
            Err(e) => Err(e),
        }
    }

    /// What is said of the rules once they are loaded.
    pub fn summary(&self) -> (message: String)
        ensures
            message@ == "Loaded "@ + decimal(self.sources@.len()) + " sources, "@ + decimal(
                self.target_fields@.len(),
            ) + " targets, "@ + decimal(self.rules@.len()) + " rules"@,
    {
        let mut message: String = "Loaded ".to_owned();
        message.append(decimal_text(self.sources.len()).as_str());
        message.append(" sources, ");
        message.append(decimal_text(self.target_fields.len()).as_str());
        message.append(" targets, ");
        message.append(decimal_text(self.rules.len()).as_str());
        message.append(" rules");
        message
    }
}

/// Whether a stored chain can be read: nothing or null is stored, or an array of steps.
pub open spec fn can_be_read<S>(chain: StoredChain<S>) -> bool {
    ||| chain.value is None
    ||| json_of(chain.value->0) is Null
    ||| json_of(chain.value->0) is Array && chain.steps is Ok
}

/// An array that reads as steps gives these steps, and nothing or null gives none. An array that
/// does not read as steps is refused with the reason, and any other value as no array.
pub proof fn law_chain_is_read_as_stored<S>(
    chain: StoredChain<S>,
    steps: Result<Vec<S>, ChainError>,
)
    requires
        call_ensures(parse_chain::<S>, (chain,), steps),
    ensures
        match chain.value {
            None => steps is Ok && steps->Ok_0@.len() == 0,
            Some(value) => match json_of(value) {
                Json::Null => steps is Ok && steps->Ok_0@.len() == 0,
                Json::Array(_) => match chain.steps {
                    Ok(read) => steps is Ok && steps->Ok_0@ == read@,
                    Err(error) => steps == Err::<Vec<S>, _>(ChainError::InvalidSteps(error)),
                },
                _ => steps == Err::<Vec<S>, _>(ChainError::NotAnArray),
            },
        },
        steps is Ok <==> can_be_read(chain),
{
}

/// The rules are loaded exactly where every chain of every row can be read.
pub proof fn law_rules_load_where_all_chains_can_be_read<S>(
    sources: Vec<SourceRow>,
    target_fields: Vec<MappingTargetField>,
    rules: Vec<RuleRow<S>>,
    loaded: Result<RuleSet<S>, ChainError>,
)
    requires
        call_ensures(RuleSet::<S>::load, (sources, target_fields, rules), loaded),
    ensures
        loaded is Ok <==> forall|i: int|
            0 <= i < rules@.len() ==> can_be_read(
                (#[trigger] rules@[i]).transformation_chain,
            ) && can_be_read(rules@[i].validation_chain),
{
    lemma_no_error(rules@);
}

proof fn lemma_no_error<S>(rows: Seq<RuleRow<S>>)
    ensures
        first_error(rows) is None <==> forall|i: int|
            0 <= i < rows.len() ==> can_be_read((#[trigger] rows[i]).transformation_chain)
                && can_be_read(rows[i].validation_chain),
    decreases rows.len(),
{
    if rows.len() > 0 {
        let earlier = rows.drop_last();
        lemma_no_error(earlier);
        let last = rows[rows.len() - 1];
        if first_error(rows) is None {
            assert forall|i: int| 0 <= i < rows.len() implies can_be_read(
                (#[trigger] rows[i]).transformation_chain,
            ) && can_be_read(rows[i].validation_chain) by {
                if i < earlier.len() {
                    assert(earlier[i] == rows[i]);
                }
            }
        }
        if forall|i: int|
            0 <= i < rows.len() ==> can_be_read((#[trigger] rows[i]).transformation_chain)
                && can_be_read(rows[i].validation_chain) {
            assert(can_be_read(last.transformation_chain));
            assert forall|i: int| 0 <= i < earlier.len() implies can_be_read(
                (#[trigger] earlier[i]).transformation_chain,
            ) && can_be_read(earlier[i].validation_chain) by {
                assert(earlier[i] == rows[i]);
            }
        }
    }
}

/// Where a chain cannot be read, the error is that of the first row with such a chain: of its
/// transformations or, where these can be read, of its validations.
pub proof fn law_first_unreadable_chain_is_the_error<S>(
    sources: Vec<SourceRow>,
    target_fields: Vec<MappingTargetField>,
    rules: Vec<RuleRow<S>>,
    loaded: Result<RuleSet<S>, ChainError>,
    first: int,
    transformations: Result<Vec<S>, ChainError>,
    validations: Result<Vec<S>, ChainError>,
)
    requires
        call_ensures(RuleSet::<S>::load, (sources, target_fields, rules), loaded),
        0 <= first < rules@.len(),
        forall|i: int|
            0 <= i < first ==> can_be_read((#[trigger] rules@[i]).transformation_chain)
                && can_be_read(rules@[i].validation_chain),
        call_ensures(parse_chain::<S>, (rules@[first].transformation_chain,), transformations),
        call_ensures(parse_chain::<S>, (rules@[first].validation_chain,), validations),
    ensures
        transformations matches Err(error) ==> loaded == Err::<RuleSet<S>, _>(error),
        transformations is Ok && validations is Err ==> loaded == Err::<RuleSet<S>, _>(
            validations->Err_0,
        ),
{
    let before = rules@.take(first);
    assert forall|i: int| 0 <= i < before.len() implies can_be_read(
        (#[trigger] before[i]).transformation_chain,
    ) && can_be_read(before[i].validation_chain) by {
        assert(before[i] == rules@[i]);
    }
    lemma_no_error(before);
    assert(rules@.take(first + 1).drop_last() =~= before);
    assert(rules@.take(first + 1).last() == rules@[first]);
    if transformations is Err || validations is Err {
        lemma_first_error_stays(rules@, first + 1);
    }
}

/// The loaded rules are those of the rows, in their order: each between the fields that its row
/// names, by the steps that its chains read as.
pub proof fn law_rule_is_loaded_as_stored<S>(
    sources: Vec<SourceRow>,
    target_fields: Vec<MappingTargetField>,
    rules: Vec<RuleRow<S>>,
    set: RuleSet<S>,
    row: int,
    transformations: Result<Vec<S>, ChainError>,
    validations: Result<Vec<S>, ChainError>,
)
    requires
        call_ensures(RuleSet::<S>::load, (sources, target_fields, rules), Ok(set)),
        0 <= row < rules@.len(),
        call_ensures(parse_chain::<S>, (rules@[row].transformation_chain,), transformations),
        call_ensures(parse_chain::<S>, (rules@[row].validation_chain,), validations),
    ensures
        set.rules@.len() == rules@.len(),
        set.rules@[row].source_id@ == rules@[row].source_id@,
        set.rules@[row].target_field_id@ == rules@[row].target_field_id@,
        set.rules@[row].source_field@ == rules@[row].source_field@,
        transformations matches Ok(steps) && set.rules@[row].transformations@ == steps@,
        validations matches Ok(steps) && set.rules@[row].validations@ == steps@,
{
    assert(is_rule_of(rules@[row], set.rules@[row]));
}

/// Of the stored target fields with one id the last is loaded, as it is stored; no other id is
/// loaded.
pub proof fn law_last_stored_field_is_loaded<S>(
    sources: Vec<SourceRow>,
    target_fields: Vec<MappingTargetField>,
    rules: Vec<RuleRow<S>>,
    set: RuleSet<S>,
)
    requires
        call_ensures(RuleSet::<S>::load, (sources, target_fields, rules), Ok(set)),
    ensures
        forall|i: int|
            #![trigger target_fields@[i]]
            0 <= i < target_fields@.len() && (forall|j: int|
                i < j < target_fields@.len() ==> (#[trigger] target_fields@[j]).id@
                    != target_fields@[i].id@) ==> {
                &&& set.target_fields@.contains_key(target_fields@[i].id@)
                &&& set.target_fields@[target_fields@[i].id@] == target_fields@[i]
            },
        forall|id: Seq<char>| #[trigger]
            set.target_fields@.contains_key(id) ==> exists|i: int|
                0 <= i < target_fields@.len() && (#[trigger] target_fields@[i]).id@ == id,
{
    let rows = target_fields@;
    assert forall|i: int|
        #![trigger rows[i]]
        0 <= i < rows.len() && (forall|j: int|
            i < j < rows.len() ==> (#[trigger] rows[j]).id@ != rows[i].id@) implies {
        &&& set.target_fields@.contains_key(rows[i].id@)
        &&& set.target_fields@[rows[i].id@] == rows[i]
    } by {
        lemma_last_field(rows, i);
    }
    assert forall|id: Seq<char>| #[trigger] set.target_fields@.contains_key(id) implies exists|i: int|
        0 <= i < rows.len() && (#[trigger] rows[i]).id@ == id by {
        lemma_field_is_stored(rows, id);
    }
}

proof fn lemma_last_field(rows: Seq<MappingTargetField>, place: int)
    requires
        0 <= place < rows.len(),
        forall|j: int| place < j < rows.len() ==> (#[trigger] rows[j]).id@ != rows[place].id@,
    ensures
        fields_of(rows).contains_key(rows[place].id@),
        fields_of(rows)[rows[place].id@] == rows[place],
    decreases rows.len(),
{
    if place < rows.len() - 1 {
        let earlier = rows.drop_last();
        assert(rows[rows.len() - 1].id@ != rows[place].id@);
        assert forall|j: int| place < j < earlier.len() implies (#[trigger] earlier[j]).id@
            != earlier[place].id@ by {
            assert(rows[j].id@ != rows[place].id@);
        }
        lemma_last_field(earlier, place);
    }
}

proof fn lemma_field_is_stored(rows: Seq<MappingTargetField>, id: Seq<char>)
    requires
        fields_of(rows).contains_key(id),
    ensures
        exists|i: int| 0 <= i < rows.len() && (#[trigger] rows[i]).id@ == id,
    decreases rows.len(),
{
    if rows[rows.len() - 1].id@ != id {
        let earlier = rows.drop_last();
        lemma_field_is_stored(earlier, id);
        let i = choose|i: int| 0 <= i < earlier.len() && (#[trigger] earlier[i]).id@ == id;
        assert(rows[i].id@ == id);
    }
}

/// Of the stored sources with one id the last is loaded, with its topic; no other id is loaded.
pub proof fn law_last_stored_source_is_loaded<S>(
    sources: Vec<SourceRow>,
    target_fields: Vec<MappingTargetField>,
    rules: Vec<RuleRow<S>>,
    set: RuleSet<S>,
)
    requires
        call_ensures(RuleSet::<S>::load, (sources, target_fields, rules), Ok(set)),
    ensures
        forall|i: int|
            #![trigger sources@[i]]
            0 <= i < sources@.len() && (forall|j: int|
                i < j < sources@.len() ==> (#[trigger] sources@[j]).id@ != sources@[i].id@) ==> {
                &&& set.sources@.contains_key(sources@[i].id@)
                &&& set.sources@[sources@[i].id@]@ == sources@[i].topic@
            },
        forall|id: Seq<char>| #[trigger]
            set.sources@.contains_key(id) ==> exists|i: int|
                0 <= i < sources@.len() && (#[trigger] sources@[i]).id@ == id,
{
    let rows = sources@;
    assert forall|i: int|
        #![trigger rows[i]]
        0 <= i < rows.len() && (forall|j: int|
            i < j < rows.len() ==> (#[trigger] rows[j]).id@ != rows[i].id@) implies {
        &&& set.sources@.contains_key(rows[i].id@)
        &&& set.sources@[rows[i].id@]@ == rows[i].topic@
    } by {
        lemma_last_source(rows, i);
    }
    assert forall|id: Seq<char>| #[trigger] set.sources@.contains_key(id) implies exists|i: int|
        0 <= i < rows.len() && (#[trigger] rows[i]).id@ == id by {
        lemma_source_is_stored(rows, id);
    }
}

proof fn lemma_last_source(rows: Seq<SourceRow>, place: int)
    requires
        0 <= place < rows.len(),
        forall|j: int| place < j < rows.len() ==> (#[trigger] rows[j]).id@ != rows[place].id@,
    ensures
        topics_of(rows).contains_key(rows[place].id@),
        topics_of(rows)[rows[place].id@] == rows[place].topic,
    decreases rows.len(),
{
    if place < rows.len() - 1 {
        let earlier = rows.drop_last();
        assert(rows[rows.len() - 1].id@ != rows[place].id@);
        assert forall|j: int| place < j < earlier.len() implies (#[trigger] earlier[j]).id@
            != earlier[place].id@ by {
            assert(rows[j].id@ != rows[place].id@);
        }
        lemma_last_source(earlier, place);
    }
}

proof fn lemma_source_is_stored(rows: Seq<SourceRow>, id: Seq<char>)
    requires
        topics_of(rows).contains_key(id),
    ensures
        exists|i: int| 0 <= i < rows.len() && (#[trigger] rows[i]).id@ == id,
    decreases rows.len(),
{
    if rows[rows.len() - 1].id@ != id {
        let earlier = rows.drop_last();
        lemma_source_is_stored(earlier, id);
        let i = choose|i: int| 0 <= i < earlier.len() && (#[trigger] earlier[i]).id@ == id;
        assert(rows[i].id@ == id);
    }
}

/// A source is found for a topic exactly where one has it, but for the case of letters, and the one
/// that is found has it.
pub proof fn law_source_is_found_by_its_topic(
    sources: &Registry<String>,
    topic: &str,
    id: Option<String>,
)
    requires
        call_ensures(source_of, (sources, topic), id),
    ensures
        id matches Some(source) ==> sources@.contains_key(source@) && same_ignoring_case(
            sources@[source@]@,
            topic@,
        ),
        id is None ==> forall|source: Seq<char>| #[trigger]
            sources@.contains_key(source) ==> !same_ignoring_case(sources@[source]@, topic@),
{
    if id is None {
        assert forall|source: Seq<char>| #[trigger]
            sources@.contains_key(source) implies !same_ignoring_case(
            sources@[source]@,
            topic@,
        ) by {
            assert(!has_topic(sources@, source, topic@));
        }
    }
}

/// What is said of loaded rules counts the sources, the target fields and the rules.
pub proof fn law_summary_counts_what_is_loaded<S>(
    set: &RuleSet<S>,
    message: String,
    sources: usize,
    target_fields: usize,
    rules: usize,
    source_count: String,
    field_count: String,
    rule_count: String,
)
    requires
        call_ensures(RuleSet::<S>::summary, (set,), message),
        call_ensures(Registry::<String>::len, (&set.sources,), sources),
        call_ensures(Registry::<MappingTargetField>::len, (&set.target_fields,), target_fields),
        rules == set.rules@.len(),
        call_ensures(decimal_text, (sources,), source_count),
        call_ensures(decimal_text, (target_fields,), field_count),
        call_ensures(decimal_text, (rules,), rule_count),
    ensures
        message@ == "Loaded "@ + source_count@ + " sources, "@ + field_count@ + " targets, "@
            + rule_count@ + " rules"@,
{
}

/// What is said of a chain that cannot be read.
pub proof fn law_chain_error_says_why(error: &ChainError, message: String)
    requires
        call_ensures(ChainError::message, (error,), message),
    ensures
        error is NotAnArray ==> message@ == "rule chain must be a JSON array"@,
        error is InvalidSteps ==> message@ == "invalid rule chain"@,
{
}

} // verus!
