//! What becomes of an aggregate: its fragments are opened and, where all went well, transformed.
use vstd::prelude::*;

use crate::json::{members, parse_object, parsed_object, Json, JsonObject};
use crate::registry::Registry;
use crate::rules::{has_topic, is_source_of, source_of};
use crate::text::same_ignoring_case;

verus! {

/// Why an aggregate could not be transformed.
pub struct TransformationError {
    pub failed_field: String,
    pub rule_name: String,
    pub error_message: String,
}

/// Why the transformation of a payload failed, as the pipeline reports it.
pub struct PipelineError {
    pub failed_field: String,
    pub rule_name: String,
    pub error_message: String,
}

/// What an error says.
pub struct Complaint {
    pub failed_field: Seq<char>,
    pub rule_name: Seq<char>,
    pub error_message: Seq<char>,
}

impl View for TransformationError {
    type V = Complaint;

    open spec fn view(&self) -> Complaint {
        Complaint {
            failed_field: self.failed_field@,
            rule_name: self.rule_name@,
            error_message: self.error_message@,
        }
    }
}

impl View for PipelineError {
    type V = Complaint;

    open spec fn view(&self) -> Complaint {
        Complaint {
            failed_field: self.failed_field@,
            rule_name: self.rule_name@,
            error_message: self.error_message@,
        }
    }
}

/// What the errors say, in their order.
pub open spec fn complaints_in(errors: Seq<TransformationError>) -> Seq<Complaint> {
    errors.map_values(|error: TransformationError| error@)
}

/// The error of a fragment that could not be decrypted.
pub open spec fn decryption_complaint(error: Seq<char>) -> Complaint {
    Complaint {
        failed_field: "payload"@,
        rule_name: "decryption"@,
        error_message: "Failed to decrypt envelope: "@ + error,
    }
}

/// The error of a fragment that holds no JSON object.
pub open spec fn json_complaint(error: Seq<char>) -> Complaint {
    Complaint { failed_field: "payload"@, rule_name: "json_parse"@, error_message: error }
}

/// The error of an aggregate whose topic no source has.
pub open spec fn source_complaint() -> Complaint {
    Complaint {
        failed_field: "topic"@,
        rule_name: "source_lookup"@,
        error_message: "No mapping source found for topic"@,
    }
}

/// What has come of opening one fragment.
pub enum Opened {
    /// The object that it holds.
    Payload(JsonObject),
    /// It could not be decrypted, for this reason.
    NotDecrypted(String),
    /// It holds no JSON object, for this reason.
    NotJson(String),
}

/// The error of a fragment, where it could not be opened.
pub open spec fn complaint_of(opened: Opened) -> Option<Complaint> {
    match opened {
        Opened::Payload(_) => None,
        Opened::NotDecrypted(error) => Some(decryption_complaint(error@)),
        Opened::NotJson(error) => Some(json_complaint(error@)),
    }
}

/// The errors of the fragments that could not be opened, in the order of the fragments.
pub open spec fn complaints_of(opened: Seq<Opened>) -> Seq<Complaint>
    decreases opened.len(),
{
    if opened.len() == 0 {
        Seq::empty()
    } else {
        match complaint_of(opened.last()) {
            Some(complaint) => complaints_of(opened.drop_last()).push(complaint),
            None => complaints_of(opened.drop_last()),
        }
    }
}

/// The objects of the fragments that could be opened, in the order of the fragments.
pub open spec fn payloads_of(opened: Seq<Opened>) -> Seq<JsonObject>
    decreases opened.len(),
{
    if opened.len() == 0 {
        Seq::empty()
    } else {
        match opened.last() {
            Opened::Payload(object) => payloads_of(opened.drop_last()).push(object),
            _ => payloads_of(opened.drop_last()),
        }
    }
}

/// What the objects hold, in their order.
pub open spec fn contents_of(objects: Seq<JsonObject>) -> Seq<Map<Seq<char>, Json>> {
    objects.map_values(|object: JsonObject| members(object))
}

/// The error of a fragment that was decrypted to these bytes, or could not be for this reason.
pub open spec fn complaint_for(decrypted: Result<Vec<u8>, String>) -> Option<Complaint> {
    match decrypted {
        Err(error) => Some(decryption_complaint(error@)),
        Ok(bytes) => match parsed_object(bytes@) {
            Ok(_) => None,
            Err(error) => Some(json_complaint(error)),
        },
    }
}

/// The errors of the fragments that were decrypted so, in the order of the fragments.
pub open spec fn complaints_for(decrypted: Seq<Result<Vec<u8>, String>>) -> Seq<Complaint>
    decreases decrypted.len(),
{
    if decrypted.len() == 0 {
        Seq::empty()
    } else {
        match complaint_for(decrypted.last()) {
            Some(complaint) => complaints_for(decrypted.drop_last()).push(complaint),
            None => complaints_for(decrypted.drop_last()),
        }
    }
}

/// What the objects hold that the fragments were decrypted to, in the order of the fragments.
pub open spec fn contents_for(decrypted: Seq<Result<Vec<u8>, String>>) -> Seq<
    Map<Seq<char>, Json>,
>
    decreases decrypted.len(),
{
    if decrypted.len() == 0 {
        Seq::empty()
    } else {
        match decrypted.last() {
            Ok(bytes) => match parsed_object(bytes@) {
                Ok(content) => contents_for(decrypted.drop_last()).push(content),
                Err(_) => contents_for(decrypted.drop_last()),
            },
            Err(_) => contents_for(decrypted.drop_last()),
        }
    }
}

/// Whether `opened` is what comes of opening the fragment.
pub open spec fn is_opened(decrypted: Result<Vec<u8>, String>, opened: Opened) -> bool {
    match decrypted {
        Err(error) => opened matches Opened::NotDecrypted(e) && e@ == error@,
        Ok(bytes) => match parsed_object(bytes@) {
            Ok(content) => opened matches Opened::Payload(object) && members(object) == content,
            Err(error) => opened matches Opened::NotJson(e) && e@ == error,
        },
    }
}

/// What is to be done with an aggregate.
pub enum AggregatePlan {
    /// Transform the payloads, taken together, by the rules of the source.
    Transform { source_id: String, payloads: Vec<JsonObject> },
    /// Record the errors; nothing is written to the target.
    Reject { errors: Vec<TransformationError> },
}

/// Whether the plan is the one for fragments with these errors, and these payloads, and for that
/// topic: an error rejects the aggregate, and so does a topic that no source has.
pub open spec fn is_plan(
    complaints: Seq<Complaint>,
    payloads: Seq<Map<Seq<char>, Json>>,
    topic: Seq<char>,
    topics: Map<Seq<char>, String>,
    plan: AggregatePlan,
) -> bool {
    match plan {
        AggregatePlan::Transform { source_id, payloads: taken } => {
            &&& complaints.len() == 0
            &&& has_topic(topics, source_id@, topic)
            &&& contents_of(taken@) == payloads
        },
        AggregatePlan::Reject { errors } => if complaints.len() > 0 {
            complaints_in(errors@) == complaints
        } else {
            &&& is_source_of(topics, topic, None)
            &&& complaints_in(errors@) == seq![source_complaint()]
        },
    }
}

/// Says what the error of the pipeline says.
pub fn convert_pipeline_error(error: PipelineError) -> (converted: TransformationError)
    ensures
        converted@ == error@,
{
    TransformationError {
        failed_field: error.failed_field,
        rule_name: error.rule_name,
        error_message: error.error_message,
    }
}

/// The errors of the pipeline, in their order.
pub fn convert_pipeline_errors(errors: Vec<PipelineError>) -> (converted: Vec<TransformationError>)
    ensures
        complaints_in(converted@) == errors@.map_values(|error: PipelineError| error@),
{
    let ghost all = errors@;
    let mut converted: Vec<TransformationError> = Vec::new();
    for error in it: errors
        invariant
            it.seq() == all,
            complaints_in(converted@) == all.take(it.index() as int).map_values(
                |error: PipelineError| error@,
            ),
    {
        let ghost before = converted@;
        converted.push(convert_pipeline_error(error));
        assert(complaints_in(converted@) =~= complaints_in(before).push(error@));
        assert(all.take(it.index() as int + 1).map_values(|error: PipelineError| error@)
            =~= all.take(it.index() as int).map_values(|error: PipelineError| error@).push(
            error@,
        ));
    }
    assert(all.take(all.len() as int) =~= all);
    converted
}

fn decryption_error(error: &str) -> (built: TransformationError)
    ensures
        built@ == decryption_complaint(error@),
{
    let mut message: String = "Failed to decrypt envelope: ".to_owned();
    message.append(error);
    TransformationError {
        failed_field: "payload".to_owned(),
        rule_name: "decryption".to_owned(),
        error_message: message,
    }
}

fn source_error() -> (built: TransformationError)
    ensures
        built@ == source_complaint(),
{
    TransformationError {
        failed_field: "topic".to_owned(),
        rule_name: "source_lookup".to_owned(),
        error_message: "No mapping source found for topic".to_owned(),
    }
}

/// Decides what is to be done with an aggregate whose fragments have been opened.
pub fn plan_aggregate(
    opened: Vec<Opened>,
    topic: &str,
    sources: &Registry<String>,
) -> (plan: AggregatePlan)
    ensures
        is_plan(
            complaints_of(opened@),
            contents_of(payloads_of(opened@)),
            topic@,
            sources@,
            plan,
        ),
{
    let ghost all = opened@;
    let mut payloads: Vec<JsonObject> = Vec::new();
    let mut errors: Vec<TransformationError> = Vec::new();
    for fragment in it: opened
        invariant
            it.seq() == all,
            payloads@ == payloads_of(all.take(it.index() as int)),
            complaints_in(errors@) == complaints_of(all.take(it.index() as int)),
    {
        proof {
            let longer = all.take(it.index() as int + 1);
            assert(longer.drop_last() =~= all.take(it.index() as int));
            assert(longer.last() == fragment);
        }
        let ghost before = errors@;
        match fragment {
            Opened::Payload(object) => payloads.push(object),
            Opened::NotDecrypted(error) => {
                errors.push(decryption_error(error.as_str()));
                assert(complaints_in(errors@) =~= complaints_in(before).push(
                    decryption_complaint(error@),
                ));
            },
            Opened::NotJson(error) => {
                let built = TransformationError {
                    failed_field: "payload".to_owned(),
                    rule_name: "json_parse".to_owned(),
                    error_message: error,
                };
                errors.push(built);
                assert(complaints_in(errors@) =~= complaints_in(before).push(
                    json_complaint(error@),
                ));
            },
        }
    }
    assert(all.take(all.len() as int) =~= all);
    assert(complaints_in(errors@).len() == errors@.len());
    if errors.len() > 0 {
        return AggregatePlan::Reject { errors };
    }
    match source_of(sources, topic) {
        Some(source_id) => AggregatePlan::Transform { source_id, payloads },
        None => {
            let mut only: Vec<TransformationError> = Vec::new();
            only.push(source_error());
            assert(complaints_in(only@) =~= seq![source_complaint()]);
            AggregatePlan::Reject { errors: only }
        },
    }
}

/// Opens a fragment that was decrypted to bytes, or could not be.
pub fn open_fragment(decrypted: Result<Vec<u8>, String>) -> (opened: Opened)
    ensures
        is_opened(decrypted, opened),
{
    match decrypted {
        Err(error) => Opened::NotDecrypted(error),
        Ok(bytes) => match parse_object(bytes.as_slice()) {
            Ok(object) => Opened::Payload(object),
            Err(error) => Opened::NotJson(error),
        },
    }
}

/// Opens the fragments of an aggregate and decides what is to be done with it. For each fragment
/// `decrypted` holds its bytes, or the reason why it could not be decrypted.
pub fn process_aggregate(
    decrypted: Vec<Result<Vec<u8>, String>>,
    topic: &str,
    sources: &Registry<String>,
) -> (plan: AggregatePlan)
    ensures
        is_plan(
            complaints_for(decrypted@),
            contents_for(decrypted@),
            topic@,
            sources@,
            plan,
        ),
{
    let ghost all = decrypted@;
    let mut opened: Vec<Opened> = Vec::new();
    for fragment in it: decrypted
        invariant
            it.seq() == all,
            opened@.len() == it.index(),
            complaints_of(opened@) == complaints_for(all.take(it.index() as int)),
            contents_of(payloads_of(opened@)) == contents_for(all.take(it.index() as int)),
    {
        let ghost before = opened@;
        let one: Opened = open_fragment(fragment);
        opened.push(one);
        proof {
            let longer = all.take(it.index() as int + 1);
            assert(longer.drop_last() =~= all.take(it.index() as int));
            assert(longer.last() == fragment);
            assert(opened@.drop_last() =~= before);
            assert(opened@.last() == one);
            if one is Payload {
                assert(contents_of(payloads_of(opened@)) =~= contents_of(payloads_of(before)).push(
                    members(one->Payload_0),
                ));
            }
        }
    }
    assert(all.take(all.len() as int) =~= all);
    plan_aggregate(opened, topic, sources)
}

/// A fragment that cannot be decrypted, or holds no JSON object, has its aggregate rejected, with one
/// error for each such fragment, in their order, and no other.
pub proof fn law_unreadable_fragment_rejects(
    decrypted: Seq<Result<Vec<u8>, String>>,
    unreadable: int,
    topic: Seq<char>,
    topics: Map<Seq<char>, String>,
    plan: AggregatePlan,
)
    requires
        0 <= unreadable < decrypted.len(),
        complaint_for(decrypted[unreadable]) is Some,
        is_plan(complaints_for(decrypted), contents_for(decrypted), topic, topics, plan),
    ensures
        plan is Reject,
        complaints_in(plan->errors@) == complaints_for(decrypted),
        complaints_in(plan->errors@).contains(complaint_for(decrypted[unreadable])->0),
{
    lemma_complaint_is_kept(decrypted, unreadable);
}

proof fn lemma_complaint_is_kept(decrypted: Seq<Result<Vec<u8>, String>>, place: int)
    requires
        0 <= place < decrypted.len(),
        complaint_for(decrypted[place]) is Some,
    ensures
        complaints_for(decrypted).len() > 0,
        complaints_for(decrypted).contains(complaint_for(decrypted[place])->0),
    decreases decrypted.len(),
{
    let earlier = decrypted.drop_last();
    let all = complaints_for(decrypted);
    if place == decrypted.len() - 1 {
        assert(all[all.len() - 1] == complaint_for(decrypted[place])->0);
    } else {
        assert(earlier[place] == decrypted[place]);
        lemma_complaint_is_kept(earlier, place);
        let kept = complaints_for(earlier);
        let i = choose|i: int|
            0 <= i < kept.len() && kept[i] == complaint_for(decrypted[place])->0;
        assert(all[i] == kept[i]);
    }
}

/// Every fragment of an aggregate either adds its payload or its error, so an aggregate that is
/// transformed is transformed as a whole.
pub proof fn law_every_fragment_counts(decrypted: Seq<Result<Vec<u8>, String>>)
    ensures
        complaints_for(decrypted).len() + contents_for(decrypted).len() == decrypted.len(),
    decreases decrypted.len(),
{
    if decrypted.len() > 0 {
        law_every_fragment_counts(decrypted.drop_last());
    }
}

/// An aggregate is never rejected without a reason.
pub proof fn law_rejection_has_a_reason(
    complaints: Seq<Complaint>,
    payloads: Seq<Map<Seq<char>, Json>>,
    topic: Seq<char>,
    topics: Map<Seq<char>, String>,
    plan: AggregatePlan,
)
    requires
        is_plan(complaints, payloads, topic, topics, plan),
        plan is Reject,
    ensures
        complaints_in(plan->errors@).len() > 0,
{
}

/// A fragment opens as the object that its bytes are read as. It does not open, for the reason
/// given, where it could not be decrypted or its bytes are not read as an object.
pub proof fn law_fragment_opens_as_its_bytes_read(
    decrypted: Result<Vec<u8>, String>,
    opened: Opened,
)
    requires
        call_ensures(open_fragment, (decrypted,), opened),
    ensures
        opened is Payload <==> decrypted is Ok && parsed_object(decrypted->Ok_0@) is Ok,
        opened is NotDecrypted <==> decrypted is Err,
        opened matches Opened::Payload(object) ==> parsed_object(decrypted->Ok_0@) == Ok::<
            Map<Seq<char>, Json>,
            Seq<char>,
        >(members(object)),
        opened matches Opened::NotDecrypted(error) ==> error@ == decrypted->Err_0@,
        opened matches Opened::NotJson(error) ==> parsed_object(decrypted->Ok_0@) == Err::<
            Map<Seq<char>, Json>,
            Seq<char>,
        >(error@),
{
}

/// An aggregate whose fragments all read as objects, and whose topic a source has, is transformed
/// by such a source, with the objects of all its fragments in their order.
pub proof fn law_readable_aggregate_is_transformed(
    decrypted: Vec<Result<Vec<u8>, String>>,
    topic: &str,
    sources: &Registry<String>,
    source: Seq<char>,
    plan: AggregatePlan,
)
    requires
        call_ensures(process_aggregate, (decrypted, topic, sources), plan),
        forall|i: int|
            0 <= i < decrypted@.len() ==> (#[trigger] decrypted@[i]) is Ok && parsed_object(
                decrypted@[i]->Ok_0@,
            ) is Ok,
        sources@.contains_key(source),
        same_ignoring_case(sources@[source]@, topic@),
    ensures
        plan matches AggregatePlan::Transform { source_id, payloads } && {
            &&& sources@.contains_key(source_id@)
            &&& same_ignoring_case(sources@[source_id@]@, topic@)
            &&& payloads@.len() == decrypted@.len()
            &&& forall|i: int|
                #![trigger payloads@[i]]
                0 <= i < payloads@.len() ==> parsed_object(decrypted@[i]->Ok_0@) == Ok::<
                    Map<Seq<char>, Json>,
                    Seq<char>,
                >(members(payloads@[i]))
        },
{
    lemma_all_read(decrypted@);
    assert(has_topic(sources@, source, topic@));
    if let AggregatePlan::Transform { source_id, payloads } = plan {
        assert(contents_of(payloads@).len() == payloads@.len());
        assert forall|i: int|
            #![trigger payloads@[i]]
            0 <= i < payloads@.len() implies parsed_object(decrypted@[i]->Ok_0@) == Ok::<
            Map<Seq<char>, Json>,
            Seq<char>,
        >(members(payloads@[i])) by {
            assert(contents_of(payloads@)[i] == members(payloads@[i]));
            assert(decrypted@[i] is Ok);
        }
    }
}

proof fn lemma_all_read(decrypted: Seq<Result<Vec<u8>, String>>)
    requires
        forall|i: int|
            0 <= i < decrypted.len() ==> (#[trigger] decrypted[i]) is Ok && parsed_object(
                decrypted[i]->Ok_0@,
            ) is Ok,
    ensures
        complaints_for(decrypted).len() == 0,
        contents_for(decrypted).len() == decrypted.len(),
        forall|i: int|
            0 <= i < decrypted.len() ==> #[trigger] contents_for(decrypted)[i] == parsed_object(
                decrypted[i]->Ok_0@,
            )->Ok_0,
    decreases decrypted.len(),
{
    if decrypted.len() > 0 {
        let earlier = decrypted.drop_last();
        assert forall|i: int| 0 <= i < earlier.len() implies (#[trigger] earlier[i]) is Ok
            && parsed_object(earlier[i]->Ok_0@) is Ok by {
            assert(earlier[i] == decrypted[i]);
        }
        lemma_all_read(earlier);
        assert(decrypted[decrypted.len() - 1] is Ok);
        assert forall|i: int| 0 <= i < decrypted.len() implies #[trigger] contents_for(
            decrypted,
        )[i] == parsed_object(decrypted[i]->Ok_0@)->Ok_0 by {
            if i < earlier.len() {
                assert(contents_for(decrypted)[i] == contents_for(earlier)[i]);
            }
        }
    }
}

/// An aggregate whose fragments all read as objects, but whose topic no source has, is rejected
/// with that as its only error.
pub proof fn law_aggregate_without_source_is_rejected(
    decrypted: Vec<Result<Vec<u8>, String>>,
    topic: &str,
    sources: &Registry<String>,
    plan: AggregatePlan,
)
    requires
        call_ensures(process_aggregate, (decrypted, topic, sources), plan),
        forall|i: int|
            0 <= i < decrypted@.len() ==> (#[trigger] decrypted@[i]) is Ok && parsed_object(
                decrypted@[i]->Ok_0@,
            ) is Ok,
        forall|source: Seq<char>| #[trigger]
            sources@.contains_key(source) ==> !same_ignoring_case(sources@[source]@, topic@),
    ensures
        plan matches AggregatePlan::Reject { errors } && {
            &&& errors@.len() == 1
            &&& errors@[0].failed_field@ == "topic"@
            &&& errors@[0].rule_name@ == "source_lookup"@
            &&& errors@[0].error_message@ == "No mapping source found for topic"@
        },
{
    lemma_all_read(decrypted@);
    if let AggregatePlan::Reject { errors } = plan {
        assert(complaints_in(errors@).len() == errors@.len());
        assert(complaints_in(errors@)[0] == errors@[0]@);
    }
}

/// An aggregate with a fragment that could not be decrypted, or does not read as an object, is
/// rejected. Its errors are those of these fragments, whose places are given back: one for each,
/// in their order, and none for any other.
pub proof fn law_errors_are_those_of_the_unreadable_fragments(
    decrypted: Vec<Result<Vec<u8>, String>>,
    topic: &str,
    sources: &Registry<String>,
    unreadable: int,
    plan: AggregatePlan,
) -> (places: Seq<int>)
    requires
        call_ensures(process_aggregate, (decrypted, topic, sources), plan),
        0 <= unreadable < decrypted@.len(),
        decrypted@[unreadable] is Err || parsed_object(decrypted@[unreadable]->Ok_0@) is Err,
    ensures
        forall|j: int, k: int|
            0 <= j < k < places.len() ==> #[trigger] places[j] < #[trigger] places[k],
        forall|i: int|
            #![trigger decrypted@[i]]
            0 <= i < decrypted@.len() ==> (places.contains(i) <==> decrypted@[i] is Err
                || parsed_object(decrypted@[i]->Ok_0@) is Err),
        forall|k: int|
            0 <= k < places.len() ==> 0 <= #[trigger] places[k] < decrypted@.len(),
        plan matches AggregatePlan::Reject { errors } && {
            &&& errors@.len() == places.len()
            &&& forall|k: int|
                #![trigger errors@[k]]
                0 <= k < errors@.len() ==> {
                    &&& errors@[k].failed_field@ == "payload"@
                    &&& match decrypted@[places[k]] {
                        Err(error) => {
                            &&& errors@[k].rule_name@ == "decryption"@
                            &&& errors@[k].error_message@ == "Failed to decrypt envelope: "@
                                + error@
                        },
                        Ok(bytes) => {
                            &&& errors@[k].rule_name@ == "json_parse"@
                            &&& errors@[k].error_message@ == parsed_object(bytes@)->Err_0
                        },
                    }
                }
        },
{
    let places = lemma_places_of_complaints(decrypted@);
    assert(places.contains(unreadable));
    if let AggregatePlan::Reject { errors } = plan {
        assert(complaints_in(errors@).len() == errors@.len());
        assert forall|k: int|
            #![trigger errors@[k]]
            0 <= k < errors@.len() implies complaints_for(decrypted@)[k] == errors@[k]@ by {
            assert(complaints_in(errors@)[k] == errors@[k]@);
        }
    }
    places
}

proof fn lemma_places_of_complaints(decrypted: Seq<Result<Vec<u8>, String>>) -> (places: Seq<int>)
    ensures
        forall|j: int, k: int|
            0 <= j < k < places.len() ==> #[trigger] places[j] < #[trigger] places[k],
        forall|k: int| 0 <= k < places.len() ==> 0 <= #[trigger] places[k] < decrypted.len(),
        forall|i: int|
            #![trigger decrypted[i]]
            0 <= i < decrypted.len() ==> (places.contains(i) <==> complaint_for(
                decrypted[i],
            ) is Some),
        complaints_for(decrypted).len() == places.len(),
        forall|k: int|
            #![trigger complaints_for(decrypted)[k]]
            #![trigger places[k]]
            0 <= k < places.len() ==> complaint_for(decrypted[places[k]]) == Some(
                complaints_for(decrypted)[k],
            ),
    decreases decrypted.len(),
{
    if decrypted.len() == 0 {
        Seq::empty()
    } else {
        let earlier = decrypted.drop_last();
        let before = lemma_places_of_complaints(earlier);
        let last = decrypted.len() - 1;
        let places = if complaint_for(decrypted.last()) is Some {
            before.push(last)
        } else {
            before
        };
        assert forall|i: int|
            #![trigger decrypted[i]]
            0 <= i < decrypted.len() implies (places.contains(i) <==> complaint_for(
            decrypted[i],
        ) is Some) by {
            if i < last {
                assert(earlier[i] == decrypted[i]);
                if before.contains(i) {
                    let k = choose|k: int| 0 <= k < before.len() && before[k] == i;
                    assert(places[k] == i);
                }
                if places.contains(i) {
                    let k = choose|k: int| 0 <= k < places.len() && places[k] == i;
                    assert(before[k] == i);
                }
            } else if complaint_for(decrypted.last()) is Some {
                assert(places[before.len() as int] == i);
            }
        }
        assert forall|k: int|
            #![trigger complaints_for(decrypted)[k]]
            #![trigger places[k]]
            0 <= k < places.len() implies complaint_for(decrypted[places[k]]) == Some(
            complaints_for(decrypted)[k],
        ) by {
            if k < before.len() {
                assert(before[k] < earlier.len());
                assert(earlier[before[k]] == decrypted[before[k]]);
                assert(complaints_for(earlier)[k] == complaints_for(decrypted)[k]);
            }
        }
        places
    }
}

/// Fragments that all opened, for a topic that a source has, are planned to be transformed by such
/// a source, all of them in their order.
pub proof fn law_opened_fragments_are_transformed(
    opened: Vec<Opened>,
    topic: &str,
    sources: &Registry<String>,
    source: Seq<char>,
    plan: AggregatePlan,
)
    requires
        call_ensures(plan_aggregate, (opened, topic, sources), plan),
        forall|i: int| 0 <= i < opened@.len() ==> (#[trigger] opened@[i]) is Payload,
        sources@.contains_key(source),
        same_ignoring_case(sources@[source]@, topic@),
    ensures
        plan matches AggregatePlan::Transform { source_id, payloads } && {
            &&& sources@.contains_key(source_id@)
            &&& same_ignoring_case(sources@[source_id@]@, topic@)
            &&& payloads@.len() == opened@.len()
            &&& forall|i: int|
                #![trigger payloads@[i]]
                0 <= i < payloads@.len() ==> members(payloads@[i]) == members(
                    opened@[i]->Payload_0,
                )
        },
{
    lemma_all_opened(opened@);
    assert(has_topic(sources@, source, topic@));
    if let AggregatePlan::Transform { source_id, payloads } = plan {
        let all = payloads_of(opened@);
        assert(contents_of(payloads@).len() == payloads@.len());
        assert(contents_of(all).len() == all.len());
        assert forall|i: int|
            #![trigger payloads@[i]]
            0 <= i < payloads@.len() implies members(payloads@[i]) == members(
            opened@[i]->Payload_0,
        ) by {
            assert(contents_of(payloads@)[i] == members(payloads@[i]));
            assert(contents_of(all)[i] == members(all[i]));
        }
    }
}

proof fn lemma_all_opened(opened: Seq<Opened>)
    requires
        forall|i: int| 0 <= i < opened.len() ==> (#[trigger] opened[i]) is Payload,
    ensures
        complaints_of(opened).len() == 0,
        payloads_of(opened).len() == opened.len(),
        forall|i: int|
            0 <= i < opened.len() ==> #[trigger] payloads_of(opened)[i] == opened[i]->Payload_0,
    decreases opened.len(),
{
    if opened.len() > 0 {
        let earlier = opened.drop_last();
        assert forall|i: int| 0 <= i < earlier.len() implies (#[trigger] earlier[i]) is Payload by {
            assert(earlier[i] == opened[i]);
        }
        lemma_all_opened(earlier);
        assert(opened[opened.len() - 1] is Payload);
    }
}

/// Fragments that all opened, for a topic that no source has, are planned to be rejected with that
/// as the only error.
pub proof fn law_opened_fragments_without_source_are_rejected(
    opened: Vec<Opened>,
    topic: &str,
    sources: &Registry<String>,
    plan: AggregatePlan,
)
    requires
        call_ensures(plan_aggregate, (opened, topic, sources), plan),
        forall|i: int| 0 <= i < opened@.len() ==> (#[trigger] opened@[i]) is Payload,
        forall|source: Seq<char>| #[trigger]
            sources@.contains_key(source) ==> !same_ignoring_case(sources@[source]@, topic@),
    ensures
        plan matches AggregatePlan::Reject { errors } && {
            &&& errors@.len() == 1
            &&& errors@[0].failed_field@ == "topic"@
            &&& errors@[0].rule_name@ == "source_lookup"@
            &&& errors@[0].error_message@ == "No mapping source found for topic"@
        },
{
    lemma_all_opened(opened@);
    if let AggregatePlan::Reject { errors } = plan {
        assert(complaints_in(errors@).len() == errors@.len());
        assert(complaints_in(errors@)[0] == errors@[0]@);
    }
}

/// Fragments of which one did not open are planned to be rejected. The errors are those of the
/// fragments that did not open, whose places are given back: one for each, in their order, and none
/// for any other.
pub proof fn law_errors_are_those_of_the_unopened_fragments(
    opened: Vec<Opened>,
    topic: &str,
    sources: &Registry<String>,
    unopened: int,
    plan: AggregatePlan,
) -> (places: Seq<int>)
    requires
        call_ensures(plan_aggregate, (opened, topic, sources), plan),
        0 <= unopened < opened@.len(),
        !(opened@[unopened] is Payload),
    ensures
        forall|j: int, k: int|
            0 <= j < k < places.len() ==> #[trigger] places[j] < #[trigger] places[k],
        forall|i: int|
            #![trigger opened@[i]]
            0 <= i < opened@.len() ==> (places.contains(i) <==> !(opened@[i] is Payload)),
        forall|k: int| 0 <= k < places.len() ==> 0 <= #[trigger] places[k] < opened@.len(),
        plan matches AggregatePlan::Reject { errors } && {
            &&& errors@.len() == places.len()
            &&& forall|k: int|
                #![trigger errors@[k]]
                0 <= k < errors@.len() ==> {
                    &&& errors@[k].failed_field@ == "payload"@
                    &&& match opened@[places[k]] {
                        Opened::NotDecrypted(error) => {
                            &&& errors@[k].rule_name@ == "decryption"@
                            &&& errors@[k].error_message@ == "Failed to decrypt envelope: "@
                                + error@
                        },
                        Opened::NotJson(error) => {
                            &&& errors@[k].rule_name@ == "json_parse"@
                            &&& errors@[k].error_message@ == error@
                        },
                        Opened::Payload(_) => false,
                    }
                }
        },
{
    let places = lemma_places_of_unopened(opened@);
    assert(places.contains(unopened));
    if let AggregatePlan::Reject { errors } = plan {
        assert(complaints_in(errors@).len() == errors@.len());
        assert forall|k: int|
            #![trigger errors@[k]]
            0 <= k < errors@.len() implies complaints_of(opened@)[k] == errors@[k]@ by {
            assert(complaints_in(errors@)[k] == errors@[k]@);
        }
    }
    places
}

proof fn lemma_places_of_unopened(opened: Seq<Opened>) -> (places: Seq<int>)
    ensures
        forall|j: int, k: int|
            0 <= j < k < places.len() ==> #[trigger] places[j] < #[trigger] places[k],
        forall|k: int| 0 <= k < places.len() ==> 0 <= #[trigger] places[k] < opened.len(),
        forall|i: int|
            #![trigger opened[i]]
            0 <= i < opened.len() ==> (places.contains(i) <==> complaint_of(opened[i]) is Some),
        complaints_of(opened).len() == places.len(),
        forall|k: int|
            #![trigger complaints_of(opened)[k]]
            #![trigger places[k]]
            0 <= k < places.len() ==> complaint_of(opened[places[k]]) == Some(
                complaints_of(opened)[k],
            ),
    decreases opened.len(),
{
    if opened.len() == 0 {
        Seq::empty()
    } else {
        let earlier = opened.drop_last();
        let before = lemma_places_of_unopened(earlier);
        let last = opened.len() - 1;
        let places = if complaint_of(opened.last()) is Some {
            before.push(last)
        } else {
            before
        };
        assert forall|i: int|
            #![trigger opened[i]]
            0 <= i < opened.len() implies (places.contains(i) <==> complaint_of(
            opened[i],
        ) is Some) by {
            if i < last {
                assert(earlier[i] == opened[i]);
                if before.contains(i) {
                    let k = choose|k: int| 0 <= k < before.len() && before[k] == i;
                    assert(places[k] == i);
                }
                if places.contains(i) {
                    let k = choose|k: int| 0 <= k < places.len() && places[k] == i;
                    assert(before[k] == i);
                }
            } else if complaint_of(opened.last()) is Some {
                assert(places[before.len() as int] == i);
            }
        }
        assert forall|k: int|
            #![trigger complaints_of(opened)[k]]
            #![trigger places[k]]
            0 <= k < places.len() implies complaint_of(opened[places[k]]) == Some(
            complaints_of(opened)[k],
        ) by {
            if k < before.len() {
                assert(before[k] < earlier.len());
                assert(earlier[before[k]] == opened[before[k]]);
                assert(complaints_of(earlier)[k] == complaints_of(opened)[k]);
            }
        }
        places
    }
}

/// The errors of the pipeline are kept, each with its field, its rule and its message, in their
/// order.
pub proof fn law_pipeline_errors_are_kept(
    error: PipelineError,
    converted: TransformationError,
    errors: Vec<PipelineError>,
    list: Vec<TransformationError>,
)
    requires
        call_ensures(convert_pipeline_error, (error,), converted),
        call_ensures(convert_pipeline_errors, (errors,), list),
    ensures
        converted.failed_field@ == error.failed_field@,
        converted.rule_name@ == error.rule_name@,
        converted.error_message@ == error.error_message@,
        list@.len() == errors@.len(),
        forall|i: int|
            #![trigger list@[i]]
            0 <= i < list@.len() ==> {
                &&& list@[i].failed_field@ == errors@[i].failed_field@
                &&& list@[i].rule_name@ == errors@[i].rule_name@
                &&& list@[i].error_message@ == errors@[i].error_message@
            },
{
    let said = errors@.map_values(|error: PipelineError| error@);
    assert(complaints_in(list@) == said);
    assert(complaints_in(list@).len() == list@.len());
    assert(said.len() == errors@.len());
    assert forall|i: int| #![trigger list@[i]] 0 <= i < list@.len() implies list@[i]@
        == errors@[i]@ by {
        assert(complaints_in(list@)[i] == list@[i]@);
        assert(said[i] == errors@[i]@);
    }
}

} // verus!
