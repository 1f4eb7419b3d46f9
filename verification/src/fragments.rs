//! Raw fragments as they are claimed, and the aggregates that they make up.
use vstd::hash_map::StringHashMap;
use vstd::multiset::Multiset;
use vstd::prelude::*;

verus! {

/// One encrypted record of a source system.
pub struct RawFragment {
    pub id: String,
    pub payload: Vec<u8>,
    pub nonce: Vec<u8>,
    pub wrapped_key: Vec<u8>,
}

/// The records that belong together, one or more of each source system.
pub struct AggregatedFragment {
    pub correlation_id: String,
    pub topic: String,
    pub fragments: Vec<RawFragment>,
}

/// A claimed record with what it belongs to.
pub struct ClaimedRow {
    pub correlation_id: String,
    pub topic: String,
    pub fragment: RawFragment,
}

/// The records of the rows with that correlation id, in the order of the rows.
pub open spec fn fragments_with(rows: Seq<ClaimedRow>, id: Seq<char>) -> Seq<RawFragment>
    decreases rows.len(),
{
    if rows.len() == 0 {
        Seq::empty()
    } else if rows.last().correlation_id@ == id {
        fragments_with(rows.drop_last(), id).push(rows.last().fragment)
    } else {
        fragments_with(rows.drop_last(), id)
    }
}

/// The topic of the first row with that correlation id.
pub open spec fn topic_with(rows: Seq<ClaimedRow>, id: Seq<char>) -> Option<Seq<char>>
    decreases rows.len(),
{
    if rows.len() == 0 {
        None
    } else {
        match topic_with(rows.drop_last(), id) {
            Some(topic) => Some(topic),
            None => if rows.last().correlation_id@ == id {
                Some(rows.last().topic@)
            } else {
                None
            },
        }
    }
}

/// Whether one of the aggregates has that correlation id.
pub open spec fn has_aggregate(aggregates: Seq<AggregatedFragment>, id: Seq<char>) -> bool {
    exists|i: int| 0 <= i < aggregates.len() && #[trigger] aggregates[i].correlation_id@ == id
}

/// Whether the aggregates are the rows, put together by correlation id: one aggregate for each id
/// that occurs, with all the records of that id in their order and the topic of the first.
pub open spec fn is_grouping(rows: Seq<ClaimedRow>, aggregates: Seq<AggregatedFragment>) -> bool {
    &&& forall|i: int, j: int|
        0 <= i < j < aggregates.len() ==> #[trigger] aggregates[i].correlation_id@
            != #[trigger] aggregates[j].correlation_id@
    &&& forall|i: int|
        0 <= i < aggregates.len() ==> {
            let id = (#[trigger] aggregates[i]).correlation_id@;
            &&& aggregates[i].fragments@ == fragments_with(rows, id)
            &&& topic_with(rows, id) == Some(aggregates[i].topic@)
        }
    &&& forall|k: int|
        0 <= k < rows.len() ==> has_aggregate(aggregates, (#[trigger] rows[k]).correlation_id@)
}

/// Whether the places are those of the aggregates, by their correlation ids.
spec fn are_places(aggregates: Seq<AggregatedFragment>, places: Map<Seq<char>, usize>) -> bool {
    &&& forall|i: int|
        0 <= i < aggregates.len() ==> {
            &&& places.contains_key((#[trigger] aggregates[i]).correlation_id@)
            &&& places[aggregates[i].correlation_id@] == i
        }
    &&& forall|id: Seq<char>| #[trigger]
        places.contains_key(id) ==> places[id] < aggregates.len() && aggregates[places[id] as int].correlation_id@
            == id
}

/// A row's id is unknown where no aggregate has it.
proof fn lemma_unknown_id(rows: Seq<ClaimedRow>, aggregates: Seq<AggregatedFragment>, id: Seq<char>)
    requires
        forall|k: int|
            0 <= k < rows.len() ==> has_aggregate(aggregates, (#[trigger] rows[k]).correlation_id@),
        !has_aggregate(aggregates, id),
    ensures
        fragments_with(rows, id) == Seq::<RawFragment>::empty(),
        topic_with(rows, id) is None,
    decreases rows.len(),
{
    if rows.len() > 0 {
        assert(rows[rows.len() - 1].correlation_id@ != id);
        assert forall|k: int| 0 <= k < rows.drop_last().len() implies has_aggregate(
            aggregates,
            (#[trigger] rows.drop_last()[k]).correlation_id@,
        ) by {
            assert(rows.drop_last()[k] == rows[k]);
        }
        lemma_unknown_id(rows.drop_last(), aggregates, id);
    }
}

/// Puts the claimed rows together by correlation id. Nothing is said of the order of the
/// aggregates.
pub fn group_fragments(rows: Vec<ClaimedRow>) -> (aggregates: Vec<AggregatedFragment>)
    ensures
        is_grouping(rows@, aggregates@),
{
    let ghost all = rows@;
    let mut aggregates: Vec<AggregatedFragment> = Vec::new();
    let mut places: StringHashMap<usize> = StringHashMap::new();
    for row in it: rows
        invariant
            it.seq() == all,
            is_grouping(all.take(it.index() as int), aggregates@),
            are_places(aggregates@, places@),
    {
        let ghost seen = all.take(it.index() as int);
        let ghost longer = all.take(it.index() as int + 1);
        let ghost before = aggregates@;
        let ghost added = row;
        proof {
            assert(longer.drop_last() =~= seen);
            assert(longer.last() == row);
        }
        let known: Option<usize> = match places.get(row.correlation_id.as_str()) {
            Some(i) => Some(*i),
            None => None,
        };
        match known {
            Some(i) => {
                aggregates[i].fragments.push(row.fragment);
                assert(aggregates@[i as int].fragments@ == before[i as int].fragments@.push(
                    added.fragment,
                ));
                assert(aggregates@[i as int].correlation_id@ == added.correlation_id@);
                assert(has_aggregate(aggregates@, added.correlation_id@));
            },
            None => {
                proof {
                    lemma_unknown_id(seen, before, row.correlation_id@);
                }
                places.insert(row.correlation_id.clone(), aggregates.len());
                let mut fragments: Vec<RawFragment> = Vec::new();
                fragments.push(row.fragment);
                aggregates.push(
                    AggregatedFragment {
                        correlation_id: row.correlation_id,
                        topic: row.topic,
                        fragments,
                    },
                );
                assert(aggregates@[before.len() as int].correlation_id@ == added.correlation_id@);
                assert(has_aggregate(aggregates@, added.correlation_id@));
            },
        }
        proof {
            assert forall|k: int| 0 <= k < longer.len() implies has_aggregate(
                aggregates@,
                (#[trigger] longer[k]).correlation_id@,
            ) by {
                if k < seen.len() {
                    assert(longer[k] == seen[k]);
                    let j = choose|j: int|
                        0 <= j < before.len() && (#[trigger] before[j]).correlation_id@
                            == seen[k].correlation_id@;
                    assert(aggregates@[j].correlation_id@ == before[j].correlation_id@);
                }
            }
            assert forall|i: int| 0 <= i < aggregates@.len() implies {
                let id = (#[trigger] aggregates@[i]).correlation_id@;
                &&& aggregates@[i].fragments@ == fragments_with(longer, id)
                &&& topic_with(longer, id) == Some(aggregates@[i].topic@)
            } by {
                if i < before.len() {
                    assert(before[i].correlation_id@ == aggregates@[i].correlation_id@);
                }
            }
        }
    }
    assert(all.take(all.len() as int) =~= all);
    aggregates
}

/// How many records the aggregates hold together.
pub open spec fn records_in(aggregates: Seq<AggregatedFragment>) -> nat
    decreases aggregates.len(),
{
    if aggregates.len() == 0 {
        0
    } else {
        records_in(aggregates.drop_last()) + aggregates.last().fragments@.len()
    }
}

/// Every aggregate of claimed rows holds a record.
pub proof fn law_no_aggregate_is_empty(rows: Seq<ClaimedRow>, aggregates: Seq<AggregatedFragment>)
    requires
        is_grouping(rows, aggregates),
    ensures
        forall|i: int|
            0 <= i < aggregates.len() ==> (#[trigger] aggregates[i]).fragments@.len() >= 1,
{
    assert forall|i: int| 0 <= i < aggregates.len() implies (
    #[trigger] aggregates[i]).fragments@.len() >= 1 by {
        lemma_topic_means_record(rows, aggregates[i].correlation_id@);
    }
}

proof fn lemma_topic_means_record(rows: Seq<ClaimedRow>, id: Seq<char>)
    ensures
        topic_with(rows, id) is Some ==> fragments_with(rows, id).len() >= 1,
    decreases rows.len(),
{
    if rows.len() > 0 {
        lemma_topic_means_record(rows.drop_last(), id);
    }
}

/// No claimed record is lost and none is taken twice: the aggregates hold as many records as there
/// are rows.
pub proof fn law_every_record_has_its_place(
    rows: Seq<ClaimedRow>,
    aggregates: Seq<AggregatedFragment>,
)
    requires
        is_grouping(rows, aggregates),
    ensures
        records_in(aggregates) == rows.len(),
{
    lemma_records_by_id(rows, aggregates, aggregates.len() as int);
    assert(aggregates.take(aggregates.len() as int) =~= aggregates);
    lemma_matching_rows(rows, aggregates);
}

/// How many rows have the correlation ids of the first `count` aggregates.
spec fn rows_of(rows: Seq<ClaimedRow>, aggregates: Seq<AggregatedFragment>, count: int) -> nat
    decreases count,
{
    if count <= 0 {
        0
    } else {
        rows_of(rows, aggregates, count - 1) + fragments_with(
            rows,
            aggregates[count - 1].correlation_id@,
        ).len()
    }
}

proof fn lemma_records_by_id(
    rows: Seq<ClaimedRow>,
    aggregates: Seq<AggregatedFragment>,
    count: int,
)
    requires
        is_grouping(rows, aggregates),
        0 <= count <= aggregates.len(),
    ensures
        records_in(aggregates.take(count)) == rows_of(rows, aggregates, count),
    decreases count,
{
    if count > 0 {
        lemma_records_by_id(rows, aggregates, count - 1);
        assert(aggregates.take(count).drop_last() =~= aggregates.take(count - 1));
        assert(aggregates.take(count).last() == aggregates[count - 1]);
    }
}

/// Every row has the correlation id of exactly one of the aggregates.
proof fn lemma_matching_rows(rows: Seq<ClaimedRow>, aggregates: Seq<AggregatedFragment>)
    requires
        forall|i: int, j: int|
            0 <= i < j < aggregates.len() ==> #[trigger] aggregates[i].correlation_id@
                != #[trigger] aggregates[j].correlation_id@,
        forall|k: int|
            0 <= k < rows.len() ==> has_aggregate(aggregates, (#[trigger] rows[k]).correlation_id@),
    ensures
        rows_of(rows, aggregates, aggregates.len() as int) == rows.len(),
    decreases rows.len(),
{
    if rows.len() == 0 {
        lemma_no_rows(rows, aggregates, aggregates.len() as int);
    } else {
        let fewer = rows.drop_last();
        assert forall|k: int| 0 <= k < fewer.len() implies has_aggregate(
            aggregates,
            (#[trigger] fewer[k]).correlation_id@,
        ) by {
            assert(fewer[k] == rows[k]);
        }
        lemma_matching_rows(fewer, aggregates);
        let id = rows[rows.len() - 1].correlation_id@;
        let place = choose|i: int|
            0 <= i < aggregates.len() && #[trigger] aggregates[i].correlation_id@ == id;
        lemma_one_row_more(rows, aggregates, place, aggregates.len() as int);
    }
}

proof fn lemma_no_rows(rows: Seq<ClaimedRow>, aggregates: Seq<AggregatedFragment>, count: int)
    requires
        rows.len() == 0,
    ensures
        rows_of(rows, aggregates, count) == 0,
    decreases count,
{
    if count > 0 {
        lemma_no_rows(rows, aggregates, count - 1);
    }
}

proof fn lemma_one_row_more(
    rows: Seq<ClaimedRow>,
    aggregates: Seq<AggregatedFragment>,
    place: int,
    count: int,
)
    requires
        rows.len() > 0,
        0 <= place < aggregates.len(),
        aggregates[place].correlation_id@ == rows.last().correlation_id@,
        0 <= count <= aggregates.len(),
        forall|i: int, j: int|
            0 <= i < j < aggregates.len() ==> #[trigger] aggregates[i].correlation_id@
                != #[trigger] aggregates[j].correlation_id@,
    ensures
        rows_of(rows, aggregates, count) == rows_of(rows.drop_last(), aggregates, count) + if place
            < count {
            1nat
        } else {
            0
        },
    decreases count,
{
    if count > 0 {
        lemma_one_row_more(rows, aggregates, place, count - 1);
        if count - 1 != place {
            assert(aggregates[count - 1].correlation_id@ != aggregates[place].correlation_id@);
        }
    }
}

/// The fragments of an aggregate are those of the rows with its correlation id, whole and in the
/// order of the rows, whose places are given back; its topic is that of the first of them.
pub proof fn law_aggregate_is_made_of_its_rows(
    rows: Vec<ClaimedRow>,
    aggregates: Vec<AggregatedFragment>,
    which: int,
) -> (places: Seq<int>)
    requires
        call_ensures(group_fragments, (rows,), aggregates),
        0 <= which < aggregates@.len(),
    ensures
        forall|j: int, k: int|
            0 <= j < k < places.len() ==> #[trigger] places[j] < #[trigger] places[k],
        forall|k: int| 0 <= k < places.len() ==> 0 <= #[trigger] places[k] < rows@.len(),
        forall|i: int|
            #![trigger rows@[i]]
            0 <= i < rows@.len() ==> (places.contains(i) <==> rows@[i].correlation_id@
                == aggregates@[which].correlation_id@),
        places.len() >= 1,
        aggregates@[which].topic@ == rows@[places[0]].topic@,
        aggregates@[which].fragments@.len() == places.len(),
        forall|k: int|
            #![trigger aggregates@[which].fragments@[k]]
            0 <= k < places.len() ==> {
                let fragment = aggregates@[which].fragments@[k];
                &&& fragment == rows@[places[k]].fragment
                &&& fragment.id@ == rows@[places[k]].fragment.id@
                &&& fragment.payload@ == rows@[places[k]].fragment.payload@
                &&& fragment.nonce@ == rows@[places[k]].fragment.nonce@
                &&& fragment.wrapped_key@ == rows@[places[k]].fragment.wrapped_key@
            },
{
    lemma_places_with(rows@, aggregates@[which].correlation_id@)
}

proof fn lemma_places_with(rows: Seq<ClaimedRow>, id: Seq<char>) -> (places: Seq<int>)
    ensures
        forall|j: int, k: int|
            0 <= j < k < places.len() ==> #[trigger] places[j] < #[trigger] places[k],
        forall|k: int| 0 <= k < places.len() ==> 0 <= #[trigger] places[k] < rows.len(),
        forall|i: int|
            #![trigger rows[i]]
            0 <= i < rows.len() ==> (places.contains(i) <==> rows[i].correlation_id@ == id),
        fragments_with(rows, id).len() == places.len(),
        forall|k: int|
            #![trigger fragments_with(rows, id)[k]]
            #![trigger places[k]]
            0 <= k < places.len() ==> fragments_with(rows, id)[k] == rows[places[k]].fragment,
        topic_with(rows, id) == if places.len() > 0 {
            Some(rows[places[0]].topic@)
        } else {
            None
        },
    decreases rows.len(),
{
    if rows.len() == 0 {
        Seq::empty()
    } else {
        let earlier = rows.drop_last();
        let before = lemma_places_with(earlier, id);
        let last = rows.len() - 1;
        let places = if rows.last().correlation_id@ == id {
            before.push(last)
        } else {
            before
        };
        assert forall|i: int|
            #![trigger rows[i]]
            0 <= i < rows.len() implies (places.contains(i) <==> rows[i].correlation_id@ == id) by {
            if i < last {
                assert(earlier[i] == rows[i]);
                if before.contains(i) {
                    let k = choose|k: int| 0 <= k < before.len() && before[k] == i;
                    assert(places[k] == i);
                }
                if places.contains(i) {
                    let k = choose|k: int| 0 <= k < places.len() && places[k] == i;
                    assert(before[k] == i);
                }
            } else if rows.last().correlation_id@ == id {
                assert(places[before.len() as int] == i);
            }
        }
        assert forall|k: int|
            #![trigger fragments_with(rows, id)[k]]
            #![trigger places[k]]
            0 <= k < places.len() implies fragments_with(rows, id)[k]
            == rows[places[k]].fragment by {
            if k < before.len() {
                assert(before[k] < earlier.len());
                assert(earlier[before[k]] == rows[before[k]]);
                assert(fragments_with(earlier, id)[k] == fragments_with(rows, id)[k]);
            }
        }
        if before.len() > 0 {
            assert(before[0] < earlier.len());
            assert(earlier[before[0]] == rows[before[0]]);
        }
        places
    }
}

/// Every row has an aggregate of its correlation id, and only one.
pub proof fn law_row_has_one_aggregate(
    rows: Vec<ClaimedRow>,
    aggregates: Vec<AggregatedFragment>,
    row: int,
) -> (which: int)
    requires
        call_ensures(group_fragments, (rows,), aggregates),
        0 <= row < rows@.len(),
    ensures
        0 <= which < aggregates@.len(),
        forall|i: int|
            0 <= i < aggregates@.len() ==> ((#[trigger] aggregates@[i]).correlation_id@
                == rows@[row].correlation_id@ <==> i == which),
{
    assert(has_aggregate(aggregates@, rows@[row].correlation_id@));
    choose|i: int|
        0 <= i < aggregates@.len() && #[trigger] aggregates@[i].correlation_id@
            == rows@[row].correlation_id@
}

/// The fragments that the aggregates hold together.
pub open spec fn fragments_held(aggregates: Seq<AggregatedFragment>) -> Multiset<RawFragment>
    decreases aggregates.len(),
{
    if aggregates.len() == 0 {
        Multiset::empty()
    } else {
        fragments_held(aggregates.drop_last()).add(aggregates.last().fragments@.to_multiset())
    }
}

/// No claimed record is lost, changed or taken twice: the aggregates hold together the fragments of
/// the rows, each as often as it occurs there.
pub proof fn law_aggregates_hold_the_fragments_of_the_rows(
    rows: Vec<ClaimedRow>,
    aggregates: Vec<AggregatedFragment>,
)
    requires
        call_ensures(group_fragments, (rows,), aggregates),
    ensures
        fragments_held(aggregates@) == rows@.map_values(
            |row: ClaimedRow| row.fragment,
        ).to_multiset(),
{
    lemma_held_by_id(rows@, aggregates@, aggregates@.len() as int);
    assert(aggregates@.take(aggregates@.len() as int) =~= aggregates@);
    lemma_matching_fragments(rows@, aggregates@);
}

/// The fragments of the rows with the correlation ids of the first `count` aggregates.
spec fn fragments_by_id(
    rows: Seq<ClaimedRow>,
    aggregates: Seq<AggregatedFragment>,
    count: int,
) -> Multiset<RawFragment>
    decreases count,
{
    if count <= 0 {
        Multiset::empty()
    } else {
        fragments_by_id(rows, aggregates, count - 1).add(
            fragments_with(rows, aggregates[count - 1].correlation_id@).to_multiset(),
        )
    }
}

proof fn lemma_held_by_id(
    rows: Seq<ClaimedRow>,
    aggregates: Seq<AggregatedFragment>,
    count: int,
)
    requires
        is_grouping(rows, aggregates),
        0 <= count <= aggregates.len(),
    ensures
        fragments_held(aggregates.take(count)) == fragments_by_id(rows, aggregates, count),
    decreases count,
{
    if count > 0 {
        lemma_held_by_id(rows, aggregates, count - 1);
        assert(aggregates.take(count).drop_last() =~= aggregates.take(count - 1));
        assert(aggregates.take(count).last() == aggregates[count - 1]);
    }
}

proof fn lemma_matching_fragments(rows: Seq<ClaimedRow>, aggregates: Seq<AggregatedFragment>)
    requires
        forall|i: int, j: int|
            0 <= i < j < aggregates.len() ==> #[trigger] aggregates[i].correlation_id@
                != #[trigger] aggregates[j].correlation_id@,
        forall|k: int|
            0 <= k < rows.len() ==> has_aggregate(aggregates, (#[trigger] rows[k]).correlation_id@),
    ensures
        fragments_by_id(rows, aggregates, aggregates.len() as int) == rows.map_values(
            |row: ClaimedRow| row.fragment,
        ).to_multiset(),
    decreases rows.len(),
{
    broadcast use vstd::seq_lib::group_to_multiset_ensures;

    let fragments = rows.map_values(|row: ClaimedRow| row.fragment);
    if rows.len() == 0 {
        lemma_no_fragments(rows, aggregates, aggregates.len() as int);
        assert(fragments =~= Seq::<RawFragment>::empty());
        assert(fragments.to_multiset() =~= Multiset::empty());
    } else {
        let fewer = rows.drop_last();
        assert forall|k: int| 0 <= k < fewer.len() implies has_aggregate(
            aggregates,
            (#[trigger] fewer[k]).correlation_id@,
        ) by {
            assert(fewer[k] == rows[k]);
        }
        lemma_matching_fragments(fewer, aggregates);
        let id = rows[rows.len() - 1].correlation_id@;
        let place = choose|i: int|
            0 <= i < aggregates.len() && #[trigger] aggregates[i].correlation_id@ == id;
        lemma_one_fragment_more(rows, aggregates, place, aggregates.len() as int);
        assert(fragments =~= fewer.map_values(|row: ClaimedRow| row.fragment).push(
            rows.last().fragment,
        ));
    }
}

proof fn lemma_no_fragments(rows: Seq<ClaimedRow>, aggregates: Seq<AggregatedFragment>, count: int)
    requires
        rows.len() == 0,
    ensures
        fragments_by_id(rows, aggregates, count) == Multiset::<RawFragment>::empty(),
    decreases count,
{
    broadcast use vstd::seq_lib::group_to_multiset_ensures;

    if count > 0 {
        lemma_no_fragments(rows, aggregates, count - 1);
        assert(Seq::<RawFragment>::empty().to_multiset() =~= Multiset::empty());
        assert(fragments_by_id(rows, aggregates, count) =~= Multiset::empty());
    }
}

proof fn lemma_one_fragment_more(
    rows: Seq<ClaimedRow>,
    aggregates: Seq<AggregatedFragment>,
    place: int,
    count: int,
)
    requires
        rows.len() > 0,
        0 <= place < aggregates.len(),
        aggregates[place].correlation_id@ == rows.last().correlation_id@,
        0 <= count <= aggregates.len(),
        forall|i: int, j: int|
            0 <= i < j < aggregates.len() ==> #[trigger] aggregates[i].correlation_id@
                != #[trigger] aggregates[j].correlation_id@,
    ensures
        fragments_by_id(rows, aggregates, count) == if place < count {
            fragments_by_id(rows.drop_last(), aggregates, count).insert(rows.last().fragment)
        } else {
            fragments_by_id(rows.drop_last(), aggregates, count)
        },
    decreases count,
{
    broadcast use vstd::seq_lib::group_to_multiset_ensures;

    if count > 0 {
        lemma_one_fragment_more(rows, aggregates, place, count - 1);
        let id = aggregates[count - 1].correlation_id@;
        if count - 1 != place {
            assert(id != aggregates[place].correlation_id@);
        } else {
            assert(fragments_with(rows, id) == fragments_with(rows.drop_last(), id).push(
                rows.last().fragment,
            ));
        }
        if place < count {
            assert(fragments_by_id(rows, aggregates, count) =~= fragments_by_id(
                rows.drop_last(),
                aggregates,
                count,
            ).insert(rows.last().fragment));
        }
    }
}

} // verus!
