//! A table of values by their ids.
use vstd::hash_map::StringHashMap;
use vstd::prelude::*;

verus! {

/// What the entries say, where a later entry of the same id overrules an earlier one.
pub open spec fn table_of<V>(entries: Seq<(String, V)>) -> Map<Seq<char>, V>
    decreases entries.len(),
{
    if entries.len() == 0 {
        Map::empty()
    } else {
        table_of(entries.drop_last()).insert(entries.last().0@, entries.last().1)
    }
}

/// Whether no id occurs twice.
pub open spec fn ids_differ<V>(entries: Seq<(String, V)>) -> bool {
    forall|i: int, j: int|
        0 <= i < j < entries.len() ==> #[trigger] entries[i].0@ != #[trigger] entries[j].0@
}

/// Whether the places are those of the entries, by their ids; then no id occurs twice.
spec fn are_places<V>(entries: Seq<(String, V)>, places: Map<Seq<char>, usize>) -> bool {
    &&& forall|i: int|
        0 <= i < entries.len() ==> {
            &&& places.contains_key((#[trigger] entries[i]).0@)
            &&& places[entries[i].0@] == i
        }
    &&& forall|id: Seq<char>| #[trigger]
        places.contains_key(id) ==> places[id] < entries.len() && entries[places[id] as int].0@ == id
}

/// Values by their ids, one for each id.
pub struct Registry<V> {
    entries: Vec<(String, V)>,
    places: StringHashMap<usize>,
}

impl<V> View for Registry<V> {
    type V = Map<Seq<char>, V>;

    closed spec fn view(&self) -> Map<Seq<char>, V> {
        table_of(self.entries@)
    }
}

impl<V> Registry<V> {
    #[verifier::type_invariant]
    spec fn holds(self) -> bool {
        are_places(self.entries@, self.places@)
    }

    pub fn new() -> (registry: Self)
        ensures
            registry@ == Map::<Seq<char>, V>::empty(),
    {
        Registry { entries: Vec::new(), places: StringHashMap::new() }
    }

    /// How many ids have a value.
    pub fn len(&self) -> (count: usize)
        ensures
            count == self@.len(),
    {
        proof {
            use_type_invariant(self);
            lemma_table_size(self.entries@);
        }
        self.entries.len()
    }

    /// The ids with their values, each id once.
    pub fn entries(&self) -> (entries: &Vec<(String, V)>)
        ensures
            ids_differ(entries@),
            table_of(entries@) == self@,
    {
        proof {
            use_type_invariant(self);
        }
        &self.entries
    }

    /// Gives the id its value, in place of the one that it may have had.
    pub fn insert(&mut self, id: String, value: V)
        ensures
            final(self)@ == old(self)@.insert(id@, value),
    {
        proof {
            use_type_invariant(&*self);
        }
        let ghost before = self.entries@;
        let known: Option<usize> = match self.places.get(id.as_str()) {
            Some(i) => Some(*i),
            None => None,
        };
        let mut taken: Registry<V> = Registry::new();
        std::mem::swap(self, &mut taken);
        let mut entries: Vec<(String, V)> = taken.entries;
        let mut places: StringHashMap<usize> = taken.places;
        let ghost entry = (id, value);
        match known {
            Some(i) => {
                entries.set(i, (id, value));
                proof {
                    assert(entries@ == before.update(i as int, entry));
                    lemma_overruled(before, i as int, entry);
                }
            },
            None => {
                places.insert(id.clone(), entries.len());
                entries.push((id, value));
                assert(entries@.drop_last() =~= before);
            },
        }
        *self = Registry { entries, places };
    }
}

/// To overrule an entry in its place is to overrule it at the end.
proof fn lemma_overruled<V>(entries: Seq<(String, V)>, place: int, entry: (String, V))
    requires
        ids_differ(entries),
        0 <= place < entries.len(),
        entries[place].0@ == entry.0@,
    ensures
        ids_differ(entries.update(place, entry)),
        table_of(entries.update(place, entry)) == table_of(entries).insert(entry.0@, entry.1),
    decreases entries.len(),
{
    let updated = entries.update(place, entry);
    assert forall|i: int, j: int| 0 <= i < j < updated.len() implies #[trigger] updated[i].0@
        != #[trigger] updated[j].0@ by {
        assert(updated[i].0@ == entries[i].0@);
        assert(updated[j].0@ == entries[j].0@);
    }
    if place == entries.len() - 1 {
        assert(updated.drop_last() =~= entries.drop_last());
        assert(table_of(updated) =~= table_of(entries).insert(entry.0@, entry.1));
    } else {
        assert(updated.drop_last() =~= entries.drop_last().update(place, entry));
        lemma_ids_differ_before_last(entries);
        lemma_overruled(entries.drop_last(), place, entry);
        assert(entries[place].0@ != entries[entries.len() - 1].0@);
        assert(table_of(updated) =~= table_of(entries).insert(entry.0@, entry.1));
    }
}

proof fn lemma_ids_differ_before_last<V>(entries: Seq<(String, V)>)
    requires
        ids_differ(entries),
        entries.len() > 0,
    ensures
        ids_differ(entries.drop_last()),
{
    assert forall|i: int, j: int| 0 <= i < j < entries.drop_last().len() implies (
    #[trigger] entries.drop_last()[i]).0@ != (#[trigger] entries.drop_last()[j]).0@ by {
        assert(entries[i].0@ != entries[j].0@);
    }
}

/// An id has a value in the table where an entry has it, and where no id occurs twice it is that
/// entry's.
pub(crate) proof fn lemma_table_entries<V>(entries: Seq<(String, V)>)
    requires
        ids_differ(entries),
    ensures
        forall|i: int|
            0 <= i < entries.len() ==> {
                &&& table_of(entries).contains_key((#[trigger] entries[i]).0@)
                &&& table_of(entries)[entries[i].0@] == entries[i].1
            },
        forall|id: Seq<char>| #[trigger]
            table_of(entries).contains_key(id) ==> exists|i: int|
                0 <= i < entries.len() && (#[trigger] entries[i]).0@ == id,
    decreases entries.len(),
{
    if entries.len() > 0 {
        let earlier = entries.drop_last();
        lemma_ids_differ_before_last(entries);
        lemma_table_entries(earlier);
        let last = entries[entries.len() - 1];
        assert forall|i: int| 0 <= i < entries.len() implies {
            &&& table_of(entries).contains_key((#[trigger] entries[i]).0@)
            &&& table_of(entries)[entries[i].0@] == entries[i].1
        } by {
            if i < earlier.len() {
                assert(earlier[i] == entries[i]);
                assert(entries[i].0@ != last.0@);
            }
        }
        assert forall|id: Seq<char>| #[trigger] table_of(entries).contains_key(id) implies exists|
            i: int,
        |
            0 <= i < entries.len() && (#[trigger] entries[i]).0@ == id by {
            if id == last.0@ {
                assert(entries[entries.len() - 1].0@ == id);
            } else {
                assert(table_of(earlier).contains_key(id));
                let i = choose|i: int| 0 <= i < earlier.len() && (#[trigger] earlier[i]).0@ == id;
                assert(entries[i].0@ == id);
            }
        }
    }
}

proof fn lemma_table_size<V>(entries: Seq<(String, V)>)
    requires
        ids_differ(entries),
    ensures
        table_of(entries).dom().finite(),
        table_of(entries).len() == entries.len(),
    decreases entries.len(),
{
    if entries.len() > 0 {
        let earlier = entries.drop_last();
        lemma_ids_differ_before_last(entries);
        lemma_table_size(earlier);
        lemma_table_entries(earlier);
        if table_of(earlier).contains_key(entries.last().0@) {
            let i = choose|i: int|
                0 <= i < earlier.len() && (#[trigger] earlier[i]).0@ == entries.last().0@;
            assert(entries[i].0@ != entries[entries.len() - 1].0@);
        }
    }
}

/// A new registry has no ids.
pub proof fn law_new_registry_is_empty<V>(registry: Registry<V>)
    requires
        call_ensures(Registry::<V>::new, (), registry),
    ensures
        forall|id: Seq<char>| !#[trigger] registry@.contains_key(id),
{
}

/// An id that is given a value has that value, whatever it had before; the other ids are left as
/// they are.
pub proof fn law_given_value_is_found<V>(
    registry: &mut Registry<V>,
    id: String,
    value: V,
    other: Seq<char>,
)
    requires
        call_ensures(Registry::<V>::insert, (registry, id, value), ()),
        other != id@,
    ensures
        final(registry)@.contains_key(id@),
        final(registry)@[id@] == value,
        final(registry)@.contains_key(other) <==> old(registry)@.contains_key(other),
        old(registry)@.contains_key(other) ==> final(registry)@[other] == old(registry)@[other],
{
}

/// The entries of a registry are its ids with their values, each id once, and as many as it has.
pub proof fn law_entries_are_the_ids_with_their_values<V>(
    registry: &Registry<V>,
    entries: &Vec<(String, V)>,
    count: usize,
)
    requires
        call_ensures(Registry::<V>::entries, (registry,), entries),
        call_ensures(Registry::<V>::len, (registry,), count),
    ensures
        count == entries@.len(),
        forall|i: int, j: int|
            0 <= i < j < entries@.len() ==> #[trigger] entries@[i].0@ != #[trigger] entries@[j].0@,
        forall|i: int|
            0 <= i < entries@.len() ==> {
                &&& registry@.contains_key((#[trigger] entries@[i]).0@)
                &&& registry@[entries@[i].0@] == entries@[i].1
            },
        forall|id: Seq<char>| #[trigger]
            registry@.contains_key(id) ==> exists|i: int|
                0 <= i < entries@.len() && (#[trigger] entries@[i]).0@ == id,
{
    lemma_table_entries(entries@);
    lemma_table_size(entries@);
}

} // verus!
