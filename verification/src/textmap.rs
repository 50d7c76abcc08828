//! A map from texts, in which no text occurs twice and the texts are in order.
use crate::text;
use vstd::prelude::*;

verus! {

/// A map from texts to values: the value of a text is that of its entry. Its entries are in the
/// order of their texts, so that maps with the same content are equal.
#[derive(Debug, PartialEq, Eq)]
pub struct TextMap<V> {
    entries: Vec<(String, V)>,
}

/// A value that can be copied, content and all.
pub trait Duplicate: DeepView + Sized {
    /// A value with the same content.
    fn duplicate(&self) -> (copy: Self)
        ensures
            copy.deep_view() == self.deep_view(),
    ;
}

/// The map that a row of entries stands for.
pub open spec fn map_of<T>(entries: Seq<(Seq<char>, T)>) -> Map<Seq<char>, T>
    decreases entries.len(),
{
    if entries.len() == 0 {
        Map::empty()
    } else {
        map_of(entries.drop_last()).insert(entries.last().0, entries.last().1)
    }
}

/// Whether no text has two entries.
pub open spec fn distinct<T>(entries: Seq<(Seq<char>, T)>) -> bool {
    forall|i: int, j: int|
        0 <= i < j < entries.len() ==> (#[trigger] entries[i]).0 != (#[trigger] entries[j]).0
}

impl<V: DeepView> DeepView for TextMap<V> {
    type V = Map<Seq<char>, V::V>;

    closed spec fn deep_view(&self) -> Map<Seq<char>, V::V> {
        map_of(self.entries.deep_view())
    }
}

/// Whether the texts of the entries are in order, and so no text has two entries.
pub open spec fn ordered<T>(entries: Seq<(Seq<char>, T)>) -> bool {
    forall|i: int, j: int|
        0 <= i < j < entries.len() ==> text::text_before(
            (#[trigger] entries[i]).0,
            (#[trigger] entries[j]).0,
        )
}

/// Whether the texts of the entries are in order.
pub open spec fn keys_ordered<V>(entries: Seq<(String, V)>) -> bool {
    forall|i: int, j: int|
        0 <= i < j < entries.len() ==> text::text_before(
            (#[trigger] entries[i]).0@,
            (#[trigger] entries[j]).0@,
        )
}

proof fn lemma_ordered_distinct<T>(entries: Seq<(Seq<char>, T)>)
    requires
        ordered(entries),
    ensures
        distinct(entries),
{
    assert forall|i: int, j: int| 0 <= i < j < entries.len() implies (#[trigger] entries[i]).0 != (
    #[trigger] entries[j]).0 by {
        text::lemma_text_total(entries[i].0, entries[j].0);
    }
}

proof fn lemma_keys_ordered<V: DeepView>(entries: Vec<(String, V)>)
    requires
        keys_ordered(entries@),
    ensures
        ordered(entries.deep_view()),
        distinct(entries.deep_view()),
{
    let all = entries.deep_view();
    assert forall|i: int, j: int| 0 <= i < j < all.len() implies text::text_before(
        (#[trigger] all[i]).0,
        (#[trigger] all[j]).0,
    ) by {
        assert(text::text_before(entries@[i].0@, entries@[j].0@));
    }
    lemma_ordered_distinct(all);
}

impl<V> TextMap<V> {
    #[verifier::type_invariant]
    spec fn well_formed(self) -> bool {
        keys_ordered(self.entries@)
    }
}

proof fn lemma_absent<T>(entries: Seq<(Seq<char>, T)>, key: Seq<char>)
    requires
        forall|i: int| 0 <= i < entries.len() ==> (#[trigger] entries[i]).0 != key,
    ensures
        !map_of(entries).contains_key(key),
    decreases entries.len(),
{
    if entries.len() > 0 {
        let shorter = entries.drop_last();
        assert forall|i: int| 0 <= i < shorter.len() implies (#[trigger] shorter[i]).0 != key by {
            assert(entries[i].0 != key);
        }
        lemma_absent(shorter, key);
        assert(entries[entries.len() - 1].0 != key);
    }
}

proof fn lemma_present<T>(entries: Seq<(Seq<char>, T)>, i: int)
    requires
        0 <= i < entries.len(),
        distinct(entries),
    ensures
        map_of(entries).contains_key(entries[i].0),
        map_of(entries)[entries[i].0] == entries[i].1,
    decreases entries.len(),
{
    let shorter = entries.drop_last();
    if i < shorter.len() {
        assert(distinct(shorter)) by {
            assert forall|a: int, b: int| 0 <= a < b < shorter.len() implies (
            #[trigger] shorter[a]).0 != (#[trigger] shorter[b]).0 by {
                assert(entries[a].0 != entries[b].0);
            }
        }
        lemma_present(shorter, i);
        assert(shorter[i] == entries[i]);
        assert(entries[i].0 != entries[entries.len() - 1].0);
    }
}

proof fn lemma_replaced<T>(entries: Seq<(Seq<char>, T)>, i: int, value: T)
    requires
        0 <= i < entries.len(),
        distinct(entries),
    ensures
        map_of(entries.update(i, (entries[i].0, value))) == map_of(entries).insert(
            entries[i].0,
            value,
        ),
        distinct(entries.update(i, (entries[i].0, value))),
    decreases entries.len(),
{
    let key = entries[i].0;
    let updated = entries.update(i, (key, value));
    assert(distinct(updated)) by {
        assert forall|a: int, b: int| 0 <= a < b < updated.len() implies (#[trigger] updated[a]).0
            != (#[trigger] updated[b]).0 by {
            assert(entries[a].0 != entries[b].0);
        }
    }
    let shorter = entries.drop_last();
    if i < shorter.len() {
        assert(distinct(shorter)) by {
            assert forall|a: int, b: int| 0 <= a < b < shorter.len() implies (
            #[trigger] shorter[a]).0 != (#[trigger] shorter[b]).0 by {
                assert(entries[a].0 != entries[b].0);
            }
        }
        lemma_replaced(shorter, i, value);
        assert(updated.drop_last() =~= shorter.update(i, (key, value)));
        assert(entries[i].0 != entries[entries.len() - 1].0);
        assert(map_of(updated) =~= map_of(entries).insert(key, value));
    } else {
        assert(updated.drop_last() =~= shorter);
        assert(map_of(updated) =~= map_of(entries).insert(key, value));
    }
}

proof fn lemma_inserted<T>(entries: Seq<(Seq<char>, T)>, i: int, key: Seq<char>, value: T)
    requires
        0 <= i <= entries.len(),
        forall|k: int| 0 <= k < entries.len() ==> (#[trigger] entries[k]).0 != key,
    ensures
        map_of(entries.insert(i, (key, value))) == map_of(entries).insert(key, value),
    decreases entries.len(),
{
    let inserted = entries.insert(i, (key, value));
    if i == entries.len() {
        assert(inserted.drop_last() =~= entries);
    } else {
        let shorter = entries.drop_last();
        assert forall|k: int| 0 <= k < shorter.len() implies (#[trigger] shorter[k]).0 != key by {
            assert(entries[k].0 != key);
        }
        lemma_inserted(shorter, i, key, value);
        assert(inserted.drop_last() =~= shorter.insert(i, (key, value)));
        assert(inserted.last() == entries.last());
        assert(entries[entries.len() - 1].0 != key);
        assert(map_of(inserted) =~= map_of(entries).insert(key, value));
    }
}

/// Where the entries of texts before `key` end.
fn find<V>(entries: &Vec<(String, V)>, key: &str) -> (place: usize)
    requires
        keys_ordered(entries@),
    ensures
        place <= entries.len(),
        forall|i: int|
            0 <= i < place ==> text::text_before((#[trigger] entries@[i]).0@, key@)
                && entries@[i].0@ != key@,
        forall|i: int|
            place <= i < entries.len() ==> text::text_before(key@, (#[trigger] entries@[i]).0@)
                || (i == place && entries@[i].0@ == key@),
{
    let mut place: usize = 0;
    while place < entries.len() && text::is_text_before(entries[place].0.as_str(), key)
        invariant
            place <= entries.len(),
            forall|i: int| 0 <= i < place ==> text::text_before((#[trigger] entries@[i]).0@, key@),
        decreases entries.len() - place,
    {
        place += 1;
    }
    proof {
        assert forall|i: int| 0 <= i < place implies text::text_before(
            (#[trigger] entries@[i]).0@,
            key@,
        ) && entries@[i].0@ != key@ by {
            text::lemma_text_total(entries@[i].0@, key@);
        }
        assert forall|i: int| place <= i < entries.len() implies text::text_before(
            key@,
            (#[trigger] entries@[i]).0@,
        ) || (i == place && entries@[i].0@ == key@) by {
            text::lemma_text_total(entries@[place as int].0@, key@);
            if i > place {
                assert(text::text_before(entries@[place as int].0@, entries@[i].0@));
                if entries@[place as int].0@ != key@ {
                    text::lemma_text_transitive(key@, entries@[place as int].0@, entries@[i].0@);
                }
            }
        }
    }
    place
}

impl<V: DeepView> TextMap<V> {
    /// The entries, in the order of their texts.
    pub closed spec fn listed(self) -> Seq<(Seq<char>, V::V)> {
        self.entries.deep_view()
    }

    /// The empty map.
    pub fn new() -> (map: TextMap<V>)
        ensures
            map.listed().len() == 0,
            map.deep_view() == Map::<Seq<char>, V::V>::empty(),
    {
        let entries: Vec<(String, V)> = Vec::new();
        assert(entries.deep_view() =~= Seq::empty());
        TextMap { entries }
    }

    /// How many texts have a value.
    pub fn len(&self) -> (length: usize)
        ensures
            length == self.listed().len(),
            map_of(self.listed()) == self.deep_view(),
            ordered(self.listed()),
    {
        proof {
            use_type_invariant(self);
            lemma_keys_ordered(self.entries);
        }
        self.entries.len()
    }

    /// The text and the value of an entry.
    pub fn entry(&self, i: usize) -> (entry: (&String, &V))
        requires
            i < self.listed().len(),
        ensures
            (entry.0@, entry.1.deep_view()) == self.listed()[i as int],
    {
        (&self.entries[i].0, &self.entries[i].1)
    }

    /// The value of a text, if it has one.
    pub fn get(&self, key: &str) -> (value: Option<&V>)
        ensures
            value is Some <==> self.deep_view().contains_key(key@),
            value matches Some(value) ==> value.deep_view() == self.deep_view()[key@],
    {
        let ghost all = self.entries.deep_view();
        proof {
            use_type_invariant(self);
            lemma_keys_ordered(self.entries);
        }
        let place = find(&self.entries, key);
        if place < self.entries.len() && text::same_text(self.entries[place].0.as_str(), key) {
            proof {
                lemma_present(all, place as int);
                assert(all[place as int].0 == self.entries[place as int].0@);
                assert(all[place as int].1 == self.entries[place as int].1.deep_view());
            }
            return Some(&self.entries[place].1);
        }
        proof {
            assert forall|i: int| 0 <= i < all.len() implies (#[trigger] all[i]).0 != key@ by {
                assert(all[i].0 == self.entries@[i].0@);
                text::lemma_text_total(key@, self.entries@[i].0@);
            }
            lemma_absent(all, key@);
        }
        None
    }

    /// The map with a value for a text, in place of the one that it has had.
    pub fn with(self, key: String, value: V) -> (map: TextMap<V>)
        ensures
            map.deep_view() == self.deep_view().insert(key@, value.deep_view()),
    {
        proof {
            use_type_invariant(&self);
            lemma_keys_ordered(self.entries);
        }
        let mut entries = self.entries;
        let ghost before = entries.deep_view();
        let ghost held = entries@;
        let ghost name = key@;
        let ghost added = value.deep_view();
        let place = find(&entries, key.as_str());
        if place < entries.len() && text::same_text(entries[place].0.as_str(), key.as_str()) {
            proof {
                lemma_replaced(before, place as int, added);
                assert(before[place as int].0 == held[place as int].0@);
            }
            entries.set(place, (key, value));
            assert(entries.deep_view() =~= before.update(place as int, (name, added)));
            assert forall|i: int, j: int| 0 <= i < j < entries@.len() implies text::text_before(
                (#[trigger] entries@[i]).0@,
                (#[trigger] entries@[j]).0@,
            ) by {
                assert(text::text_before(held[i].0@, held[j].0@));
            }
        } else {
            proof {
                assert forall|i: int| 0 <= i < before.len() implies (#[trigger] before[i]).0
                    != name by {
                    assert(before[i].0 == held[i].0@);
                    text::lemma_text_total(name, held[i].0@);
                }
                lemma_inserted(before, place as int, name, added);
            }
            entries.insert(place, (key, value));
            assert(entries.deep_view() =~= before.insert(place as int, (name, added)));
            assert forall|i: int, j: int| 0 <= i < j < entries@.len() implies text::text_before(
                (#[trigger] entries@[i]).0@,
                (#[trigger] entries@[j]).0@,
            ) by {
                let a = if i < place {
                    i
                } else {
                    i - 1
                };
                let b = if j < place {
                    j
                } else {
                    j - 1
                };
                if i != place && j != place {
                    assert(text::text_before(held[a].0@, held[b].0@));
                    assert(entries@[i] == held[a]);
                    assert(entries@[j] == held[b]);
                } else if i == place {
                    assert(entries@[j] == held[j - 1]);
                } else {
                    assert(entries@[i] == held[i]);
                }
            }
        }
        TextMap { entries }
    }
}

impl<V: Duplicate> Duplicate for TextMap<V> {
    fn duplicate(&self) -> (copy: Self) {
        proof {
            use_type_invariant(self);
        }
        let ghost all = self.entries.deep_view();
        let mut entries: Vec<(String, V)> = Vec::new();
        let mut i: usize = 0;
        while i < self.entries.len()
            invariant
                i <= self.entries.len(),
                i == entries.len(),
                all == self.entries.deep_view(),
                entries.deep_view() == all.take(i as int),
                keys_ordered(self.entries@),
                forall|k: int| 0 <= k < i ==> (#[trigger] entries@[k]).0@ == self.entries@[k].0@,
            decreases self.entries.len() - i,
        {
            let ghost before = entries.deep_view();
            let entry = (self.entries[i].0.clone(), self.entries[i].1.duplicate());
            let ghost added = entry.deep_view();
            entries.push(entry);
            assert(entries.deep_view() =~= before.push(added));
            assert(added == all[i as int]);
            assert(all.take(i + 1) =~= all.take(i as int).push(all[i as int]));
            i += 1;
        }
        assert(all.take(i as int) =~= all);
        assert(keys_ordered(entries@)) by {
            assert forall|a: int, b: int| 0 <= a < b < entries@.len() implies text::text_before(
                (#[trigger] entries@[a]).0@,
                (#[trigger] entries@[b]).0@,
            ) by {
                assert(text::text_before(self.entries@[a].0@, self.entries@[b].0@));
            }
        }
        TextMap { entries }
    }
}

} // verus!
