//! Sets of strings, and maps from strings to strings.
use vstd::prelude::*;

use crate::text::texts;

verus! {

/// A set of strings. Nothing is said of the order in which it lists them.
pub struct StringSet {
    items: Vec<String>,
}

impl View for StringSet {
    type V = Set<Seq<char>>;

    closed spec fn view(&self) -> Set<Seq<char>> {
        texts(self.items@).to_set()
    }
}

impl StringSet {
    #[verifier::type_invariant]
    spec fn distinct(self) -> bool {
        texts(self.items@).no_duplicates()
    }

    /// The empty set.
    pub fn new() -> (set: Self)
        ensures
            set@ == Set::<Seq<char>>::empty(),
    {
        let set = StringSet { items: Vec::new() };
        assert(set@ =~= Set::<Seq<char>>::empty());
        set
    }

    /// The set of what `items` lists, whether once or more often.
    pub fn collect(items: Vec<String>) -> (set: Self)
        ensures
            set@ == texts(items@).to_set(),
    {
        let mut set = StringSet::new();
        let mut i: usize = 0;
        assert(texts(items@).take(0).to_set() =~= Set::<Seq<char>>::empty());
        while i < items.len()
            invariant
                i <= items.len(),
                set@ == texts(items@).take(i as int).to_set(),
            decreases items.len() - i,
        {
            set.insert(items[i].clone());
            proof {
                texts(items@).lemma_take_succ_push(i as int);
                texts(items@).take(i as int).lemma_push_to_set_commute(items@[i as int]@);
            }
            i = i + 1;
        }
        assert(texts(items@).take(i as int) == texts(items@));
        set
    }

    /// Where `item` is listed, if it is.
    fn position(&self, item: &String) -> (position: Option<usize>)
        ensures
            position is None ==> !self@.contains(item@),
            position is Some ==> {
                &&& self@.contains(item@)
                &&& position.unwrap() < self.items@.len()
                &&& texts(self.items@)[position.unwrap() as int] == item@
            },
    {
        let mut i: usize = 0;
        while i < self.items.len()
            invariant
                i <= self.items.len(),
                forall|j: int| 0 <= j < i ==> #[trigger] texts(self.items@)[j] != item@,
            decreases self.items.len() - i,
        {
            if self.items[i] == *item {
                assert(texts(self.items@)[i as int] == item@);
                return Some(i);
            }
            i = i + 1;
        }
        None
    }

    /// Whether `item` is in the set.
    pub fn contains(&self, item: &String) -> (found: bool)
        ensures
            found == self@.contains(item@),
    {
        self.position(item).is_some()
    }

    /// Adds `item`, and says whether it is new to the set.
    pub fn insert(&mut self, item: String) -> (fresh: bool)
        ensures
            final(self)@ == old(self)@.insert(item@),
            fresh == !old(self)@.contains(item@),
    {
        proof {
            use_type_invariant(&*self);
        }
        if self.contains(&item) {
            assert(self@.insert(item@) =~= self@);
            false
        } else {
            let mut items: Vec<String> = Vec::new();
            std::mem::swap(&mut items, &mut self.items);
            let ghost before = texts(items@);
            let ghost added = item@;
            items.push(item);
            proof {
                assert(texts(items@) =~= before.push(added));
                before.lemma_push_to_set_commute(added);
            }
            self.items = items;
            true
        }
    }

    /// Takes `item` out, and says whether it was in the set.
    pub fn remove(&mut self, item: &String) -> (found: bool)
        ensures
            final(self)@ == old(self)@.remove(item@),
            found == old(self)@.contains(item@),
    {
        proof {
            use_type_invariant(&*self);
        }
        match self.position(item) {
            Some(position) => {
                let mut items: Vec<String> = Vec::new();
                std::mem::swap(&mut items, &mut self.items);
                let ghost before = texts(items@);
                let _ = items.remove(position);
                proof {
                    let after = texts(items@);
                    assert(after =~= before.remove(position as int));
                    assert forall|text: Seq<char>|
                        after.to_set().contains(text) == before.to_set().remove(item@).contains(text) by {
                        if after.contains(text) {
                            let i = after.lemma_contains_to_index(text);
                            let j = if i < position {
                                i
                            } else {
                                i + 1
                            };
                            assert(before[j] == text);
                            assert(before[position as int] == item@);
                        }
                        if before.contains(text) && text != item@ {
                            let j = before.lemma_contains_to_index(text);
                            let i = if j < position {
                                j
                            } else {
                                j - 1
                            };
                            assert(after[i] == text);
                        }
                    }
                    assert(after.to_set() =~= before.to_set().remove(item@));
                }
                self.items = items;
                true
            },
            None => {
                assert(self@.remove(item@) =~= self@);
                false
            },
        }
    }

    /// The strings of the set, each once.
    pub fn items(&self) -> (items: &Vec<String>)
        ensures
            texts(items@).no_duplicates(),
            texts(items@).to_set() == self@,
    {
        proof {
            use_type_invariant(self);
        }
        &self.items
    }

    /// The strings of the set, each once.
    pub fn into_items(self) -> (items: Vec<String>)
        ensures
            texts(items@).no_duplicates(),
            texts(items@).to_set() == self@,
    {
        proof {
            use_type_invariant(&self);
        }
        self.items
    }
}

/// A map from strings to strings. Nothing is said of the order in which it lists its entries.
pub struct StringMap {
    entries: Vec<(String, String)>,
}

/// The entry texts of `entries`.
pub open spec fn entry_texts(entries: Seq<(String, String)>) -> Seq<(Seq<char>, Seq<char>)> {
    entries.map_values(|entry: (String, String)| (entry.0@, entry.1@))
}

/// Whether `entries` lists each entry of `map`, and nothing else, once.
pub open spec fn lists(entries: Seq<(Seq<char>, Seq<char>)>, map: Map<Seq<char>, Seq<char>>) -> bool {
    &&& forall|i: int, j: int|
        0 <= i < j < entries.len() ==> (#[trigger] entries[i]).0 != (#[trigger] entries[j]).0
    &&& forall|i: int|
        0 <= i < entries.len() ==> map.contains_key((#[trigger] entries[i]).0) && map[entries[i].0]
            == entries[i].1
    &&& forall|key: Seq<char>| #[trigger]
        map.contains_key(key) ==> exists|i: int|
            0 <= i < entries.len() && (#[trigger] entries[i]).0 == key
}

impl View for StringMap {
    type V = Map<Seq<char>, Seq<char>>;

    closed spec fn view(&self) -> Map<Seq<char>, Seq<char>> {
        let entries = entry_texts(self.entries@);
        Map::new(
            |key: Seq<char>|
                exists|i: int| 0 <= i < entries.len() && (#[trigger] entries[i]).0 == key,
            |key: Seq<char>|
                {
                    let i = choose|i: int|
                        0 <= i < entries.len() && (#[trigger] entries[i]).0 == key;
                    entries[i].1
                },
        )
    }
}

impl StringMap {
    #[verifier::type_invariant]
    spec fn distinct(self) -> bool {
        let entries = entry_texts(self.entries@);
        forall|i: int, j: int|
            0 <= i < j < entries.len() ==> (#[trigger] entries[i]).0 != (#[trigger] entries[j]).0
    }

    /// The empty map.
    pub fn new() -> (map: Self)
        ensures
            map@ == Map::<Seq<char>, Seq<char>>::empty(),
    {
        let map = StringMap { entries: Vec::new() };
        assert(map@ =~= Map::<Seq<char>, Seq<char>>::empty());
        map
    }

    /// Where the entry of `key` is, if there is one.
    fn position(&self, key: &String) -> (position: Option<usize>)
        ensures
            position is None ==> !self@.contains_key(key@),
            position is Some ==> {
                &&& self@.contains_key(key@)
                &&& position.unwrap() < self.entries@.len()
                &&& entry_texts(self.entries@)[position.unwrap() as int].0 == key@
            },
    {
        let mut i: usize = 0;
        while i < self.entries.len()
            invariant
                i <= self.entries.len(),
                forall|j: int| 0 <= j < i ==> (#[trigger] entry_texts(self.entries@)[j]).0 != key@,
            decreases self.entries.len() - i,
        {
            if self.entries[i].0 == *key {
                assert(entry_texts(self.entries@)[i as int].0 == key@);
                return Some(i);
            }
            i = i + 1;
        }
        None
    }

    /// Whether `key` has an entry.
    pub fn contains_key(&self, key: &String) -> (found: bool)
        ensures
            found == self@.contains_key(key@),
    {
        self.position(key).is_some()
    }

    /// Gives `key` the value `value`, in place of any that it had.
    pub fn insert(&mut self, key: String, value: String)
        ensures
            final(self)@ == old(self)@.insert(key@, value@),
    {
        proof {
            use_type_invariant(&*self);
        }
        let ghost before = entry_texts(self.entries@);
        let ghost added = (key@, value@);
        let position = self.position(&key);
        let mut entries: Vec<(String, String)> = Vec::new();
        std::mem::swap(&mut entries, &mut self.entries);
        match position {
            Some(position) => {
                entries.set(position, (key, value));
                assert(entry_texts(entries@) =~= before.update(position as int, added));
            },
            None => {
                entries.push((key, value));
                assert(entry_texts(entries@) =~= before.push(added));
            },
        }
        self.entries = entries;
        proof {
            let after = entry_texts(self.entries@);
            let at = match position {
                Some(position) => position as int,
                None => before.len() as int,
            };
            assert(after[at] == added);
            assert forall|k: Seq<char>| self@.contains_key(k) == old(self)@.insert(added.0, added.1).contains_key(k) by {
                if old(self)@.contains_key(k) {
                    let i = choose|i: int| 0 <= i < before.len() && (#[trigger] before[i]).0 == k;
                    assert(after[i].0 == k);
                }
                if self@.contains_key(k) && k != added.0 {
                    let i = choose|i: int| 0 <= i < after.len() && (#[trigger] after[i]).0 == k;
                    assert(before[i].0 == k);
                }
            }
            assert forall|k: Seq<char>| self@.contains_key(k) implies self@[k] == old(self)@.insert(added.0, added.1)[k] by {
                let i = choose|i: int| 0 <= i < after.len() && (#[trigger] after[i]).0 == k;
                if k != added.0 {
                    assert(before[i] == after[i]);
                    let j = choose|j: int| 0 <= j < before.len() && (#[trigger] before[j]).0 == k;
                    assert(i == j);
                } else {
                    assert(i == at);
                }
            }
            assert(self@ =~= old(self)@.insert(added.0, added.1));
        }
    }

    /// The entries of the map, each once.
    pub fn entries(&self) -> (entries: &Vec<(String, String)>)
        ensures
            lists(entry_texts(entries@), self@),
    {
        proof {
            use_type_invariant(self);
            let entries = entry_texts(self.entries@);
            assert forall|i: int| 0 <= i < entries.len() implies self@.contains_key(
                (#[trigger] entries[i]).0,
            ) && self@[entries[i].0] == entries[i].1 by {
                let j = choose|j: int| 0 <= j < entries.len() && (#[trigger] entries[j]).0 == entries[i].0;
                assert(i == j);
            }
        }
        &self.entries
    }
}

/// Where entries list a map, a key and a value are an entry exactly when the map gives that key that
/// value.
pub proof fn law_listed_entries_are_the_map(
    entries: Seq<(Seq<char>, Seq<char>)>,
    map: Map<Seq<char>, Seq<char>>,
    key: Seq<char>,
    value: Seq<char>,
)
    requires
        lists(entries, map),
    ensures
        entries.contains((key, value)) <==> map.contains_key(key) && map[key] == value,
        entries.no_duplicates(),
{
    if entries.contains((key, value)) {
        let i = entries.lemma_contains_to_index((key, value));
        assert(map.contains_key(entries[i].0));
    }
    if map.contains_key(key) && map[key] == value {
        let i = choose|i: int| 0 <= i < entries.len() && (#[trigger] entries[i]).0 == key;
        assert(entries[i] == (key, value));
    }
    assert forall|i: int, j: int| 0 <= i < entries.len() && 0 <= j < entries.len() && i != j implies entries[i]
        != entries[j] by {
        if i < j {
            assert(entries[i].0 != entries[j].0);
        } else {
            assert(entries[j].0 != entries[i].0);
        }
    }
}

/// What is said of entries is what each holds, in order.
pub proof fn law_entries_say_what_they_hold(entries: Seq<(String, String)>)
    ensures
        entry_texts(entries).len() == entries.len(),
        forall|i: int|
            0 <= i < entries.len() ==> (#[trigger] entry_texts(entries)[i]).0 == entries[i].0@ && entry_texts(
                entries,
            )[i].1 == entries[i].1@,
{
}

} // verus!
