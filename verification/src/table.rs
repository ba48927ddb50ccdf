use vstd::prelude::*;
use crate::text::text_eq;

verus! {

/// A map from text keys to values, kept as a list in insertion order.
pub struct Table<V> {
    entries: Vec<(String, V)>,
}

/// The map that a list of entries stands for: of two entries with one key
/// the earlier one counts.
pub open spec fn entries_map<V>(entries: Seq<(String, V)>) -> Map<Seq<char>, V>
    decreases entries.len(),
{
    if entries.len() == 0 {
        Map::empty()
    } else {
        entries_map(entries.drop_first()).insert(entries[0].0@, entries[0].1)
    }
}

/// Whether no entry before index `i` has the key `key`.
pub open spec fn absent_before<V>(entries: Seq<(String, V)>, key: Seq<char>, i: int) -> bool {
    forall|j: int| 0 <= j < i && j < entries.len() ==> (#[trigger] entries[j]).0@ != key
}

proof fn lemma_absent<V>(entries: Seq<(String, V)>, key: Seq<char>)
    requires
        absent_before(entries, key, entries.len() as int),
    ensures
        !entries_map(entries).contains_key(key),
    decreases entries.len(),
{
    if entries.len() > 0 {
        let rest = entries.drop_first();
        assert forall|j: int| 0 <= j < rest.len() implies (#[trigger] rest[j]).0@ != key by {
            assert(rest[j] == entries[j + 1]);
        }
        lemma_absent(rest, key);
        assert(entries[0].0@ != key);
    }
}

proof fn lemma_found<V>(entries: Seq<(String, V)>, key: Seq<char>, i: int)
    requires
        0 <= i < entries.len(),
        entries[i].0@ == key,
        absent_before(entries, key, i),
    ensures
        entries_map(entries).contains_key(key),
        entries_map(entries)[key] == entries[i].1,
    decreases i,
{
    if i > 0 {
        let rest = entries.drop_first();
        assert forall|j: int| 0 <= j < i - 1 && j < rest.len() implies (#[trigger] rest[j]).0@
            != key by {
            assert(rest[j] == entries[j + 1]);
        }
        assert(rest[i - 1] == entries[i]);
        lemma_found(rest, key, i - 1);
        assert(entries[0].0@ != key);
    }
}

proof fn lemma_replace<V>(entries: Seq<(String, V)>, i: int, entry: (String, V))
    requires
        0 <= i < entries.len(),
        entries[i].0@ == entry.0@,
        absent_before(entries, entry.0@, i),
    ensures
        entries_map(entries.update(i, entry)) == entries_map(entries).insert(entry.0@, entry.1),
    decreases i,
{
    let changed = entries.update(i, entry);
    let rest = entries.drop_first();
    if i == 0 {
        assert(changed.drop_first() == rest);
        assert(entries_map(changed) =~= entries_map(entries).insert(entry.0@, entry.1));
    } else {
        assert forall|j: int| 0 <= j < i - 1 && j < rest.len() implies (#[trigger] rest[j]).0@
            != entry.0@ by {
            assert(rest[j] == entries[j + 1]);
        }
        assert(rest[i - 1] == entries[i]);
        lemma_replace(rest, i - 1, entry);
        assert(changed.drop_first() == rest.update(i - 1, entry));
        assert(entries[0].0@ != entry.0@);
        assert(changed[0] == entries[0]);
        assert(entries_map(changed) =~= entries_map(entries).insert(entry.0@, entry.1));
    }
}

proof fn lemma_append<V>(entries: Seq<(String, V)>, entry: (String, V))
    requires
        absent_before(entries, entry.0@, entries.len() as int),
    ensures
        entries_map(entries.push(entry)) == entries_map(entries).insert(entry.0@, entry.1),
    decreases entries.len(),
{
    let grown = entries.push(entry);
    if entries.len() == 0 {
        assert(grown.drop_first() == entries);
        assert(entries_map(grown) =~= entries_map(entries).insert(entry.0@, entry.1));
    } else {
        let rest = entries.drop_first();
        assert forall|j: int| 0 <= j < rest.len() implies (#[trigger] rest[j]).0@ != entry.0@ by {
            assert(rest[j] == entries[j + 1]);
        }
        lemma_append(rest, entry);
        assert(grown.drop_first() == rest.push(entry));
        assert(entries[0].0@ != entry.0@);
        assert(grown[0] == entries[0]);
        assert(entries_map(grown) =~= entries_map(entries).insert(entry.0@, entry.1));
    }
}

impl<V> View for Table<V> {
    type V = Map<Seq<char>, V>;

    closed spec fn view(&self) -> Map<Seq<char>, V> {
        entries_map(self.entries@)
    }
}

impl<V> Table<V> {
    /// A table without entries.
    pub fn new() -> (t: Self)
        ensures
            t@ == Map::<Seq<char>, V>::empty(),
    {
        Table { entries: Vec::new() }
    }

    fn position(&self, key: &str) -> (r: Option<usize>)
        ensures
            match r {
                Some(i) => i < self.entries@.len() && self.entries@[i as int].0@ == key@
                    && self@.contains_key(key@) && self@[key@] == self.entries@[i as int].1
                    && absent_before(self.entries@, key@, i as int),
                None => !self@.contains_key(key@) && absent_before(
                    self.entries@,
                    key@,
                    self.entries@.len() as int,
                ),
            },
    {
        let n = self.entries.len();
        let mut i: usize = 0;
        while i < n
            invariant
                n == self.entries@.len(),
                i <= n,
                absent_before(self.entries@, key@, i as int),
            decreases n - i,
        {
            if text_eq(self.entries[i].0.as_str(), key) {
                proof {
                    lemma_found(self.entries@, key@, i as int);
                }
                return Some(i);
            }
            i = i + 1;
        }
        proof {
            lemma_absent(self.entries@, key@);
        }
        None
    }

    /// Whether the table has a value for `key`.
    pub fn contains_key(&self, key: &str) -> (b: bool)
        ensures
            b == self@.contains_key(key@),
    {
        self.position(key).is_some()
    }

    /// The value for `key`, if there is one.
    pub fn get(&self, key: &str) -> (r: Option<&V>)
        ensures
            match r {
                Some(v) => self@.contains_key(key@) && *v == self@[key@],
                None => !self@.contains_key(key@),
            },
    {
        match self.position(key) {
            Some(i) => Some(&self.entries[i].1),
            None => None,
        }
    }

    /// Sets the value for `key`, in place of an earlier one if there is one.
    pub fn insert(&mut self, key: String, value: V)
        ensures
            final(self)@ == old(self)@.insert(key@, value),
    {
        match self.position(key.as_str()) {
            Some(i) => {
                proof {
                    lemma_replace(self.entries@, i as int, (key, value));
                }
                self.entries.set(i, (key, value));
            },
            None => {
                proof {
                    lemma_append(self.entries@, (key, value));
                }
                self.entries.push((key, value));
            },
        }
    }
}

} // verus!
