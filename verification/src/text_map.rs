//! A small map from text to text that keeps its entries in the order in which their keys came.
use vstd::prelude::*;

verus! {

/// One key and its value.
pub type EntryView = (Seq<char>, Seq<char>);

/// Whether the entry at `at` has the key `key`.
pub open spec fn entry_at(entries: Seq<EntryView>, key: Seq<char>, at: int) -> bool {
    0 <= at < entries.len() && entries[at].0 == key
}

/// Whether some entry has the key `key`.
pub open spec fn has_key(entries: Seq<EntryView>, key: Seq<char>) -> bool {
    exists|at: int| entry_at(entries, key, at)
}

/// Whether no two entries have the same key.
pub open spec fn distinct_keys(entries: Seq<EntryView>) -> bool {
    forall|i: int, j: int| 0 <= i < j < entries.len() ==> entries[i].0 != entries[j].0
}

/// The value that goes with `key`.
pub open spec fn value_of(entries: Seq<EntryView>, key: Seq<char>) -> Option<Seq<char>> {
    if has_key(entries, key) {
        Some(entries[choose|at: int| entry_at(entries, key, at)].1)
    } else {
        None
    }
}

/// The entries once `key` stands for `value`: in its old place where it had one, else at the end.
pub open spec fn with_entry(
    entries: Seq<EntryView>,
    key: Seq<char>,
    value: Seq<char>,
) -> Seq<EntryView> {
    if has_key(entries, key) {
        entries.update(choose|at: int| entry_at(entries, key, at), (key, value))
    } else {
        entries.push((key, value))
    }
}

/// The text of a list of pairs of strings.
pub open spec fn pair_texts(pairs: Seq<(String, String)>) -> Seq<EntryView> {
    Seq::new(pairs.len(), |i: int| (pairs[i].0@, pairs[i].1@))
}

/// A map from text to text without repeated keys.
#[derive(Debug)]
pub struct TextMap {
    entries: Vec<(String, String)>,
}

impl View for TextMap {
    type V = Seq<EntryView>;

    closed spec fn view(&self) -> Seq<EntryView> {
        pair_texts(self.entries@)
    }
}

impl Clone for TextMap {
    fn clone(&self) -> (result: TextMap)
        ensures
            result@ == self@,
    {
        proof {
            use_type_invariant(self);
        }
        let mut entries: Vec<(String, String)> = Vec::new();
        let mut at: usize = 0;
        while at < self.entries.len()
            invariant
                at <= self.entries.len(),
                entries@ =~= self.entries@.take(at as int),
            decreases self.entries.len() - at,
        {
            entries.push((self.entries[at].0.clone(), self.entries[at].1.clone()));
            at = at + 1;
        }
        assert(entries@ =~= self.entries@);
        TextMap { entries }
    }
}

impl TextMap {
    #[verifier::type_invariant]
    spec fn well_formed(self) -> bool {
        distinct_keys(pair_texts(self.entries@))
    }

    /// A map without entries.
    pub fn new() -> (result: TextMap)
        ensures
            result@ == Seq::<EntryView>::empty(),
    {
        let result = TextMap { entries: Vec::new() };
        assert(result@ =~= Seq::<EntryView>::empty());
        result
    }

    /// The number of entries.
    pub fn len(&self) -> (result: usize)
        ensures
            result == self@.len(),
            distinct_keys(self@),
    {
        proof {
            use_type_invariant(self);
        }
        self.entries.len()
    }

    /// The key of the entry at `at`.
    pub fn key(&self, at: usize) -> (result: &String)
        requires
            at < self@.len(),
        ensures
            result@ == self@[at as int].0,
    {
        &self.entries[at].0
    }

    /// The value of the entry at `at`.
    pub fn value(&self, at: usize) -> (result: &String)
        requires
            at < self@.len(),
        ensures
            result@ == self@[at as int].1,
    {
        &self.entries[at].1
    }

    fn position(&self, key: &str) -> (result: Option<usize>)
        ensures
            match result {
                Some(at) => at < self@.len() && has_key(self@, key@) && at as int == (choose|i: int|
                    entry_at(self@, key@, i)),
                None => !has_key(self@, key@),
            },
    {
        proof {
            use_type_invariant(self);
        }
        let wanted: String = key.to_owned();
        let mut at: usize = 0;
        while at < self.entries.len()
            invariant
                at <= self.entries.len(),
                wanted@ == key@,
                distinct_keys(self@),
                self@ == pair_texts(self.entries@),
                forall|i: int| 0 <= i < at ==> !entry_at(self@, key@, i),
            decreases self.entries.len() - at,
        {
            if self.entries[at].0 == wanted {
                assert(entry_at(self@, key@, at as int));
                return Some(at);
            }
            at = at + 1;
        }
        None
    }

    /// The value that goes with `key`.
    pub fn get(&self, key: &str) -> (result: Option<&String>)
        ensures
            match result {
                Some(value) => value_of(self@, key@) == Some(value@),
                None => value_of(self@, key@) is None,
            },
    {
        match self.position(key) {
            Some(at) => Some(&self.entries[at].1),
            None => None,
        }
    }

    /// Lets `key` stand for `value`.
    pub fn insert(&mut self, key: String, value: String)
        ensures
            final(self)@ == with_entry(old(self)@, key@, value@),
            distinct_keys(final(self)@),
    {
        proof {
            use_type_invariant(&*self);
        }
        let ghost before = self@;
        let position: Option<usize> = self.position(key.as_str());
        let mut entries: Vec<(String, String)> = Vec::new();
        std::mem::swap(&mut entries, &mut self.entries);
        let ghost pair = (key@, value@);
        match position {
            Some(at) => {
                entries.set(at, (key, value));
                assert(pair_texts(entries@) =~= before.update(at as int, pair));
            },
            None => {
                entries.push((key, value));
                assert(pair_texts(entries@) =~= before.push(pair));
                assert forall|i: int, j: int|
                    0 <= i < j < before.len() + 1 implies before.push(pair)[i].0
                    != before.push(pair)[j].0 by {
                    if j == before.len() {
                        assert(!entry_at(before, pair.0, i));
                    }
                }
            },
        }
        self.entries = entries;
    }
}

/// A value that was put in is found under its key, and every other key finds what it found before.
pub proof fn law_inserted_value_is_found(
    entries: Seq<EntryView>,
    key: Seq<char>,
    value: Seq<char>,
    other: Seq<char>,
)
    requires
        distinct_keys(entries),
    ensures
        value_of(with_entry(entries, key, value), other) == (if other == key {
            Some(value)
        } else {
            value_of(entries, other)
        }),
{
    let after = with_entry(entries, key, value);
    let place = if has_key(entries, key) {
        choose|at: int| entry_at(entries, key, at)
    } else {
        entries.len() as int
    };
    assert forall|at: int| entry_at(after, key, at) implies at == place by {
        if at < entries.len() && at != place {
            assert(entry_at(entries, key, at));
        }
    }
    assert(entry_at(after, key, place));
    if other != key {
        if has_key(entries, other) {
            let at = choose|at: int| entry_at(entries, other, at);
            assert(entry_at(after, other, at));
            let found = choose|i: int| entry_at(after, other, i);
            assert(entry_at(entries, other, found));
            assert(found == at);
        } else if has_key(after, other) {
            let at = choose|at: int| entry_at(after, other, at);
            assert(entry_at(entries, other, at));
        }
    }
}

/// A key finds the value that stands beside it; a key that no entry has finds nothing.
pub proof fn law_key_finds_its_value(entries: Seq<EntryView>, key: Seq<char>, at: int)
    requires
        forall|i: int, j: int| 0 <= i < j < entries.len() ==> entries[i].0 != entries[j].0,
    ensures
        0 <= at < entries.len() && entries[at].0 == key ==> value_of(entries, key) == Some(
            entries[at].1,
        ),
        (forall|i: int| 0 <= i < entries.len() ==> entries[i].0 != key) ==> value_of(entries, key)
            is None,
{
    if 0 <= at < entries.len() && entries[at].0 == key {
        assert(entry_at(entries, key, at));
        let found = choose|i: int| entry_at(entries, key, i);
        assert(entry_at(entries, key, found));
        assert(found == at);
    }
}

/// Putting a value in changes no other entry and moves none. A key that was there keeps its place,
/// and a new one comes last.
pub proof fn law_entries_keep_their_places(
    entries: Seq<EntryView>,
    key: Seq<char>,
    value: Seq<char>,
    at: int,
)
    requires
        forall|i: int, j: int| 0 <= i < j < entries.len() ==> entries[i].0 != entries[j].0,
        0 <= at < entries.len(),
    ensures
        with_entry(entries, key, value)[at] == (if entries[at].0 == key {
            (key, value)
        } else {
            entries[at]
        }),
        entries[at].0 == key ==> with_entry(entries, key, value).len() == entries.len(),
        (forall|i: int| 0 <= i < entries.len() ==> entries[i].0 != key) ==> with_entry(
            entries,
            key,
            value,
        ) == entries.push((key, value)),
{
    if has_key(entries, key) {
        let found = choose|i: int| entry_at(entries, key, i);
        assert(entry_at(entries, key, found));
        if entries[at].0 == key {
            assert(found == at);
        }
    } else {
        assert(!entry_at(entries, key, at));
    }
}

} // verus!
