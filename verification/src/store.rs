//! The key-value store: string keys, each held once, with the value of its
//! latest `set` in upper case. Entries keep the order in which their keys
//! were first set.

use vstd::prelude::*;
use vstd::string::StringExecFns;
use crate::text::{uppercase, to_uppercase};

verus! {

/// Whether some entry of `entries` has the key `key`.
pub open spec fn has_key(entries: Seq<(Seq<char>, Seq<char>)>, key: Seq<char>) -> bool {
    exists|i: int| 0 <= i < entries.len() && (#[trigger] entries[i]).0 == key
}

/// The position of an entry with the key `key`, where there is one.
pub open spec fn slot(entries: Seq<(Seq<char>, Seq<char>)>, key: Seq<char>) -> int {
    choose|i: int| 0 <= i < entries.len() && (#[trigger] entries[i]).0 == key
}

/// No two entries share a key.
pub open spec fn distinct_keys(entries: Seq<(Seq<char>, Seq<char>)>) -> bool {
    forall|i: int, j: int|
        0 <= i < entries.len() && 0 <= j < entries.len() && i != j ==> (#[trigger] entries[i]).0
            != (#[trigger] entries[j]).0
}

/// Whether a value is the upper-cased form of some text.
pub open spec fn is_upper_cased(value: Seq<char>) -> bool {
    exists|raw: Seq<char>| value == #[trigger] uppercase(raw)
}

/// Whether every value among the entries is the upper-cased form of some
/// text.
pub open spec fn all_upper_cased(entries: Seq<(Seq<char>, Seq<char>)>) -> bool {
    forall|i: int| 0 <= i < entries.len() ==> is_upper_cased((#[trigger] entries[i]).1)
}

/// What holds of the entries of every store: no key occurs twice, and every
/// value is upper-cased.
pub open spec fn well_formed(entries: Seq<(Seq<char>, Seq<char>)>) -> bool {
    distinct_keys(entries) && all_upper_cased(entries)
}

/// The value stored under `key`, if any.
pub open spec fn value_of(entries: Seq<(Seq<char>, Seq<char>)>, key: Seq<char>) -> Option<
    Seq<char>,
> {
    if has_key(entries, key) {
        Some(entries[slot(entries, key)].1)
    } else {
        None
    }
}

/// The entries after `value` is stored under `key`: an existing entry is
/// overwritten in place, a new one goes to the end.
pub open spec fn put(entries: Seq<(Seq<char>, Seq<char>)>, key: Seq<char>, value: Seq<char>) -> Seq<
    (Seq<char>, Seq<char>),
> {
    if has_key(entries, key) {
        entries.update(slot(entries, key), (key, value))
    } else {
        entries.push((key, value))
    }
}

/// The entries as a map from key to value.
pub open spec fn as_map(entries: Seq<(Seq<char>, Seq<char>)>) -> Map<Seq<char>, Seq<char>> {
    Map::new(|k: Seq<char>| has_key(entries, k), |k: Seq<char>| entries[slot(entries, k)].1)
}

/// The line that lists one entry: key, a space, value, a line feed.
pub open spec fn entry_line(entry: (Seq<char>, Seq<char>)) -> Seq<char> {
    entry.0 + " "@ + entry.1 + "\n"@
}

/// The lines that list the entries, one each, in the entries' order.
pub open spec fn entry_lines(entries: Seq<(Seq<char>, Seq<char>)>) -> Seq<Seq<char>> {
    Seq::new(entries.len(), |i: int| entry_line(entries[i]))
}

/// The text that lists the entries: their lines, one after the other.
pub open spec fn listing(entries: Seq<(Seq<char>, Seq<char>)>) -> Seq<char> {
    entry_lines(entries).flatten()
}

/// With distinct keys, the entry found for a key is the only one with it.
pub proof fn lemma_slot_unique(entries: Seq<(Seq<char>, Seq<char>)>, i: int)
    requires
        distinct_keys(entries),
        0 <= i < entries.len(),
    ensures
        has_key(entries, entries[i].0),
        slot(entries, entries[i].0) == i,
{
    let key = entries[i].0;
    assert(has_key(entries, key));
    let s = slot(entries, key);
    assert(0 <= s < entries.len() && entries[s].0 == key);
}

/// Looking a key up in the entries is looking it up in their map.
pub proof fn lemma_value_of_is_map_lookup(entries: Seq<(Seq<char>, Seq<char>)>, key: Seq<char>)
    ensures
        value_of(entries, key) == if as_map(entries).dom().contains(key) {
            Some(as_map(entries)[key])
        } else {
            None
        },
{
}

/// Storing keeps the keys distinct, and as a map it is an insertion; it
/// gives the key its new value and leaves every other key as it was.
pub proof fn lemma_put(entries: Seq<(Seq<char>, Seq<char>)>, key: Seq<char>, value: Seq<char>)
    requires
        distinct_keys(entries),
    ensures
        distinct_keys(put(entries, key, value)),
        as_map(put(entries, key, value)) == as_map(entries).insert(key, value),
        value_of(put(entries, key, value), key) == Some(value),
        forall|other: Seq<char>|
            other != key ==> value_of(put(entries, key, value), other) == value_of(entries, other),
        put(entries, key, value).len() == entries.len() + (if has_key(entries, key) {
            0int
        } else {
            1int
        }),
        all_upper_cased(entries) && is_upper_cased(value) ==> all_upper_cased(
            put(entries, key, value),
        ),
{
    let after = put(entries, key, value);
    let at: int = if has_key(entries, key) {
        slot(entries, key)
    } else {
        entries.len() as int
    };
    assert(0 <= at < after.len() && after[at] == (key, value));
    assert(forall|i: int| 0 <= i < after.len() && i != at ==> after[i] == entries[i]);
    assert(forall|i: int| 0 <= i < after.len() && i != at ==> (#[trigger] after[i]).0 != key) by {
        if has_key(entries, key) {
            assert(forall|i: int|
                0 <= i < entries.len() && i != at ==> (#[trigger] entries[i]).0 != key);
        } else {
            assert(forall|i: int| 0 <= i < entries.len() ==> (#[trigger] entries[i]).0 != key);
        }
    }
    assert(distinct_keys(after)) by {
        assert forall|i: int, j: int|
            0 <= i < after.len() && 0 <= j < after.len() && i != j implies (#[trigger] after[i]).0
            != (#[trigger] after[j]).0 by {
            if i != at && j != at {
                assert(entries[i].0 != entries[j].0);
            }
        }
    }
    lemma_slot_unique(after, at);
    if all_upper_cased(entries) && is_upper_cased(value) {
        assert forall|i: int| 0 <= i < after.len() implies is_upper_cased(
            (#[trigger] after[i]).1,
        ) by {
            if i != at {
                assert(after[i] == entries[i]);
            }
        }
    }
    assert forall|other: Seq<char>| other != key implies value_of(after, other) == value_of(
        entries,
        other,
    ) by {
        if has_key(entries, other) {
            let s = slot(entries, other);
            assert(s != at);
            assert(after[s] == entries[s]);
            lemma_slot_unique(after, s);
        } else {
            if has_key(after, other) {
                let s = slot(after, other);
                assert(s != at);
                assert(entries[s].0 == other);
            }
        }
    }
    assert(as_map(after) =~= as_map(entries).insert(key, value)) by {
        assert forall|k: Seq<char>| #[trigger]
            as_map(after).dom().contains(k) == as_map(entries).insert(key, value).dom().contains(
                k,
            ) by {
            if k != key {
                assert(value_of(after, k) == value_of(entries, k));
            }
        }
        assert forall|k: Seq<char>| #[trigger] as_map(after).dom().contains(k) implies as_map(
            after,
        )[k] == as_map(entries).insert(key, value)[k] by {
            if k != key {
                assert(value_of(after, k) == value_of(entries, k));
            }
        }
    }
}

/// The store. Its view is the sequence of its entries, key and value, in the
/// order in which the keys were first set.
pub struct Store {
    entries: Vec<(String, String)>,
}

impl View for Store {
    type V = Seq<(Seq<char>, Seq<char>)>;

    closed spec fn view(&self) -> Seq<(Seq<char>, Seq<char>)> {
        pairs(self.entries@)
    }
}

spec fn pairs(held: Seq<(String, String)>) -> Seq<(Seq<char>, Seq<char>)> {
    Seq::new(held.len(), |i: int| (held[i].0@, held[i].1@))
}

impl Store {
    #[verifier::type_invariant]
    spec fn holds_well_formed_entries(self) -> bool {
        well_formed(self@)
    }

    /// An empty store.
    pub fn new() -> (store: Self)
        ensures
            store@ == Seq::<(Seq<char>, Seq<char>)>::empty(),
            well_formed(store@),
    {
        let store = Store { entries: Vec::new() };
        assert(store@ =~= Seq::<(Seq<char>, Seq<char>)>::empty());
        store
    }

    /// The number of keys.
    pub fn len(&self) -> (n: usize)
        ensures
            n == self@.len(),
            well_formed(self@),
    {
        proof {
            use_type_invariant(self);
        }
        self.entries.len()
    }

    /// Whether the store holds no key.
    pub fn is_empty(&self) -> (empty: bool)
        ensures
            empty == (self@.len() == 0),
            well_formed(self@),
    {
        proof {
            use_type_invariant(self);
        }
        self.entries.len() == 0
    }

    fn find(&self, key: &str) -> (at: Option<usize>)
        ensures
            at is Some == has_key(self@, key@),
            at matches Some(i) ==> i == slot(self@, key@) && i < self@.len(),
    {
        proof {
            use_type_invariant(self);
        }
        let wanted = String::from_str(key);
        let mut i: usize = 0;
        while i < self.entries.len()
            invariant
                i <= self.entries.len(),
                wanted@ == key@,
                distinct_keys(self@),
                forall|j: int| 0 <= j < i ==> (#[trigger] self@[j]).0 != key@,
            decreases self.entries.len() - i,
        {
            if self.entries[i].0 == wanted {
                proof {
                    assert(self@[i as int].0 == key@);
                    lemma_slot_unique(self@, i as int);
                }
                return Some(i);
            }
            i += 1;
        }
        None
    }

    /// Stores `value`, which is upper-cased already, under `key`. A key that
    /// is already there keeps its place and gets the new value; a new key
    /// goes last.
    pub fn insert(&mut self, key: &str, value: String)
        requires
            is_upper_cased(value@),
        ensures
            final(self)@ == put(old(self)@, key@, value@),
            well_formed(final(self)@),
    {
        proof {
            use_type_invariant(&*self);
            lemma_put(self@, key@, value@);
        }
        let at = self.find(key);
        let ghost before = self@;
        let mut entries: Vec<(String, String)> = Vec::new();
        std::mem::swap(&mut entries, &mut self.entries);
        let entry = (String::from_str(key), value);
        match at {
            Some(i) => {
                entries[i] = entry;
            },
            None => {
                entries.push(entry);
            },
        }
        assert(pairs(entries@) =~= put(before, key@, value@));
        self.entries = entries;
    }

    /// Stores the upper-cased `value` under `key`, overwriting what was there.
    pub fn set(&mut self, key: &str, value: &str)
        ensures
            final(self)@ == put(old(self)@, key@, uppercase(value@)),
            well_formed(final(self)@),
    {
        let upper = to_uppercase(value);
        assert(is_upper_cased(upper@));
        self.insert(key, upper);
    }

    /// The value stored under `key`, if there is one.
    pub fn get(&self, key: &str) -> (value: Option<String>)
        ensures
            value is Some == has_key(self@, key@),
            value matches Some(v) ==> value_of(self@, key@) == Some(v@),
            well_formed(self@),
    {
        proof {
            use_type_invariant(self);
        }
        match self.find(key) {
            Some(i) => Some(self.entries[i].1.clone()),
            None => None,
        }
    }

    /// The text that lists every entry: key, a space, value and a line feed
    /// for each, in the store's order.
    pub fn listing(&self) -> (text: String)
        ensures
            text@ == listing(self@),
            well_formed(self@),
    {
        proof {
            use_type_invariant(self);
        }
        let mut text = String::new();
        let mut i: usize = 0;
        while i < self.entries.len()
            invariant
                i <= self.entries.len(),
                text@ == listing(self@.take(i as int)),
            decreases self.entries.len() - i,
        {
            proof {
                let done = self@.take(i as int);
                let next = self@.take(i + 1);
                assert(entry_lines(next) =~= entry_lines(done).push(entry_line(self@[i as int])));
                entry_lines(done).lemma_flatten_push(entry_line(self@[i as int]));
            }
            text.append(self.entries[i].0.as_str());
            text.append(" ");
            text.append(self.entries[i].1.as_str());
            text.append("\n");
            assert(text@ =~= listing(self@.take(i as int)) + entry_line(self@[i as int]));
            i += 1;
        }
        assert(self@.take(i as int) =~= self@);
        text
    }

    /// A copy of every entry, key and value, in the store's order.
    pub fn snapshot(&self) -> (entries: Vec<(String, String)>)
        ensures
            entries@.len() == self@.len(),
            forall|i: int|
                0 <= i < entries@.len() ==> ((#[trigger] entries@[i]).0@, entries@[i].1@)
                    == self@[i],
            well_formed(self@),
    {
        proof {
            use_type_invariant(self);
        }
        let mut out: Vec<(String, String)> = Vec::new();
        let mut i: usize = 0;
        while i < self.entries.len()
            invariant
                i <= self.entries.len(),
                out@.len() == i,
                forall|j: int|
                    0 <= j < i ==> ((#[trigger] out@[j]).0@, out@[j].1@) == self@[j],
            decreases self.entries.len() - i,
        {
            out.push((self.entries[i].0.clone(), self.entries[i].1.clone()));
            i += 1;
        }
        out
    }
}

} // verus!
