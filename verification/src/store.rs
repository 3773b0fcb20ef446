//! A small keyed store for what a bot wants to remember between notices.
//!
//! A value is a flag, a number or a text. Reading a key as another kind
//! than the one stored under it finds nothing.

use crate::text::str_eq;
use vstd::prelude::*;
use vstd::string::*;

verus! {

/// A stored value.
#[derive(Debug)]
pub enum Value {
    Flag(bool),
    Number(i64),
    Text(String),
}

/// The plain value of a `Value`.
pub enum ValueView {
    Flag(bool),
    Number(i64),
    Text(Seq<char>),
}

impl View for Value {
    type V = ValueView;

    open spec fn view(&self) -> ValueView {
        match self {
            Value::Flag(b) => ValueView::Flag(*b),
            Value::Number(n) => ValueView::Number(*n),
            Value::Text(t) => ValueView::Text(t@),
        }
    }
}

impl Clone for Value {
    fn clone(&self) -> (copy: Value)
        ensures
            copy@ == self@,
    {
        match self {
            Value::Flag(b) => Value::Flag(*b),
            Value::Number(n) => Value::Number(*n),
            Value::Text(t) => Value::Text(t.clone()),
        }
    }
}

impl ValueView {
    /// The flag, where the value is one.
    pub open spec fn as_flag(self) -> Option<bool> {
        match self {
            ValueView::Flag(b) => Some(b),
            _ => None,
        }
    }

    /// The number, where the value is one.
    pub open spec fn as_number(self) -> Option<i64> {
        match self {
            ValueView::Number(n) => Some(n),
            _ => None,
        }
    }

    /// The text, where the value is one.
    pub open spec fn as_text(self) -> Option<Seq<char>> {
        match self {
            ValueView::Text(t) => Some(t),
            _ => None,
        }
    }
}

/// What `m` holds under `key`, if anything.
pub open spec fn lookup(m: Map<Seq<char>, ValueView>, key: Seq<char>) -> Option<ValueView> {
    if m.contains_key(key) {
        Some(m[key])
    } else {
        None
    }
}

/// The map that a list of entries stands for: a later entry replaces an
/// earlier one with the same key.
pub open spec fn map_of(entries: Seq<(String, Value)>) -> Map<Seq<char>, ValueView>
    decreases entries.len(),
{
    if entries.len() == 0 {
        Map::empty()
    } else {
        map_of(entries.drop_last()).insert(entries.last().0@, entries.last().1@)
    }
}

/// The plain value of an optional value.
pub open spec fn value_view(v: Option<Value>) -> Option<ValueView> {
    match v {
        Some(v) => Some(v@),
        None => None,
    }
}

/// The plain value of an optional borrowed value.
pub open spec fn value_ref_view(v: Option<&Value>) -> Option<ValueView> {
    match v {
        Some(v) => Some(v@),
        None => None,
    }
}

/// A keyed store of values.
pub struct Store {
    entries: Vec<(String, Value)>,
}

impl View for Store {
    type V = Map<Seq<char>, ValueView>;

    closed spec fn view(&self) -> Map<Seq<char>, ValueView> {
        map_of(self.entries@)
    }
}

impl Store {
    /// A store that holds nothing.
    pub fn new() -> (store: Store)
        ensures
            store@ == Map::<Seq<char>, ValueView>::empty(),
    {
        Store { entries: Vec::new() }
    }

    /// What is stored under `key`, if anything.
    pub fn get(&self, key: &str) -> (found: Option<&Value>)
        ensures
            value_ref_view(found) == lookup(self@, key@),
    {
        let mut i: usize = self.entries.len();
        assert(self.entries@.take(i as int) =~= self.entries@);
        while i > 0
            invariant
                i <= self.entries.len(),
                lookup(self@, key@) == lookup(map_of(self.entries@.take(i as int)), key@),
            decreases i,
        {
            i -= 1;
            proof {
                let upto = self.entries@.take(i + 1);
                assert(upto.drop_last() =~= self.entries@.take(i as int));
                assert(upto.last() == self.entries@[i as int]);
            }
            let entry = &self.entries[i];
            if str_eq(entry.0.as_str(), key) {
                return Some(&entry.1);
            }
        }
        None
    }

    /// The flag stored under `key`; nothing where the key is unused or
    /// holds another kind of value.
    pub fn get_flag(&self, key: &str) -> (found: Option<bool>)
        ensures
            found == flag_at(self@, key@),
    {
        match self.get(key) {
            Some(Value::Flag(b)) => Some(*b),
            _ => None,
        }
    }

    /// The number stored under `key`; nothing where the key is unused or
    /// holds another kind of value.
    pub fn get_number(&self, key: &str) -> (found: Option<i64>)
        ensures
            found == number_at(self@, key@),
    {
        match self.get(key) {
            Some(Value::Number(n)) => Some(*n),
            _ => None,
        }
    }

    /// The text stored under `key`; nothing where the key is unused or
    /// holds another kind of value.
    pub fn get_text(&self, key: &str) -> (found: Option<&str>)
        ensures
            match found {
                Some(t) => text_at(self@, key@) == Some(t@),
                None => text_at(self@, key@) is None,
            },
    {
        match self.get(key) {
            Some(Value::Text(t)) => Some(t.as_str()),
            _ => None,
        }
    }

    /// Takes out what is stored under `key` and returns it.
    pub fn remove(&mut self, key: &str) -> (removed: Option<Value>)
        ensures
            value_view(removed) == lookup(old(self)@, key@),
            final(self)@ == old(self)@.remove(key@),
    {
        let mut kept: Vec<(String, Value)> = Vec::new();
        let mut removed: Option<Value> = None;
        let mut i: usize = 0;
        assert(self.entries@.take(0) =~= Seq::<(String, Value)>::empty());
        assert(map_of(kept@) =~= map_of(self.entries@.take(0)).remove(key@));
        while i < self.entries.len()
            invariant
                i <= self.entries.len(),
                map_of(kept@) == map_of(self.entries@.take(i as int)).remove(key@),
                value_view(removed) == lookup(map_of(self.entries@.take(i as int)), key@),
            decreases self.entries.len() - i,
        {
            proof {
                let upto = self.entries@.take(i + 1);
                assert(upto.drop_last() =~= self.entries@.take(i as int));
                assert(upto.last() == self.entries@[i as int]);
            }
            let entry = &self.entries[i];
            if str_eq(entry.0.as_str(), key) {
                removed = Some(entry.1.clone());
                proof {
                    let before = map_of(self.entries@.take(i as int));
                    assert(before.insert(key@, entry.1@).remove(key@) =~= before.remove(key@));
                }
            } else {
                let copy = (entry.0.clone(), entry.1.clone());
                proof {
                    let before = map_of(self.entries@.take(i as int));
                    assert(kept@.push(copy).drop_last() =~= kept@);
                    assert(before.remove(key@).insert(entry.0@, entry.1@) =~= before.insert(
                        entry.0@,
                        entry.1@,
                    ).remove(key@));
                }
                kept.push(copy);
            }
            i += 1;
        }
        assert(self.entries@.take(self.entries.len() as int) =~= self.entries@);
        self.entries = kept;
        removed
    }

    /// Stores `value` under `key`, in place of what was there, and returns
    /// what was there.
    pub fn insert(&mut self, key: &str, value: Value) -> (replaced: Option<Value>)
        ensures
            value_view(replaced) == lookup(old(self)@, key@),
            final(self)@ == old(self)@.insert(key@, value@),
    {
        let replaced = self.remove(key);
        let ghost before = self.entries@;
        let entry = (String::from_str(key), value);
        self.entries.push(entry);
        proof {
            assert(self.entries@.drop_last() =~= before);
            assert(old(self)@.remove(key@).insert(key@, value@) =~= old(self)@.insert(
                key@,
                value@,
            ));
        }
        replaced
    }
}

/// The flag under `key`, where the store holds one there.
pub open spec fn flag_at(m: Map<Seq<char>, ValueView>, key: Seq<char>) -> Option<bool> {
    match lookup(m, key) {
        Some(v) => v.as_flag(),
        None => None,
    }
}

/// The number under `key`, where the store holds one there.
pub open spec fn number_at(m: Map<Seq<char>, ValueView>, key: Seq<char>) -> Option<i64> {
    match lookup(m, key) {
        Some(v) => v.as_number(),
        None => None,
    }
}

/// The text under `key`, where the store holds one there.
pub open spec fn text_at(m: Map<Seq<char>, ValueView>, key: Seq<char>) -> Option<Seq<char>> {
    match lookup(m, key) {
        Some(v) => v.as_text(),
        None => None,
    }
}

/// What was stored is read back. A value put under a key is found there as
/// it is; read as its own kind it gives what was put, and read as another
/// kind it gives nothing.
pub proof fn lemma_stored_value_reads_back(m: Map<Seq<char>, ValueView>, key: Seq<char>, v: ValueView)
    ensures
        lookup(m.insert(key, v), key) == Some(v),
        v matches ValueView::Flag(b) ==> {
            &&& flag_at(m.insert(key, v), key) == Some(b)
            &&& number_at(m.insert(key, v), key) is None
            &&& text_at(m.insert(key, v), key) is None
        },
        v matches ValueView::Number(n) ==> {
            &&& number_at(m.insert(key, v), key) == Some(n)
            &&& flag_at(m.insert(key, v), key) is None
            &&& text_at(m.insert(key, v), key) is None
        },
        v matches ValueView::Text(t) ==> {
            &&& text_at(m.insert(key, v), key) == Some(t)
            &&& flag_at(m.insert(key, v), key) is None
            &&& number_at(m.insert(key, v), key) is None
        },
{
}

/// Storing under one key leaves every other key as it was.
pub proof fn lemma_store_keeps_other_keys(
    m: Map<Seq<char>, ValueView>,
    key: Seq<char>,
    v: ValueView,
    other: Seq<char>,
)
    requires
        other != key,
    ensures
        lookup(m.insert(key, v), other) == lookup(m, other),
        lookup(m.remove(key), other) == lookup(m, other),
        lookup(m.remove(key), key) is None,
{
}

} // verus!
