use vstd::prelude::*;

use crate::text::str_eq;

verus! {

/// A value of a TOML configuration, as far as the configuration options read it.
#[derive(Debug)]
pub enum TomlValue {
    String(String),
    Integer(i64),
    Boolean(bool),
    Array(Vec<TomlValue>),
    /// The entries of a table, each key once.
    Table(Vec<(String, TomlValue)>),
    /// A float or a date-time, which no option reads.
    Other,
}

/// The first index of `entries` whose key is `key`.
pub open spec fn first_key<V>(entries: Seq<(String, V)>, key: Seq<char>) -> Option<int> {
    if exists|i: int| 0 <= i < entries.len() && #[trigger] entries[i].0@ == key {
        Some(
            choose|i: int|
                0 <= i < entries.len() && #[trigger] entries[i].0@ == key && forall|j: int|
                    0 <= j < i ==> entries[j].0@ != key,
        )
    } else {
        None
    }
}

/// `first_key` finds the first entry with the key.
proof fn lemma_first_key<V>(entries: Seq<(String, V)>, key: Seq<char>, i: int)
    requires
        0 <= i < entries.len(),
        entries[i].0@ == key,
        forall|j: int| 0 <= j < i ==> entries[j].0@ != key,
    ensures
        first_key(entries, key) == Some(i),
{
    let c = choose|c: int|
        0 <= c < entries.len() && #[trigger] entries[c].0@ == key && forall|j: int|
            0 <= j < c ==> entries[j].0@ != key;
    assert(0 <= c < entries.len() && entries[c].0@ == key && forall|j: int|
        0 <= j < c ==> entries[j].0@ != key);
    if c > i {
        assert(entries[i].0@ != key);
    }
}

/// The value under `key` of a table; nothing for other values.
pub open spec fn spec_lookup(v: TomlValue, key: Seq<char>) -> Option<TomlValue> {
    match v {
        TomlValue::Table(entries) => match first_key(entries@, key) {
            Some(i) => Some(entries@[i].1),
            None => None,
        },
        _ => None,
    }
}

/// The text of a string value.
pub open spec fn spec_as_str(v: TomlValue) -> Option<Seq<char>> {
    match v {
        TomlValue::String(s) => Some(s@),
        _ => None,
    }
}

/// The text under `key` of a table, where it is a string.
pub open spec fn lookup_str(v: TomlValue, key: Seq<char>) -> Option<Seq<char>> {
    match spec_lookup(v, key) {
        Some(x) => spec_as_str(x),
        None => None,
    }
}

/// The truth value under `key` of a table, where it is a boolean.
pub open spec fn lookup_bool(v: TomlValue, key: Seq<char>) -> Option<bool> {
    match spec_lookup(v, key) {
        Some(TomlValue::Boolean(b)) => Some(b),
        _ => None,
    }
}

/// The integer under `key` of a table, where it is an integer.
pub open spec fn lookup_integer(v: TomlValue, key: Seq<char>) -> Option<i64> {
    match spec_lookup(v, key) {
        Some(TomlValue::Integer(i)) => Some(i),
        _ => None,
    }
}

/// The strings among `values`, in order.
pub open spec fn strings_in(values: Seq<TomlValue>) -> Seq<Seq<char>>
    decreases values.len(),
{
    if values.len() == 0 {
        Seq::empty()
    } else {
        let rest = strings_in(values.drop_last());
        match values.last() {
            TomlValue::String(s) => rest.push(s@),
            _ => rest,
        }
    }
}

impl TomlValue {
    /// The value under `key`, where `self` is a table that has one.
    pub fn lookup(&self, key: &str) -> (r: Option<&TomlValue>)
        ensures
            match r {
                Some(x) => spec_lookup(*self, key@) == Some(*x),
                None => spec_lookup(*self, key@) is None,
            },
    {
        match self {
            TomlValue::Table(entries) => {
                let n = entries.len();
                let mut i: usize = 0;
                while i < n
                    invariant
                        n == entries@.len(),
                        *self == TomlValue::Table(*entries),
                        i <= n,
                        forall|j: int| 0 <= j < i ==> entries@[j].0@ != key@,
                    decreases n - i,
                {
                    if str_eq(entries[i].0.as_str(), key) {
                        proof {
                            lemma_first_key(entries@, key@, i as int);
                        }
                        return Some(&entries[i].1);
                    }
                    i += 1;
                }
                None
            },
            _ => None,
        }
    }

    /// The text of a string value.
    pub fn as_str(&self) -> (r: Option<&str>)
        ensures
            match r {
                Some(s) => spec_as_str(*self) == Some(s@),
                None => spec_as_str(*self) is None,
            },
    {
        match self {
            TomlValue::String(s) => Some(s.as_str()),
            _ => None,
        }
    }

    /// The truth value of a boolean.
    pub fn as_bool(&self) -> (r: Option<bool>)
        ensures
            r == (match *self {
                TomlValue::Boolean(b) => Some(b),
                _ => None,
            }),
    {
        match self {
            TomlValue::Boolean(b) => Some(*b),
            _ => None,
        }
    }

    /// The number of an integer.
    pub fn as_integer(&self) -> (r: Option<i64>)
        ensures
            r == (match *self {
                TomlValue::Integer(i) => Some(i),
                _ => None,
            }),
    {
        match self {
            TomlValue::Integer(i) => Some(*i),
            _ => None,
        }
    }

    /// The elements of an array.
    pub fn as_array(&self) -> (r: Option<&Vec<TomlValue>>)
        ensures
            match r {
                Some(a) => *self == TomlValue::Array(*a),
                None => !(*self is Array),
            },
    {
        match self {
            TomlValue::Array(a) => Some(a),
            _ => None,
        }
    }
}

} // verus!
