//! The loosely typed configuration of a backend, and the typed settings that
//! are read from it.

use crate::text::{decimal_text, i64_to_string, str_eq};
use vstd::prelude::*;
use vstd::string::StringExecFns;

verus! {

/// A configuration value.
#[derive(Debug)]
pub enum ConfigValue {
    String(String),
    Number(i64),
    Boolean(bool),
}

impl ConfigValue {
    /// The value as text.
    pub open spec fn text(self) -> Seq<char> {
        match self {
            ConfigValue::String(s) => s@,
            ConfigValue::Number(n) => decimal_text(n as int),
            ConfigValue::Boolean(b) => if b {
                "true"@
            } else {
                "false"@
            },
        }
    }

    /// The value as a switch: a boolean stands for itself, the text `true`
    /// switches on, and everything else leaves the switch off.
    pub open spec fn switches_on(self) -> bool {
        match self {
            ConfigValue::Boolean(b) => b,
            ConfigValue::String(s) => s@ == "true"@,
            ConfigValue::Number(_) => false,
        }
    }

    /// Renders the value as text: a string as it is, a number in decimal, a
    /// boolean as `true` or `false`.
    pub fn to_string(&self) -> (text: String)
        ensures
            text@ == self.text(),
    {
        match self {
            ConfigValue::String(s) => s.clone(),
            ConfigValue::Number(n) => i64_to_string(*n),
            ConfigValue::Boolean(b) => if *b {
                String::from_str("true")
            } else {
                String::from_str("false")
            },
        }
    }

    /// Reads the value as a switch.
    pub fn is_switched_on(&self) -> (on: bool)
        ensures
            on == self.switches_on(),
    {
        match self {
            ConfigValue::Boolean(b) => *b,
            ConfigValue::String(s) => str_eq(s.as_str(), "true"),
            ConfigValue::Number(_) => false,
        }
    }

    /// A copy of the value.
    pub fn duplicate(&self) -> (copy: ConfigValue)
        ensures
            copy == *self,
    {
        match self {
            ConfigValue::String(s) => ConfigValue::String(s.clone()),
            ConfigValue::Number(n) => ConfigValue::Number(*n),
            ConfigValue::Boolean(b) => ConfigValue::Boolean(*b),
        }
    }
}

/// The position of the first entry with the key `key`, if there is one.
pub open spec fn position_of(entries: Seq<(String, ConfigValue)>, key: Seq<char>) -> Option<int>
    decreases entries.len(),
{
    if entries.len() == 0 {
        None
    } else if entries[0].0@ == key {
        Some(0)
    } else {
        match position_of(entries.drop_first(), key) {
            Some(i) => Some(i + 1),
            None => None,
        }
    }
}

/// What `position_of` finds is the first entry with the key, and it finds
/// nothing only where no entry has the key.
pub proof fn lemma_position_of(entries: Seq<(String, ConfigValue)>, key: Seq<char>)
    ensures
        match position_of(entries, key) {
            Some(i) => 0 <= i < entries.len() && entries[i].0@ == key && forall|j: int|
                0 <= j < i ==> (#[trigger] entries[j]).0@ != key,
            None => forall|j: int| 0 <= j < entries.len() ==> (#[trigger] entries[j]).0@ != key,
        },
    decreases entries.len(),
{
    if entries.len() > 0 && entries[0].0@ != key {
        let rest = entries.drop_first();
        lemma_position_of(rest, key);
        match position_of(rest, key) {
            Some(i) => {
                assert forall|j: int| 0 <= j < i + 1 implies (#[trigger] entries[j]).0@ != key by {
                    if j > 0 {
                        assert(entries[j] == rest[j - 1]);
                    }
                }
            },
            None => {
                assert forall|j: int| 0 <= j < entries.len() implies (#[trigger] entries[j]).0@
                    != key by {
                    if j > 0 {
                        assert(entries[j] == rest[j - 1]);
                    }
                }
            },
        }
    }
}

/// The entries after `key` is set to `value`: an entry with that key gets the
/// new value and keeps its place and its key, otherwise a new entry is added
/// at the end.
pub open spec fn with_entry(
    entries: Seq<(String, ConfigValue)>,
    key: String,
    value: ConfigValue,
) -> Seq<(String, ConfigValue)> {
    match position_of(entries, key@) {
        Some(i) => entries.update(i, (entries[i].0, value)),
        None => entries.push((key, value)),
    }
}

/// An ordered mapping of string keys to configuration values: entries stay
/// in the order in which their keys were first set, and no key occurs twice.
#[derive(Debug)]
pub struct BackendConfig {
    entries: Vec<(String, ConfigValue)>,
}

impl BackendConfig {
    /// The entries, in the order in which their keys were first set.
    pub closed spec fn entries(&self) -> Seq<(String, ConfigValue)> {
        self.entries@
    }

    /// No key occurs twice.
    pub open spec fn wf(&self) -> bool {
        forall|i: int, j: int|
            0 <= i < j < self.entries().len() ==> (#[trigger] self.entries()[i]).0@ != (
            #[trigger] self.entries()[j]).0@
    }

    /// The value that is set for `key`, if any.
    pub open spec fn lookup(&self, key: Seq<char>) -> Option<ConfigValue> {
        match position_of(self.entries(), key) {
            Some(i) => Some(self.entries()[i].1),
            None => None,
        }
    }

    /// A configuration without entries.
    pub fn new() -> (config: BackendConfig)
        ensures
            config.wf(),
            config.entries() == Seq::<(String, ConfigValue)>::empty(),
    {
        BackendConfig { entries: Vec::new() }
    }

    /// The number of entries.
    pub fn len(&self) -> (n: usize)
        ensures
            n == self.entries().len(),
    {
        self.entries.len()
    }

    /// Removes every entry.
    pub fn clear(&mut self)
        ensures
            final(self).wf(),
            final(self).entries() == Seq::<(String, ConfigValue)>::empty(),
    {
        self.entries.clear();
    }

    /// A copy of the configuration.
    pub fn duplicate(&self) -> (copy: BackendConfig)
        ensures
            copy.entries() == self.entries(),
    {
        let mut entries: Vec<(String, ConfigValue)> = Vec::new();
        let n: usize = self.entries.len();
        let mut i: usize = 0;
        while i < n
            invariant
                n == self.entries@.len(),
                i <= n,
                entries@ =~= self.entries@.take(i as int),
            decreases n - i,
        {
            let key = self.entries[i].0.clone();
            let value = self.entries[i].1.duplicate();
            entries.push((key, value));
            i = i + 1;
        }
        proof {
            assert(self.entries@.take(n as int) =~= self.entries@);
        }
        BackendConfig { entries }
    }

    /// Where the entry with the key `key` stands, if there is one.
    fn find(&self, key: &str) -> (found: Option<usize>)
        ensures
            match found {
                Some(i) => i < self.entries().len() && position_of(self.entries(), key@) == Some(
                    i as int,
                ),
                None => position_of(self.entries(), key@) is None,
            },
    {
        let n: usize = self.entries.len();
        let mut i: usize = 0;
        proof {
            assert(self.entries@.skip(0) =~= self.entries@);
        }
        while i < n
            invariant
                n == self.entries@.len(),
                i <= n,
                position_of(self.entries@, key@) == match position_of(
                    self.entries@.skip(i as int),
                    key@,
                ) {
                    Some(k) => Some(k + i),
                    None => None,
                },
            decreases n - i,
        {
            proof {
                assert(self.entries@.skip(i as int).drop_first() == self.entries@.skip(i + 1));
            }
            if str_eq(self.entries[i].0.as_str(), key) {
                return Some(i);
            }
            i = i + 1;
        }
        None
    }

    /// The value that is set for `key`, if any.
    pub fn get(&self, key: &str) -> (value: Option<&ConfigValue>)
        ensures
            match value {
                Some(v) => self.lookup(key@) == Some(*v),
                None => self.lookup(key@) is None,
            },
    {
        match self.find(key) {
            Some(i) => Some(&self.entries[i].1),
            None => None,
        }
    }

    /// Sets `key` to `value`: an entry with that key gets the new value and
    /// keeps its place, otherwise a new entry is added at the end. The former
    /// value is handed back.
    pub fn insert(&mut self, key: String, value: ConfigValue) -> (former: Option<ConfigValue>)
        requires
            old(self).wf(),
        ensures
            final(self).wf(),
            former == old(self).lookup(key@),
            final(self).lookup(key@) == Some(value),
            forall|other: Seq<char>| other != key@ ==> final(self).lookup(other) == old(self).lookup(
                other,
            ),
            final(self).entries() == with_entry(old(self).entries(), key, value),
    {
        proof {
            lemma_position_of(self.entries@, key@);
        }
        let found = self.find(key.as_str());
        let ghost before = self.entries@;
        let former = match found {
            Some(i) => {
                let (name, former) = self.entries.remove(i);
                self.entries.insert(i, (name, value));
                proof {
                    assert(self.entries@ =~= before.update(i as int, (before[i as int].0, value)));
                }
                Some(former)
            },
            None => {
                self.entries.push((key, value));
                None
            },
        };
        proof {
            let after = self.entries@;
            assert forall|other: Seq<char>| position_of(after, other) == (if other == key@ {
                match position_of(before, key@) {
                    Some(i) => Some(i),
                    None => Some(before.len() as int),
                }
            } else {
                position_of(before, other)
            }) by {
                lemma_same_keys_same_positions(before, after, key@, other);
            }
            assert forall|other: Seq<char>| other != key@ implies self.lookup(other) == old(
                self,
            ).lookup(other) by {
                lemma_position_of(before, other);
            }
        }
        former
    }
}

/// Setting the value of `key` moves no entry: every key is found where it
/// was, and `key` itself where it was or, if it is new, at the end.
proof fn lemma_same_keys_same_positions(
    before: Seq<(String, ConfigValue)>,
    after: Seq<(String, ConfigValue)>,
    key: Seq<char>,
    other: Seq<char>,
)
    requires
        match position_of(before, key) {
            Some(i) => after.len() == before.len() && after[i].0@ == key && forall|j: int|
                0 <= j < before.len() && j != i ==> after[j] == before[j],
            None => after.len() == before.len() + 1 && after[before.len() as int].0@ == key
                && forall|j: int| 0 <= j < before.len() ==> after[j] == before[j],
        },
    ensures
        position_of(after, other) == (if other == key {
            match position_of(before, key) {
                Some(i) => Some(i),
                None => Some(before.len() as int),
            }
        } else {
            position_of(before, other)
        }),
{
    lemma_position_of(before, key);
    lemma_position_of(before, other);
    lemma_position_of(after, other);
}

} // verus!
