//! Value sources: where the value of a tag is looked up by the tag's name.

use std::collections::HashMap;
use vstd::prelude::*;

verus! {

/// A collaborator that resolves a name to a value.
pub trait GetValueByName<T> {
    /// Whether what the source holds is fixed by its value, so that
    /// [`GetValueByName::value_of`] describes every lookup. A source that
    /// reads state outside itself is not fixed.
    spec fn is_fixed(&self) -> bool;

    /// What a fixed source holds under `name`.
    spec fn value_of(&self, name: Seq<char>) -> Option<T>;

    /// Looks `name` up.
    fn get_by_name(&self, name: &str) -> (value: Option<T>)
        ensures
            self.is_fixed() ==> value == self.value_of(name@),
    ;
}

/// The value of the first entry of `entries` whose name is `name`.
pub open spec fn first_value(entries: Seq<(String, String)>, name: Seq<char>) -> Option<String>
    decreases entries.len(),
{
    if entries.len() == 0 {
        None
    } else if entries[0].0@ == name {
        Some(entries[0].1)
    } else {
        first_value(entries.skip(1), name)
    }
}

/// A value source held in memory: a list of names with their values. Where
/// a name occurs more than once, its first entry counts.
#[derive(Debug, Clone, PartialEq)]
pub struct ValueTable {
    pub entries: Vec<(String, String)>,
}

impl ValueTable {
    /// A table without entries.
    pub fn new() -> (table: ValueTable)
        ensures
            table.entries@.len() == 0,
    {
        ValueTable { entries: Vec::new() }
    }

    /// Adds an entry behind those that the table holds.
    pub fn insert(&mut self, name: String, value: String)
        ensures
            final(self).entries@ == old(self).entries@.push((name, value)),
    {
        self.entries.push((name, value));
    }
}

impl GetValueByName<String> for ValueTable {
    open spec fn is_fixed(&self) -> bool {
        true
    }

    open spec fn value_of(&self, name: Seq<char>) -> Option<String> {
        first_value(self.entries@, name)
    }

    fn get_by_name(&self, name: &str) -> (value: Option<String>) {
        let wanted = name.to_owned();
        let mut i: usize = 0;
        assert(self.entries@.skip(0) == self.entries@);
        while i < self.entries.len()
            invariant
                i <= self.entries@.len(),
                wanted@ == name@,
                first_value(self.entries@, name@) == first_value(
                    self.entries@.skip(i as int),
                    name@,
                ),
            decreases self.entries@.len() - i,
        {
            let entry = &self.entries[i];
            assert(self.entries@.skip(i as int)[0] == self.entries@[i as int]);
            if entry.0 == wanted {
                return Some(entry.1.clone());
            }
            assert(self.entries@.skip(i as int).skip(1) == self.entries@.skip(i as int + 1));
            i = i + 1;
        }
        None
    }
}

impl<'a, T: Clone> GetValueByName<T> for HashMap<&'a str, T> {
    open spec fn is_fixed(&self) -> bool {
        false
    }

    open spec fn value_of(&self, name: Seq<char>) -> Option<T> {
        None
    }

    fn get_by_name(&self, name: &str) -> (value: Option<T>) {
        match self.get(name) {
            Some(value) => Some(value.clone()),
            None => None,
        }
    }
}

} // verus!
