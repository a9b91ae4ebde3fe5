//! The attribute dictionary of one actor.
//!
//! Updates are cumulative: a value, once set, stays visible until the stream
//! sends a new value under the same name or a handler clears it.

use vstd::prelude::*;
use vstd::hash_map::StringHashMap;
use crate::attribute::Attribute;

verus! {

/// Mapping from attribute name to the value most recently received for it.
pub struct AttributeDictionary {
    entries: StringHashMap<Attribute>,
}

impl View for AttributeDictionary {
    type V = Map<Seq<char>, Attribute>;

    closed spec fn view(&self) -> Map<Seq<char>, Attribute> {
        self.entries@
    }
}

impl AttributeDictionary {
    /// An empty dictionary.
    pub fn new() -> (d: AttributeDictionary)
        ensures
            d@ == Map::<Seq<char>, Attribute>::empty(),
    {
        AttributeDictionary { entries: StringHashMap::new() }
    }

    /// The value currently stored under `name`, if any.
    pub fn get(&self, name: &str) -> (value: Option<Attribute>)
        ensures
            value == (if self@.contains_key(name@) {
                Some(self@[name@])
            } else {
                None
            }),
    {
        match self.entries.get(name) {
            Some(v) => Some(*v),
            None => None,
        }
    }

    /// Whether a value is stored under `name`.
    pub fn contains(&self, name: &str) -> (found: bool)
        ensures
            found == self@.contains_key(name@),
    {
        self.entries.contains_key(name)
    }

    /// Stores `value` under `name`, replacing any earlier value. Every other
    /// name keeps its value.
    pub fn set(&mut self, name: String, value: Attribute)
        ensures
            final(self)@ == old(self)@.insert(name@, value),
    {
        self.entries.insert(name, value);
    }

    /// Clears the value stored under `name`, if there is one. Every other
    /// name keeps its value.
    pub fn remove(&mut self, name: &str)
        ensures
            final(self)@ == old(self)@.remove(name@),
    {
        self.entries.remove(name);
    }
}

} // verus!
