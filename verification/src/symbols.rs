//! The table that maps identifiers to their values.

use vstd::hash_map::StringHashMap;
use vstd::prelude::*;

verus! {

/// Maps each known identifier (a label, an `equ` constant or the name of a
/// block of raw data) to its signed 64-bit value.
pub struct SymbolTable {
    map: StringHashMap<i64>,
}

impl View for SymbolTable {
    type V = Map<Seq<char>, i64>;

    closed spec fn view(&self) -> Map<Seq<char>, i64> {
        self.map@
    }
}

impl SymbolTable {
    /// A table that knows no identifier.
    pub fn new() -> (table: SymbolTable)
        ensures
            table@ == Map::<Seq<char>, i64>::empty(),
    {
        SymbolTable { map: StringHashMap::new() }
    }

    /// The value bound to `name`, if there is one.
    pub fn get(&self, name: &str) -> (value: Option<i64>)
        ensures
            value == (if self@.contains_key(name@) {
                Some(self@[name@])
            } else {
                None
            }),
    {
        match self.map.get(name) {
            Some(v) => Some(*v),
            None => None,
        }
    }

    /// Whether `name` is bound.
    pub fn contains(&self, name: &str) -> (found: bool)
        ensures
            found == self@.contains_key(name@),
    {
        self.map.contains_key(name)
    }

    /// Binds `name` to `value` and returns the value it had before, if any.
    pub fn insert(&mut self, name: String, value: i64) -> (previous: Option<i64>)
        ensures
            final(self)@ == old(self)@.insert(name@, value),
            previous == (if old(self)@.contains_key(name@) {
                Some(old(self)@[name@])
            } else {
                None
            }),
    {
        let previous = self.get(name.as_str());
        self.map.insert(name, value);
        previous
    }

    /// Adds every binding of `other`; where both bind a name, `other` wins.
    pub fn absorb(&mut self, other: SymbolTable)
        ensures
            final(self)@ == old(self)@.union_prefer_right(other@),
    {
        self.map.union_prefer_right(other.map);
    }
}

} // verus!
