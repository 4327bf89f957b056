//! A person record: a name and an age, set once at construction.
use vstd::prelude::*;

verus! {

/// A record with a name and an age. Any text and any 64-bit age are accepted.
#[derive(Clone)]
pub struct Person {
    pub name: String,
    pub age: u64,
}

impl Person {
    /// Builds a record holding exactly the given name and age.
    pub fn new(name: String, age: u64) -> (r: Person)
        ensures
            r.name@ == name@,
            r.age == age,
    {
        Person { name, age }
    }
}

} // verus!
