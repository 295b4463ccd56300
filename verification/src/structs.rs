//! A minimal record with a name and an age.

use vstd::prelude::*;

verus! {

/// A person known by name and age in years.
pub struct Person {
    pub name: String,
    pub age: u8,
}

/// Builds a `Person` from `name` and `age`, one birthday later: the stored
/// age is `age + 1`.
pub fn create_person(name: &str, age: u8) -> (p: Person)
    requires
        age < u8::MAX,
    ensures
        p.name@ == name@,
        p.age == age + 1,
{
    let mut p = Person { name: name.to_string(), age };
    p.age += 1;
    p
}

} // verus!
