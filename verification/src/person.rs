//! People, and a builder that puts one together step by step.

use crate::address::Address;
use vstd::prelude::*;

verus! {

/// The number by which a person is identified.
#[derive(Debug, Clone, Copy, PartialEq, Eq, Hash, PartialOrd, Ord)]
pub struct Id(pub u32);

impl Id {
    /// The number itself.
    pub fn value(&self) -> (value: u32)
        ensures
            value == self.0,
    {
        self.0
    }
}

/// A person, with or without a known address.
#[derive(Debug, Clone, PartialEq, Eq)]
pub struct Person {
    pub id: Id,
    pub name: String,
    pub age: u32,
    pub address: Option<Address>,
}

impl Person {
    /// A person without an address.
    pub fn new(id: Id, name: &str, age: u32) -> (person: Self)
        ensures
            person.id == id,
            person.name@ == name@,
            person.age == age,
            person.address is None,
    {
        Person { id, name: name.to_string(), age, address: None }
    }
}

/// Collects what a `Person` is made of; `build` hands the person out.
pub struct PersonBuilder {
    id: Id,
    name: String,
    age: u32,
    address: Option<Address>,
}

impl View for PersonBuilder {
    type V = Person;

    /// The person that `build` would hand out now.
    closed spec fn view(&self) -> Person {
        Person { id: self.id, name: self.name, age: self.age, address: self.address }
    }
}

impl PersonBuilder {
    /// Starts a person without an address.
    pub fn new(id: Id, name: &str, age: u32) -> (builder: Self)
        ensures
            builder@.id == id,
            builder@.name@ == name@,
            builder@.age == age,
            builder@.address is None,
    {
        PersonBuilder { id, name: name.to_string(), age, address: None }
    }

    /// Sets the address, in place of any set before; the rest stays.
    pub fn address(self, street: &str, city: &str, country: &str) -> (builder: Self)
        ensures
            builder@.id == self@.id,
            builder@.name == self@.name,
            builder@.age == self@.age,
            builder@.address matches Some(address) && address.street@ == street@ && address.city@
                == city@ && address.country@ == country@,
    {
        let mut builder = self;
        builder.address = Some(Address::new(street, city, country));
        builder
    }

    /// The person collected so far.
    pub fn build(self) -> (person: Person)
        ensures
            person == self@,
    {
        Person { id: self.id, name: self.name, age: self.age, address: self.address }
    }
}

/// Whether `person` has the given number, name and age, and lives at the
/// given street, city and country, or has no address where `address` is
/// `None`.
pub open spec fn is_person(
    person: Person,
    id: u32,
    name: Seq<char>,
    age: u32,
    address: Option<(Seq<char>, Seq<char>, Seq<char>)>,
) -> bool {
    &&& person.id == Id(id)
    &&& person.name@ == name
    &&& person.age == age
    &&& match address {
        None => person.address is None,
        Some((street, city, country)) => person.address matches Some(at) && at.street@ == street
            && at.city@ == city && at.country@ == country,
    }
}

/// Three people to try things on: Alice and Bob, who live in Wonderland, and
/// Charlie, whose address is not known.
pub fn create_people() -> (people: Vec<Person>)
    ensures
        people.len() == 3,
        is_person(
            people[0],
            1,
            "Alice"@,
            30,
            Some(("123 Main St"@, "Wonderland"@, "Fictionland"@)),
        ),
        is_person(people[1], 2, "Bob"@, 35, Some(("456 Side St"@, "Wonderland"@, "Fictionland"@))),
        is_person(people[2], 3, "Charlie"@, 28, None),
{
    vec![
        PersonBuilder::new(Id(1), "Alice", 30).address(
            "123 Main St",
            "Wonderland",
            "Fictionland",
        ).build(),
        PersonBuilder::new(Id(2), "Bob", 35).address(
            "456 Side St",
            "Wonderland",
            "Fictionland",
        ).build(),
        PersonBuilder::new(Id(3), "Charlie", 28).build(),
    ]
}

} // verus!
