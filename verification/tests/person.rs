use exercises::address::Address;
use exercises::person::{create_people, Id, Person, PersonBuilder};

#[test]
fn id_test() {
    let id = Id(42);
    assert_eq!(id.value(), 42);
}

#[test]
fn person_creation() {
    let person = PersonBuilder::new(Id(1), "Test User", 25)
        .address("789 Test St", "Testville", "Testland")
        .build();

    assert_eq!(person.id.value(), 1);
    assert_eq!(person.name, "Test User");
    assert_eq!(person.age, 25);
    assert!(person.address.is_some());

    let address = person.address.unwrap();
    assert_eq!(address.street, "789 Test St");
    assert_eq!(address.city, "Testville");
    assert_eq!(address.country, "Testland");
}

#[test]
fn person_creation_without_address() {
    let person = PersonBuilder::new(Id(2), "No Address", 40).build();
    assert_eq!(person.id.value(), 2);
    assert_eq!(person.name, "No Address");
    assert_eq!(person.age, 40);
    assert!(person.address.is_none());
}

#[test]
fn address_new_keeps_every_part() {
    let address = Address::new("1 High St", "Smallville", "Nowhere");
    assert_eq!(address.street, "1 High St");
    assert_eq!(address.city, "Smallville");
    assert_eq!(address.country, "Nowhere");
}

#[test]
fn person_new_has_no_address() {
    let person = Person::new(Id(7), "Dana", 51);
    assert_eq!(person.id, Id(7));
    assert_eq!(person.name, "Dana");
    assert_eq!(person.age, 51);
    assert_eq!(person.address, None);
}

#[test]
fn builder_keeps_the_last_address() {
    let person = PersonBuilder::new(Id(9), "Eve", 33)
        .address("1 First St", "Oldtown", "Oldland")
        .address("2 Second St", "Newtown", "Newland")
        .build();
    assert_eq!(person.address, Some(Address::new("2 Second St", "Newtown", "Newland")));
    assert_eq!(person.id.value(), 9);
    assert_eq!(person.name, "Eve");
    assert_eq!(person.age, 33);
}

#[test]
fn create_people_gives_alice_bob_and_charlie() {
    let people = create_people();
    assert_eq!(people.len(), 3);
    assert_eq!(
        people[0],
        Person {
            id: Id(1),
            name: "Alice".to_string(),
            age: 30,
            address: Some(Address::new("123 Main St", "Wonderland", "Fictionland")),
        }
    );
    assert_eq!(
        people[1],
        Person {
            id: Id(2),
            name: "Bob".to_string(),
            age: 35,
            address: Some(Address::new("456 Side St", "Wonderland", "Fictionland")),
        }
    );
    assert_eq!(people[2], Person::new(Id(3), "Charlie", 28));
}

#[test]
fn ids_order_by_their_number() {
    assert!(Id(1) < Id(2));
    assert_eq!(Id(5), Id(5));
    assert_eq!(Id(5).clone().value(), 5);
}
