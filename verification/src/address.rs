//! Postal addresses.

use vstd::prelude::*;

verus! {

/// A postal address.
#[derive(Debug, Clone, PartialEq, Eq)]
pub struct Address {
    pub street: String,
    pub city: String,
    pub country: String,
}

impl Address {
    /// An address with the given street, city and country.
    pub fn new(street: &str, city: &str, country: &str) -> (address: Self)
        ensures
            address.street@ == street@,
            address.city@ == city@,
            address.country@ == country@,
    {
        Address {
            street: street.to_string(),
            city: city.to_string(),
            country: country.to_string(),
        }
    }
}

} // verus!
