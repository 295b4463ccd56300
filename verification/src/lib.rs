//! Small verified building blocks: a singly linked LIFO list, prime number
//! helpers and plain record types.

pub mod address;
pub mod lifo_laws;
pub mod lifo_list;
pub mod person;
pub mod primes;
pub mod structs;
