//! A static namespace resolver: a tree of nested namespaces that hold named
//! items, dotted paths resolved through it under a visibility rule, and a
//! table of local aliases for resolved paths.
//!
//! The crate's own modules are laid out as a small restaurant,
//! `front_of_house` and `back_of_house`, and give the examples their names.

pub mod alias;
pub mod api;
pub mod back_of_house;
pub mod front_of_house;
pub mod guarantees;
pub mod namespace;
pub mod resolver;
pub mod text;

use vstd::prelude::*;
use crate::front_of_house::hosting;
use crate::front_of_house::hosting as hosting_alias;

verus! {

/// Puts two parties on the waiting list, reaching `add_to_waitlist` through
/// the imported module once under its own name and once under an alias.
pub fn use_keyword() {
    hosting::add_to_waitlist();
    hosting_alias::add_to_waitlist();
}

} // verus!
