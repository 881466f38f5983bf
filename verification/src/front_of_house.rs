//! The front of the house, where the guests are.
//!
//! Together with `back_of_house` this is the module tree that the examples of
//! the resolver are shaped after: `hosting` and `serving` are public, and each
//! of them keeps some of its functions to itself.

pub mod hosting;
pub mod serving;
