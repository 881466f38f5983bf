//! Small helpers offered to callers of the crate.

use vstd::prelude::*;

verus! {

/// A rectangle, by its sides.
#[derive(Debug)]
pub struct Rectangle {
    pub width: u32,
    pub height: u32,
}

impl Rectangle {
    /// Whether `other` fits inside this rectangle with room to spare on both
    /// sides.
    pub fn can_hold(&self, other: &Rectangle) -> (holds: bool)
        ensures
            holds == (self.width > other.width && self.height > other.height),
    {
        self.width > other.width && self.height > other.height
    }
}

/// Adds two to `a`.
pub fn add_two(a: i32) -> (sum: i32)
    requires
        a + 2 <= i32::MAX,
    ensures
        sum == a + 2,
{
    a + 2
}

/// The greeting for a guest: `Hello`, the name, and an exclamation mark.
pub fn greeting(name: &str) -> (text: String)
    ensures
        text@ == "Hello "@ + name@ + "!"@,
{
    let mut text = "Hello ".to_owned();
    text.append(name);
    text.append("!");
    text
}

} // verus!
