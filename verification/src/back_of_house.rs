//! The back of the house, where the meals are made.

use vstd::prelude::*;
use crate::front_of_house::serving::serve_order;

verus! {

/// A breakfast. The guest chooses the toast; the fruit is whatever the season
/// offers, and the kitchen alone decides on it.
pub struct Breakfast {
    pub toast: String,
    seasonal_fruit: String,
}

/// What can be had before the meal.
#[derive(Debug)]
pub enum Appetizer {
    Soup,
    Salad,
}

/// A breakfast as contracts see it.
pub struct BreakfastView {
    pub toast: Seq<char>,
    pub seasonal_fruit: Seq<char>,
}

impl View for Breakfast {
    type V = BreakfastView;

    closed spec fn view(&self) -> BreakfastView {
        BreakfastView { toast: self.toast@, seasonal_fruit: self.seasonal_fruit@ }
    }
}

impl Breakfast {
    /// A summer breakfast: the toast that was asked for, with peaches.
    pub fn summer(toast: &str) -> (meal: Breakfast)
        ensures
            meal@ == (BreakfastView { toast: toast@, seasonal_fruit: "peaches"@ }),
    {
        Breakfast { toast: toast.to_owned(), seasonal_fruit: "peaches".to_owned() }
    }

    /// The fruit that comes with this breakfast.
    pub fn seasonal_fruit(&self) -> (fruit: &str)
        ensures
            fruit@ == self@.seasonal_fruit,
    {
        self.seasonal_fruit.as_str()
    }
}

/// Has an order that went wrong cooked again and brought out.
#[allow(dead_code)]
fn fix_incorrect_order() {
    cook_order();
    serve_order();
}

/// Cooks an order.
#[allow(dead_code)]
fn cook_order() {
}

} // verus!
