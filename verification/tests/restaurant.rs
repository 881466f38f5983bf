use namespace_resolver::back_of_house::{Appetizer, Breakfast};
use namespace_resolver::front_of_house::hosting::add_to_waitlist;
use namespace_resolver::front_of_house::serving::serve_order;
use namespace_resolver::use_keyword;

#[test]
fn summer_breakfast_has_the_toast_asked_for() {
    let meal = Breakfast::summer("Rye");
    assert_eq!(meal.toast, "Rye");
}

#[test]
fn summer_breakfast_comes_with_peaches() {
    let meal = Breakfast::summer("Rye");
    assert_eq!(meal.seasonal_fruit(), "peaches");
}

#[test]
fn changing_the_toast_leaves_the_fruit() {
    let mut meal = Breakfast::summer("Rye");
    meal.toast = String::from("Wheat");
    assert_eq!(meal.toast, "Wheat");
    assert_eq!(meal.seasonal_fruit(), "peaches");
}

#[test]
fn appetizers_print_their_names() {
    assert_eq!(format!("{:?}", Appetizer::Soup), "Soup");
    assert_eq!(format!("{:?}", Appetizer::Salad), "Salad");
}

#[test]
fn the_front_of_house_can_be_called() {
    add_to_waitlist();
    serve_order();
    use_keyword();
}
