use namespace_resolver::api::{add_two, greeting, Rectangle};

#[test]
fn it_works() {
    assert_eq!(2 + 2, 4);
}

#[test]
fn larger_can_hold_smaller() {
    let larger = Rectangle {
        width: 8,
        height: 7,
    };
    let smaller = Rectangle {
        width: 5,
        height: 1,
    };

    assert!(larger.can_hold(&smaller));
}

#[test]
fn smaller_cannot_hold_larger() {
    let larger = Rectangle { width: 8, height: 7 };
    let smaller = Rectangle { width: 5, height: 1 };

    assert!(!smaller.can_hold(&larger));
}

#[test]
fn equal_side_does_not_fit() {
    let outer = Rectangle { width: 8, height: 7 };
    let as_wide = Rectangle { width: 8, height: 1 };
    let as_high = Rectangle { width: 1, height: 7 };

    assert!(!outer.can_hold(&as_wide));
    assert!(!outer.can_hold(&as_high));
    assert!(!outer.can_hold(&outer));
}

#[test]
fn it_adds_two() {
    assert_eq!(4, add_two(2));
}

#[test]
fn it_adds_two_at_the_edges() {
    assert_eq!(i32::MIN + 2, add_two(i32::MIN));
    assert_eq!(1, add_two(-1));
    assert_eq!(i32::MAX, add_two(i32::MAX - 2));
}

#[test]
fn greeting_contains_name() {
    let result = greeting("Carol");
    assert!(
        result.contains("Carol"),
        "Greeting did not contain name, value was `{}`",
        result
    );
}

#[test]
fn greeting_is_exact() {
    assert_eq!(greeting("Carol"), "Hello Carol!");
    assert_eq!(greeting(""), "Hello !");
}

#[test]
fn using_result_in_tests() -> Result<(), String> {
    if 2 + 2 == 4 {
        Ok(())
    } else {
        Err(String::from("two plus two does not equal four"))
    }
}
