use namespace_resolver::alias::AliasTable;

#[test]
fn lookup_returns_what_was_bound() {
    let mut table = AliasTable::new();
    table.bind("hosting", "front_of_house.hosting");
    assert_eq!(table.lookup("hosting"), Some("front_of_house.hosting"));
}

#[test]
fn lookup_of_an_unbound_alias_is_none() {
    let mut table = AliasTable::new();
    assert_eq!(table.lookup("hosting"), None);
    table.bind("hosting", "front_of_house.hosting");
    assert_eq!(table.lookup("serving"), None);
    assert_eq!(table.lookup(""), None);
}

#[test]
fn last_binding_wins() {
    let mut table = AliasTable::new();
    table.bind("hosting", "front_of_house.hosting");
    table.bind("hosting", "back_of_house.hosting");
    assert_eq!(table.lookup("hosting"), Some("back_of_house.hosting"));
}

#[test]
fn rebinding_leaves_other_aliases_alone() {
    let mut table = AliasTable::new();
    table.bind("hosting", "front_of_house.hosting");
    table.bind("serving", "front_of_house.serving");
    table.bind("hosting", "back_of_house.hosting");
    assert_eq!(table.lookup("serving"), Some("front_of_house.serving"));
    assert_eq!(table.lookup("hosting"), Some("back_of_house.hosting"));
}

#[test]
fn two_names_may_stand_for_one_path() {
    let mut table = AliasTable::new();
    table.bind("hosting", "front_of_house.hosting");
    table.bind("hosting_alias", "front_of_house.hosting");
    assert_eq!(table.lookup("hosting"), Some("front_of_house.hosting"));
    assert_eq!(table.lookup("hosting_alias"), Some("front_of_house.hosting"));
}

#[test]
fn a_binding_is_a_snapshot_of_its_text() {
    let mut table = AliasTable::new();
    let mut path = String::from("front_of_house.hosting");
    table.bind("hosting", &path);
    path.push_str(".add_to_waitlist");
    assert_eq!(table.lookup("hosting"), Some("front_of_house.hosting"));
}
