use mailconfig::expansion::{add_member, names_a_member, parse_members, remove_member, ListEditError};

#[test]
fn add_member_appends_new_member() {
    assert_eq!(add_member("a@x, b@x", "c@x"), "a@x, b@x, c@x");
}

#[test]
fn add_member_keeps_list_when_present() {
    assert_eq!(add_member("a@x,  b@x ", "b@x"), "a@x,  b@x ");
    assert_eq!(add_member("a@x,b@x", " b@x"), "a@x, b@x,  b@x");
}

#[test]
fn add_member_twice_is_add_once() {
    let once = add_member("a@x,b@x", "c@x");
    let twice = add_member(&once, "c@x");
    assert_eq!(once, "a@x, b@x, c@x");
    assert_eq!(twice, once);
}

#[test]
fn add_member_to_empty_text() {
    assert_eq!(add_member("", "a@x"), ", a@x");
}

#[test]
fn parse_members_trims_pieces() {
    let ms = parse_members(" a@x ,b@x,\tc@x\n");
    assert_eq!(ms, vec!["a@x".to_string(), "b@x".to_string(), "c@x".to_string()]);
    assert_eq!(parse_members(""), vec!["".to_string()]);
    assert_eq!(parse_members("a,,b"), vec!["a".to_string(), "".to_string(), "b".to_string()]);
}

#[test]
fn remove_member_filters_every_copy() {
    assert_eq!(remove_member("a@x, b@x, a@x", "a@x"), Ok("b@x".to_string()));
    assert_eq!(remove_member(" a@x ,b@x,c@x", "b@x"), Ok("a@x, c@x".to_string()));
}

#[test]
fn remove_only_member_would_empty_list() {
    assert_eq!(remove_member("b@x", "b@x"), Err(ListEditError::WouldBecomeEmpty));
    assert_eq!(remove_member(" b@x , b@x", "b@x"), Err(ListEditError::WouldBecomeEmpty));
}

#[test]
fn remove_absent_member_is_not_found() {
    assert_eq!(remove_member("a@x, b@x", "c@x"), Err(ListEditError::ComponentNotFound));
    assert_eq!(remove_member("a@x,b@x", "c@x"), Err(ListEditError::ComponentNotFound));
}

#[test]
fn add_remove_add_round_trip() {
    let start = "y@x,x,z@x";
    let a = add_member(start, "x");
    let r = remove_member(&a, "x").unwrap();
    let b = add_member(&r, "x");
    assert_eq!(a, start);
    assert_eq!(r, "y@x, z@x");
    assert_eq!(b, "y@x, z@x, x");
    let mut members_a = parse_members(&a);
    let mut members_b = parse_members(&b);
    members_a.sort();
    members_b.sort();
    assert_eq!(members_a, members_b);
    let again = add_member(&remove_member(&b, "x").unwrap(), "x");
    assert_eq!(again, b);
}

#[test]
fn member_lists_need_a_real_member() {
    assert!(!names_a_member(""));
    assert!(!names_a_member(" \t\n"));
    assert!(!names_a_member(","));
    assert!(!names_a_member(" , \u{3000},"));
    assert!(names_a_member(" ,a@x"));
    assert!(names_a_member("a@x"));
}
