use nest_rs_http::MethodTable;

#[test]
fn an_empty_table_advertises_nothing_and_claims_no_path() {
    let table = MethodTable::new();
    assert!(table.is_empty());
    assert_eq!(table.allow_value(), "");
}

#[test]
fn a_get_carries_the_head_poem_answers_through_it() {
    assert_eq!(MethodTable::new().get().allow_value(), "GET, HEAD");
}

#[test]
fn verbs_are_advertised_in_declaration_order() {
    let table = MethodTable::new().post().get().delete();
    assert_eq!(table.allow_value(), "POST, GET, HEAD, DELETE");
}

#[test]
fn a_table_without_a_get_advertises_no_head() {
    assert_eq!(MethodTable::new().post().patch().put().allow_value(), "POST, PATCH, PUT");
}

#[test]
fn a_registered_head_is_not_advertised_twice() {
    let table = MethodTable::new().get().method("HEAD");
    assert_eq!(table.allow_value(), "GET, HEAD");
    assert!(!table.is_empty());
}
