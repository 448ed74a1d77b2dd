use subforge::error::CoreError;
use subforge::source_service::{new_source_id, source_name_for_create, source_name_for_update};

#[test]
fn create_keeps_the_name_as_given() {
    match source_name_for_create("  My Feed ") {
        Ok(name) => assert_eq!(name, "  My Feed "),
        Err(_) => panic!("a non-blank name is accepted"),
    }
}

#[test]
fn create_refuses_a_blank_name() {
    match source_name_for_create(" \t ") {
        Err(CoreError::ConfigInvalid(message)) => assert_eq!(message, "name 不能为空"),
        _ => panic!("a blank name is refused"),
    }
}

#[test]
fn update_trims_the_name() {
    match source_name_for_update("  Renamed  ") {
        Ok(name) => assert_eq!(name, "Renamed"),
        Err(_) => panic!("a non-blank name is accepted"),
    }
}

#[test]
fn update_refuses_an_empty_name() {
    match source_name_for_update("") {
        Err(CoreError::ConfigInvalid(message)) => assert_eq!(message, "name 不能为空"),
        _ => panic!("an empty name is refused"),
    }
}

#[test]
fn source_id_dashes_the_plugin_id() {
    assert_eq!(
        new_source_id("vendor.example.feed", 1700000000123456789),
        "source-vendor-example-feed-1700000000123456789"
    );
}

#[test]
fn source_id_at_the_epoch_and_before() {
    assert_eq!(new_source_id("p", 0), "source-p-0");
    assert_eq!(new_source_id("a.b", -42), "source-a-b--42");
    assert_eq!(
        new_source_id("x", i128::MIN),
        "source-x--170141183460469231731687303715884105728"
    );
}
