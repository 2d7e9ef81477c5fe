use namma_dsl_rs::generator::sql::migration_file_name;
use namma_dsl_rs::types::storage::TableDef;
use namma_dsl_rs::utils::{
    get_file_state, is_searched_entry, rust_file_name, should_process, FileState,
};

#[test]
fn which_spec_files_are_processed() {
    assert!(should_process(true, FileState::Unchanged));
    assert!(should_process(false, FileState::New));
    assert!(should_process(false, FileState::Changed));
    assert!(!should_process(false, FileState::Unchanged));
    assert!(!should_process(false, FileState::NotExist));
    let same = get_file_state(true, Some("h".to_string()), Some("h".to_string()));
    assert!(!should_process(false, same));
    assert!(should_process(true, same));
}

#[test]
fn directory_walk_skips_hidden_and_build_dirs() {
    assert!(is_searched_entry("spec"));
    assert!(is_searched_entry("services"));
    assert!(!is_searched_entry(".git"));
    assert!(!is_searched_entry("target"));
    assert!(!is_searched_entry("node_modules"));
    assert!(is_searched_entry("targets"));
}

#[test]
fn output_file_names() {
    assert_eq!(rust_file_name("SeatLayout"), "seat_layout.rs");
    let t = TableDef {
        table_name_rust: "SeatLayout".to_string(),
        table_name_sql: "seat_layout".to_string(),
        fields: vec![],
        types: vec![],
        imports: vec![],
        queries: vec![],
        primary_key: vec![],
        secondary_keys: vec![],
        derives: vec![],
        defaults: vec![],
        extra_indexes: vec![],
    };
    assert_eq!(migration_file_name(&t), "seat_layout.sql");
}
