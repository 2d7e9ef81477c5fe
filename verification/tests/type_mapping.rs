use namma_dsl_rs::utils::{
    domain_type_to_db_type, extract_id_inner, get_file_state, hash_from_hash_object,
    hash_from_ls_tree, is_id_type, is_option_type, is_vec_type, rust_type_to_diesel_type,
    rust_type_to_sql_type, to_pascal, to_snake, unwrap_option, FileState,
};

fn names(v: &[&str]) -> Vec<String> {
    v.iter().map(|s| s.to_string()).collect()
}

fn pairs(v: &[(&str, &str)]) -> Vec<(String, String)> {
    v.iter().map(|(a, b)| (a.to_string(), b.to_string())).collect()
}

#[test]
fn snake_and_pascal_case() {
    assert_eq!(to_snake("CamelCase"), "camel_case");
    assert_eq!(to_snake("SeatLayout"), "seat_layout");
    assert_eq!(to_snake("createdAt"), "created_at");
    assert_eq!(to_pascal("seat_layout"), "SeatLayout");
    assert_eq!(to_pascal("camel_case"), "CamelCase");
}

#[test]
fn option_type_recognition() {
    assert!(is_option_type("Option<i32>"));
    assert!(is_option_type("Option<>"));
    assert!(!is_option_type("Option<"));
    assert!(!is_option_type("i32"));
    assert!(!is_option_type("Vec<Option<i32>>"));
}

#[test]
fn unwrap_option_strips_one_layer() {
    assert_eq!(unwrap_option("Option<Id<Seat>>"), "Id<Seat>");
    assert_eq!(unwrap_option("Option<Option<i32>>"), "Option<i32>");
    assert_eq!(unwrap_option("i32"), "i32");
    assert_eq!(unwrap_option("Option<é>"), "é");
}

#[test]
fn id_and_vec_types() {
    assert!(is_id_type("Id<Seat>"));
    assert!(is_id_type("Option<Id<Seat>>"));
    assert!(!is_id_type("Idx<Seat>"));
    assert!(is_vec_type("Vec<String>"));
    assert!(is_vec_type("Option<Vec<String>>"));
    assert!(!is_vec_type("String"));
    assert_eq!(extract_id_inner("Id<Merchant>"), "Merchant");
    assert_eq!(extract_id_inner("Option<Id<Seat>>"), "Seat");
    assert_eq!(extract_id_inner("Option<i32>"), "i32");
    assert_eq!(extract_id_inner("Id<>"), "");
}

#[test]
fn db_types() {
    let enums = names(&["SeatStatus"]);
    assert_eq!(domain_type_to_db_type("Option<Id<Seat>>", &enums), "Option<String>");
    assert_eq!(domain_type_to_db_type("Id<Seat>", &enums), "String");
    assert_eq!(
        domain_type_to_db_type("chrono::DateTime<chrono::Utc>", &enums),
        "chrono::NaiveDateTime"
    );
    assert_eq!(domain_type_to_db_type("chrono::NaiveDate", &enums), "chrono::NaiveDate");
    assert_eq!(domain_type_to_db_type("chrono::NaiveTime", &enums), "chrono::NaiveTime");
    assert_eq!(domain_type_to_db_type("SeatStatus", &enums), "String");
    assert_eq!(domain_type_to_db_type("Option<SeatStatus>", &enums), "Option<String>");
    assert_eq!(domain_type_to_db_type("Vec<String>", &enums), "serde_json::Value");
    assert_eq!(domain_type_to_db_type("i32", &enums), "i32");
    assert_eq!(
        domain_type_to_db_type("Option<Option<chrono::DateTime<chrono::Utc>>>", &enums),
        "Option<Option<chrono::NaiveDateTime>>"
    );
}

#[test]
fn diesel_types() {
    let enums = names(&["SeatStatus"]);
    let maps = pairs(&[("i32", "Int4"), ("String", "Text"), ("bool", "Bool")]);
    assert_eq!(rust_type_to_diesel_type("Option<i32>", &enums, &maps), "Nullable<Int4>");
    assert_eq!(rust_type_to_diesel_type("Id<Seat>", &enums, &maps), "Varchar");
    assert_eq!(rust_type_to_diesel_type("Option<Id<Seat>>", &enums, &maps), "Nullable<Varchar>");
    assert_eq!(rust_type_to_diesel_type("SeatStatus", &enums, &maps), "Text");
    assert_eq!(rust_type_to_diesel_type("Vec<i32>", &enums, &maps), "Jsonb");
    assert_eq!(rust_type_to_diesel_type("bool", &enums, &maps), "Bool");
    assert_eq!(rust_type_to_diesel_type("f64", &enums, &maps), "Text");
}

#[test]
fn diesel_type_takes_first_mapping() {
    let maps = pairs(&[("i32", "Int4"), ("i32", "Integer")]);
    assert_eq!(rust_type_to_diesel_type("i32", &[], &maps), "Int4");
}

#[test]
fn sql_types() {
    let enums = names(&["SeatStatus"]);
    let maps = pairs(&[("i32", "integer"), ("chrono::DateTime<chrono::Utc>", "timestamp with time zone")]);
    assert_eq!(rust_type_to_sql_type("Id<Seat>", &enums, &maps), "character varying(36)");
    assert_eq!(rust_type_to_sql_type("Option<Id<Seat>>", &enums, &maps), "character varying(36)");
    assert_eq!(rust_type_to_sql_type("SeatStatus", &enums, &maps), "text");
    assert_eq!(rust_type_to_sql_type("Option<Vec<i32>>", &enums, &maps), "jsonb");
    assert_eq!(rust_type_to_sql_type("i32", &enums, &maps), "integer");
    assert_eq!(
        rust_type_to_sql_type("chrono::DateTime<chrono::Utc>", &enums, &maps),
        "timestamp with time zone"
    );
    assert_eq!(rust_type_to_sql_type("f64", &enums, &maps), "text");
}

#[test]
fn sql_type_ignores_nullability() {
    let enums = names(&["SeatStatus"]);
    let maps = pairs(&[("i32", "integer")]);
    for t in ["i32", "SeatStatus", "Id<Seat>", "Vec<i32>", "f64"] {
        let wrapped = format!("Option<{}>", t);
        assert_eq!(
            rust_type_to_sql_type(&wrapped, &enums, &maps),
            rust_type_to_sql_type(t, &enums, &maps)
        );
    }
}

#[test]
fn option_wrapping_of_db_and_diesel_types() {
    let enums = names(&["SeatStatus"]);
    let maps = pairs(&[("i32", "Int4")]);
    for t in ["i32", "SeatStatus", "Id<Seat>", "Vec<i32>"] {
        let wrapped = format!("Option<{}>", t);
        assert_eq!(
            domain_type_to_db_type(&wrapped, &enums),
            format!("Option<{}>", domain_type_to_db_type(t, &enums))
        );
        assert_eq!(
            rust_type_to_diesel_type(&wrapped, &enums, &maps),
            format!("Nullable<{}>", rust_type_to_diesel_type(t, &enums, &maps))
        );
    }
}

#[test]
fn file_states() {
    assert_eq!(get_file_state(false, None, None), FileState::NotExist);
    assert_eq!(get_file_state(true, None, Some("a1".to_string())), FileState::New);
    assert_eq!(
        get_file_state(true, Some("a1".to_string()), Some("b2".to_string())),
        FileState::Changed
    );
    assert_eq!(
        get_file_state(true, Some("a1".to_string()), Some("a1".to_string())),
        FileState::Unchanged
    );
    assert_eq!(get_file_state(true, Some("a1".to_string()), None), FileState::New);
}

#[test]
fn git_output_hashes() {
    assert_eq!(
        hash_from_ls_tree("100644 blob 3b18e512dba79e4c8300dd08aeb37f8e728b8dad\tspec/Storage/Seat.yaml\n"),
        Some("3b18e512dba79e4c8300dd08aeb37f8e728b8dad".to_string())
    );
    assert_eq!(hash_from_ls_tree(""), None);
    assert_eq!(hash_from_ls_tree("100644 blob"), None);
    assert_eq!(hash_from_hash_object("3b18e512\n"), Some("3b18e512".to_string()));
    assert_eq!(hash_from_hash_object("  \n"), None);
}
