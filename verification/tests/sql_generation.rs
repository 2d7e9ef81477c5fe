use namma_dsl_rs::generator::sql::{
    generate_fresh_sql, generate_sql, parse_existing_columns, scan_existing_columns,
    try_generate_sql,
};
use namma_dsl_rs::types::storage::{FieldDef, IndexDef, TableDef, TypeObject};

fn field(name: &str, snake: &str, ty: &str, nullable: bool, default: Option<&str>) -> FieldDef {
    FieldDef {
        field_name: name.to_string(),
        field_name_snake: snake.to_string(),
        rust_type: ty.to_string(),
        is_nullable: nullable,
        is_primary_key: false,
        default_value: default.map(|d| d.to_string()),
    }
}

fn seat_table() -> TableDef {
    TableDef {
        table_name_rust: "Seat".to_string(),
        table_name_sql: "seat".to_string(),
        fields: vec![
            field("id", "id", "Id<Seat>", false, None),
            field("name", "name", "Option<String>", true, None),
            field("createdAt", "created_at", "chrono::DateTime<chrono::Utc>", false, Some("CURRENT_TIMESTAMP")),
            field("status", "status", "SeatStatus", false, None),
        ],
        types: vec![TypeObject {
            name: "SeatStatus".to_string(),
            variants: vec!["Available".to_string()],
            is_enum: true,
            derives: vec![],
        }],
        imports: vec![],
        queries: vec![],
        primary_key: vec!["id".to_string()],
        secondary_keys: vec![vec!["name".to_string()]],
        derives: vec![],
        defaults: vec![],
        extra_indexes: vec![
            IndexDef { columns: vec!["layoutId".to_string(), "seatNumber".to_string()], unique: true },
            IndexDef { columns: vec!["status".to_string()], unique: false },
        ],
    }
}

fn maps() -> Vec<(String, String)> {
    vec![
        ("String".to_string(), "text".to_string()),
        ("chrono::DateTime<chrono::Utc>".to_string(), "timestamp with time zone".to_string()),
    ]
}

const FRESH: &str = "CREATE TABLE atlas.seat ();\n\
\n\
ALTER TABLE atlas.seat ADD COLUMN id character varying(36) NOT NULL;\n\
ALTER TABLE atlas.seat ADD COLUMN name text;\n\
ALTER TABLE atlas.seat ADD COLUMN created_at timestamp with time zone NOT NULL default CURRENT_TIMESTAMP;\n\
ALTER TABLE atlas.seat ADD COLUMN status text NOT NULL;\n\
ALTER TABLE atlas.seat ADD PRIMARY KEY ( id);\n\
CREATE INDEX idx_seat_name ON atlas.seat (name);\n\
ALTER TABLE atlas.seat ADD CONSTRAINT idx_seat_layout_id_seat_number UNIQUE (layout_id, seat_number);\n\
CREATE INDEX idx_seat_status ON atlas.seat (status);\n";

#[test]
fn fresh_migration() {
    assert_eq!(generate_sql(&seat_table(), "atlas", &maps(), None), FRESH);
}

#[test]
fn fresh_migration_without_keys() {
    let mut t = seat_table();
    t.primary_key.clear();
    t.secondary_keys.clear();
    t.extra_indexes.clear();
    t.fields.truncate(1);
    let out = generate_fresh_sql(&t, "db", &["SeatStatus".to_string()], &maps());
    assert_eq!(
        out,
        "CREATE TABLE db.seat ();\n\nALTER TABLE db.seat ADD COLUMN id character varying(36) NOT NULL;\n"
    );
}

#[test]
fn regenerating_against_own_output_changes_nothing() {
    let out = generate_sql(&seat_table(), "atlas", &maps(), Some(FRESH));
    assert_eq!(out, FRESH);
}

#[test]
fn incremental_adds_missing_columns() {
    let existing = "CREATE TABLE atlas.seat ();\n\nALTER TABLE atlas.seat ADD COLUMN id character varying(36) NOT NULL;\nalter table atlas.seat add column name text;\n\n\n";
    let out = generate_sql(&seat_table(), "atlas", &maps(), Some(existing));
    let expected = "CREATE TABLE atlas.seat ();\n\nALTER TABLE atlas.seat ADD COLUMN id character varying(36) NOT NULL;\nalter table atlas.seat add column name text;\n\n------- SQL updates -------\n\nALTER TABLE atlas.seat ADD COLUMN created_at timestamp with time zone NOT NULL default CURRENT_TIMESTAMP;\nALTER TABLE atlas.seat ADD COLUMN status text NOT NULL;\n";
    assert_eq!(out, expected);
}

#[test]
fn existing_columns_from_migration() {
    let sql = "CREATE TABLE a.t ();\n  ALTER TABLE a.t ADD COLUMN id text NOT NULL;\r\nALTER TABLE a.t add Column   seat_no integer;\nADD COLUMN \n-- nothing here\n";
    assert_eq!(parse_existing_columns(sql), vec!["id".to_string(), "seat_no".to_string()]);
}

#[test]
fn unscannable_migration_is_refused() {
    // Uppercasing 'ŉ' takes one byte more, so the marker's position lands inside 'é'.
    let existing = "ŉ add column é\n";
    assert_eq!(try_generate_sql(&seat_table(), "atlas", &maps(), Some(existing)), None);
    assert_eq!(
        try_generate_sql(&seat_table(), "atlas", &maps(), Some(FRESH)),
        Some(FRESH.to_string())
    );
    assert_eq!(try_generate_sql(&seat_table(), "atlas", &maps(), None), Some(FRESH.to_string()));
}

#[test]
fn second_incremental_run_adds_nothing() {
    let existing = "CREATE TABLE atlas.seat ();\n\nALTER TABLE atlas.seat ADD COLUMN name text;\n \t\n";
    let once = generate_sql(&seat_table(), "atlas", &maps(), Some(existing));
    assert_ne!(once, existing);
    let twice = generate_sql(&seat_table(), "atlas", &maps(), Some(once.as_str()));
    assert_eq!(twice, once);
}

#[test]
fn second_run_with_multiline_default_adds_nothing() {
    let mut t = seat_table();
    t.fields[2].default_value = Some("'a\nb'".to_string());
    let fresh = generate_sql(&t, "atlas", &maps(), None);
    assert_eq!(generate_sql(&t, "atlas", &maps(), Some(fresh.as_str())), fresh);
    let once = generate_sql(&t, "atlas", &maps(), Some("CREATE TABLE atlas.seat ();\n"));
    assert_eq!(generate_sql(&t, "atlas", &maps(), Some(once.as_str())), once);
}

#[test]
fn ascii_migration_can_be_scanned() {
    let sql = "ALTER TABLE a.t ADD COLUMN\nadd column x;\r\n\tADD COLUMN y z\nADD COLUMN ";
    assert_eq!(
        scan_existing_columns(sql),
        Some(vec!["x;".to_string(), "y".to_string()])
    );
}
