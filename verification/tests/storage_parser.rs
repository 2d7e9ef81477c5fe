use namma_dsl_rs::config::{
    AppConfig, ExtraDefaultField, GenerateConfig, GeneratorKind, OutputConfig, StorageConfig,
};
use namma_dsl_rs::parser::storage::{kv_function_from, parse_storage_text, parse_storage_yaml, StorageError};
use namma_dsl_rs::types::storage::{
    FieldDef, KvFunction, OrderDirection, TableDef, WhereClause,
};
use namma_dsl_rs::yaml::{yaml_value_to_string, YamlValue};

fn s(x: &str) -> YamlValue {
    YamlValue::String(x.to_string())
}

fn map(entries: Vec<(&str, YamlValue)>) -> YamlValue {
    YamlValue::Mapping {
        entries: entries.into_iter().map(|(k, v)| (s(k), v)).collect(),
        rendered: "Mapping {..}".to_string(),
    }
}

fn seq(items: Vec<YamlValue>) -> YamlValue {
    YamlValue::Sequence { items, rendered: "Sequence [..]".to_string() }
}

fn config(extras: &[(&str, &str)]) -> AppConfig {
    AppConfig {
        output: OutputConfig {
            domain_type: String::new(),
            diesel_schema: String::new(),
            diesel_model: String::new(),
            queries: String::new(),
            sql: vec![],
        },
        storage: StorageConfig {
            extra_default_fields: extras
                .iter()
                .map(|(n, t)| ExtraDefaultField { name: n.to_string(), rust_type: t.to_string() })
                .collect(),
        },
        generate: GenerateConfig { generators: vec![GeneratorKind::SQL] },
        type_mapping: vec![],
    }
}

fn field<'a>(t: &'a TableDef, name: &str) -> &'a FieldDef {
    t.fields.iter().find(|f| f.field_name == name).expect("field present")
}

fn seat_spec() -> YamlValue {
    map(vec![
        ("imports", map(vec![("Merchant", s("Domain.Types.Merchant")), ("Id", s("Kernel.Types.Id"))])),
        (
            "Seat",
            map(vec![
                (
                    "fields",
                    map(vec![
                        ("id", s("Id<Seat>")),
                        ("seatNumber", s("i32")),
                        ("layoutId", s("Option<Id<SeatLayout>>")),
                        ("status", s("SeatStatus")),
                        ("createdAt", s("chrono::DateTime<chrono::Utc>")),
                    ]),
                ),
                (
                    "types",
                    map(vec![(
                        "SeatStatus",
                        map(vec![("enum", s("Available, Booked,, Blocked")), ("derive", s("Eq, Hash"))]),
                    )]),
                ),
                (
                    "constraints",
                    map(vec![
                        ("id", s("PrimaryKey")),
                        ("layoutId", s("!SecondaryKey")),
                        ("status", s("Unknown")),
                    ]),
                ),
                (
                    "default",
                    map(vec![
                        ("status", s("'Available'")),
                        ("seatNumber", YamlValue::Number("0".to_string())),
                        ("blocked", YamlValue::Bool(false)),
                    ]),
                ),
                (
                    "extraIndexes",
                    seq(vec![
                        map(vec![("columns", seq(vec![s("layoutId"), s("seatNumber")])), ("unique", YamlValue::Bool(true))]),
                        map(vec![("columns", seq(vec![s("status")]))]),
                        s("not an index"),
                    ]),
                ),
                (
                    "queries",
                    map(vec![
                        (
                            "findByLayoutId",
                            map(vec![
                                ("kvFunction", s("findAllWithOptionsKV")),
                                ("params", seq(vec![s("status")])),
                                ("where", map(vec![("and", seq(vec![s("layoutId"), map(vec![("or", seq(vec![s("status"), s("seatNumber")]))])]))])),
                                ("orderBy", s("-seatNumber")),
                            ]),
                        ),
                        (
                            "updateStatus",
                            map(vec![
                                ("kvFunction", s("updateManyWithKV")),
                                ("where", map(vec![("in", seq(vec![s("id"), YamlValue::Bool(true)]))])),
                                ("orderBy", s("seatNumber")),
                            ]),
                        ),
                        ("notAQuery", s("ignored")),
                    ]),
                ),
            ]),
        ),
        (
            "SeatLayout",
            map(vec![
                ("tableName", s("seat_layout_v2")),
                ("derives", s("Debug, Clone ,PartialEq")),
                ("fields", map(vec![("id", s("Id<SeatLayout>")), ("createdAt", s("Option<chrono::DateTime<chrono::Utc>>"))])),
            ]),
        ),
        ("notAModel", s("skipped")),
    ])
}

#[test]
fn root_must_be_a_mapping() {
    let r = parse_storage_yaml(&seq(vec![]), &config(&[]));
    assert!(matches!(r, Err(StorageError::RootNotMapping)));
    let r = parse_storage_yaml(&s("x"), &config(&[]));
    assert!(matches!(r, Err(StorageError::RootNotMapping)));
}

#[test]
fn tagged_root_is_untagged() {
    let root = YamlValue::Tagged {
        value: Box::new(map(vec![("A", map(vec![]))])),
        rendered: "TaggedValue".to_string(),
    };
    let tables = parse_storage_yaml(&root, &config(&[])).unwrap();
    assert_eq!(tables.len(), 1);
    assert_eq!(tables[0].table_name_rust, "A");
}

#[test]
fn models_in_order_and_imports_shared() {
    let tables = parse_storage_yaml(&seat_spec(), &config(&[])).unwrap();
    assert_eq!(tables.len(), 2);
    assert_eq!(tables[0].table_name_rust, "Seat");
    assert_eq!(tables[1].table_name_rust, "SeatLayout");
    for t in &tables {
        assert_eq!(
            t.imports,
            vec![
                ("Merchant".to_string(), "Domain.Types.Merchant".to_string()),
                ("Id".to_string(), "Kernel.Types.Id".to_string())
            ]
        );
    }
}

#[test]
fn table_names_and_derives() {
    let tables = parse_storage_yaml(&seat_spec(), &config(&[])).unwrap();
    assert_eq!(tables[0].table_name_sql, "seat");
    assert_eq!(tables[0].derives, vec!["Debug", "Clone", "Serialize", "Deserialize"]);
    assert_eq!(tables[1].table_name_sql, "seat_layout_v2");
    assert_eq!(tables[1].derives, vec!["Debug", "Clone", "PartialEq"]);
}

#[test]
fn fields_constraints_and_defaults() {
    let tables = parse_storage_yaml(&seat_spec(), &config(&[])).unwrap();
    let t = &tables[0];
    let names: Vec<&str> = t.fields.iter().map(|f| f.field_name.as_str()).collect();
    assert_eq!(names, vec!["id", "seatNumber", "layoutId", "status", "createdAt"]);
    let layout = field(t, "layoutId");
    assert_eq!(layout.field_name_snake, "layout_id");
    assert!(layout.is_nullable);
    assert!(!layout.is_primary_key);
    let id = field(t, "id");
    assert!(id.is_primary_key);
    assert!(!id.is_nullable);
    assert_eq!(field(t, "status").default_value.as_deref(), Some("'Available'"));
    assert_eq!(field(t, "seatNumber").default_value.as_deref(), Some("0"));
    assert_eq!(field(t, "createdAt").default_value, None);
    assert_eq!(t.primary_key, vec!["id"]);
    assert_eq!(t.secondary_keys, vec![vec!["layoutId".to_string()]]);
    assert_eq!(
        t.defaults,
        vec![
            ("status".to_string(), "'Available'".to_string()),
            ("seatNumber".to_string(), "0".to_string()),
            ("blocked".to_string(), "false".to_string())
        ]
    );
}

#[test]
fn enum_types() {
    let tables = parse_storage_yaml(&seat_spec(), &config(&[])).unwrap();
    let t = &tables[0];
    assert_eq!(t.types.len(), 1);
    assert_eq!(t.types[0].name, "SeatStatus");
    assert!(t.types[0].is_enum);
    assert_eq!(t.types[0].variants, vec!["Available", "Booked", "Blocked"]);
    assert_eq!(t.types[0].derives, vec!["Eq", "Hash"]);
}

#[test]
fn extra_indexes() {
    let tables = parse_storage_yaml(&seat_spec(), &config(&[])).unwrap();
    let t = &tables[0];
    assert_eq!(t.extra_indexes.len(), 2);
    assert_eq!(t.extra_indexes[0].columns, vec!["layoutId", "seatNumber"]);
    assert!(t.extra_indexes[0].unique);
    assert_eq!(t.extra_indexes[1].columns, vec!["status"]);
    assert!(!t.extra_indexes[1].unique);
}

#[test]
fn queries_where_and_order() {
    let tables = parse_storage_yaml(&seat_spec(), &config(&[])).unwrap();
    let t = &tables[0];
    assert_eq!(t.queries.len(), 2);
    let q = &t.queries[0];
    assert_eq!(q.name, "findByLayoutId");
    assert_eq!(q.name_snake, "find_by_layout_id");
    assert_eq!(q.kv_function, KvFunction::FindAll);
    assert_eq!(q.params, vec!["status"]);
    match &q.where_clause {
        WhereClause::And(cs) => {
            assert_eq!(cs.len(), 2);
            assert!(matches!(&cs[0], WhereClause::Leaf(x) if x == "layoutId"));
            match &cs[1] {
                WhereClause::Or(os) => {
                    assert!(matches!(&os[0], WhereClause::Leaf(x) if x == "status"));
                    assert!(matches!(&os[1], WhereClause::Leaf(x) if x == "seatNumber"));
                }
                other => panic!("expected or, got {:?}", other),
            }
        }
        other => panic!("expected and, got {:?}", other),
    }
    let ob = q.order_by.as_ref().unwrap();
    assert_eq!(ob.field, "seatNumber");
    assert_eq!(ob.direction, OrderDirection::Desc);
    let q2 = &t.queries[1];
    assert_eq!(q2.kv_function, KvFunction::Update);
    assert!(matches!(&q2.where_clause, WhereClause::In(v) if v == &vec!["id".to_string()]));
    assert_eq!(q2.order_by.as_ref().unwrap().direction, OrderDirection::Asc);
    assert!(q2.params.is_empty());
}

#[test]
fn kv_function_names_from_the_readme() {
    assert_eq!(kv_function_from("findOneWithKV"), KvFunction::FindOne);
    assert_eq!(kv_function_from("findAllWithKV"), KvFunction::FindAll);
    assert_eq!(kv_function_from("findAllWithOptionsKV"), KvFunction::FindAll);
    assert_eq!(kv_function_from("updateManyWithKV"), KvFunction::Update);
    assert_eq!(kv_function_from("updateWithKV"), KvFunction::Update);
    assert_eq!(kv_function_from("updateOneWithKV"), KvFunction::UpdateOne);
    assert_eq!(kv_function_from("deleteWithKV"), KvFunction::Delete);
    assert_eq!(kv_function_from("findOnePartial"), KvFunction::FindOnePartial);
    assert_eq!(kv_function_from("findAllPartialWithKV"), KvFunction::FindAllPartial);
    assert_eq!(kv_function_from("createWithKV"), KvFunction::FindOne);
    assert_eq!(kv_function_from(""), KvFunction::FindOne);
}

#[test]
fn extra_default_fields_added_once() {
    let cfg = config(&[
        ("createdAt", "chrono::DateTime<chrono::Utc>"),
        ("updatedAt", "chrono::DateTime<chrono::Utc>"),
        ("deletedAt", "Option<chrono::DateTime<chrono::Utc>>"),
    ]);
    let tables = parse_storage_yaml(&seat_spec(), &cfg).unwrap();
    let t = &tables[0];
    let names: Vec<&str> = t.fields.iter().map(|f| f.field_name.as_str()).collect();
    assert_eq!(
        names,
        vec!["id", "seatNumber", "layoutId", "status", "createdAt", "updatedAt", "deletedAt"]
    );
    assert_eq!(field(t, "createdAt").default_value, None);
    let updated = field(t, "updatedAt");
    assert_eq!(updated.field_name_snake, "updated_at");
    assert_eq!(updated.default_value.as_deref(), Some("CURRENT_TIMESTAMP"));
    assert!(!updated.is_nullable);
    assert!(field(t, "deletedAt").is_nullable);
    for (name, _) in [("createdAt", ""), ("updatedAt", ""), ("deletedAt", "")] {
        assert!(tables[1].fields.iter().any(|f| f.field_name == name));
    }
}

#[test]
fn extra_field_can_be_a_primary_key() {
    let spec = map(vec![(
        "Token",
        map(vec![
            ("fields", map(vec![("value", s("String"))])),
            ("constraints", map(vec![("tenant", s("PrimaryKey")), ("value", s("PrimaryKey"))])),
        ]),
    )]);
    let tables = parse_storage_yaml(&spec, &config(&[("tenant", "String")])).unwrap();
    let t = &tables[0];
    assert_eq!(t.primary_key, vec!["tenant", "value"]);
    for f in &t.fields {
        assert_eq!(f.is_primary_key, t.primary_key.contains(&f.field_name));
        assert!(f.is_primary_key);
    }
}

#[test]
fn default_values_read_as_text() {
    assert_eq!(yaml_value_to_string(&s("now()")), "now()");
    assert_eq!(yaml_value_to_string(&YamlValue::Number("1.5".to_string())), "1.5");
    assert_eq!(yaml_value_to_string(&YamlValue::Bool(true)), "true");
    assert_eq!(yaml_value_to_string(&YamlValue::Null { rendered: "Null".to_string() }), "Null");
}

const SEAT_YAML: &str = "imports:\n  Merchant: Domain.Types.Merchant\n\nSeat:\n  tableName: seats\n  fields:\n    id: Id<Seat>\n    seatNumber: Int\n    label: Option<Text>\n  constraints:\n    id: PrimaryKey\n    label: \"!SecondaryKey\"\n  default:\n    seatNumber: 0\n    label: null\n    flag: true\n  queries:\n    findById:\n      kvFunction: findOneWithKV\n      where: id\n";

#[test]
fn storage_text_is_parsed() {
    let tables = parse_storage_text(SEAT_YAML, &config(&[])).unwrap();
    assert_eq!(tables.len(), 1);
    let t = &tables[0];
    assert_eq!(t.table_name_rust, "Seat");
    assert_eq!(t.table_name_sql, "seats");
    assert_eq!(t.imports, vec![("Merchant".to_string(), "Domain.Types.Merchant".to_string())]);
    let names: Vec<&str> = t.fields.iter().map(|f| f.field_name.as_str()).collect();
    assert_eq!(names, vec!["id", "seatNumber", "label"]);
    assert_eq!(t.primary_key, vec!["id"]);
    assert_eq!(t.secondary_keys, vec![vec!["label".to_string()]]);
    assert_eq!(
        t.defaults,
        vec![
            ("seatNumber".to_string(), "0".to_string()),
            ("label".to_string(), "Null".to_string()),
            ("flag".to_string(), "true".to_string())
        ]
    );
    assert!(matches!(&t.queries[0].where_clause, WhereClause::Leaf(x) if x == "id"));
}

#[test]
fn storage_text_errors() {
    assert!(matches!(
        parse_storage_text("a: [1, 2", &config(&[])),
        Err(StorageError::InvalidYaml)
    ));
    assert!(matches!(
        parse_storage_text("- a\n- b\n", &config(&[])),
        Err(StorageError::RootNotMapping)
    ));
    let tagged = parse_storage_text("!doc\nA:\n  fields:\n    x: Int\n", &config(&[])).unwrap();
    assert_eq!(tagged[0].table_name_rust, "A");
}

#[test]
fn model_keys_follow_constraints() {
    let yaml = "A:\n  fields:\n    a: Int\n    b: Int\n    c: Int\n    d: Int\n  constraints:\n    b: PrimaryKey\n    a: PrimaryKey\n    c: SecondaryKey\n    d: \"!SecondaryKey\"\n";
    let tables = parse_storage_text(yaml, &config(&[])).unwrap();
    let t = &tables[0];
    let mut pk = t.primary_key.clone();
    pk.sort();
    assert_eq!(pk, vec!["a".to_string(), "b".to_string()]);
    let mut sk = t.secondary_keys.clone();
    sk.sort();
    assert_eq!(sk, vec![vec!["c".to_string()], vec!["d".to_string()]]);
    for f in &t.fields {
        assert_eq!(f.is_primary_key, t.primary_key.contains(&f.field_name));
    }
}
