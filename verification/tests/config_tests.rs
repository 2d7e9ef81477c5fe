use namma_dsl_rs::config::{
    AppConfig, ExtraDefaultField, GenerateConfig, GeneratorKind, OutputConfig, SqlOutputConfig,
    StorageConfig, TypeMapping,
};

fn sample_config() -> AppConfig {
    AppConfig {
        output: OutputConfig {
            domain_type: "$GIT_ROOT/src-read-only/domain/types".to_string(),
            diesel_schema: "src-read-only/storage/schema".to_string(),
            diesel_model: "src-read-only/storage/models".to_string(),
            queries: "src-read-only/storage/queries".to_string(),
            sql: vec![SqlOutputConfig { path: "migrations".to_string(), database: "my_app".to_string() }],
        },
        storage: StorageConfig {
            extra_default_fields: vec![ExtraDefaultField {
                name: "createdAt".to_string(),
                rust_type: "chrono::DateTime<chrono::Utc>".to_string(),
            }],
        },
        generate: GenerateConfig { generators: vec![GeneratorKind::DomainType, GeneratorKind::SQL] },
        type_mapping: vec![
            TypeMapping { rust: "i32".to_string(), sql: "integer".to_string(), diesel: "Int4".to_string() },
            TypeMapping { rust: "bool".to_string(), sql: "boolean".to_string(), diesel: "Bool".to_string() },
        ],
    }
}

#[test]
fn resolve_path_expands_git_root() {
    let c = sample_config();
    assert_eq!(c.resolve_path(&c.output.domain_type, "/repo"), "/repo/src-read-only/domain/types");
    assert_eq!(c.resolve_path("migrations", "/repo"), "/repo/migrations");
    assert_eq!(c.resolve_path("migrations", "/repo/"), "/repo/migrations");
    assert_eq!(c.resolve_path("/var/out", "/repo"), "/var/out");
    assert_eq!(c.resolve_path("$GIT_ROOT/migrations", "/repo"), "/repo/migrations");
    assert_eq!(c.resolve_path("a/$GIT_ROOT", "r"), "r/a/r");
}

#[test]
fn should_generate_follows_the_list() {
    let c = sample_config();
    assert!(c.should_generate(&GeneratorKind::DomainType));
    assert!(c.should_generate(&GeneratorKind::SQL));
    assert!(!c.should_generate(&GeneratorKind::DieselSchema));
    assert!(!c.should_generate(&GeneratorKind::Queries));
}

#[test]
fn type_mapping_pairs() {
    let c = sample_config();
    assert_eq!(
        c.diesel_type_mappings(),
        vec![("i32".to_string(), "Int4".to_string()), ("bool".to_string(), "Bool".to_string())]
    );
    assert_eq!(
        c.sql_type_mappings(),
        vec![("i32".to_string(), "integer".to_string()), ("bool".to_string(), "boolean".to_string())]
    );
}

#[test]
fn storage_config_default_is_empty() {
    assert!(StorageConfig::default().extra_default_fields.is_empty());
}
