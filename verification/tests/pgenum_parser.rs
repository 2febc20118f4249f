//! Extraction from SQL, lookup and the serialised form, on whole databases.
use pgenum_parser::{
    Database, DatabaseBuilder, DatabaseV1, EnumType, ListNode, ObjectNode, ObjectType,
    PGEnumError, SQLParsingOptions, Statement, RON_VERSION,
};

const VALID_SQL: &str = "
    SET statement_timeout = 0;
    CREATE TYPE public.access_management AS ENUM ('global', 'contextual', 'forbidden');
    COMMENT ON TYPE public.access_management IS 'Represents access management levels.';
    CREATE TYPE public.analytics_context AS ENUM ('internal', 'external');
    CREATE TYPE asset_kind AS ENUM (
        'image', 'video', 'audio', 'document', 'archive', 'font', 'other'
    );
";
const INVALID_SQL: &str = "CREATE TYPE public.broken AS ENUM ('one', ;";
const INVALID_SQL_MESSAGE: &str = "Invalid statement: syntax error at or near \";\"";
const DUPLICATED_VALUE_SQL: &str =
    "CREATE TYPE public.status AS ENUM ('active', 'inactive', 'active');";
const DUPLICATED_TYPE_SQL: &str = "
            CREATE TYPE public.status AS ENUM ('active', 'inactive');
            CREATE TYPE public.status AS ENUM ('pending', 'done');
        ";

fn nodes(texts: &[&str]) -> Vec<ListNode> {
    texts.iter().map(|s| ListNode::String(s.to_string())).collect()
}

fn create_enum(names: &[&str], vals: &[&str]) -> Statement {
    Statement::CreateEnum { names: nodes(names), vals: nodes(vals) }
}

fn comment_on_type(names: &[&str], comment: &str) -> Statement {
    Statement::Comment {
        objtype: ObjectType::Type,
        object: Some(ObjectNode::TypeName { names: nodes(names) }),
        comment: comment.to_string(),
    }
}

/// The statements of the SQL texts of this file.
fn parsed(sql: &str) -> Result<Vec<Statement>, String> {
    match sql {
        VALID_SQL => Ok(vec![
            Statement::Other,
            create_enum(&["public", "access_management"], &["global", "contextual", "forbidden"]),
            comment_on_type(
                &["public", "access_management"],
                "Represents access management levels.",
            ),
            create_enum(&["public", "analytics_context"], &["internal", "external"]),
            create_enum(
                &["asset_kind"],
                &["image", "video", "audio", "document", "archive", "font", "other"],
            ),
        ]),
        "SELECT 1;" => Ok(vec![Statement::Other]),
        DUPLICATED_VALUE_SQL => Ok(vec![create_enum(
            &["public", "status"],
            &["active", "inactive", "active"],
        )]),
        DUPLICATED_TYPE_SQL => Ok(vec![
            create_enum(&["public", "status"], &["active", "inactive"]),
            create_enum(&["public", "status"], &["pending", "done"]),
        ]),
        INVALID_SQL => Err(INVALID_SQL_MESSAGE.to_string()),
        _ => panic!("no statements are known for {sql}"),
    }
}

fn strings(values: &[&str]) -> Vec<String> {
    values.iter().map(|s| s.to_string()).collect()
}

/// The serialised form of the database of `VALID_SQL`.
fn valid_form() -> DatabaseV1 {
    DatabaseV1 {
        version: 1,
        name: "test".to_string(),
        enums: vec![
            EnumType::new(
                "public".to_string(),
                "access_management".to_string(),
                Some("Represents access management levels.".to_string()),
                strings(&["global", "contextual", "forbidden"]),
            ),
            EnumType::new(
                "public".to_string(),
                "analytics_context".to_string(),
                None,
                strings(&["internal", "external"]),
            ),
            EnumType::new(
                "public".to_string(),
                "asset_kind".to_string(),
                None,
                strings(&["image", "video", "audio", "document", "archive", "font", "other"]),
            ),
        ],
    }
}

#[test]
fn ron_round_trip() {
    let database = Database::from_sql("test", parsed(VALID_SQL)).unwrap();
    let form = database.to_ron();
    assert_eq!(form.version, 1);
    let recovered = Database::from_ron(RON_VERSION, Ok(form)).unwrap();
    assert_eq!(database, recovered);
}

#[test]
fn from_ron_parses_fixture() {
    let expected = Database::from_sql("test", parsed(VALID_SQL)).unwrap();
    let parsed = Database::from_ron(RON_VERSION, Ok(valid_form())).unwrap();
    assert_eq!(expected, parsed);
}

#[test]
fn from_ron_returns_error_for_invalid_representation() {
    let failure = ron::from_str::<u32>("not valid ron").unwrap_err();
    let err = Database::from_ron(RON_VERSION, Err(failure)).unwrap_err();
    assert!(matches!(err, PGEnumError::InvalidRepresentation(_)));
}

#[test]
fn from_ron_rejects_unsupported_version_argument() {
    let pgerr = Database::from_ron(999, Ok(valid_form())).unwrap_err();
    assert!(
        matches!(pgerr, PGEnumError::UnknownVersion(999)),
        "expected UnknownVersion(999), got: {pgerr:?}"
    );
}

#[test]
fn from_ron_returns_error_for_unknown_version_in_payload() {
    let database = Database::from_sql("test", parsed(VALID_SQL)).unwrap();
    let mut v1: DatabaseV1 = database.into();
    v1.version = 999;
    let pgerr = Database::from_ron(RON_VERSION, Ok(v1)).unwrap_err();
    assert!(
        matches!(pgerr, PGEnumError::UnknownVersion(999)),
        "expected UnknownVersion(999), got: {pgerr:?}"
    );
}

#[test]
fn builder_rejects_duplicate_values() {
    let options = SQLParsingOptions::default();
    let mut builder = DatabaseBuilder::new("test", options);
    let pgerr = builder
        .add_enum(
            "public",
            "status",
            vec!["active".into(), "inactive".into(), "active".into()],
            None,
        )
        .unwrap_err();
    assert!(matches!(
        pgerr,
        PGEnumError::DuplicatedValue {
            schema,
            enum_name,
            value,
        } if schema == "public" && enum_name == "status" && value == "active"
    ));
}

#[test]
fn builder_rejects_duplicate_types() {
    let options = SQLParsingOptions::default();
    let mut builder = DatabaseBuilder::new("test", options);
    builder
        .add_enum("public", "status", vec!["active".into()], None)
        .unwrap();
    let pgerr = builder
        .add_enum("public", "status", vec!["pending".into()], None)
        .unwrap_err();
    assert!(matches!(
        pgerr,
        PGEnumError::DuplicatedType {
            schema,
            enum_name,
        } if schema == "public" && enum_name == "status"
    ));
}

fn build_database_with_conflict() -> Database {
    let mut builder = DatabaseBuilder::new("test", SQLParsingOptions::default());
    builder
        .add_enum("public", "status", vec!["active".into()], None)
        .unwrap();
    builder
        .add_enum("other", "status", vec!["pending".into()], None)
        .unwrap();
    builder
        .add_enum("public", "color", vec!["red".into()], Some("colors"))
        .unwrap();
    builder.into()
}

#[test]
fn get_by_name_returns_unique_enum() {
    let es = build_database_with_conflict();
    let e = es.get(None, "color").unwrap();
    assert_eq!(e.schema, "public");
    assert_eq!(e.name, "color");
    assert_eq!(e.values, vec!["red"]);
    assert_eq!(e.comment.as_deref(), Some("colors"));
}

#[test]
fn get_by_schema_and_name() {
    let es = build_database_with_conflict();
    let e = es.get(Some("public"), "status").unwrap();
    assert_eq!(e.schema, "public");
    assert_eq!(e.values, vec!["active"]);

    let e = es.get(Some("other"), "status").unwrap();
    assert_eq!(e.schema, "other");
    assert_eq!(e.values, vec!["pending"]);
}

#[test]
fn get_without_schema_returns_conflict_for_ambiguous_name() {
    let es = build_database_with_conflict();
    let pgerr = es.get(None, "status").unwrap_err();
    assert!(matches!(
        pgerr,
        PGEnumError::EnumConflict { name, schemas }
            if name == "status" && schemas.contains(&"public".to_string()) && schemas.contains(&"other".to_string())
    ));
}

#[test]
fn get_returns_not_found_without_schema() {
    let es = build_database_with_conflict();
    let pgerr = es.get(None, "nonexistent").unwrap_err();
    assert!(matches!(
        pgerr,
        PGEnumError::EnumNotFound { name, schema: None } if name == "nonexistent"
    ));
}

#[test]
fn get_returns_not_found_with_schema() {
    let es = build_database_with_conflict();
    let pgerr = es.get(Some("public"), "nonexistent").unwrap_err();
    assert!(matches!(
        pgerr,
        PGEnumError::EnumNotFound { name, schema: Some(s) }
            if name == "nonexistent" && s == "public"
    ));
}

#[test]
fn get_returns_not_found_for_wrong_schema() {
    let es = build_database_with_conflict();
    let pgerr = es.get(Some("missing_schema"), "status").unwrap_err();
    assert!(matches!(
        pgerr,
        PGEnumError::EnumNotFound { name, schema: Some(s) }
            if name == "status" && s == "missing_schema"
    ));
}

#[test]
fn from_sql_parses_enums_with_schema_values_and_comment() {
    let database = Database::from_sql("test", parsed(VALID_SQL)).unwrap();

    let am = database.enums.iter().find(|e| e.name == "access_management").unwrap();
    assert_eq!(am.schema, "public");
    assert_eq!(am.values.len(), 3);
    assert_eq!(am.values[0], "global");
    assert_eq!(am.values[1], "contextual");
    assert_eq!(am.values[2], "forbidden");
    assert_eq!(
        am.comment.as_deref(),
        Some("Represents access management levels.")
    );
}

#[test]
fn from_sql_parses_enum_without_comment() {
    let database = Database::from_sql("test", parsed(VALID_SQL)).unwrap();

    let ac = database.enums.iter().find(|e| e.name == "analytics_context").unwrap();
    assert_eq!(ac.schema, "public");
    assert_eq!(ac.values.len(), 2);
    assert!(ac.comment.is_none());
}

#[test]
fn from_sql_parses_enum_without_schema() {
    let database = Database::from_sql("test", parsed(VALID_SQL)).unwrap();

    let ak = database.enums.iter().find(|e| e.name == "asset_kind").unwrap();
    assert_eq!(ak.schema, "public");
    assert_eq!(ak.values.len(), 7);
}

#[test]
fn from_sql_returns_empty_enums_for_sql_without_enums() {
    let sql = "SELECT 1;";
    let database = Database::from_sql("test", parsed(sql)).unwrap();
    assert!(database.enums.is_empty());
}

#[test]
fn from_sql_returns_error_for_invalid_sql() {
    let err = Database::from_sql("test", parsed(INVALID_SQL)).unwrap_err();
    assert!(matches!(err, PGEnumError::SQLParseError(message) if message == INVALID_SQL_MESSAGE));
}

#[test]
fn from_sql_returns_error_for_duplicated_value() {
    let sql = "CREATE TYPE public.status AS ENUM ('active', 'inactive', 'active');";
    let pgerr = Database::from_sql("test", parsed(sql)).unwrap_err();
    assert!(matches!(
        &pgerr,
        PGEnumError::DuplicatedValue {
            schema,
            enum_name,
            value,
        } if schema == "public" && enum_name == "status" && value == "active"
    ), "expected DuplicatedValue error, got: {pgerr:?}");
}

#[test]
fn from_sql_returns_error_for_duplicated_type() {
    let sql = "
            CREATE TYPE public.status AS ENUM ('active', 'inactive');
            CREATE TYPE public.status AS ENUM ('pending', 'done');
        ";
    let pgerr = Database::from_sql("test", parsed(sql)).unwrap_err();
    assert!(matches!(
        &pgerr,
        PGEnumError::DuplicatedType {
            schema,
            enum_name,
        } if schema == "public" && enum_name == "status"
    ), "expected DuplicatedType error, got: {pgerr:?}");
}

#[test]
fn from_ron_file_reads_fixture() {
    let expected = Database::from_sql("test", parsed(VALID_SQL)).unwrap();
    let parsed = Database::from_ron_file(RON_VERSION, Ok(Ok(valid_form()))).unwrap();
    assert_eq!(expected, parsed);
}

#[test]
fn from_ron_file_returns_io_error_for_missing_file() {
    let missing =
        std::io::Error::new(std::io::ErrorKind::NotFound, "tests/fixtures/nonexistent.ron");
    let err = Database::from_ron_file(RON_VERSION, Err(missing)).unwrap_err();
    assert!(matches!(err, PGEnumError::IOError(_)));
}

#[test]
fn from_sql_file_reads_fixture() {
    let expected = Database::from_sql("test", parsed(VALID_SQL)).unwrap();
    let parsed = Database::from_sql_file("test", Ok(parsed(VALID_SQL))).unwrap();
    assert_eq!(expected, parsed);
}

#[test]
fn from_sql_file_returns_io_error_for_missing_file() {
    let missing =
        std::io::Error::new(std::io::ErrorKind::NotFound, "tests/fixtures/nonexistent.sql");
    let err = Database::from_sql_file("test", Err(missing)).unwrap_err();
    assert!(matches!(err, PGEnumError::IOError(_)));
}
