//! The laws of the library and its edge cases, on concrete values.
use std::collections::hash_map::DefaultHasher;
use std::hash::{Hash, Hasher};

use pgenum_parser::digest::to_lower_hex;
use pgenum_parser::sql::{extract_type_name, node_to_string};
use pgenum_parser::{
    Database, DatabaseBuilder, DatabaseV1, EnumType, ListNode, ObjectNode, ObjectType,
    PGEnumError, SQLParsingOptions, Statement, RON_VERSION,
};

fn strings(values: &[&str]) -> Vec<String> {
    values.iter().map(|s| s.to_string()).collect()
}

fn nodes(texts: &[&str]) -> Vec<ListNode> {
    texts.iter().map(|s| ListNode::String(s.to_string())).collect()
}

fn enum_type(schema: &str, name: &str, comment: Option<&str>, values: &[&str]) -> EnumType {
    EnumType::new(
        schema.to_string(),
        name.to_string(),
        comment.map(|s| s.to_string()),
        strings(values),
    )
}

fn create_enum(names: &[&str], vals: &[&str]) -> Statement {
    Statement::CreateEnum { names: nodes(names), vals: nodes(vals) }
}

fn comment_on(objtype: ObjectType, names: &[&str], comment: &str) -> Statement {
    Statement::Comment {
        objtype,
        object: Some(ObjectNode::TypeName { names: nodes(names) }),
        comment: comment.to_string(),
    }
}

fn form(enums: Vec<EnumType>) -> DatabaseV1 {
    DatabaseV1 { version: RON_VERSION, name: "test".to_string(), enums }
}

fn extracted(statements: Vec<Statement>) -> Database {
    Database::from_sql("test", Ok(statements)).unwrap()
}

fn three_schemas() -> Database {
    extracted(vec![
        create_enum(&["a", "status"], &["on", "off"]),
        create_enum(&["b", "color"], &["red"]),
        create_enum(&["b", "status"], &["up"]),
        create_enum(&["c", "status"], &["left", "right"]),
    ])
}

#[test]
fn every_enum_is_found_by_its_schema_and_name() {
    let database = three_schemas();
    assert_eq!(database.enums().len(), 4);
    for e in database.enums() {
        let found = database.get(Some(e.schema()), e.name()).unwrap();
        assert_eq!(found.schema(), e.schema());
        assert_eq!(found.name(), e.name());
        assert_eq!(found.values, e.values);
    }
}

#[test]
fn unique_name_is_found_with_and_without_schema() {
    let database = three_schemas();
    let found = database.get(None, "color").unwrap();
    assert_eq!(found.schema(), "b");
    let again = database.get(Some(found.schema()), "color").unwrap();
    assert_eq!(again.values, strings(&["red"]));
    assert_eq!(found, again);
}

#[test]
fn conflict_lists_each_schema_in_order() {
    let database = three_schemas();
    match database.get(None, "status").unwrap_err() {
        PGEnumError::EnumConflict { name, schemas } => {
            assert_eq!(name, "status");
            assert_eq!(schemas, strings(&["a", "b", "c"]));
            for schema in &schemas {
                assert_eq!(database.get(Some(schema), "status").unwrap().schema(), schema);
            }
        }
        other => panic!("unexpected error: {other:?}"),
    }
}

#[test]
fn indexes_follow_the_list_of_enums() {
    let database = extracted(vec![
        create_enum(&["z", "t"], &["a"]),
        create_enum(&["a", "t"], &["b"]),
        create_enum(&["a", "u"], &["c"]),
        create_enum(&["m", "t"], &["d"]),
    ]);
    match database.get(None, "t") {
        Err(PGEnumError::EnumConflict { name, schemas }) => {
            assert_eq!(name, "t");
            assert_eq!(schemas, strings(&["z", "a", "m"]));
        }
        _ => panic!("expected a conflict"),
    }
    assert_eq!(database.get(None, "u").unwrap(), &database.enums[2]);
    for (schema, name, position) in [("z", "t", 0), ("a", "t", 1), ("a", "u", 2), ("m", "t", 3)] {
        assert_eq!(database.get(Some(schema), name).unwrap(), &database.enums[position]);
    }
    assert!(database.get(Some("z"), "u").is_err());
    assert!(database.get(Some(""), "t").is_err());
}

#[test]
fn unknown_name_is_found_in_no_schema() {
    let database = three_schemas();
    assert!(matches!(
        database.get(None, "shape"),
        Err(PGEnumError::EnumNotFound { schema: None, .. })
    ));
    for schema in ["a", "b", "c", "", "d"] {
        assert!(matches!(
            database.get(Some(schema), "shape"),
            Err(PGEnumError::EnumNotFound { name, schema: Some(s) }) if name == "shape" && s == schema
        ));
    }
}

#[test]
fn edited_representation_with_a_duplicated_type_is_rejected() {
    let edited = form(vec![
        enum_type("public", "status", None, &["on"]),
        enum_type("other", "status", None, &["on"]),
        enum_type("public", "status", None, &["off"]),
    ]);
    assert!(matches!(
        Database::from_ron(RON_VERSION, Ok(edited)),
        Err(PGEnumError::DuplicatedType { schema, enum_name })
            if schema == "public" && enum_name == "status"
    ));
}

#[test]
fn edited_representation_with_a_duplicated_value_is_rejected() {
    let edited = form(vec![
        enum_type("public", "color", None, &["red"]),
        enum_type("public", "status", None, &["on", "off", "off"]),
        enum_type("public", "color", None, &["blue"]),
    ]);
    assert!(matches!(
        Database::from_ron(RON_VERSION, Ok(edited)),
        Err(PGEnumError::DuplicatedValue { schema, enum_name, value })
            if schema == "public" && enum_name == "status" && value == "off"
    ));
}

#[test]
fn version_of_the_payload_is_looked_at_before_its_enums() {
    let mut edited = form(vec![enum_type("public", "status", None, &["on", "on"])]);
    edited.version = 2;
    assert!(matches!(
        Database::from_ron(RON_VERSION, Ok(edited)),
        Err(PGEnumError::UnknownVersion(2))
    ));
}

#[test]
fn version_argument_is_looked_at_before_the_representation() {
    let failure = ron::from_str::<bool>("perhaps").unwrap_err();
    assert!(matches!(
        Database::from_ron(0, Err(failure)),
        Err(PGEnumError::UnknownVersion(0))
    ));
}

#[test]
fn invalid_representation_keeps_the_parser_error() {
    let failure = ron::from_str::<u32>("(1").unwrap_err();
    let message = failure.to_string();
    match Database::from_ron(RON_VERSION, Err(failure)).unwrap_err() {
        PGEnumError::InvalidRepresentation(e) => assert_eq!(e.to_string(), message),
        other => panic!("unexpected error: {other:?}"),
    }
}

#[test]
fn io_errors_come_before_everything_else() {
    let failure = std::io::Error::new(std::io::ErrorKind::PermissionDenied, "locked");
    match Database::from_ron_file(999, Err(failure)).unwrap_err() {
        PGEnumError::IOError(e) => assert_eq!(e.kind(), std::io::ErrorKind::PermissionDenied),
        other => panic!("unexpected error: {other:?}"),
    }
    assert!(matches!(
        Database::from_ron_file(999, Ok(Ok(form(vec![])))),
        Err(PGEnumError::UnknownVersion(999))
    ));
    assert!(matches!(
        Database::from_sql_file("test", Ok(Err("broken".to_string()))),
        Err(PGEnumError::SQLParseError(message)) if message == "broken"
    ));
}

#[test]
fn round_trip_keeps_names_order_values_comments_and_digests() {
    let database = extracted(vec![
        create_enum(&["z", "status"], &["on", "off"]),
        create_enum(&["a", "color"], &[]),
        comment_on(ObjectType::Type, &["a", "color"], "none yet"),
    ]);
    let first = Database::from_ron(RON_VERSION, Ok(database.to_ron())).unwrap();
    let second = Database::from_ron(RON_VERSION, Ok(first.to_ron())).unwrap();
    for recovered in [&first, &second] {
        assert_eq!(recovered.name(), "test");
        assert_eq!(recovered.enums().len(), 2);
        for (a, b) in database.enums().iter().zip(recovered.enums()) {
            assert_eq!(a.schema(), b.schema());
            assert_eq!(a.name(), b.name());
            assert_eq!(a.comment(), b.comment());
            assert_eq!(a.values, b.values);
            assert_eq!(a.digest(), b.digest());
        }
        assert_eq!(&database, recovered);
    }
    assert_eq!(first.get(Some("a"), "color").unwrap().comment(), Some("none yet"));
}

#[test]
fn digests_of_a_representation_are_computed_anew() {
    let mut stale = enum_type("public", "status", None, &["on"]);
    let fresh = stale.digest().to_string();
    stale.digest = String::new();
    let database = Database::from(form(vec![stale]));
    assert_eq!(database.enums()[0].digest(), fresh);
}

#[test]
fn last_of_duplicated_types_is_found_by_schema() {
    let database = Database::from(form(vec![
        enum_type("public", "status", None, &["on"]),
        enum_type("public", "status", None, &["off"]),
    ]));
    assert_eq!(database.get(Some("public"), "status").unwrap().values, strings(&["off"]));
    assert!(matches!(
        database.get(None, "status"),
        Err(PGEnumError::EnumConflict { schemas, .. }) if schemas == strings(&["public", "public"])
    ));
}

#[test]
fn hexadecimal_is_lower_case_without_leading_zeros() {
    assert_eq!(to_lower_hex(0), "0");
    assert_eq!(to_lower_hex(9), "9");
    assert_eq!(to_lower_hex(42), "2a");
    assert_eq!(to_lower_hex(0x0123_4567_89ab_cdef), "123456789abcdef");
    assert_eq!(to_lower_hex(u64::MAX), "ffffffffffffffff");
    for n in [1u64, 15, 16, 255, 256, 4096, 1 << 63] {
        assert_eq!(to_lower_hex(n), format!("{n:x}"));
    }
}

#[test]
fn digests_do_not_start_with_a_zero() {
    for i in 0..1000 {
        let e = enum_type("public", &format!("name_{}", i), None, &["a"]);
        assert!((1..=16).contains(&e.digest().len()));
        assert!(!e.digest().starts_with('0') || e.digest() == "0");
    }
}

#[test]
fn digest_is_the_hash_of_schema_name_and_values() {
    let values = strings(&["active", "inactive"]);
    let mut hasher = DefaultHasher::new();
    "public".hash(&mut hasher);
    "status".hash(&mut hasher);
    values.hash(&mut hasher);
    let expected = format!("{:x}", hasher.finish());
    assert_eq!(EnumType::compute_digest("public", "status", &values), expected);
    let e = enum_type("public", "status", Some("states"), &["active", "inactive"]);
    assert_eq!(e.digest(), expected);
    assert!(!e.digest().is_empty() && e.digest().len() <= 16);
    assert!(e.digest().chars().all(|c| c.is_ascii_digit() || ('a'..='f').contains(&c)));
}

#[test]
fn equality_ignores_comments_and_nothing_else() {
    let plain = enum_type("public", "status", None, &["on", "off"]);
    let commented = enum_type("public", "status", Some("states"), &["on", "off"]);
    assert_eq!(plain, plain);
    assert_eq!(plain, commented);
    assert_eq!(commented, plain);
    assert_ne!(plain, enum_type("other", "status", None, &["on", "off"]));
    assert_ne!(plain, enum_type("public", "state", None, &["on", "off"]));
    assert_ne!(plain, enum_type("public", "status", None, &["off", "on"]));
    assert_ne!(plain, enum_type("public", "status", None, &["on"]));
}

#[test]
fn databases_are_equal_when_label_and_enums_agree() {
    let one = extracted(vec![create_enum(&["status"], &["on"])]);
    let commented = extracted(vec![
        create_enum(&["public", "status"], &["on"]),
        comment_on(ObjectType::Type, &["status"], "states"),
    ]);
    assert_eq!(one, commented);
    assert_eq!(one, one.clone());
    let renamed =
        Database::from_sql("elsewhere", Ok(vec![create_enum(&["status"], &["on"])])).unwrap();
    assert_ne!(one, renamed);
    assert_ne!(one, extracted(vec![]));
    assert_ne!(one, extracted(vec![create_enum(&["status"], &["off"])]));
}

#[test]
fn clone_can_be_searched() {
    let copy = three_schemas().clone();
    assert_eq!(copy.name(), "test");
    assert_eq!(copy.get(None, "color").unwrap().values, strings(&["red"]));
    assert_eq!(copy.get(Some("c"), "status").unwrap().values, strings(&["left", "right"]));
}

#[test]
fn first_repeated_value_is_reported() {
    let mut builder = DatabaseBuilder::new("test", SQLParsingOptions::default());
    let outcome = builder.add_enum("", "status", strings(&["a", "b", "c", "b", "a"]), None);
    assert!(matches!(
        outcome,
        Err(PGEnumError::DuplicatedValue { schema, enum_name, value })
            if schema == "public" && enum_name == "status" && value == "b"
    ));
}

#[test]
fn repeated_values_are_reported_before_a_taken_name() {
    let mut builder = DatabaseBuilder::new("test", SQLParsingOptions::default());
    builder.add_enum("public", "status", strings(&["on"]), None).unwrap();
    assert!(matches!(
        builder.add_enum("public", "status", strings(&["x", "x"]), None),
        Err(PGEnumError::DuplicatedValue { value, .. }) if value == "x"
    ));
}

#[test]
fn failed_addition_leaves_the_builder_as_it_was() {
    let mut builder = DatabaseBuilder::new("test", SQLParsingOptions::default());
    builder.add_enum("public", "status", strings(&["on"]), Some("states")).unwrap();
    assert!(builder.add_enum("", "status", strings(&["off"]), None).is_err());
    assert!(builder.add_enum("", "color", strings(&["red", "red"]), None).is_err());
    builder.add_enum("", "color", strings(&["red"]), None).unwrap();
    let database: Database = builder.into();
    assert_eq!(database.enums().len(), 2);
    let status = database.get(None, "status").unwrap();
    assert_eq!(status.values, strings(&["on"]));
    assert_eq!(status.comment(), Some("states"));
    assert_eq!(database.get(None, "color").unwrap().values, strings(&["red"]));
}

#[test]
fn types_without_a_schema_get_the_default_schema() {
    let options = SQLParsingOptions { default_schema: "app".to_string() };
    let statements = vec![
        create_enum(&["status"], &["on"]),
        create_enum(&["public", "status"], &["off"]),
        comment_on(ObjectType::Type, &["app", "status"], "first"),
        comment_on(ObjectType::Type, &["status"], "second"),
    ];
    let database = Database::from_sql_with_options("test", Ok(statements), options).unwrap();
    let status = database.get(Some("app"), "status").unwrap();
    assert_eq!(status.values, strings(&["on"]));
    assert_eq!(status.comment(), Some("second"));
    assert_eq!(database.get(Some("public"), "status").unwrap().comment(), None);
    assert_eq!(SQLParsingOptions::default().default_schema, "public");
}

#[test]
fn comments_on_unknown_types_are_dropped() {
    let database = extracted(vec![
        comment_on(ObjectType::Type, &["status"], "too early"),
        create_enum(&["status"], &["on"]),
        comment_on(ObjectType::Type, &["other", "status"], "wrong schema"),
        comment_on(ObjectType::Type, &["public", "color"], "wrong name"),
    ]);
    assert_eq!(database.enums().len(), 1);
    assert_eq!(database.enums()[0].comment(), None);
}

#[test]
fn only_comments_on_types_count() {
    let database = extracted(vec![
        create_enum(&["status"], &["on"]),
        comment_on(ObjectType::Other, &["status"], "on a table"),
        Statement::Comment {
            objtype: ObjectType::Type,
            object: Some(ObjectNode::Other),
            comment: "on something else".to_string(),
        },
        Statement::Comment {
            objtype: ObjectType::Type,
            object: None,
            comment: "on nothing".to_string(),
        },
        Statement::Other,
    ]);
    assert_eq!(database.enums()[0].comment(), None);
}

#[test]
fn other_statements_may_stand_anywhere() {
    let telling = || {
        vec![
            create_enum(&["a", "mood"], &["sad", "happy"]),
            comment_on(ObjectType::Type, &["a", "mood"], "How one feels"),
            create_enum(&["size"], &["s", "m"]),
        ]
    };
    let others = || {
        vec![
            Statement::Other,
            comment_on(ObjectType::Other, &["a", "mood"], "Ignored"),
            Statement::Comment {
                objtype: ObjectType::Type,
                object: Some(ObjectNode::Other),
                comment: "Ignored".to_string(),
            },
            Statement::Comment {
                objtype: ObjectType::Type,
                object: None,
                comment: "Ignored".to_string(),
            },
        ]
    };
    let expected = extracted(telling());
    for position in 0..=telling().len() {
        let mut statements = telling();
        statements.splice(position..position, others());
        let database = extracted(statements);
        assert_eq!(database, expected);
        for (e, f) in database.enums.iter().zip(expected.enums.iter()) {
            assert_eq!(e.comment, f.comment);
        }
    }
}

#[test]
fn empty_comment_is_a_comment() {
    let database = extracted(vec![
        create_enum(&["status"], &["on"]),
        comment_on(ObjectType::Type, &["status"], ""),
    ]);
    assert_eq!(database.enums()[0].comment(), Some(""));
}

#[test]
fn enums_stand_in_the_order_of_their_declarations() {
    let database = three_schemas();
    let keys: Vec<(&str, &str)> =
        database.enums().iter().map(|e| (e.schema(), e.name())).collect();
    assert_eq!(keys, vec![("a", "status"), ("b", "color"), ("b", "status"), ("c", "status")]);
}

#[test]
fn first_failing_statement_decides() {
    let outcome = Database::from_sql(
        "test",
        Ok(vec![
            create_enum(&["status"], &["on"]),
            create_enum(&["public", "status"], &["off"]),
            create_enum(&["color"], &["red", "red"]),
        ]),
    );
    assert!(matches!(
        outcome,
        Err(PGEnumError::DuplicatedType { schema, enum_name })
            if schema == "public" && enum_name == "status"
    ));
}

#[test]
fn qualified_names_are_split_into_schema_and_name() {
    assert_eq!(extract_type_name(&vec![]), (None, String::new()));
    assert_eq!(extract_type_name(&nodes(&["status"])), (None, "status".to_string()));
    assert_eq!(
        extract_type_name(&nodes(&["public", "status"])),
        (Some("public".to_string()), "status".to_string())
    );
    assert_eq!(
        extract_type_name(&nodes(&["catalog", "public", "status"])),
        (Some("catalog".to_string()), "status".to_string())
    );
    let mixed = vec![
        ListNode::Other,
        ListNode::String("public".to_string()),
        ListNode::Other,
        ListNode::String("status".to_string()),
        ListNode::Other,
    ];
    assert_eq!(
        extract_type_name(&mixed),
        (Some("public".to_string()), "status".to_string())
    );
}

#[test]
fn other_nodes_are_skipped_among_values() {
    assert_eq!(node_to_string(&ListNode::String("on".to_string())), Some("on".to_string()));
    assert_eq!(node_to_string(&ListNode::Other), None);
    let database = extracted(vec![Statement::CreateEnum {
        names: nodes(&["status"]),
        vals: vec![
            ListNode::String("on".to_string()),
            ListNode::Other,
            ListNode::String("off".to_string()),
        ],
    }]);
    assert_eq!(database.enums()[0].values, strings(&["on", "off"]));
}

#[test]
fn names_outside_ascii_are_told_apart() {
    let database = extracted(vec![
        create_enum(&["público", "estado"], &["ligado", "ligação"]),
        create_enum(&["publico", "estado"], &["ligado"]),
    ]);
    assert_eq!(
        database.get(Some("público"), "estado").unwrap().values,
        strings(&["ligado", "ligação"])
    );
    assert_eq!(database.get(Some("publico"), "estado").unwrap().values, strings(&["ligado"]));
    assert!(database.get(Some("públic"), "estado").is_err());
}

#[test]
fn fields_can_be_walked_over() {
    let enums = extracted(vec![
        create_enum(&["status"], &["on", "off"]),
        create_enum(&["app", "color"], &["red"]),
    ]);
    let mut lines: Vec<String> = Vec::new();
    for enm in enums.enums {
        lines.push(format!("Enum: {}.{}", enm.schema, enm.name));

        for value in &enm.values {
            lines.push(format!("  - {}", value));
        }
    }
    assert_eq!(
        lines,
        strings(&["Enum: public.status", "  - on", "  - off", "Enum: app.color", "  - red"])
    );
}

#[test]
fn databases_print_their_indexes_as_maps() {
    let database = extracted(vec![create_enum(&["a", "t"], &["x", "y"])]);
    let digest = database.enums[0].digest();
    assert_eq!(
        format!("{:?}", database),
        format!(
            "Database {{ name: \"test\", enums: [EnumType {{ schema: \"a\", name: \"t\", \
             comment: None, values: [\"x\", \"y\"], digest: {:?} }}], \
             lookup: {{\"t\": Found(0)}}, schemas: {{\"a\": {{\"t\": 0}}}} }}",
            digest
        )
    );
    let text = format!("{:#?}", database);
    assert!(text.ends_with(
        "    lookup: {
        \"t\": Found(
            0,
        ),
    },
    schemas: {
        \"a\": {
            \"t\": 0,
        },
    },
}"
    ));
}

#[test]
fn every_key_of_the_indexes_is_printed() {
    let text = format!("{:?}", three_schemas());
    assert!(text.contains("\"status\": Conflict([\"a\", \"b\", \"c\"])"));
    assert!(text.contains("\"color\": Found(1)"));
    assert!(text.contains("\"a\": {\"status\": 0}"));
    assert!(text.contains("\"c\": {\"status\": 3}"));
    let empty = format!("{:?}", extracted(vec![]));
    assert_eq!(empty, "Database { name: \"test\", enums: [], lookup: {}, schemas: {} }");
}

#[test]
fn enums_are_what_their_declarations_and_later_comments_say() {
    let database = extracted(vec![
        comment_on(ObjectType::Type, &["a", "t"], "too early"),
        create_enum(&["a", "t"], &["x", "y"]),
        comment_on(ObjectType::Type, &["a", "t"], "first"),
        create_enum(&["t"], &["z"]),
        comment_on(ObjectType::Type, &["public", "t"], "of the default schema"),
        comment_on(ObjectType::Type, &["a", "t"], "second"),
        create_enum(&["b", "u"], &[]),
    ]);
    let expected = [
        enum_type("a", "t", Some("second"), &["x", "y"]),
        enum_type("public", "t", Some("of the default schema"), &["z"]),
        enum_type("b", "u", None, &[]),
    ];
    assert_eq!(database.enums.len(), expected.len());
    for (e, f) in database.enums.iter().zip(expected.iter()) {
        assert_eq!(e.schema, f.schema);
        assert_eq!(e.name, f.name);
        assert_eq!(e.comment, f.comment);
        assert_eq!(e.values, f.values);
        assert_eq!(e.digest(), f.digest());
    }
}
