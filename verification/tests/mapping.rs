use column_mapping_lab::{
    activate_column_mapping_for_existing_table, activate_metadata, latest_add_summary, activation_contents,
    assert_evolved_column_mapping_schema, assert_fresh_column_mapping_schema, check_evolved_mapping,
    check_fresh_mapping, column_mapping_protocol, column_mapping_versions, latest_schema_mapping, parse_json, read_field_mapping,
    read_metadata_action, read_metadata_mapping, read_schema_mapping, render_json, schema_string, table_fields,
    FieldMapping, FieldMetadata, Json, LabError, LogFile, TableField, TextMap, Violation,
};

const COLUMNS: [&str; 9] = [
    "event_id",
    "customer_name",
    "amount",
    "partition_date",
    "partition_year",
    "partition_month",
    "partition_day",
    "event_category",
    "source_system",
];

fn mappings(pairs: &[(&str, &str)]) -> TextMap<FieldMapping> {
    let mut map = TextMap::new();
    for (logical, physical) in pairs {
        map = map.with(
            logical.to_string(),
            FieldMapping { logical_name: logical.to_string(), physical_name: physical.to_string() },
        );
    }
    map
}

fn log_of(fields: &Vec<TableField>) -> Vec<LogFile> {
    let metadata = Json::object().with("schemaString", Json::text(&schema_string(fields).unwrap()));
    let contents = render_json(&Json::object().with("metaData", metadata));
    vec![LogFile { name: b"00000000000000000000.json".to_vec(), contents: Some(contents) }]
}

#[test]
fn field_gives_both_names() {
    let field =
        parse_json(r#"{"name":"a","metadata":{"delta.columnMapping.physicalName":"col-1","delta.columnMapping.id":1}}"#)
            .unwrap();
    let mapping = read_field_mapping(&field).unwrap();
    assert_eq!(mapping.logical_name, "a");
    assert_eq!(mapping.physical_name, "col-1");
}

#[test]
fn field_without_names_is_reported() {
    let read = |text: &str| read_field_mapping(&parse_json(text).unwrap());
    assert!(matches!(read("{}"), Err(LabError::MissingFieldName)));
    assert!(matches!(read(r#"{"name":1}"#), Err(LabError::MissingFieldName)));
    assert!(matches!(read(r#"{"name":"a"}"#), Err(LabError::MissingFieldMetadata(field)) if field == "a"));
    assert!(matches!(read(r#"{"name":"a","metadata":[]}"#), Err(LabError::MissingFieldMetadata(_))));
    assert!(matches!(read(r#"{"name":"a","metadata":{}}"#), Err(LabError::MissingPhysicalName(field)) if field == "a"));
}

#[test]
fn later_field_of_a_name_wins() {
    let schema = parse_json(
        r#"{"fields":[{"name":"a","metadata":{"delta.columnMapping.physicalName":"x"}},{"name":"a","metadata":{"delta.columnMapping.physicalName":"y"}}]}"#,
    )
    .unwrap();
    let read = read_schema_mapping(&schema).unwrap();
    assert_eq!(read.len(), 1);
    assert_eq!(read.get("a").unwrap().physical_name, "y");
}

#[test]
fn metadata_without_schema_is_reported() {
    let read = |text: &str| read_metadata_mapping(&parse_json(text).unwrap());
    assert!(matches!(read("{}"), Err(LabError::MissingSchemaString)));
    assert!(matches!(read(r#"{"schemaString":{}}"#), Err(LabError::MissingSchemaString)));
    assert!(matches!(read(r#"{"schemaString":"no json"}"#), Err(LabError::Json(_))));
    assert!(matches!(read(r#"{"schemaString":"{}"}"#), Err(LabError::MissingSchemaFields)));
    assert!(matches!(read(r#"{"schemaString":"{\"fields\":{}}"}"#), Err(LabError::MissingSchemaFields)));
}

#[test]
fn mapping_is_read_from_the_log() {
    let read = latest_schema_mapping(&log_of(&table_fields(true, false, true)), "/t").unwrap();
    assert_eq!(read.len(), 7);
    assert_eq!(read.get("amount").unwrap().physical_name, "amount");
    assert!(matches!(latest_schema_mapping(&Vec::new(), "/t"), Err(LabError::MissingMetadataAction(_))));
}

#[test]
fn fresh_schema_passes_its_check() {
    assert!(assert_fresh_column_mapping_schema(&log_of(&table_fields(true, true, false)), "/t").is_ok());
}

#[test]
fn fresh_schema_does_not_pass_the_other_check() {
    match assert_evolved_column_mapping_schema(&log_of(&table_fields(true, true, false)), "/t") {
        Err(LabError::Violated(Violation::ExistingNameChanged(field))) => assert_eq!(field, "event_id"),
        other => panic!("{other:?}"),
    }
}

#[test]
fn kept_names_do_not_pass_for_fresh_ones() {
    match assert_fresh_column_mapping_schema(&log_of(&table_fields(true, true, true)), "/t") {
        Err(LabError::Violated(Violation::FreshNameNotDistinct(field))) => assert_eq!(field, "event_id"),
        other => panic!("{other:?}"),
    }
}

#[test]
fn schema_without_mapping_fails() {
    match assert_fresh_column_mapping_schema(&log_of(&table_fields(false, true, false)), "/t") {
        Err(LabError::MissingPhysicalName(field)) => assert_eq!(field, "event_id"),
        other => panic!("{other:?}"),
    }
}

#[test]
fn missing_column_is_reported() {
    let pairs: Vec<(&str, &str)> = COLUMNS[..8].iter().map(|name| (*name, "col-x")).collect();
    match check_fresh_mapping(&mappings(&pairs)) {
        Err(LabError::MissingSchemaField(field)) => assert_eq!(field, "source_system"),
        other => panic!("{other:?}"),
    }
    assert!(matches!(check_evolved_mapping(&mappings(&[])), Err(LabError::MissingSchemaField(field)) if field == "event_id"));
}

fn evolved(category: &str, system: &str) -> TextMap<FieldMapping> {
    let mut pairs: Vec<(&str, &str)> = COLUMNS[..7].iter().map(|name| (*name, *name)).collect();
    pairs.push(("event_category", category));
    pairs.push(("source_system", system));
    mappings(&pairs)
}

#[test]
fn evolved_mapping_is_checked() {
    assert!(check_evolved_mapping(&evolved("col-1", "col-2")).is_ok());
    assert!(matches!(
        check_evolved_mapping(&evolved("event_category", "col-2")),
        Err(LabError::Violated(Violation::EvolvedNameNotDistinct(field))) if field == "event_category"
    ));
    assert!(matches!(
        check_evolved_mapping(&evolved("col-1", "other")),
        Err(LabError::Violated(Violation::EvolvedNameWithoutPrefix { field, physical_name }))
            if field == "source_system" && physical_name == "other"
    ));
}

#[test]
fn evolved_schema_passes_its_check() {
    let mut fields = table_fields(true, false, true);
    for (at, name) in ["event_category", "source_system"].iter().enumerate() {
        let metadata = TextMap::new()
            .with("delta.columnMapping.id".to_string(), FieldMetadata::Number(8 + at as i64))
            .with("delta.columnMapping.physicalName".to_string(), FieldMetadata::Text(format!("col-{at}")));
        fields.push(TableField {
            name: name.to_string(),
            data_type: column_mapping_lab::FieldType::Text,
            nullable: true,
            metadata,
        });
    }
    assert!(assert_evolved_column_mapping_schema(&log_of(&fields), "/t").is_ok());
}

#[test]
fn activation_alone_leaves_the_new_columns_missing() {
    match assert_evolved_column_mapping_schema(&log_of(&table_fields(true, false, true)), "/t") {
        Err(LabError::MissingEvolvedSchemaField(field)) => assert_eq!(field, "event_category"),
        other => panic!("{other:?}"),
    }
}

#[test]
fn protocol_has_the_versions_for_column_mapping() {
    let versions = r#"{"minReaderVersion":2,"minWriterVersion":5}"#;
    assert_eq!(render_json(&column_mapping_versions()), versions);
    assert_eq!(serde_json::to_string(&column_mapping_protocol().unwrap()).unwrap(), versions);
}

#[test]
fn activation_changes_schema_and_configuration_only() {
    let metadata = parse_json(r#"{"id":"x","schemaString":"old","configuration":{"a":"b"}}"#).unwrap();
    let changed = activate_metadata(metadata).unwrap();
    assert_eq!(changed.get("id").and_then(|id| id.as_str()), Some("x"));
    assert_eq!(
        render_json(changed.get("configuration").unwrap()),
        r#"{"delta.columnMapping.maxColumnId":"7","delta.columnMapping.mode":"name"}"#
    );
    let read = read_metadata_mapping(&changed).unwrap();
    assert_eq!(read.len(), 7);
    assert_eq!(read.get("partition_day").unwrap().physical_name, "partition_day");
}

#[test]
fn activation_log_has_three_lines() {
    let contents = activation_contents(Json::object().with("id", Json::text("x")));
    assert_eq!(
        contents,
        "{\"commitInfo\":{\"engineInfo\":\"delta-column-mapping-lab\",\"isBlindAppend\":true,\"operation\":\"SET TBLPROPERTIES\",\"operationParameters\":{\"properties\":\"{\\\"delta.columnMapping.mode\\\":\\\"name\\\"}\"}}}\n{\"protocol\":{\"minReaderVersion\":2,\"minWriterVersion\":5}}\n{\"metaData\":{\"id\":\"x\"}}\n"
    );
    assert_eq!(render_json(&read_metadata_action(&contents, "p").unwrap()), r#"{"id":"x"}"#);
}

#[test]
fn activation_takes_effect_in_the_table() {
    let first = "{\"protocol\":{}}\n{\"metaData\":{\"id\":\"x\",\"schemaString\":\"{}\"}}\n";
    let names = vec![b"00000000000000000000.json".to_vec(), b"00000000000000000001.json".to_vec()];
    let commit = activate_column_mapping_for_existing_table(first, "/t/0", &names).unwrap();
    assert_eq!(commit.name, "00000000000000000002.json");
    let logs = vec![
        LogFile { name: names[0].clone(), contents: Some(first.to_string()) },
        LogFile { name: names[1].clone(), contents: Some("{\"add\":{}}\n".to_string()) },
        LogFile { name: commit.name.into_bytes(), contents: Some(commit.contents) },
    ];
    let read = latest_schema_mapping(&logs, "/t").unwrap();
    for name in &COLUMNS[..7] {
        assert_eq!(read.get(name).unwrap().physical_name, *name);
    }
    assert_eq!(read.len(), 7);
}

#[test]
fn metadata_of_nothing_becomes_an_object() {
    let names = vec![b"0.json".to_vec()];
    let commit = activate_column_mapping_for_existing_table("{\"metaData\":null}\n", "p", &names).unwrap();
    assert_eq!(commit.name, "00000000000000000001.json");
    let metadata = read_metadata_action(&commit.contents, "p").unwrap();
    assert_eq!(metadata.as_object().unwrap().len(), 2);
}

#[test]
fn activation_fails_where_there_is_nothing_to_activate() {
    let names = vec![b"0.json".to_vec()];
    assert!(matches!(
        activate_column_mapping_for_existing_table("{}\n", "/t/0", &names),
        Err(LabError::MissingMetadataAction(path)) if path == "/t/0"
    ));
    assert!(matches!(
        activate_column_mapping_for_existing_table("{\"metaData\":1}\n", "/t/0", &names),
        Err(LabError::MetadataNotObject)
    ));
    assert!(matches!(
        activate_column_mapping_for_existing_table("{\"metaData\":{}}\n", "/t/0", &Vec::new()),
        Err(LabError::MissingLogJson)
    ));
}

#[test]
fn activation_works_for_metadata_with_floats() {
    let first = "{\"metaData\":{\"id\":\"x\",\"size\":1.7976931348623157e308,\"list\":[0.1,{\"a\":-2.5e-300}]}}\n";
    let names = vec![b"00000000000000000000.json".to_vec(), b"00000000000000000001.json".to_vec()];
    let commit = activate_column_mapping_for_existing_table(first, "/t/0", &names).unwrap();
    assert_eq!(commit.name, "00000000000000000002.json");
    let lines: Vec<&str> = commit.contents.lines().collect();
    assert_eq!(lines.len(), 3);
    assert!(commit.contents.ends_with('\n'));
    for (line, kind) in lines.iter().zip(["commitInfo", "protocol", "metaData"]) {
        let action = parse_json(line).unwrap();
        assert_eq!(action.as_object().unwrap().len(), 1);
        assert!(action.get(kind).is_some());
    }
    assert_eq!(latest_add_summary(&commit.contents).unwrap().partition_keys.len(), 0);
    let logs = vec![
        LogFile { name: names[0].clone(), contents: Some(first.to_string()) },
        LogFile { name: names[1].clone(), contents: None },
        LogFile { name: commit.name.into_bytes(), contents: Some(commit.contents) },
    ];
    let read = latest_schema_mapping(&logs, "/t").unwrap();
    assert_eq!(read.len(), 7);
    for name in &COLUMNS[..7] {
        assert_eq!(read.get(name).unwrap().physical_name, *name);
    }
    let error = assert_evolved_column_mapping_schema(&logs, "/t").unwrap_err();
    assert_eq!(error.message().unwrap(), "missing evolved schema field event_category");
}
