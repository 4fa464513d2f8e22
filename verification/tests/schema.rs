use column_mapping_lab::{
    column_mapping_configuration, parse_json, partition_columns, read_schema_mapping, render_json, schema_string,
    table_fields, table_schema, FieldMetadata, FieldType, LabError, TableField, TextMap,
};

fn physical_name(field: &TableField) -> Option<&str> {
    match field.metadata.get("delta.columnMapping.physicalName") {
        Some(FieldMetadata::Text(name)) => Some(name.as_str()),
        _ => None,
    }
}

fn id(field: &TableField) -> Option<i64> {
    match field.metadata.get("delta.columnMapping.id") {
        Some(FieldMetadata::Number(id)) => Some(*id),
        _ => None,
    }
}

#[test]
fn base_columns_have_no_metadata() {
    let fields = table_fields(false, false, false);
    let names: Vec<&str> = fields.iter().map(|field| field.name.as_str()).collect();
    assert_eq!(
        names,
        vec![
            "event_id",
            "customer_name",
            "amount",
            "partition_date",
            "partition_year",
            "partition_month",
            "partition_day"
        ]
    );
    assert_eq!(fields[0].data_type, FieldType::Long);
    assert_eq!(fields[1].data_type, FieldType::Text);
    assert_eq!(fields[2].data_type, FieldType::Double);
    for field in &fields {
        assert_eq!(field.metadata.len(), 0);
        assert_eq!(field.nullable, field.name == "customer_name" || field.name == "amount");
    }
}

#[test]
fn fresh_columns_get_physical_names() {
    let fields = table_fields(true, true, false);
    assert_eq!(fields.len(), 9);
    for (at, field) in fields.iter().enumerate() {
        assert_eq!(id(field), Some(at as i64 + 1));
        assert_eq!(physical_name(field), Some(format!("col-{}", field.name).as_str()));
        assert_eq!(field.metadata.len(), 2);
    }
    assert_eq!(fields[7].name, "event_category");
    assert_eq!(fields[8].name, "source_system");
    assert!(fields[8].nullable);
}

#[test]
fn existing_columns_keep_their_names() {
    for field in &table_fields(true, false, true) {
        assert_eq!(physical_name(field), Some(field.name.as_str()));
    }
}

#[test]
fn evolving_adds_columns_behind_the_others() {
    let base = table_fields(true, false, false);
    let evolved = table_fields(true, true, false);
    for at in 0..base.len() {
        assert_eq!(base[at].name, evolved[at].name);
        assert_eq!(id(&base[at]), id(&evolved[at]));
        assert_eq!(physical_name(&base[at]), physical_name(&evolved[at]));
    }
}

#[test]
fn partition_columns_are_columns_that_must_have_a_value() {
    assert_eq!(partition_columns(), ["partition_year", "partition_month", "partition_day"]);
    for name in partition_columns() {
        let fields = table_fields(false, false, false);
        assert!(fields.iter().any(|field| field.name == name && !field.nullable));
    }
}

#[test]
fn configuration_names_mode_and_largest_id() {
    let [mode, largest] = column_mapping_configuration(9);
    assert_eq!(mode, ("delta.columnMapping.mode".to_string(), Some("name".to_string())));
    assert_eq!(largest, ("delta.columnMapping.maxColumnId".to_string(), Some("9".to_string())));
    assert_eq!(column_mapping_configuration(-3)[1].1, Some("-3".to_string()));
}

#[test]
fn schema_is_written_as_json() {
    let text = schema_string(&table_fields(true, false, true)).unwrap();
    let schema = parse_json(&text).unwrap();
    assert_eq!(schema.get("type").and_then(|kind| kind.as_str()), Some("struct"));
    let fields = schema.get("fields").and_then(|list| list.as_array()).unwrap();
    assert_eq!(fields.len(), 7);
    assert_eq!(
        render_json(&fields[0]),
        r#"{"metadata":{"delta.columnMapping.id":1,"delta.columnMapping.physicalName":"event_id"},"name":"event_id","nullable":false,"type":"long"}"#
    );
    assert_eq!(fields[2].get("type").and_then(|kind| kind.as_str()), Some("double"));
    assert_eq!(fields[1].get("type").and_then(|kind| kind.as_str()), Some("string"));
}

#[test]
fn schema_keeps_every_column() {
    let fields = table_fields(true, true, false);
    let schema = table_schema(&fields).unwrap();
    let names: Vec<&str> = schema.fields().map(|field| field.name().as_str()).collect();
    let expected: Vec<&str> = fields.iter().map(|field| field.name.as_str()).collect();
    assert_eq!(names, expected);
    for (field, made) in fields.iter().zip(schema.fields()) {
        assert_eq!(made.is_nullable(), field.nullable);
        assert_eq!(made.metadata().len(), 2);
    }
}

#[test]
fn repeated_names_make_no_schema() {
    let twice = || TableField {
        name: "a".to_string(),
        data_type: FieldType::Text,
        nullable: true,
        metadata: TextMap::new(),
    };
    let fields = vec![twice(), twice()];
    let words = "Schema error: Duplicate field name: a";
    assert!(matches!(table_schema(&fields), Err(LabError::Schema(found)) if found == words));
    assert_eq!(schema_string(&fields).unwrap_err().message().unwrap(), words);
}

#[test]
fn written_schema_gives_the_names_back() {
    let fields = table_fields(true, true, false);
    let schema = parse_json(&schema_string(&fields).unwrap()).unwrap();
    let mappings = read_schema_mapping(&schema).unwrap();
    assert_eq!(mappings.len(), 9);
    for field in &fields {
        let mapping = mappings.get(&field.name).unwrap();
        assert_eq!(mapping.logical_name, field.name);
        assert_eq!(Some(mapping.physical_name.as_str()), physical_name(field));
    }
}

#[test]
fn first_repeated_name_is_reported() {
    let named = |name: &str| TableField {
        name: name.to_string(),
        data_type: FieldType::Long,
        nullable: true,
        metadata: TextMap::new(),
    };
    let fields = vec![named("a"), named("b"), named("c"), named("b"), named("a")];
    assert_eq!(table_schema(&fields).unwrap_err().message().unwrap(), "Schema error: Duplicate field name: b");
    let fields = vec![named("a"), named("A")];
    assert!(table_schema(&fields).is_ok());
}
