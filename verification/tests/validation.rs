use column_mapping_lab::{
    assert_hive_partition_exists, assert_logical_partition_keys, assert_no_logical_directories,
    assert_no_random_prefix_dirs, assert_physical_partition_keys, assert_query_count, has_random_prefix_dirs,
    hive_partition, logical_directory, logical_filters, query_count, render_json, report_filters, schema_string,
    table_fields, AddSummary, Batch, FieldMetadata, FieldType, IntegerError, Json, LabError, LogFile, Observation,
    QueryResult, Step, StringColumn, Table, TableField, TextMap, Validation, Violation,
};

fn keys(names: &[&str]) -> AddSummary {
    let mut partition_keys = TextMap::new();
    for name in names {
        partition_keys = partition_keys.with(name.to_string(), ());
    }
    AddSummary { partition_keys }
}

fn listed(names: &[&str]) -> Vec<Vec<u8>> {
    names.iter().map(|name| name.as_bytes().to_vec()).collect()
}

#[test]
fn hive_partition_is_expected() {
    assert_eq!(hive_partition("/t"), "/t/partition_year=2026/partition_month=04/partition_day=27");
    assert!(assert_hive_partition_exists("/t", true).is_ok());
    match assert_hive_partition_exists("/t", false) {
        Err(LabError::Violated(Violation::MissingHivePartition(path))) => assert_eq!(path, hive_partition("/t")),
        other => panic!("{other:?}"),
    }
}

#[test]
fn logical_directories_are_not_expected() {
    assert_eq!(logical_directory("/t"), "/t/partition_year=2026");
    assert!(assert_no_logical_directories(false).is_ok());
    assert!(matches!(assert_no_logical_directories(true), Err(LabError::Violated(Violation::LogicalDirectories))));
}

#[test]
fn physical_keys_begin_with_col() {
    assert!(assert_physical_partition_keys(&keys(&["col-partition_year", "col-x"])).is_ok());
    assert!(assert_physical_partition_keys(&keys(&[])).is_ok());
    match assert_physical_partition_keys(&keys(&["col-x", "partition_year"])) {
        Err(LabError::Violated(Violation::PhysicalPartitionKeys(found))) => {
            assert_eq!(found.partition_keys.len(), 2);
            assert_eq!(found.partition_keys.entry(0).0, "col-x");
            assert_eq!(found.partition_keys.entry(1).0, "partition_year");
        }
        other => panic!("{other:?}"),
    }
}

#[test]
fn logical_keys_are_the_partition_columns() {
    let columns = ["partition_day", "partition_month", "partition_year"];
    assert!(assert_logical_partition_keys(&keys(&columns)).is_ok());
    for wrong in [vec!["partition_day", "partition_month"], vec!["partition_day", "partition_month", "partition_year", "x"], vec![]] {
        match assert_logical_partition_keys(&keys(&wrong)) {
            Err(LabError::Violated(Violation::LogicalPartitionKeys(found))) => {
                assert_eq!(found.partition_keys.len(), wrong.len())
            }
            other => panic!("{other:?}"),
        }
    }
    assert!(assert_physical_partition_keys(&keys(&columns)).is_err());
}

#[test]
fn random_prefixes_are_two_hexadecimal_digits() {
    assert!(has_random_prefix_dirs(&listed(&["_delta_log", "a9"])));
    assert!(has_random_prefix_dirs(&listed(&["F0"])));
    assert!(!has_random_prefix_dirs(&listed(&["partition_year=2026", "_delta_log", "g0", "abc", "a", "0="])));
    assert!(!has_random_prefix_dirs(&vec![vec![0xff, 0xff], Vec::new()]));
    assert!(!has_random_prefix_dirs(&listed(&["@0", "0G", "`a", "/0", "0:"])));
    assert!(matches!(
        assert_no_random_prefix_dirs(&listed(&["0f"])),
        Err(LabError::Violated(Violation::RandomPrefixDirectories))
    ));
    assert!(assert_no_random_prefix_dirs(&listed(&["partition_year=2026"])).is_ok());
}

#[test]
fn counts_are_checked() {
    assert_eq!(query_count(&QueryResult::Count(7), "q").unwrap(), 7);
    assert!(matches!(query_count(&QueryResult::NoBatches, "q"), Err(LabError::NoBatches(sql)) if sql == "q"));
    assert!(matches!(query_count(&QueryResult::NotInt64, "q"), Err(LabError::CountNotInt64(sql)) if sql == "q"));
    assert!(assert_query_count(&QueryResult::Count(7), "q", 7).is_ok());
    assert!(matches!(
        assert_query_count(&QueryResult::Count(7), "q", 8),
        Err(LabError::Violated(Violation::QueryCount { sql, rows: 7, expected_rows: 8 })) if sql == "q"
    ));
    assert!(matches!(assert_query_count(&QueryResult::NoBatches, "q", 0), Err(LabError::NoBatches(_))));
}

#[test]
fn queries_filter_by_logical_names() {
    let checks = logical_filters();
    assert_eq!(checks.len(), 8);
    let expected: Vec<i64> = checks.iter().map(|check| check.expected).collect();
    assert_eq!(expected, vec![1000, 1000, 1, 2000, 1, 1, 1, 1]);
    assert_eq!(checks[0].table, Table::Regular);
    assert_eq!(
        checks[3].sql,
        "SELECT COUNT(*) FROM events WHERE partition_year = '2026' AND partition_month = '04' AND partition_day = '27'"
    );
    assert_eq!(checks[4].sql, "SELECT COUNT(*) FROM events WHERE event_id = 100001 AND source_system = 'batch'");
    assert_eq!(checks[4].table, Table::EvolvedColumnMapping);
    for check in report_filters() {
        assert_eq!(
            check.sql,
            "SELECT COUNT(*) FROM events \
        WHERE partition_year = '2026' \
        AND partition_month = '04' \
        AND partition_day = '27' \
        AND customer_name = 'customer-100123' \
        AND amount BETWEEN 494.90 AND 494.92"
        );
    }
}

fn rows(per_date: usize) -> Observation {
    let dates = ["2026-04-27", "2026-04-28", "2026-05-01"];
    Observation::Rows(
        dates
            .iter()
            .map(|date| Batch {
                num_rows: per_date,
                partition_date: StringColumn::Utf8View(vec![Some(date.to_string()); per_date]),
            })
            .collect(),
    )
}

fn added(names: &[&str]) -> Observation {
    let mut values = Json::object();
    for name in names {
        values = values.with(name, Json::text("x"));
    }
    let action = Json::object().with("add", Json::object().with("partitionValues", values));
    Observation::Contents(format!("{}\n", render_json(&action)))
}

fn logs(fields: &Vec<TableField>) -> Observation {
    let metadata = Json::object().with("schemaString", Json::text(&schema_string(fields).unwrap()));
    let contents = render_json(&Json::object().with("metaData", metadata));
    Observation::Logs(vec![LogFile { name: b"00000000000000000000.json".to_vec(), contents: Some(contents) }])
}

fn evolved_fields() -> Vec<TableField> {
    let mut fields = table_fields(true, false, true);
    for name in ["event_category", "source_system"] {
        let metadata = TextMap::new()
            .with("delta.columnMapping.physicalName".to_string(), FieldMetadata::Text(format!("col-new-{name}")));
        fields.push(TableField { name: name.to_string(), data_type: FieldType::Text, nullable: true, metadata });
    }
    fields
}

fn passing() -> Vec<Observation> {
    let mut all = vec![
        rows(1000),
        rows(1000),
        rows(2000),
        Observation::Exists(true),
        Observation::Exists(false),
        Observation::Exists(true),
        added(&["col-partition_year", "col-partition_month", "col-partition_day"]),
        added(&["partition_year", "partition_month", "partition_day"]),
        Observation::Names(listed(&["_delta_log", "partition_year=2026"])),
        logs(&table_fields(true, true, false)),
        logs(&evolved_fields()),
    ];
    for count in [1000, 1000, 1, 2000, 1, 1, 1, 1] {
        all.push(Observation::Answer(QueryResult::Count(count)));
    }
    all
}

fn run(observations: Vec<Observation>) -> Result<Validation, LabError> {
    let mut validation = Validation::new("/lab/tables");
    for observation in observations {
        validation = validation.observe(observation)?;
    }
    Ok(validation)
}

fn with(at: usize, observation: Observation) -> Result<Validation, LabError> {
    let mut all = passing();
    all[at] = observation;
    run(all)
}

#[test]
fn everything_as_expected_passes() {
    let validation = run(passing()).unwrap();
    assert!(validation.next_step().is_none());
    let counts: Vec<usize> = validation.summaries().iter().map(|summary| summary.row_count).collect();
    assert_eq!(counts, vec![3000, 3000, 6000]);
    assert_eq!(validation.add_summaries().len(), 2);
    assert_eq!(validation.add_summaries()[0].partition_keys.entry(0).0, "col-partition_day");
    assert_eq!(validation.add_summaries()[1].partition_keys.entry(0).0, "partition_day");
}

#[test]
fn steps_are_asked_for_in_order() {
    let mut validation = Validation::new("/r");
    let mut asked = Vec::new();
    for observation in passing() {
        asked.push(match validation.next_step().unwrap() {
            Step::ReadTable(path) => format!("read {path}"),
            Step::TestPath(path) => format!("test {path}"),
            Step::ReadLatestLog(path) => format!("log {path}"),
            Step::ListDirectory(path) => format!("list {path}"),
            Step::ReadLogs(path) => format!("logs {path}"),
            Step::Query { path, sql } => format!("query {path} {}", sql.len()),
        });
        validation = validation.observe(observation).unwrap();
    }
    assert_eq!(asked.len(), 19);
    assert_eq!(
        asked[..11],
        [
            "read /r/regular_events",
            "read /r/column_mapping_events",
            "read /r/evolved_column_mapping_events",
            "test /r/regular_events/partition_year=2026/partition_month=04/partition_day=27",
            "test /r/column_mapping_events/partition_year=2026",
            "test /r/evolved_column_mapping_events/partition_year=2026/partition_month=04/partition_day=27",
            "log /r/column_mapping_events",
            "log /r/evolved_column_mapping_events",
            "list /r/evolved_column_mapping_events",
            "logs /r/column_mapping_events",
            "logs /r/evolved_column_mapping_events",
        ]
    );
    assert!(asked[11].starts_with("query /r/regular_events "));
    assert!(asked[13].starts_with("query /r/column_mapping_events "));
    assert!(asked[18].starts_with("query /r/evolved_column_mapping_events "));
}

#[test]
fn every_single_expectation_matters() {
    assert!(matches!(
        with(0, rows(999)),
        Err(LabError::Violated(Violation::RowCount { actual: 2997, expected: 3000 }))
    ));
    assert!(matches!(with(1, rows(2000)), Err(LabError::Violated(Violation::RowCount { expected: 3000, .. }))));
    assert!(matches!(with(2, rows(1000)), Err(LabError::Violated(Violation::RowCount { expected: 6000, .. }))));
    assert!(matches!(
        with(3, Observation::Exists(false)),
        Err(LabError::Violated(Violation::MissingHivePartition(path))) if path.contains("/regular_events/")
    ));
    assert!(matches!(with(4, Observation::Exists(true)), Err(LabError::Violated(Violation::LogicalDirectories))));
    assert!(matches!(
        with(5, Observation::Exists(false)),
        Err(LabError::Violated(Violation::MissingHivePartition(path))) if path.contains("/evolved_column_mapping_events/")
    ));
    assert!(matches!(
        with(6, added(&["partition_year"])),
        Err(LabError::Violated(Violation::PhysicalPartitionKeys(_)))
    ));
    assert!(matches!(
        with(7, added(&["col-partition_year"])),
        Err(LabError::Violated(Violation::LogicalPartitionKeys(_)))
    ));
    assert!(matches!(
        with(8, Observation::Names(listed(&["7e"]))),
        Err(LabError::Violated(Violation::RandomPrefixDirectories))
    ));
    assert!(matches!(
        with(9, logs(&evolved_fields())),
        Err(LabError::Violated(Violation::FreshNameNotDistinct(_)))
    ));
    assert!(matches!(
        with(10, logs(&table_fields(true, true, false))),
        Err(LabError::Violated(Violation::ExistingNameChanged(_)))
    ));
    for at in 11..19 {
        assert!(matches!(
            with(at, Observation::Answer(QueryResult::Count(0))),
            Err(LabError::Violated(Violation::QueryCount { rows: 0, .. }))
        ));
    }
    assert!(matches!(with(12, Observation::Answer(QueryResult::NoBatches)), Err(LabError::NoBatches(_))));
}

#[test]
fn broken_observations_are_reported() {
    let missing = Observation::Rows(vec![Batch { num_rows: 1, partition_date: StringColumn::Missing }]);
    assert!(matches!(with(1, missing), Err(LabError::MissingColumn(name)) if name == "partition_date"));
    assert!(matches!(with(6, Observation::Contents("x\n".to_string())), Err(LabError::Json(_))));
    assert!(matches!(
        with(9, Observation::Logs(Vec::new())),
        Err(LabError::MissingMetadataAction(path)) if path == "/lab/tables/column_mapping_events"
    ));
}

#[test]
fn tables_are_checked_only_after_all_were_read() {
    let missing = || Observation::Rows(vec![Batch { num_rows: 1, partition_date: StringColumn::Missing }]);
    assert!(matches!(run(vec![rows(1), rows(1), missing()]), Err(LabError::MissingColumn(_))));
    assert!(matches!(
        run(vec![rows(1), rows(2), rows(3)]),
        Err(LabError::Violated(Violation::RowCount { actual: 3, expected: 3000 }))
    ));
}

#[test]
fn observation_of_another_kind_fails() {
    assert!(matches!(run(vec![Observation::Exists(true)]), Err(LabError::Unobserved(0))));
    assert!(matches!(with(8, Observation::Exists(true)), Err(LabError::Unobserved(8))));
    let mut all = passing();
    all.push(Observation::Exists(true));
    assert!(matches!(run(all), Err(LabError::Unobserved(19))));
}

#[test]
fn failures_are_put_in_words() {
    let text = |error: LabError| error.message();
    assert_eq!(
        text(LabError::UnknownCommand("x".to_string())).unwrap(),
        "unknown command `x`; use generate, setup, read, or run"
    );
    assert_eq!(text(LabError::MissingColumn("c".to_string())).unwrap(), "missing c column");
    assert_eq!(
        text(LabError::NotUtf8 { column: "c".to_string(), found: "Int64".to_string() }).unwrap(),
        "c should be Utf8, got Int64"
    );
    assert_eq!(text(LabError::MissingCsvColumn("c".to_string())).unwrap(), "missing CSV column c");
    for (error, input) in [
        (IntegerError::Empty, ""),
        (IntegerError::InvalidDigit, "x"),
        (IntegerError::TooLarge, "9223372036854775808"),
        (IntegerError::TooSmall, "-9223372036854775809"),
    ] {
        assert_eq!(text(LabError::EventId(error)).unwrap(), input.parse::<i64>().unwrap_err().to_string());
        assert_eq!(text(LabError::LogVersion(error)), text(LabError::EventId(error)));
    }
    assert_eq!(text(LabError::MissingSchemaString).unwrap(), "missing metadata schemaString");
    assert_eq!(text(LabError::MissingSchemaFields).unwrap(), "missing schema fields");
    assert_eq!(text(LabError::MissingFieldName).unwrap(), "missing field name");
    assert_eq!(text(LabError::MissingFieldMetadata("f".to_string())).unwrap(), "missing metadata for field f");
    assert_eq!(text(LabError::MissingPhysicalName("f".to_string())).unwrap(), "missing physical name for field f");
    assert_eq!(text(LabError::MissingMetadataAction("/t".to_string())).unwrap(), "missing metadata action in /t");
    assert_eq!(text(LabError::MissingLogJson).unwrap(), "missing Delta log JSON file");
    assert_eq!(text(LabError::LogName).unwrap(), "invalid Delta log filename");
    assert_eq!(text(LabError::MissingSchemaField("f".to_string())).unwrap(), "missing schema field f");
    assert_eq!(text(LabError::MissingEvolvedSchemaField("f".to_string())).unwrap(), "missing evolved schema field f");
    assert_eq!(text(LabError::NoBatches("q".to_string())).unwrap(), "query returned no batches: q");
    assert_eq!(text(LabError::CountNotInt64("q".to_string())).unwrap(), "query count should be Int64: q");
    assert_eq!(text(LabError::DirectoryUrl("p".to_string())).unwrap(), "failed to convert path to file URL: p");
    assert_eq!(text(LabError::Amount(3)), None);
    assert_eq!(text(LabError::Unobserved(3)), None);
    assert_eq!(text(LabError::MetadataNotObject), None);
}

#[test]
fn violations_are_put_in_words() {
    let text = |violation: Violation| violation.message();
    assert_eq!(text(Violation::RowCount { actual: 1, expected: 2 }), None);
    assert_eq!(
        text(Violation::PartitionCount { date: "d".to_string(), count: None, expected_count: 1 }).unwrap(),
        "unexpected row count for d"
    );
    assert_eq!(text(Violation::MissingHivePartition("p".to_string())).unwrap(), "expected Hive partition path p");
    assert_eq!(
        text(Violation::LogicalDirectories).unwrap(),
        "fresh column-mapped table should not use logical Hive partition directories"
    );
    assert_eq!(text(Violation::PhysicalPartitionKeys(keys(&["a"]))).unwrap(), "expected physical partition keys");
    assert_eq!(
        text(Violation::LogicalPartitionKeys(keys(&[]))).unwrap(),
        "expected existing partition columns to keep logical physical names"
    );
    assert_eq!(
        text(Violation::RandomPrefixDirectories).unwrap(),
        "expected evolved table to keep Hive-style partition directories when partition physical names match logical names"
    );
    assert_eq!(
        text(Violation::FreshNameNotDistinct("f".to_string())).unwrap(),
        "fresh column-mapped field f should have a distinct physical name"
    );
    assert_eq!(
        text(Violation::ExistingNameChanged("f".to_string())).unwrap(),
        "pre-existing field f should keep physical name equal to logical name"
    );
    assert_eq!(
        text(Violation::EvolvedNameNotDistinct("f".to_string())).unwrap(),
        "evolved field f should get a distinct physical name"
    );
    assert_eq!(
        text(Violation::EvolvedNameWithoutPrefix { field: "f".to_string(), physical_name: "p".to_string() }).unwrap(),
        "evolved field f should get a Delta physical name, got p"
    );
    assert_eq!(
        text(Violation::QueryCount { sql: "q".to_string(), rows: 1, expected_rows: 2 }).unwrap(),
        "unexpected row count for query: q"
    );
}
