use column_mapping_lab::{
    all_tables, base_csv, evolved_csv, parse_command, table_name, table_path, table_setup, table_url, tables_root,
    Command, Events, LabError, Table,
};

#[test]
fn commands_are_read() {
    assert!(matches!(parse_command(None), Ok(Command::Run)));
    assert!(matches!(parse_command(Some("run")), Ok(Command::Run)));
    assert!(matches!(parse_command(Some("generate")), Ok(Command::Generate)));
    assert!(matches!(parse_command(Some("setup")), Ok(Command::Setup)));
    assert!(matches!(parse_command(Some("read")), Ok(Command::Read)));
}

#[test]
fn unknown_command_is_reported() {
    for word in ["", "Read", "runs"] {
        match parse_command(Some(word)) {
            Err(LabError::UnknownCommand(found)) => assert_eq!(found, word),
            other => panic!("{other:?}"),
        }
    }
}

#[test]
fn files_are_below_the_project() {
    assert_eq!(base_csv("/lab"), "/lab/data/events_base.csv");
    assert_eq!(evolved_csv("/lab"), "/lab/data/events_evolved.csv");
    assert_eq!(tables_root("/lab"), "/lab/tables");
}

#[test]
fn tables_have_directories_of_their_own() {
    assert_eq!(all_tables(), [Table::Regular, Table::ColumnMapping, Table::EvolvedColumnMapping]);
    assert_eq!(table_path("/lab/tables", Table::Regular), "/lab/tables/regular_events");
    assert_eq!(table_path("/lab/tables", Table::ColumnMapping), "/lab/tables/column_mapping_events");
    assert_eq!(table_name(Table::EvolvedColumnMapping), "evolved_column_mapping_events");
}

#[test]
fn table_urls_are_those_of_directories() {
    assert_eq!(table_url("/lab/tables/a").unwrap(), "file:///lab/tables/a/");
    assert_eq!(table_url("/a b/").unwrap(), "file:///a%20b/");
    assert_eq!(table_url("/").unwrap(), "file:///");
}

#[test]
fn relative_path_has_no_url() {
    assert!(matches!(table_url("tables"), Err(LabError::DirectoryUrl(path)) if path == "tables"));
    assert!(table_url("").is_err());
}

#[test]
fn regular_table_has_no_mapping() {
    let setup = table_setup(Table::Regular);
    assert_eq!(setup.fields.len(), 9);
    assert!(setup.fields.iter().all(|field| field.metadata.len() == 0));
    assert!(setup.configuration.is_none());
    assert_eq!(setup.events, Events::Evolved);
    assert_eq!(setup.events_after_activation, None);
    assert_eq!(setup.partition_columns, ["partition_year", "partition_month", "partition_day"]);
}

#[test]
fn mapped_table_is_told_its_largest_id() {
    let setup = table_setup(Table::ColumnMapping);
    assert_eq!(setup.fields.len(), 9);
    assert!(setup.fields.iter().all(|field| field.metadata.len() == 2));
    let [mode, largest] = setup.configuration.unwrap();
    assert_eq!(mode.0, "delta.columnMapping.mode");
    assert_eq!(mode.1.as_deref(), Some("name"));
    assert_eq!(largest.1, Some(setup.fields.len().to_string()));
    assert_eq!(setup.events_after_activation, None);
}

#[test]
fn evolving_table_starts_with_the_base_columns() {
    let setup = table_setup(Table::EvolvedColumnMapping);
    assert_eq!(setup.fields.len(), 7);
    assert!(setup.configuration.is_none());
    assert_eq!(setup.events, Events::Base);
    assert_eq!(setup.events_after_activation, Some(Events::Evolved));
}
