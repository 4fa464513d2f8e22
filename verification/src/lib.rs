//! A lab for column mapping in Delta tables: how its tables are made and filled, how column mapping is
//! switched on for a table that exists, and how the tables are validated afterwards.
//!
//! The library works on plain values. Reading and writing files, running queries and making tables is
//! left to the program around it.

pub mod activation;
pub mod checks;
pub mod decimal;
pub mod error;
pub mod events;
pub mod json;
pub mod log;
pub mod mapping;
pub mod schema;
pub mod summary;
pub mod tables;
pub mod text;
pub mod text_map;
pub mod validation;

pub use activation::{
    activate_column_mapping_for_existing_table, activate_metadata, activation_contents, column_mapping_protocol,
    column_mapping_versions, Commit,
};
pub use checks::{
    assert_hive_partition_exists, assert_logical_partition_keys, assert_no_logical_directories,
    assert_no_random_prefix_dirs, assert_physical_partition_keys, assert_query_count, has_random_prefix_dirs,
    hive_partition, logical_directory, logical_filters, query_count, report_filters, QueryCheck, QueryResult,
};
pub use decimal::{decimal_text, padded_text, parse_i64, parse_u64, signed_decimal_text, IntegerError};
pub use error::{LabError, Violation};
pub use events::{event_records, events_batch, required, BatchField, ColumnValues, CsvFailure, EventsBatch};
pub use json::{is_exact, parse_json, render_json, Json, JsonFailure};
pub use log::{
    add_partition_keys, is_log, latest_add_summary, latest_log_json, latest_metadata_action, log_file_name, log_version,
    next_log_version, read_metadata_action, AddSummary, LogFile,
};
pub use mapping::{
    assert_evolved_column_mapping_schema, assert_fresh_column_mapping_schema, check_evolved_mapping,
    check_fresh_mapping, latest_schema_mapping, read_field_mapping, read_metadata_mapping, read_schema_mapping,
    FieldMapping,
};
pub use schema::{
    column_mapping_configuration, partition_columns, schema_string, table_fields, table_schema, FieldMetadata, FieldType,
    TableField,
};
pub use summary::{
    assert_summary, partition_dates, read_summary, string_values, Batch, StringColumn, TableSummary,
    RECORDS_PER_PARTITION,
};
pub use tables::{
    all_tables, base_csv, evolved_csv, parse_command, table_name, table_path, table_setup, table_url, tables_root,
    Command, Events, Table, TableSetup,
};
pub use text::{compare_bytes, compare_text, join_path, same_text, starts_with, text_lines, Order};
pub use text_map::TextMap;
pub use validation::{Observation, Step, Validation};
