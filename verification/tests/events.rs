use column_mapping_lab::{
    assert_summary, event_records, events_batch, partition_dates, read_summary, required, string_values, Batch,
    ColumnValues, EventsBatch, FieldType, IntegerError, LabError, StringColumn, TextMap, Violation,
    RECORDS_PER_PARTITION,
};

const HEADER: &str =
    "event_id,customer_name,amount,partition_date,partition_year,partition_month,partition_day,event_category,source_system";

fn batch_of(csv: &str, amounts: Vec<Option<u64>>, evolved: bool) -> Result<EventsBatch, LabError> {
    events_batch(event_records(csv.as_bytes()), &amounts, evolved)
}

fn texts(values: &ColumnValues) -> Vec<String> {
    match values {
        ColumnValues::Utf8(values) => values.clone(),
        other => panic!("{other:?}"),
    }
}

#[test]
fn records_are_keyed_by_the_header() {
    let records = event_records(b"b,a\n1,\"x,y\"\n2,z\n");
    assert_eq!(records.len(), 2);
    let first = records[0].as_ref().unwrap();
    assert_eq!(first.entry(0).0, "a");
    assert_eq!(first.get("a").unwrap(), "x,y");
    assert_eq!(required(first, "b").unwrap(), "1");
    assert_eq!(required(records[1].as_ref().unwrap(), "a").unwrap(), "z");
}

#[test]
fn uneven_record_is_refused() {
    let records = event_records(b"a,b\n1\n");
    assert!(records[0].is_err());
    assert!(matches!(batch_of("a,b\n1\n", vec![None], false), Err(LabError::Csv(_))));
}

#[test]
fn missing_csv_column_is_reported() {
    assert!(matches!(
        required(&TextMap::new(), "amount"),
        Err(LabError::MissingCsvColumn(column)) if column == "amount"
    ));
    assert!(matches!(
        batch_of("event_id\n1\n", vec![None], false),
        Err(LabError::MissingCsvColumn(column)) if column == "customer_name"
    ));
}

#[test]
fn events_become_columns() {
    let csv = format!("{HEADER}\n1,ann,1.5,2026-04-27,2026,04,27,web,batch\n-2,bob,2,2026-05-01,2026,05,01,app,stream\n");
    let amounts = vec![Some(1.5f64.to_bits()), Some(2f64.to_bits())];
    let batch = batch_of(&csv, amounts.clone(), true).unwrap();
    assert_eq!(batch.fields.len(), 9);
    assert_eq!(batch.columns.len(), 9);
    assert_eq!(batch.fields[0].name, "event_id");
    assert_eq!(batch.fields[0].data_type, FieldType::Long);
    assert!(!batch.fields[0].nullable);
    assert!(batch.fields[2].nullable);
    assert!(matches!(&batch.columns[0], ColumnValues::Int64(ids) if *ids == vec![1, -2]));
    assert!(matches!(&batch.columns[2], ColumnValues::Float64(bits) if *bits == vec![1.5f64.to_bits(), 2f64.to_bits()]));
    assert_eq!(texts(&batch.columns[1]), vec!["ann", "bob"]);
    assert_eq!(texts(&batch.columns[3]), vec!["2026-04-27", "2026-05-01"]);
    assert_eq!(texts(&batch.columns[6]), vec!["27", "01"]);
    assert_eq!(texts(&batch.columns[7]), vec!["web", "app"]);
    assert_eq!(texts(&batch.columns[8]), vec!["batch", "stream"]);

    let base = batch_of(&csv, amounts, false).unwrap();
    assert_eq!(base.fields.len(), 7);
    for at in 0..7 {
        assert_eq!(base.fields[at].name, batch.fields[at].name);
        assert_eq!(base.fields[at].nullable, batch.fields[at].nullable);
    }
}

#[test]
fn batch_fits_the_table() {
    for evolved in [false, true] {
        let batch = batch_of(HEADER, Vec::new(), evolved).unwrap();
        let fields = column_mapping_lab::table_fields(true, evolved, false);
        assert_eq!(batch.fields.len(), fields.len());
        for (made, field) in batch.fields.iter().zip(&fields) {
            assert_eq!(made.name, field.name);
            assert_eq!(made.data_type, field.data_type);
            assert_eq!(made.nullable, field.nullable);
        }
    }
}

#[test]
fn broken_numbers_are_reported() {
    let csv = format!("{HEADER}\nx,ann,1.5,d,y,m,d,c,s\n");
    assert!(matches!(batch_of(&csv, vec![None], true), Err(LabError::EventId(IntegerError::InvalidDigit))));
    let csv = format!("{HEADER}\n1,ann,1.5,d,y,m,d,c,s\n2,bob,x,d,y,m,d,c,s\n");
    assert!(matches!(batch_of(&csv, vec![Some(0), None], true), Err(LabError::Amount(1))));
}

#[test]
fn first_broken_cell_decides() {
    let csv = "event_id,customer_name,amount\nx,ann,y\n";
    assert!(matches!(batch_of(csv, vec![None], false), Err(LabError::EventId(_))));
    let csv = "event_id,customer_name,amount\n1,ann,y\n";
    assert!(matches!(batch_of(csv, vec![None], false), Err(LabError::Amount(0))));
    assert!(matches!(batch_of(csv, vec![Some(0)], false), Err(LabError::MissingCsvColumn(c)) if c == "partition_date"));
}

fn dates(values: &[Option<&str>]) -> Vec<Option<String>> {
    values.iter().map(|value| value.map(|text| text.to_string())).collect()
}

#[test]
fn missing_strings_are_empty() {
    let column = StringColumn::Utf8(dates(&[Some("a"), None]));
    assert_eq!(string_values(&column, "partition_date").unwrap(), vec!["a", ""]);
    let column = StringColumn::Utf8View(dates(&[None, Some("b")]));
    assert_eq!(string_values(&column, "partition_date").unwrap(), vec!["", "b"]);
}

#[test]
fn columns_without_strings_are_reported() {
    assert!(matches!(string_values(&StringColumn::Missing, "c"), Err(LabError::MissingColumn(name)) if name == "c"));
    assert!(matches!(
        string_values(&StringColumn::Other("Int64".to_string()), "c"),
        Err(LabError::NotUtf8 { column, found }) if column == "c" && found == "Int64"
    ));
}

#[test]
fn rows_are_counted_by_date() {
    let batches = vec![
        Batch { num_rows: 3, partition_date: StringColumn::Utf8(dates(&[Some("b"), Some("a"), Some("b")])) },
        Batch { num_rows: 2, partition_date: StringColumn::Utf8View(dates(&[Some("b"), None])) },
    ];
    let summary = read_summary(&batches).unwrap();
    assert_eq!(summary.row_count, 5);
    assert_eq!(summary.partition_counts.len(), 3);
    assert_eq!(summary.partition_counts.entry(0), ("", &1));
    assert_eq!(summary.partition_counts.entry(1), ("a", &1));
    assert_eq!(summary.partition_counts.entry(2), ("b", &3));
}

#[test]
fn first_batch_without_dates_decides() {
    let batches = vec![
        Batch { num_rows: 1, partition_date: StringColumn::Other("Int32".to_string()) },
        Batch { num_rows: 1, partition_date: StringColumn::Missing },
    ];
    assert!(matches!(read_summary(&batches), Err(LabError::NotUtf8 { .. })));
}

fn table(counts: &[(&str, usize)]) -> Vec<Batch> {
    counts
        .iter()
        .map(|(date, rows)| Batch { num_rows: *rows, partition_date: StringColumn::Utf8(vec![Some(date.to_string()); *rows]) })
        .collect()
}

#[test]
fn complete_table_passes() {
    assert_eq!(partition_dates(), ["2026-04-27", "2026-04-28", "2026-05-01"]);
    assert_eq!(RECORDS_PER_PARTITION, 1000);
    let summary = read_summary(&table(&[("2026-04-27", 4), ("2026-04-28", 4), ("2026-05-01", 4)])).unwrap();
    assert!(assert_summary(&summary, 4).is_ok());
}

#[test]
fn incomplete_table_fails() {
    let summary = read_summary(&table(&[("2026-04-27", 4)])).unwrap();
    assert!(matches!(
        assert_summary(&summary, 4),
        Err(LabError::Violated(Violation::RowCount { actual: 4, expected: 12 }))
    ));
    let summary = read_summary(&table(&[("2026-04-27", 4), ("2026-04-28", 5), ("2026-05-01", 3)])).unwrap();
    assert!(matches!(
        assert_summary(&summary, 4),
        Err(LabError::Violated(Violation::PartitionCount { date, count: Some(5), expected_count: 4 })) if date == "2026-04-28"
    ));
    let summary = read_summary(&table(&[("2026-04-27", 4), ("other", 8)])).unwrap();
    assert!(matches!(
        assert_summary(&summary, 4),
        Err(LabError::Violated(Violation::PartitionCount { date, count: None, .. })) if date == "2026-04-28"
    ));
}

#[test]
fn counts_add_up_to_the_rows() {
    let summary = read_summary(&table(&[("a", 2), ("b", 3), ("a", 4)])).unwrap();
    let counts = &summary.partition_counts;
    let total: usize = (0..counts.len()).map(|at| *counts.entry(at).1).sum();
    assert_eq!(total, summary.row_count);
}

#[test]
fn reader_words_are_those_of_the_record() {
    let words = batch_of("a,b\n1\n", vec![None], false).unwrap_err().message().unwrap();
    let failure = event_records(b"a,b\n1\n").remove(0).unwrap_err();
    assert_eq!(failure.words, failure.error.to_string());
    assert_eq!(failure.words, words);
    assert_eq!(
        words,
        "CSV error: record 1 (line: 2, byte: 4): found record with 1 fields, but the previous record has 2 fields"
    );
}

#[test]
fn base_batch_is_there_where_the_evolved_one_is() {
    let csv = format!("{HEADER}\n1,ann,1.5,d,y,m,d,c,s\n");
    assert!(batch_of(&csv, vec![Some(0)], true).is_ok());
    assert!(batch_of(&csv, vec![Some(0)], false).is_ok());
}

#[test]
fn order_of_rows_and_cuts_do_not_matter() {
    let one = read_summary(&table(&[("a", 2), ("b", 3), ("a", 4)])).unwrap();
    let other = read_summary(&table(&[("b", 1), ("a", 6), ("b", 2)])).unwrap();
    assert_eq!(one.row_count, other.row_count);
    assert_eq!(one.partition_counts.len(), other.partition_counts.len());
    for at in 0..one.partition_counts.len() {
        assert_eq!(one.partition_counts.entry(at), other.partition_counts.entry(at));
    }
}
