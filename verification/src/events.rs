//! The events that the tables are filled with, as they come from CSV.
use crate::decimal::{parse_i64, IntegerError};
#[allow(unused_imports)]
use crate::decimal::read_integer;
use crate::error::LabError;
#[allow(unused_imports)]
use crate::error::ErrorView;
use crate::schema::{definitions, is_nullable, FieldType};
#[allow(unused_imports)]
use crate::schema::{
    column_definitions, column_names, columns_are_declared, definition_views, may_be_null, table_columns,
};
#[allow(unused_imports)]
use crate::text::texts;
use crate::text_map::TextMap;
use vstd::prelude::*;

verus! {

/// An error of the CSV reader, and its words.
#[derive(Debug)]
pub struct CsvFailure {
    pub words: String,
    pub error: csv::Error,
}

/// A CSV record: what it holds for each column that the header names.
pub open spec fn record_view(record: TextMap<String>) -> Map<Seq<char>, Seq<char>> {
    record@.map_values(|value: String| value@)
}

/// The records of a CSV file, with the words of its error for those that the reader does not accept.
pub open spec fn record_views(records: Seq<Result<TextMap<String>, CsvFailure>>) -> Seq<Result<Map<Seq<char>, Seq<char>>, Seq<char>>> {
    records.map_values(
        |record: Result<TextMap<String>, CsvFailure>|
            match record {
                Ok(fields) => Ok(record_view(fields)),
                Err(failure) => Err(failure.words@),
            },
    )
}

/// The records that `csv::Reader` reads from bytes when it deserializes each into a map from the
/// names in the header to the fields, with the words of the error for those where it gives one.
pub uninterp spec fn csv_rows(data: Seq<u8>) -> Seq<Result<Map<Seq<char>, Seq<char>>, Seq<char>>>;

/// `csv::Reader::from_reader` and `deserialize` into maps: the records they give are named by
/// [`csv_rows`]. A `BTreeMap` hands out its entries in the order of their keys.
#[verifier::external_body]
fn deserialize(data: &[u8]) -> (records: Vec<Result<TextMap<String>, CsvFailure>>)
    ensures
        record_views(records@) == csv_rows(data@),
{
    let mut reader = csv::Reader::from_reader(data);
    let records = reader.deserialize::<std::collections::BTreeMap<String, String>>();
    records.map(
        |record|
            record.map(|fields| TextMap { entries: fields.into_iter().collect() }).map_err(
                |error| CsvFailure { words: error.to_string(), error },
            ),
    ).collect()
}

/// Reads the records of a CSV file.
pub fn event_records(data: &[u8]) -> (records: Vec<Result<TextMap<String>, CsvFailure>>)
    ensures
        record_views(records@) == csv_rows(data@),
{
    deserialize(data)
}

/// What a record holds for a column that it must have.
pub fn required(record: &TextMap<String>, column: &str) -> (value: Result<String, LabError>)
    ensures
        value matches Ok(found) ==> record_view(*record).contains_key(column@) && found@ == record_view(
            *record,
        )[column@],
        value matches Err(error) ==> !record_view(*record).contains_key(column@) && error@
            == ErrorView::MissingCsvColumn(column@),
{
    match record.get(column) {
        Some(value) => Ok(value.clone()),
        None => Err(LabError::MissingCsvColumn(column.to_owned())),
    }
}

/// The number that a text denotes.
pub open spec fn event_number(text: Seq<char>) -> Result<int, IntegerError> {
    read_integer(text, i64::MIN as int, i64::MAX as int)
}

/// Why a record cannot fill a column, if it cannot: it has no such field, or the field is no number
/// where the column wants one. The amount is the number that the record's amount denotes, if any.
pub open spec fn cell_failure(
    record: Map<Seq<char>, Seq<char>>,
    amount: Option<u64>,
    at: usize,
    definition: (Seq<char>, FieldType),
) -> Option<ErrorView> {
    if !record.contains_key(definition.0) {
        Some(ErrorView::MissingCsvColumn(definition.0))
    } else {
        match definition.1 {
            FieldType::Text => None,
            FieldType::Double => if amount is None {
                Some(ErrorView::Amount(at))
            } else {
                None
            },
            FieldType::Long => match event_number(record[definition.0]) {
                Ok(_) => None,
                Err(error) => Some(ErrorView::EventId(error)),
            },
        }
    }
}

/// Why a record cannot fill the columns, if it cannot: the first column that it cannot fill decides.
pub open spec fn row_failure(
    record: Map<Seq<char>, Seq<char>>,
    amount: Option<u64>,
    at: usize,
    columns: Seq<(Seq<char>, FieldType)>,
) -> Option<ErrorView>
    decreases columns.len(),
{
    if columns.len() == 0 {
        None
    } else {
        match cell_failure(record, amount, at, columns[0]) {
            Some(error) => Some(error),
            None => row_failure(record, amount, at, columns.drop_first()),
        }
    }
}

/// Why some records cannot make up a batch, if they cannot: the first one that cannot decides.
pub open spec fn batch_failure(
    records: Seq<Result<Map<Seq<char>, Seq<char>>, Seq<char>>>,
    amounts: Seq<Option<u64>>,
    columns: Seq<(Seq<char>, FieldType)>,
) -> Option<ErrorView>
    decreases records.len(),
{
    if records.len() == 0 {
        None
    } else {
        let last = records.len() - 1;
        match batch_failure(records.drop_last(), amounts, columns) {
            Some(error) => Some(error),
            None => match records[last] {
                Err(words) => Some(ErrorView::Csv(words)),
                Ok(record) => row_failure(record, amounts[last], last as usize, columns),
            },
        }
    }
}

/// The values of a column, each of which is there. A floating-point number is held as its bits.
#[derive(Debug)]
pub enum ColumnValues {
    Int64(Vec<i64>),
    Float64(Vec<u64>),
    Utf8(Vec<String>),
}

/// What the values of a column stand for.
pub enum ColumnValuesView {
    Int64(Seq<int>),
    Float64(Seq<u64>),
    Utf8(Seq<Seq<char>>),
}

impl View for ColumnValues {
    type V = ColumnValuesView;

    open spec fn view(&self) -> ColumnValuesView {
        match self {
            ColumnValues::Int64(values) => ColumnValuesView::Int64(values@.map_values(|value: i64| value as int)),
            ColumnValues::Float64(values) => ColumnValuesView::Float64(values@),
            ColumnValues::Utf8(values) => ColumnValuesView::Utf8(texts(values@)),
        }
    }
}

/// A column of a batch: its name, its type and whether it may hold nothing.
#[derive(Debug)]
pub struct BatchField {
    pub name: String,
    pub data_type: FieldType,
    pub nullable: bool,
}

/// What a column of a batch stands for.
pub struct BatchFieldView {
    pub name: Seq<char>,
    pub data_type: FieldType,
    pub nullable: bool,
}

impl View for BatchField {
    type V = BatchFieldView;

    open spec fn view(&self) -> BatchFieldView {
        BatchFieldView { name: self.name@, data_type: self.data_type, nullable: self.nullable }
    }
}

/// Events, column by column.
#[derive(Debug)]
pub struct EventsBatch {
    pub fields: Vec<BatchField>,
    pub columns: Vec<ColumnValues>,
}

/// The columns of a batch of events.
pub open spec fn batch_fields(include_evolved_columns: bool) -> Seq<BatchFieldView> {
    column_definitions(include_evolved_columns).map_values(
        |definition: (Seq<char>, FieldType)|
            BatchFieldView {
                name: definition.0,
                data_type: definition.1,
                nullable: may_be_null(definition.0),
            },
    )
}

/// What a column takes from records: a field of each, or the number that each has as its amount.
pub open spec fn batch_column(
    records: Seq<Map<Seq<char>, Seq<char>>>,
    amounts: Seq<Option<u64>>,
    definition: (Seq<char>, FieldType),
) -> ColumnValuesView {
    match definition.1 {
        FieldType::Long => ColumnValuesView::Int64(
            records.map_values(|record: Map<Seq<char>, Seq<char>>| event_number(record[definition.0])->Ok_0),
        ),
        FieldType::Double => ColumnValuesView::Float64(amounts.map_values(|amount: Option<u64>| amount->0)),
        FieldType::Text => ColumnValuesView::Utf8(
            records.map_values(|record: Map<Seq<char>, Seq<char>>| record[definition.0]),
        ),
    }
}

/// The values of a batch of events, column by column.
pub open spec fn batch_columns(
    records: Seq<Result<Map<Seq<char>, Seq<char>>, Seq<char>>>,
    amounts: Seq<Option<u64>>,
    include_evolved_columns: bool,
) -> Seq<ColumnValuesView> {
    let accepted = records.map_values(|record: Result<Map<Seq<char>, Seq<char>>, Seq<char>>| record->Ok_0);
    column_definitions(include_evolved_columns).map_values(
        |definition: (Seq<char>, FieldType)| batch_column(accepted, amounts, definition),
    )
}

/// What a list of columns of a batch stands for.
pub open spec fn batch_field_views(fields: Seq<BatchField>) -> Seq<BatchFieldView> {
    fields.map_values(|field: BatchField| field@)
}

/// What the values of some columns stand for.
pub open spec fn column_views(columns: Seq<ColumnValues>) -> Seq<ColumnValuesView> {
    columns.map_values(|column: ColumnValues| column@)
}

/// Checks that a record can fill a column.
fn check_cell(record: &TextMap<String>, amount: Option<u64>, at: usize, name: &str, data_type: FieldType) -> (outcome: Result<
    (),
    LabError,
>)
    ensures
        crate::error::failure(outcome) == cell_failure(record_view(*record), amount, at, (name@, data_type)),
{
    let value = match required(record, name) {
        Ok(value) => value,
        Err(error) => {
            return Err(error);
        },
    };
    match data_type {
        FieldType::Text => Ok(()),
        FieldType::Double => if amount.is_none() {
            Err(LabError::Amount(at))
        } else {
            Ok(())
        },
        FieldType::Long => match parse_i64(value.as_str()) {
            Ok(_) => Ok(()),
            Err(error) => Err(LabError::EventId(error)),
        },
    }
}

/// Checks that a record can fill the columns.
fn check_row(
    record: &TextMap<String>,
    amount: Option<u64>,
    at: usize,
    columns: &Vec<(&'static str, FieldType)>,
) -> (outcome: Result<(), LabError>)
    ensures
        crate::error::failure(outcome) == row_failure(record_view(*record), amount, at, definition_views(columns@)),
{
    let ghost all = definition_views(columns@);
    let ghost seen = record_view(*record);
    let mut i: usize = 0;
    assert(all.skip(0) =~= all);
    while i < columns.len()
        invariant
            all == definition_views(columns@),
            seen == record_view(*record),
            i <= columns@.len(),
            row_failure(seen, amount, at, all) == row_failure(seen, amount, at, all.skip(i as int)),
        decreases columns@.len() - i,
    {
        let (name, data_type) = columns[i];
        proof {
            assert(all.skip(i as int)[0] == (name@, data_type));
            assert(all.skip(i as int).drop_first() =~= all.skip(i + 1));
        }
        match check_cell(record, amount, at, name, data_type) {
            Err(error) => {
                return Err(error);
            },
            Ok(_) => {},
        }
        i += 1;
    }
    Ok(())
}

/// What records that were all accepted hold.
pub open spec fn row_views(rows: Seq<TextMap<String>>) -> Seq<Map<Seq<char>, Seq<char>>> {
    rows.map_values(|row: TextMap<String>| record_view(row))
}

/// Once a record cannot be taken into a batch, no further one changes the outcome.
proof fn bad_record_stays(
    records: Seq<Result<Map<Seq<char>, Seq<char>>, Seq<char>>>,
    amounts: Seq<Option<u64>>,
    columns: Seq<(Seq<char>, FieldType)>,
    read: int,
)
    requires
        0 <= read <= records.len(),
        batch_failure(records.take(read), amounts, columns) is Some,
    ensures
        batch_failure(records, amounts, columns) == batch_failure(records.take(read), amounts, columns),
    decreases records.len(),
{
    if read < records.len() {
        assert(records.drop_last().take(read) =~= records.take(read));
        bad_record_stays(records.drop_last(), amounts, columns, read);
    } else {
        assert(records.take(read) =~= records);
    }
}

/// Records that make up a batch are all accepted and can each fill every column.
proof fn good_rows(
    records: Seq<Result<Map<Seq<char>, Seq<char>>, Seq<char>>>,
    amounts: Seq<Option<u64>>,
    columns: Seq<(Seq<char>, FieldType)>,
    at: int,
)
    requires
        batch_failure(records, amounts, columns) is None,
        0 <= at < records.len(),
    ensures
        records[at] is Ok,
        row_failure(records[at]->Ok_0, amounts[at], at as usize, columns) is None,
    decreases records.len(),
{
    if at < records.len() - 1 {
        good_rows(records.drop_last(), amounts, columns, at);
    }
}

/// A record that can fill the columns can fill each of them.
proof fn good_cells(
    record: Map<Seq<char>, Seq<char>>,
    amount: Option<u64>,
    at: usize,
    columns: Seq<(Seq<char>, FieldType)>,
    column: int,
)
    requires
        row_failure(record, amount, at, columns) is None,
        0 <= column < columns.len(),
    ensures
        cell_failure(record, amount, at, columns[column]) is None,
    decreases columns.len(),
{
    if column > 0 {
        good_cells(record, amount, at, columns.drop_first(), column - 1);
    }
}

/// Takes the records that make up a batch, or finds the first one that cannot.
fn take_rows(
    records: Vec<Result<TextMap<String>, CsvFailure>>,
    amounts: &Vec<Option<u64>>,
    columns: &Vec<(&'static str, FieldType)>,
) -> (rows: Result<Vec<TextMap<String>>, LabError>)
    requires
        amounts@.len() == records@.len(),
    ensures
        rows matches Err(error) ==> batch_failure(
            record_views(records@),
            amounts@,
            definition_views(columns@),
        ) == Some(error@),
        rows matches Ok(taken) ==> batch_failure(record_views(records@), amounts@, definition_views(columns@)) is None
            && row_views(taken@) == record_views(records@).map_values(
            |record: Result<Map<Seq<char>, Seq<char>>, Seq<char>>| record->Ok_0,
        ),
{
    let ghost all = record_views(records@);
    let ghost accepted = all.map_values(|record: Result<Map<Seq<char>, Seq<char>>, Seq<char>>| record->Ok_0);
    let ghost wanted = definition_views(columns@);
    let mut rows: Vec<TextMap<String>> = Vec::new();
    assert(all.take(0) =~= Seq::empty());
    for record in it: records.into_iter()
        invariant
            all == record_views(records@),
            it.seq() == records@,
            accepted == all.map_values(|record: Result<Map<Seq<char>, Seq<char>>, Seq<char>>| record->Ok_0),
            wanted == definition_views(columns@),
            amounts@.len() == records@.len(),
            rows@.len() == it.index(),
            batch_failure(all.take(it.index() as int), amounts@, wanted) is None,
            row_views(rows@) == accepted.take(it.index() as int),
    {
        let ghost at = it.index() as int;
        let ghost read = all.take(at + 1);
        proof {
            assert(read.drop_last() =~= all.take(at));
            assert(read[at] == all[at]);
            if batch_failure(read, amounts@, wanted) is Some {
                bad_record_stays(all, amounts@, wanted, at + 1);
            }
        }
        let place = rows.len();
        match record {
            Err(failure) => {
                return Err(LabError::Csv(failure));
            },
            Ok(row) => {
                match check_row(&row, amounts[place], place, columns) {
                    Err(error) => {
                        return Err(error);
                    },
                    Ok(_) => {},
                }
                let ghost before = rows@;
                rows.push(row);
                proof {
                    assert(row_views(rows@) =~= row_views(before).push(record_view(row)));
                    assert(accepted.take(at + 1) =~= accepted.take(at).push(accepted[at]));
                }
            },
        }
    }
    assert(all.take(all.len() as int) =~= all);
    assert(accepted.take(accepted.len() as int) =~= accepted);
    Ok(rows)
}

/// Fills a column from records that can fill it.
fn fill_column(
    rows: &Vec<TextMap<String>>,
    amounts: &Vec<Option<u64>>,
    name: &'static str,
    data_type: FieldType,
) -> (column: ColumnValues)
    requires
        amounts@.len() == rows@.len(),
        forall|i: int|
            0 <= i < rows@.len() ==> cell_failure(
                #[trigger] row_views(rows@)[i],
                amounts@[i],
                i as usize,
                (name@, data_type),
            ) is None,
    ensures
        column@ == batch_column(row_views(rows@), amounts@, (name@, data_type)),
{
    let ghost seen = row_views(rows@);
    let n = rows.len();
    let mut i: usize = 0;
    match data_type {
        FieldType::Long => {
            let ghost meant = seen.map_values(
                |record: Map<Seq<char>, Seq<char>>| event_number(record[name@])->Ok_0,
            );
            let mut values: Vec<i64> = Vec::new();
            while i < n
                invariant
                    seen == row_views(rows@),
                    meant == seen.map_values(
                        |record: Map<Seq<char>, Seq<char>>| event_number(record[name@])->Ok_0,
                    ),
                    i <= n == rows@.len() == amounts@.len(),
                    forall|j: int|
                        0 <= j < n ==> cell_failure(
                            #[trigger] seen[j],
                            amounts@[j],
                            j as usize,
                            (name@, FieldType::Long),
                        ) is None,
                    values@.map_values(|value: i64| value as int) == meant.take(i as int),
                decreases n - i,
            {
                assert(seen[i as int] == record_view(rows@[i as int]));
                let value = parse_i64(rows[i].get(name).unwrap().as_str()).unwrap();
                let ghost before = values@;
                values.push(value);
                proof {
                    assert(values@.map_values(|value: i64| value as int) =~= before.map_values(
                        |value: i64| value as int,
                    ).push(value as int));
                    assert(meant.take(i + 1) =~= meant.take(i as int).push(meant[i as int]));
                }
                i += 1;
            }
            assert(meant.take(n as int) =~= meant);
            ColumnValues::Int64(values)
        },
        FieldType::Double => {
            let ghost meant = amounts@.map_values(|amount: Option<u64>| amount->0);
            let mut values: Vec<u64> = Vec::new();
            while i < n
                invariant
                    seen == row_views(rows@),
                    meant == amounts@.map_values(|amount: Option<u64>| amount->0),
                    i <= n == rows@.len() == amounts@.len(),
                    forall|j: int|
                        0 <= j < n ==> cell_failure(
                            #[trigger] seen[j],
                            amounts@[j],
                            j as usize,
                            (name@, FieldType::Double),
                        ) is None,
                    values@ == meant.take(i as int),
                decreases n - i,
            {
                assert(seen[i as int] == record_view(rows@[i as int]));
                let value = amounts[i].unwrap();
                values.push(value);
                assert(meant.take(i + 1) =~= meant.take(i as int).push(meant[i as int]));
                i += 1;
            }
            assert(meant.take(n as int) =~= meant);
            ColumnValues::Float64(values)
        },
        FieldType::Text => {
            let ghost meant = seen.map_values(|record: Map<Seq<char>, Seq<char>>| record[name@]);
            let mut values: Vec<String> = Vec::new();
            while i < n
                invariant
                    seen == row_views(rows@),
                    meant == seen.map_values(|record: Map<Seq<char>, Seq<char>>| record[name@]),
                    i <= n == rows@.len() == amounts@.len(),
                    forall|j: int|
                        0 <= j < n ==> cell_failure(
                            #[trigger] seen[j],
                            amounts@[j],
                            j as usize,
                            (name@, FieldType::Text),
                        ) is None,
                    texts(values@) == meant.take(i as int),
                decreases n - i,
            {
                assert(seen[i as int] == record_view(rows@[i as int]));
                let value = rows[i].get(name).unwrap().clone();
                let ghost before = values@;
                values.push(value);
                proof {
                    assert(texts(values@) =~= texts(before).push(value@));
                    assert(meant.take(i + 1) =~= meant.take(i as int).push(meant[i as int]));
                }
                i += 1;
            }
            assert(meant.take(n as int) =~= meant);
            ColumnValues::Utf8(values)
        },
    }
}

/// Makes a batch of events from CSV records, and from the number that each record has as its amount,
/// given as the bits of a floating-point number, or nothing where its amount is no number.
pub fn events_batch(
    records: Vec<Result<TextMap<String>, CsvFailure>>,
    amounts: &Vec<Option<u64>>,
    include_evolved_columns: bool,
) -> (batch: Result<EventsBatch, LabError>)
    requires
        amounts@.len() == records@.len(),
    ensures
        match batch_failure(record_views(records@), amounts@, column_definitions(include_evolved_columns)) {
            Some(error) => batch matches Err(found) && found@ == error,
            None => batch matches Ok(made) && batch_field_views(made.fields@) == batch_fields(include_evolved_columns)
                && column_views(made.columns@) == batch_columns(
                record_views(records@),
                amounts@,
                include_evolved_columns,
            ),
        },
{
    let definitions = definitions(include_evolved_columns);
    let ghost wanted = column_definitions(include_evolved_columns);
    let ghost all = record_views(records@);
    let rows = match take_rows(records, amounts, &definitions) {
        Ok(rows) => rows,
        Err(error) => {
            return Err(error);
        },
    };
    let ghost seen = row_views(rows@);
    let ghost expected_fields = batch_fields(include_evolved_columns);
    let ghost expected_columns = batch_columns(all, amounts@, include_evolved_columns);
    let mut fields: Vec<BatchField> = Vec::new();
    let mut columns: Vec<ColumnValues> = Vec::new();
    let mut i: usize = 0;
    proof {
        assert(seen.len() == rows@.len());
        assert(seen == all.map_values(|record: Result<Map<Seq<char>, Seq<char>>, Seq<char>>| record->Ok_0));
        assert(all.len() == records@.len());
    }
    while i < definitions.len()
        invariant
            i <= definitions@.len() == wanted.len(),
            wanted == definition_views(definitions@),
            wanted == column_definitions(include_evolved_columns),
            batch_failure(all, amounts@, wanted) is None,
            seen == row_views(rows@),
            seen == all.map_values(|record: Result<Map<Seq<char>, Seq<char>>, Seq<char>>| record->Ok_0),
            amounts@.len() == rows@.len() == all.len(),
            expected_fields == batch_fields(include_evolved_columns),
            expected_columns == batch_columns(all, amounts@, include_evolved_columns),
            batch_field_views(fields@) == expected_fields.take(i as int),
            column_views(columns@) == expected_columns.take(i as int),
        decreases definitions@.len() - i,
    {
        let (name, data_type) = definitions[i];
        assert(wanted[i as int] == (name@, data_type));
        assert forall|j: int| 0 <= j < rows@.len() implies cell_failure(
            #[trigger] seen[j],
            amounts@[j],
            j as usize,
            (name@, data_type),
        ) is None by {
            good_rows(all, amounts@, wanted, j);
            good_cells(all[j]->Ok_0, amounts@[j], j as usize, wanted, i as int);
        }
        let field = BatchField { name: name.to_owned(), data_type, nullable: is_nullable(name) };
        let column = fill_column(&rows, amounts, name, data_type);
        let ghost (before_fields, before_columns) = (fields@, columns@);
        fields.push(field);
        columns.push(column);
        proof {
            assert(batch_field_views(fields@) =~= batch_field_views(before_fields).push(field@));
            assert(column_views(columns@) =~= column_views(before_columns).push(column@));
            assert(expected_fields.take(i + 1) =~= expected_fields.take(i as int).push(expected_fields[i as int]));
            assert(expected_columns.take(i + 1) =~= expected_columns.take(i as int).push(
                expected_columns[i as int],
            ));
        }
        i += 1;
    }
    assert(expected_fields.take(expected_fields.len() as int) =~= expected_fields);
    assert(expected_columns.take(expected_columns.len() as int) =~= expected_columns);
    Ok(EventsBatch { fields, columns })
}

/// The columns of a batch are those of the table it is written to: the same names in the same order,
/// of the same types, and empty where the table's may be.
pub proof fn batch_fits_table(
    column_mapping: bool,
    include_evolved_columns: bool,
    keep_existing_physical_names: bool,
    at: int,
)
    requires
        0 <= at < batch_fields(include_evolved_columns).len(),
    ensures
        ({
            let fields = table_columns(column_mapping, include_evolved_columns, keep_existing_physical_names);
            &&& fields.len() == batch_fields(include_evolved_columns).len()
            &&& fields[at].name == batch_fields(include_evolved_columns)[at].name
            &&& fields[at].data_type == batch_fields(include_evolved_columns)[at].data_type
            &&& fields[at].nullable == batch_fields(include_evolved_columns)[at].nullable
        }),
{
}

/// How many values a column has.
pub open spec fn column_len(column: ColumnValuesView) -> nat {
    match column {
        ColumnValuesView::Int64(values) => values.len(),
        ColumnValuesView::Float64(values) => values.len(),
        ColumnValuesView::Utf8(values) => values.len(),
    }
}

/// Whether the values of a column are of a type.
pub open spec fn column_is(column: ColumnValuesView, data_type: FieldType) -> bool {
    match data_type {
        FieldType::Long => column is Int64,
        FieldType::Double => column is Float64,
        FieldType::Text => column is Utf8,
    }
}

/// Every column of a batch has a value for every record, of the type that the column has.
pub proof fn batch_is_even_and_typed(
    records: Seq<Result<Map<Seq<char>, Seq<char>>, Seq<char>>>,
    amounts: Seq<Option<u64>>,
    include_evolved_columns: bool,
    at: int,
)
    requires
        amounts.len() == records.len(),
        0 <= at < batch_fields(include_evolved_columns).len(),
    ensures
        batch_columns(records, amounts, include_evolved_columns).len() == batch_fields(include_evolved_columns).len(),
        column_len(batch_columns(records, amounts, include_evolved_columns)[at]) == records.len(),
        column_is(
            batch_columns(records, amounts, include_evolved_columns)[at],
            batch_fields(include_evolved_columns)[at].data_type,
        ),
{
}

/// A record that can fill some columns can fill the first of them.
proof fn fewer_columns_are_filled(
    record: Map<Seq<char>, Seq<char>>,
    amount: Option<u64>,
    at: usize,
    columns: Seq<(Seq<char>, FieldType)>,
    wanted: int,
)
    requires
        row_failure(record, amount, at, columns) is None,
        0 <= wanted <= columns.len(),
    ensures
        row_failure(record, amount, at, columns.take(wanted)) is None,
    decreases columns.len(),
{
    if wanted > 0 {
        fewer_columns_are_filled(record, amount, at, columns.drop_first(), wanted - 1);
        assert(columns.take(wanted).drop_first() =~= columns.drop_first().take(wanted - 1));
    }
}

/// Records that make up a batch with some columns make up one with the first of them.
proof fn fewer_columns_make_a_batch(
    records: Seq<Result<Map<Seq<char>, Seq<char>>, Seq<char>>>,
    amounts: Seq<Option<u64>>,
    columns: Seq<(Seq<char>, FieldType)>,
    wanted: int,
)
    requires
        batch_failure(records, amounts, columns) is None,
        0 <= wanted <= columns.len(),
    ensures
        batch_failure(records, amounts, columns.take(wanted)) is None,
    decreases records.len(),
{
    if records.len() > 0 {
        let last = records.len() - 1;
        fewer_columns_make_a_batch(records.drop_last(), amounts, columns, wanted);
        fewer_columns_are_filled(records[last]->Ok_0, amounts[last], last as usize, columns, wanted);
    }
}

/// A batch without the evolved columns is the front of the batch with them: the evolved columns take
/// nothing away from the others. Where there is a batch with them, there is one without.
pub proof fn evolved_batch_extends_base(
    records: Seq<Result<Map<Seq<char>, Seq<char>>, Seq<char>>>,
    amounts: Seq<Option<u64>>,
)
    ensures
        batch_fields(false).is_prefix_of(batch_fields(true)),
        batch_columns(records, amounts, false).is_prefix_of(batch_columns(records, amounts, true)),
        batch_failure(records, amounts, column_definitions(true)) is None ==> batch_failure(
            records,
            amounts,
            column_definitions(false),
        ) is None,
{
    if batch_failure(records, amounts, column_definitions(true)) is None {
        fewer_columns_make_a_batch(records, amounts, column_definitions(true), 7);
        assert(column_definitions(true).take(7) =~= column_definitions(false));
    }
    let base = batch_columns(records, amounts, false);
    assert(batch_columns(records, amounts, true).subrange(0, base.len() as int) =~= base);
    assert(batch_fields(true).subrange(0, batch_fields(false).len() as int) =~= batch_fields(false));
}

/// Records make up a batch exactly if the reader accepts each of them, each has a field for every
/// column, its event id is a number of sixty-four bits, and its amount is a number.
pub proof fn complete_records_make_a_batch(
    records: Seq<Result<Map<Seq<char>, Seq<char>>, Seq<char>>>,
    amounts: Seq<Option<u64>>,
    include_evolved_columns: bool,
)
    ensures
        batch_failure(records, amounts, column_definitions(include_evolved_columns)) is None <==> forall|i: int|
            0 <= i < records.len() ==> {
                &&& (#[trigger] records[i]) is Ok
                &&& forall|c: int|
                    0 <= c < column_names(include_evolved_columns).len() ==> records[i]->Ok_0.contains_key(
                        #[trigger] column_names(include_evolved_columns)[c],
                    )
                &&& read_integer(
                    records[i]->Ok_0["event_id"@],
                    -0x8000_0000_0000_0000,
                    0x7fff_ffff_ffff_ffff,
                ) is Ok
                &&& amounts[i] is Some
            },
    decreases records.len(),
{
    let columns = column_definitions(include_evolved_columns);
    let names = column_names(include_evolved_columns);
    if records.len() > 0 {
        let front = records.drop_last();
        let last = records.len() - 1;
        complete_records_make_a_batch(front, amounts, include_evolved_columns);
        if records[last] is Ok {
            complete_record_fills_all_columns(
                records[last]->Ok_0,
                amounts[last],
                last as usize,
                include_evolved_columns,
            );
        }
        if batch_failure(records, amounts, columns) is None {
            assert forall|i: int| 0 <= i < records.len() implies {
                &&& (#[trigger] records[i]) is Ok
                &&& forall|c: int| 0 <= c < names.len() ==> records[i]->Ok_0.contains_key(#[trigger] names[c])
                &&& read_integer(
                    records[i]->Ok_0["event_id"@],
                    -0x8000_0000_0000_0000,
                    0x7fff_ffff_ffff_ffff,
                ) is Ok
                &&& amounts[i] is Some
            } by {
                if i < last {
                    assert(front[i] == records[i]);
                }
            }
        } else if batch_failure(front, amounts, columns) is Some {
            let i = choose|i: int|
                0 <= i < front.len() && !({
                    &&& (#[trigger] front[i]) is Ok
                    &&& forall|c: int| 0 <= c < names.len() ==> front[i]->Ok_0.contains_key(#[trigger] names[c])
                    &&& read_integer(
                        front[i]->Ok_0["event_id"@],
                        -0x8000_0000_0000_0000,
                        0x7fff_ffff_ffff_ffff,
                    ) is Ok
                    &&& amounts[i] is Some
                });
            assert(front[i] == records[i]);
        } else {
            assert(records[last] == records[last]);
        }
    }
}

/// A record fills all columns exactly if it has a field for each, and its numbers are numbers.
proof fn complete_record_fills_all_columns(
    record: Map<Seq<char>, Seq<char>>,
    amount: Option<u64>,
    at: usize,
    include_evolved_columns: bool,
)
    ensures
        row_failure(record, amount, at, column_definitions(include_evolved_columns)) is None <==> {
            &&& forall|c: int|
                0 <= c < column_names(include_evolved_columns).len() ==> record.contains_key(
                    #[trigger] column_names(include_evolved_columns)[c],
                )
            &&& event_number(record["event_id"@]) is Ok
            &&& amount is Some
        },
{
    let columns = column_definitions(include_evolved_columns);
    let names = column_names(include_evolved_columns);
    if row_failure(record, amount, at, columns) is None {
        assert forall|c: int| 0 <= c < names.len() implies record.contains_key(#[trigger] names[c]) by {
            good_cells(record, amount, at, columns, c);
        }
        good_cells(record, amount, at, columns, 0);
        good_cells(record, amount, at, columns, 2);
    } else {
        let c = failing_cell(record, amount, at, columns);
        assert(names[c] == columns[c].0);
        assert(columns[0].0 == "event_id"@);
        assert(columns[c].1 == FieldType::Long ==> c == 0);
    }
}

/// A record that cannot fill the columns cannot fill one of them, which decides, and can fill those
/// before it.
proof fn failing_cell(
    record: Map<Seq<char>, Seq<char>>,
    amount: Option<u64>,
    at: usize,
    columns: Seq<(Seq<char>, FieldType)>,
) -> (c: int)
    requires
        row_failure(record, amount, at, columns) is Some,
    ensures
        0 <= c < columns.len(),
        cell_failure(record, amount, at, columns[c]) is Some,
    decreases columns.len(),
{
    if cell_failure(record, amount, at, columns[0]) is Some {
        0
    } else {
        failing_cell(record, amount, at, columns.drop_first()) + 1
    }
}

/// The first record that cannot be taken decides the error: in the words of the reader where it does
/// not accept the record, and else by the first column that the record cannot fill.
pub proof fn first_bad_record_is_reported(
    records: Seq<Result<Map<Seq<char>, Seq<char>>, Seq<char>>>,
    amounts: Seq<Option<u64>>,
    include_evolved_columns: bool,
    at: int,
    column: int,
)
    requires
        0 <= at < records.len() <= usize::MAX,
        batch_failure(records.take(at), amounts, column_definitions(include_evolved_columns)) is None,
        0 <= column < column_names(include_evolved_columns).len(),
        records[at] matches Ok(record) ==> forall|c: int|
            0 <= c < column ==> ({
                let name = #[trigger] column_names(include_evolved_columns)[c];
                &&& record.contains_key(name)
                &&& name == "event_id"@ ==> read_integer(
                    record[name],
                    -0x8000_0000_0000_0000,
                    0x7fff_ffff_ffff_ffff,
                ) is Ok
                &&& name == "amount"@ ==> amounts[at] is Some
            }),
    ensures
        ({
            let failed = batch_failure(records, amounts, column_definitions(include_evolved_columns));
            let name = column_names(include_evolved_columns)[column];
            &&& records[at] matches Err(words) ==> failed == Some(ErrorView::Csv(words))
            &&& records[at] matches Ok(record) ==> {
                &&& !record.contains_key(name) ==> failed == Some(ErrorView::MissingCsvColumn(name))
                &&& record.contains_key(name) && name == "event_id"@ ==> (read_integer(
                    record[name],
                    -0x8000_0000_0000_0000,
                    0x7fff_ffff_ffff_ffff,
                ) matches Err(error) ==> failed == Some(ErrorView::EventId(error)))
                &&& record.contains_key(name) && name == "amount"@ && amounts[at] is None ==> failed == Some(
                    ErrorView::Amount(at as usize),
                )
            }
        }),
{
    let columns = column_definitions(include_evolved_columns);
    let names = column_names(include_evolved_columns);
    let more = records.take(at + 1);
    assert(more.drop_last() =~= records.take(at));
    assert(more[at] == records[at]);
    columns_are_declared(false, include_evolved_columns, false, column);
    let name = names[column];
    assert(columns[column].0 == name);
    if let Ok(record) = records[at] {
        assert forall|c: int| 0 <= c < column implies cell_failure(
            record,
            amounts[at],
            at as usize,
            #[trigger] columns[c],
        ) is None by {
            assert(names[c] == columns[c].0);
            columns_are_declared(false, include_evolved_columns, false, c);
        }
        if cell_failure(record, amounts[at], at as usize, columns[column]) is Some {
            first_failing_cell_decides(record, amounts[at], at as usize, columns, column);
        }
    }
    if batch_failure(more, amounts, columns) is Some {
        bad_record_stays(records, amounts, columns, at + 1);
    }
}

/// The first column that a record cannot fill decides.
proof fn first_failing_cell_decides(
    record: Map<Seq<char>, Seq<char>>,
    amount: Option<u64>,
    at: usize,
    columns: Seq<(Seq<char>, FieldType)>,
    column: int,
)
    requires
        0 <= column < columns.len(),
        forall|c: int| 0 <= c < column ==> cell_failure(record, amount, at, #[trigger] columns[c]) is None,
        cell_failure(record, amount, at, columns[column]) is Some,
    ensures
        row_failure(record, amount, at, columns) == cell_failure(record, amount, at, columns[column]),
    decreases column,
{
    if column > 0 {
        let rest = columns.drop_first();
        assert(cell_failure(record, amount, at, columns[0]) is None);
        assert forall|c: int| 0 <= c < column - 1 implies cell_failure(record, amount, at, #[trigger] rest[c]) is None by {
            assert(rest[c] == columns[c + 1]);
        }
        first_failing_cell_decides(record, amount, at, rest, column - 1);
    }
}

/// Every value of a batch is that of its record: the event id as a number, the amount as the number
/// that was given for it, and all else as the text of the field with the name of the column.
pub proof fn values_are_those_of_the_records(
    records: Seq<Result<Map<Seq<char>, Seq<char>>, Seq<char>>>,
    amounts: Seq<Option<u64>>,
    include_evolved_columns: bool,
    column: int,
    at: int,
)
    requires
        amounts.len() == records.len(),
        batch_failure(records, amounts, column_definitions(include_evolved_columns)) is None,
        0 <= column < column_names(include_evolved_columns).len(),
        0 <= at < records.len(),
    ensures
        ({
            let values = batch_columns(records, amounts, include_evolved_columns)[column];
            let name = column_names(include_evolved_columns)[column];
            &&& name == "event_id"@ ==> values is Int64 && read_integer(
                records[at]->Ok_0["event_id"@],
                -0x8000_0000_0000_0000,
                0x7fff_ffff_ffff_ffff,
            ) == Ok::<int, IntegerError>(values->Int64_0[at])
            &&& name == "amount"@ ==> values is Float64 && amounts[at] == Some(values->Float64_0[at])
            &&& name != "event_id"@ && name != "amount"@ ==> values is Utf8 && values->Utf8_0[at]
                == records[at]->Ok_0[name]
        }),
{
    let columns = column_definitions(include_evolved_columns);
    complete_records_make_a_batch(records, amounts, include_evolved_columns);
    assert(records[at] is Ok);
    columns_are_declared(false, include_evolved_columns, false, column);
    assert(columns[column].0 == column_names(include_evolved_columns)[column]);
    good_rows(records, amounts, columns, at);
}

/// What records, columns and the values in them stand for: each part for itself.
pub proof fn records_stand_for_themselves(
    record: TextMap<String>,
    records: Seq<Result<TextMap<String>, CsvFailure>>,
    field: BatchField,
    fields: Seq<BatchField>,
    columns: Seq<ColumnValues>,
    name: Seq<char>,
    at: int,
)
    ensures
        record_view(record).contains_key(name) <==> record@.contains_key(name),
        record@.contains_key(name) ==> record_view(record)[name] == record@[name]@,
        record_views(records).len() == records.len(),
        0 <= at < records.len() ==> match records[at] {
            Ok(fields) => record_views(records)[at] == Ok::<Map<Seq<char>, Seq<char>>, Seq<char>>(record_view(fields)),
            Err(failed) => record_views(records)[at] == Err::<Map<Seq<char>, Seq<char>>, Seq<char>>(failed.words@),
        },
        field@.name == field.name@,
        field@.data_type == field.data_type,
        field@.nullable == field.nullable,
        batch_field_views(fields).len() == fields.len(),
        0 <= at < fields.len() ==> batch_field_views(fields)[at] == fields[at]@,
        column_views(columns).len() == columns.len(),
        0 <= at < columns.len() ==> column_views(columns)[at] == columns[at]@,
{
}

/// What the values of a column stand for: each value for itself.
pub proof fn column_values_stand_for_themselves(
    numbers: Vec<i64>,
    bits: Vec<u64>,
    list: Vec<String>,
    at: int,
)
    ensures
        ColumnValues::Int64(numbers)@ is Int64,
        ColumnValues::Int64(numbers)@->Int64_0.len() == numbers@.len(),
        0 <= at < numbers@.len() ==> ColumnValues::Int64(numbers)@->Int64_0[at] == numbers@[at],
        ColumnValues::Float64(bits)@ is Float64,
        ColumnValues::Float64(bits)@->Float64_0 == bits@,
        ColumnValues::Utf8(list)@ is Utf8,
        ColumnValues::Utf8(list)@->Utf8_0.len() == list@.len(),
        0 <= at < list@.len() ==> ColumnValues::Utf8(list)@->Utf8_0[at] == list@[at]@,
{
}

} // verus!
