//! What can go wrong, and the words it is reported in.
use crate::decimal::IntegerError;
use crate::events::CsvFailure;
use crate::json::JsonFailure;
use crate::log::AddSummary;
use vstd::prelude::*;

verus! {

/// What the CSV reader reports of a record that it does not accept.
#[verifier::external_type_specification]
#[verifier::external_body]
pub struct ExCsvError(csv::Error);

/// Why a step of the lab failed.
#[derive(Debug)]
pub enum LabError {
    /// The command line names no command.
    UnknownCommand(String),
    /// A batch has no column of that name.
    MissingColumn(String),
    /// A column holds something other than strings.
    NotUtf8 { column: String, found: String },
    /// A CSV record has no column of that name.
    MissingCsvColumn(String),
    /// The event id of a CSV record is no number.
    EventId(IntegerError),
    /// The amount of the CSV record at that place is no number.
    Amount(usize),
    /// The CSV reader does not accept a record.
    Csv(CsvFailure),
    /// The JSON parser does not accept a text.
    Json(JsonFailure),
    /// The metadata of a table has no schema.
    MissingSchemaString,
    /// The schema of a table lists no fields.
    MissingSchemaFields,
    /// A field of a schema has no name.
    MissingFieldName,
    /// A field of a schema has no metadata.
    MissingFieldMetadata(String),
    /// A field of a schema has no physical name.
    MissingPhysicalName(String),
    /// A log, or all logs of a table, hold no metadata; the path says which.
    MissingMetadataAction(String),
    /// The metadata of a table is something that can have no members.
    MetadataNotObject,
    /// A table has no log.
    MissingLogJson,
    /// The name of a log is not UTF-8.
    LogName,
    /// The name of a log is no version.
    LogVersion(IntegerError),
    /// The fields do not make up a schema.
    Schema(String),
    /// A schema lacks a field.
    MissingSchemaField(String),
    /// A schema lacks a field that was to be added to it.
    MissingEvolvedSchemaField(String),
    /// A query gave no batches.
    NoBatches(String),
    /// A query gave something other than a count.
    CountNotInt64(String),
    /// A path has no URL.
    DirectoryUrl(String),
    /// The step of a validation for which something else was observed.
    Unobserved(usize),
    /// An expectation does not hold.
    Violated(Violation),
}

/// An expectation that does not hold.
#[derive(Debug)]
pub enum Violation {
    RowCount { actual: usize, expected: usize },
    PartitionCount { date: String, count: Option<usize>, expected_count: usize },
    MissingHivePartition(String),
    LogicalDirectories,
    PhysicalPartitionKeys(AddSummary),
    LogicalPartitionKeys(AddSummary),
    RandomPrefixDirectories,
    FreshNameNotDistinct(String),
    ExistingNameChanged(String),
    EvolvedNameNotDistinct(String),
    EvolvedNameWithoutPrefix { field: String, physical_name: String },
    QueryCount { sql: String, rows: i64, expected_rows: i64 },
}

/// What is known of a failure. An outside error is known by its words.
pub enum ErrorView {
    UnknownCommand(Seq<char>),
    MissingColumn(Seq<char>),
    NotUtf8 { column: Seq<char>, found: Seq<char> },
    MissingCsvColumn(Seq<char>),
    EventId(IntegerError),
    Amount(usize),
    Csv(Seq<char>),
    Json(Seq<char>),
    MissingSchemaString,
    MissingSchemaFields,
    MissingFieldName,
    MissingFieldMetadata(Seq<char>),
    MissingPhysicalName(Seq<char>),
    MissingMetadataAction(Seq<char>),
    MetadataNotObject,
    MissingLogJson,
    LogName,
    LogVersion(IntegerError),
    Schema(Seq<char>),
    MissingSchemaField(Seq<char>),
    MissingEvolvedSchemaField(Seq<char>),
    NoBatches(Seq<char>),
    CountNotInt64(Seq<char>),
    DirectoryUrl(Seq<char>),
    Unobserved(usize),
    Violated(ViolationView),
}

/// What is known of an expectation that does not hold.
pub enum ViolationView {
    RowCount { actual: usize, expected: usize },
    PartitionCount { date: Seq<char>, count: Option<usize>, expected_count: usize },
    MissingHivePartition(Seq<char>),
    LogicalDirectories,
    PhysicalPartitionKeys(Set<Seq<char>>),
    LogicalPartitionKeys(Set<Seq<char>>),
    RandomPrefixDirectories,
    FreshNameNotDistinct(Seq<char>),
    ExistingNameChanged(Seq<char>),
    EvolvedNameNotDistinct(Seq<char>),
    EvolvedNameWithoutPrefix { field: Seq<char>, physical_name: Seq<char> },
    QueryCount { sql: Seq<char>, rows: i64, expected_rows: i64 },
}

impl View for LabError {
    type V = ErrorView;

    open spec fn view(&self) -> ErrorView {
        match self {
            LabError::UnknownCommand(command) => ErrorView::UnknownCommand(command@),
            LabError::MissingColumn(column) => ErrorView::MissingColumn(column@),
            LabError::NotUtf8 { column, found } => ErrorView::NotUtf8 { column: column@, found: found@ },
            LabError::MissingCsvColumn(column) => ErrorView::MissingCsvColumn(column@),
            LabError::EventId(error) => ErrorView::EventId(*error),
            LabError::Amount(record) => ErrorView::Amount(*record),
            LabError::Csv(failure) => ErrorView::Csv(failure.words@),
            LabError::Json(failure) => ErrorView::Json(failure.words@),
            LabError::MissingSchemaString => ErrorView::MissingSchemaString,
            LabError::MissingSchemaFields => ErrorView::MissingSchemaFields,
            LabError::MissingFieldName => ErrorView::MissingFieldName,
            LabError::MissingFieldMetadata(field) => ErrorView::MissingFieldMetadata(field@),
            LabError::MissingPhysicalName(field) => ErrorView::MissingPhysicalName(field@),
            LabError::MissingMetadataAction(path) => ErrorView::MissingMetadataAction(path@),
            LabError::MetadataNotObject => ErrorView::MetadataNotObject,
            LabError::MissingLogJson => ErrorView::MissingLogJson,
            LabError::LogName => ErrorView::LogName,
            LabError::LogVersion(error) => ErrorView::LogVersion(*error),
            LabError::Schema(words) => ErrorView::Schema(words@),
            LabError::MissingSchemaField(field) => ErrorView::MissingSchemaField(field@),
            LabError::MissingEvolvedSchemaField(field) => ErrorView::MissingEvolvedSchemaField(field@),
            LabError::NoBatches(sql) => ErrorView::NoBatches(sql@),
            LabError::CountNotInt64(sql) => ErrorView::CountNotInt64(sql@),
            LabError::DirectoryUrl(path) => ErrorView::DirectoryUrl(path@),
            LabError::Unobserved(at) => ErrorView::Unobserved(*at),
            LabError::Violated(violation) => ErrorView::Violated(violation@),
        }
    }
}

impl View for Violation {
    type V = ViolationView;

    open spec fn view(&self) -> ViolationView {
        match self {
            Violation::RowCount { actual, expected } => ViolationView::RowCount {
                actual: *actual,
                expected: *expected,
            },
            Violation::PartitionCount { date, count, expected_count } => ViolationView::PartitionCount {
                date: date@,
                count: *count,
                expected_count: *expected_count,
            },
            Violation::MissingHivePartition(path) => ViolationView::MissingHivePartition(path@),
            Violation::LogicalDirectories => ViolationView::LogicalDirectories,
            Violation::PhysicalPartitionKeys(keys) => ViolationView::PhysicalPartitionKeys(keys@),
            Violation::LogicalPartitionKeys(keys) => ViolationView::LogicalPartitionKeys(keys@),
            Violation::RandomPrefixDirectories => ViolationView::RandomPrefixDirectories,
            Violation::FreshNameNotDistinct(field) => ViolationView::FreshNameNotDistinct(field@),
            Violation::ExistingNameChanged(field) => ViolationView::ExistingNameChanged(field@),
            Violation::EvolvedNameNotDistinct(field) => ViolationView::EvolvedNameNotDistinct(field@),
            Violation::EvolvedNameWithoutPrefix { field, physical_name } => ViolationView::EvolvedNameWithoutPrefix {
                field: field@,
                physical_name: physical_name@,
            },
            Violation::QueryCount { sql, rows, expected_rows } => ViolationView::QueryCount {
                sql: sql@,
                rows: *rows,
                expected_rows: *expected_rows,
            },
        }
    }
}

/// How a check failed, if it did.
pub open spec fn failure(outcome: Result<(), LabError>) -> Option<ErrorView> {
    match outcome {
        Ok(_) => None,
        Err(error) => Some(error@),
    }
}

/// The words for a number that cannot be read.
pub open spec fn integer_error_text(error: IntegerError) -> Seq<char> {
    match error {
        IntegerError::Empty => "cannot parse integer from empty string"@,
        IntegerError::InvalidDigit => "invalid digit found in string"@,
        IntegerError::TooLarge => "number too large to fit in target type"@,
        IntegerError::TooSmall => "number too small to fit in target type"@,
    }
}

/// The words for an expectation that does not hold, where it has words of its own. They leave out the
/// values that were found.
pub open spec fn violation_text(violation: ViolationView) -> Option<Seq<char>> {
    match violation {
        ViolationView::RowCount { .. } => None,
        ViolationView::PartitionCount { date, .. } => Some("unexpected row count for "@ + date),
        ViolationView::MissingHivePartition(path) => Some("expected Hive partition path "@ + path),
        ViolationView::LogicalDirectories => Some(
            "fresh column-mapped table should not use logical Hive partition directories"@,
        ),
        ViolationView::PhysicalPartitionKeys(_) => Some("expected physical partition keys"@),
        ViolationView::LogicalPartitionKeys(_) => Some(
            "expected existing partition columns to keep logical physical names"@,
        ),
        ViolationView::RandomPrefixDirectories => Some(
            "expected evolved table to keep Hive-style partition directories when partition physical names match logical names"@,
        ),
        ViolationView::FreshNameNotDistinct(field) => Some(
            "fresh column-mapped field "@ + field + " should have a distinct physical name"@,
        ),
        ViolationView::ExistingNameChanged(field) => Some(
            "pre-existing field "@ + field + " should keep physical name equal to logical name"@,
        ),
        ViolationView::EvolvedNameNotDistinct(field) => Some(
            "evolved field "@ + field + " should get a distinct physical name"@,
        ),
        ViolationView::EvolvedNameWithoutPrefix { field, physical_name } => Some(
            "evolved field "@ + field + " should get a Delta physical name, got "@ + physical_name,
        ),
        ViolationView::QueryCount { sql, .. } => Some("unexpected row count for query: "@ + sql),
    }
}

/// The words for a failure. A failure that only a place is known of has none.
pub open spec fn error_text(error: ErrorView) -> Option<Seq<char>> {
    match error {
        ErrorView::UnknownCommand(command) => Some(
            "unknown command `"@ + command + "`; use generate, setup, read, or run"@,
        ),
        ErrorView::MissingColumn(column) => Some("missing "@ + column + " column"@),
        ErrorView::NotUtf8 { column, found } => Some(column + " should be Utf8, got "@ + found),
        ErrorView::MissingCsvColumn(column) => Some("missing CSV column "@ + column),
        ErrorView::EventId(error) => Some(integer_error_text(error)),
        ErrorView::Amount(_) => None,
        ErrorView::Csv(words) => Some(words),
        ErrorView::Json(words) => Some(words),
        ErrorView::MissingSchemaString => Some("missing metadata schemaString"@),
        ErrorView::MissingSchemaFields => Some("missing schema fields"@),
        ErrorView::MissingFieldName => Some("missing field name"@),
        ErrorView::MissingFieldMetadata(field) => Some("missing metadata for field "@ + field),
        ErrorView::MissingPhysicalName(field) => Some("missing physical name for field "@ + field),
        ErrorView::MissingMetadataAction(path) => Some("missing metadata action in "@ + path),
        ErrorView::MetadataNotObject => None,
        ErrorView::MissingLogJson => Some("missing Delta log JSON file"@),
        ErrorView::LogName => Some("invalid Delta log filename"@),
        ErrorView::LogVersion(error) => Some(integer_error_text(error)),
        ErrorView::Schema(words) => Some(words),
        ErrorView::MissingSchemaField(field) => Some("missing schema field "@ + field),
        ErrorView::MissingEvolvedSchemaField(field) => Some("missing evolved schema field "@ + field),
        ErrorView::NoBatches(sql) => Some("query returned no batches: "@ + sql),
        ErrorView::CountNotInt64(sql) => Some("query count should be Int64: "@ + sql),
        ErrorView::DirectoryUrl(path) => Some("failed to convert path to file URL: "@ + path),
        ErrorView::Unobserved(_) => None,
        ErrorView::Violated(violation) => violation_text(violation),
    }
}

/// A text with another one put around it.
fn framed(before: &str, text: &str, after: &str) -> (whole: String)
    ensures
        whole@ == before@ + text@ + after@,
{
    before.to_owned().concat(text).concat(after)
}

fn after(before: &str, text: &str) -> (whole: String)
    ensures
        whole@ == before@ + text@,
{
    before.to_owned().concat(text)
}

/// The words for a number that cannot be read.
fn integer_error_message(error: IntegerError) -> (text: String)
    ensures
        text@ == integer_error_text(error),
{
    let text = match error {
        IntegerError::Empty => "cannot parse integer from empty string",
        IntegerError::InvalidDigit => "invalid digit found in string",
        IntegerError::TooLarge => "number too large to fit in target type",
        IntegerError::TooSmall => "number too small to fit in target type",
    };
    text.to_owned()
}

impl Violation {
    /// The words for an expectation that does not hold, where it has words of its own.
    pub fn message(&self) -> (text: Option<String>)
        ensures
            text is Some <==> violation_text(self@) is Some,
            text matches Some(words) ==> violation_text(self@) == Some(words@),
    {
        match self {
            Violation::RowCount { .. } => None,
            Violation::PartitionCount { date, .. } => Some(after("unexpected row count for ", date.as_str())),
            Violation::MissingHivePartition(path) => Some(after("expected Hive partition path ", path.as_str())),
            Violation::LogicalDirectories => Some(
                "fresh column-mapped table should not use logical Hive partition directories".to_owned(),
            ),
            Violation::PhysicalPartitionKeys(_) => Some("expected physical partition keys".to_owned()),
            Violation::LogicalPartitionKeys(_) => Some(
                "expected existing partition columns to keep logical physical names".to_owned(),
            ),
            Violation::RandomPrefixDirectories => Some(
                "expected evolved table to keep Hive-style partition directories when partition physical names match logical names".to_owned(),
            ),
            Violation::FreshNameNotDistinct(field) => Some(
                framed(
                    "fresh column-mapped field ",
                    field.as_str(),
                    " should have a distinct physical name",
                ),
            ),
            Violation::ExistingNameChanged(field) => Some(
                framed(
                    "pre-existing field ",
                    field.as_str(),
                    " should keep physical name equal to logical name",
                ),
            ),
            Violation::EvolvedNameNotDistinct(field) => Some(
                framed("evolved field ", field.as_str(), " should get a distinct physical name"),
            ),
            Violation::EvolvedNameWithoutPrefix { field, physical_name } => Some(
                framed(
                    "evolved field ",
                    field.as_str(),
                    " should get a Delta physical name, got ",
                ).concat(physical_name.as_str()),
            ),
            Violation::QueryCount { sql, .. } => Some(after("unexpected row count for query: ", sql.as_str())),
        }
    }
}

impl LabError {
    /// The words for a failure, where it has words of its own.
    pub fn message(&self) -> (text: Option<String>)
        ensures
            text is Some <==> error_text(self@) is Some,
            text matches Some(words) ==> error_text(self@) == Some(words@),
    {
        match self {
            LabError::UnknownCommand(command) => Some(
                framed("unknown command `", command.as_str(), "`; use generate, setup, read, or run"),
            ),
            LabError::MissingColumn(column) => Some(framed("missing ", column.as_str(), " column")),
            LabError::NotUtf8 { column, found } => Some(
                framed(column.as_str(), " should be Utf8, got ", found.as_str()),
            ),
            LabError::MissingCsvColumn(column) => Some(after("missing CSV column ", column.as_str())),
            LabError::EventId(error) => Some(integer_error_message(*error)),
            LabError::Amount(_) => None,
            LabError::Csv(failure) => Some(failure.words.clone()),
            LabError::Json(failure) => Some(failure.words.clone()),
            LabError::MissingSchemaString => Some("missing metadata schemaString".to_owned()),
            LabError::MissingSchemaFields => Some("missing schema fields".to_owned()),
            LabError::MissingFieldName => Some("missing field name".to_owned()),
            LabError::MissingFieldMetadata(field) => Some(after("missing metadata for field ", field.as_str())),
            LabError::MissingPhysicalName(field) => Some(
                after("missing physical name for field ", field.as_str()),
            ),
            LabError::MissingMetadataAction(path) => Some(after("missing metadata action in ", path.as_str())),
            LabError::MetadataNotObject => None,
            LabError::MissingLogJson => Some("missing Delta log JSON file".to_owned()),
            LabError::LogName => Some("invalid Delta log filename".to_owned()),
            LabError::LogVersion(error) => Some(integer_error_message(*error)),
            LabError::Schema(words) => Some(words.clone()),
            LabError::MissingSchemaField(field) => Some(after("missing schema field ", field.as_str())),
            LabError::MissingEvolvedSchemaField(field) => Some(
                after("missing evolved schema field ", field.as_str()),
            ),
            LabError::NoBatches(sql) => Some(after("query returned no batches: ", sql.as_str())),
            LabError::CountNotInt64(sql) => Some(after("query count should be Int64: ", sql.as_str())),
            LabError::DirectoryUrl(path) => Some(after("failed to convert path to file URL: ", path.as_str())),
            LabError::Unobserved(_) => None,
            LabError::Violated(violation) => violation.message(),
        }
    }
}

/// What a failure stands for: its kind with what it names, and of an outside error its words.
pub proof fn failures_stand_for_themselves(
    text: String,
    other: String,
    number: IntegerError,
    at: usize,
    csv: CsvFailure,
    json: JsonFailure,
    violation: Violation,
)
    ensures
        LabError::UnknownCommand(text)@ == ErrorView::UnknownCommand(text@),
        LabError::MissingColumn(text)@ == ErrorView::MissingColumn(text@),
        (LabError::NotUtf8 { column: text, found: other })@ == (ErrorView::NotUtf8 { column: text@, found: other@ }),
        LabError::MissingCsvColumn(text)@ == ErrorView::MissingCsvColumn(text@),
        LabError::EventId(number)@ == ErrorView::EventId(number),
        LabError::Amount(at)@ == ErrorView::Amount(at),
        LabError::Csv(csv)@ == ErrorView::Csv(csv.words@),
        LabError::Json(json)@ == ErrorView::Json(json.words@),
        LabError::MissingSchemaString@ == ErrorView::MissingSchemaString,
        LabError::MissingSchemaFields@ == ErrorView::MissingSchemaFields,
        LabError::MissingFieldName@ == ErrorView::MissingFieldName,
        LabError::MissingFieldMetadata(text)@ == ErrorView::MissingFieldMetadata(text@),
        LabError::MissingPhysicalName(text)@ == ErrorView::MissingPhysicalName(text@),
        LabError::MissingMetadataAction(text)@ == ErrorView::MissingMetadataAction(text@),
        LabError::MetadataNotObject@ == ErrorView::MetadataNotObject,
        LabError::MissingLogJson@ == ErrorView::MissingLogJson,
        LabError::LogName@ == ErrorView::LogName,
        LabError::LogVersion(number)@ == ErrorView::LogVersion(number),
        LabError::Schema(text)@ == ErrorView::Schema(text@),
        LabError::MissingSchemaField(text)@ == ErrorView::MissingSchemaField(text@),
        LabError::MissingEvolvedSchemaField(text)@ == ErrorView::MissingEvolvedSchemaField(text@),
        LabError::NoBatches(text)@ == ErrorView::NoBatches(text@),
        LabError::CountNotInt64(text)@ == ErrorView::CountNotInt64(text@),
        LabError::DirectoryUrl(text)@ == ErrorView::DirectoryUrl(text@),
        LabError::Unobserved(at)@ == ErrorView::Unobserved(at),
        LabError::Violated(violation)@ == ErrorView::Violated(violation@),
{
}

/// What an expectation that does not hold stands for: its kind with what it names.
pub proof fn violations_stand_for_themselves(
    text: String,
    other: String,
    actual: usize,
    expected: usize,
    count: Option<usize>,
    rows: i64,
    expected_rows: i64,
    keys: AddSummary,
)
    ensures
        (Violation::RowCount { actual, expected })@ == (ViolationView::RowCount { actual, expected }),
        (Violation::PartitionCount { date: text, count, expected_count: expected })@ == (
        ViolationView::PartitionCount { date: text@, count, expected_count: expected }),
        Violation::MissingHivePartition(text)@ == ViolationView::MissingHivePartition(text@),
        Violation::LogicalDirectories@ == ViolationView::LogicalDirectories,
        Violation::PhysicalPartitionKeys(keys)@ == ViolationView::PhysicalPartitionKeys(keys@),
        Violation::LogicalPartitionKeys(keys)@ == ViolationView::LogicalPartitionKeys(keys@),
        Violation::RandomPrefixDirectories@ == ViolationView::RandomPrefixDirectories,
        Violation::FreshNameNotDistinct(text)@ == ViolationView::FreshNameNotDistinct(text@),
        Violation::ExistingNameChanged(text)@ == ViolationView::ExistingNameChanged(text@),
        Violation::EvolvedNameNotDistinct(text)@ == ViolationView::EvolvedNameNotDistinct(text@),
        (Violation::EvolvedNameWithoutPrefix { field: text, physical_name: other })@ == (
        ViolationView::EvolvedNameWithoutPrefix { field: text@, physical_name: other@ }),
        (Violation::QueryCount { sql: text, rows, expected_rows })@ == (ViolationView::QueryCount {
            sql: text@,
            rows,
            expected_rows,
        }),
{
}

/// A check has failed exactly if it gives an error, and then it is that one.
pub proof fn only_errors_are_failures(error: LabError)
    ensures
        failure(Ok::<(), LabError>(())) is None,
        failure(Err::<(), LabError>(error)) == Some(error@),
{
}

/// The words for a failure name what is missing or wrong, whatever it is.
pub proof fn words_name_what_is_wrong(name: Seq<char>, found: Seq<char>)
    ensures
        error_text(ErrorView::UnknownCommand(name)) == Some(
            "unknown command `"@ + name + "`; use generate, setup, read, or run"@,
        ),
        error_text(ErrorView::MissingColumn(name)) == Some("missing "@ + name + " column"@),
        error_text(ErrorView::NotUtf8 { column: name, found }) == Some(name + " should be Utf8, got "@ + found),
        error_text(ErrorView::MissingCsvColumn(name)) == Some("missing CSV column "@ + name),
        error_text(ErrorView::MissingFieldMetadata(name)) == Some("missing metadata for field "@ + name),
        error_text(ErrorView::MissingPhysicalName(name)) == Some("missing physical name for field "@ + name),
        error_text(ErrorView::MissingMetadataAction(name)) == Some("missing metadata action in "@ + name),
        error_text(ErrorView::MissingSchemaField(name)) == Some("missing schema field "@ + name),
        error_text(ErrorView::MissingEvolvedSchemaField(name)) == Some("missing evolved schema field "@ + name),
        error_text(ErrorView::NoBatches(name)) == Some("query returned no batches: "@ + name),
        error_text(ErrorView::CountNotInt64(name)) == Some("query count should be Int64: "@ + name),
        error_text(ErrorView::DirectoryUrl(name)) == Some("failed to convert path to file URL: "@ + name),
        error_text(ErrorView::Csv(name)) == Some(name),
        error_text(ErrorView::Json(name)) == Some(name),
        error_text(ErrorView::Schema(name)) == Some(name),
{
}

/// Failures that name nothing have fixed words, or none where only a place is known.
pub proof fn other_failures_have_fixed_words(at: usize, violation: ViolationView)
    ensures
        error_text(ErrorView::MissingSchemaString) == Some("missing metadata schemaString"@),
        error_text(ErrorView::MissingSchemaFields) == Some("missing schema fields"@),
        error_text(ErrorView::MissingFieldName) == Some("missing field name"@),
        error_text(ErrorView::MissingLogJson) == Some("missing Delta log JSON file"@),
        error_text(ErrorView::LogName) == Some("invalid Delta log filename"@),
        error_text(ErrorView::EventId(IntegerError::Empty)) == Some("cannot parse integer from empty string"@),
        error_text(ErrorView::EventId(IntegerError::InvalidDigit)) == Some("invalid digit found in string"@),
        error_text(ErrorView::EventId(IntegerError::TooLarge)) == Some("number too large to fit in target type"@),
        error_text(ErrorView::EventId(IntegerError::TooSmall)) == Some("number too small to fit in target type"@),
        forall|error: IntegerError|
            #[trigger] error_text(ErrorView::LogVersion(error)) == error_text(ErrorView::EventId(error)),
        error_text(ErrorView::Amount(at)) is None,
        error_text(ErrorView::Unobserved(at)) is None,
        error_text(ErrorView::MetadataNotObject) is None,
        error_text(ErrorView::Violated(violation)) == violation_text(violation),
{
}

/// The words for an expectation that does not hold name what it is about, and leave out the numbers
/// and keys that were found.
pub proof fn words_name_the_expectation(
    name: Seq<char>,
    found: Seq<char>,
    keys: Set<Seq<char>>,
    count: Option<usize>,
    actual: usize,
    expected: usize,
    rows: i64,
    expected_rows: i64,
)
    ensures
        violation_text(ViolationView::RowCount { actual, expected }) is None,
        violation_text(ViolationView::PartitionCount { date: name, count, expected_count: expected }) == Some(
            "unexpected row count for "@ + name,
        ),
        violation_text(ViolationView::MissingHivePartition(name)) == Some("expected Hive partition path "@ + name),
        violation_text(ViolationView::LogicalDirectories) == Some(
            "fresh column-mapped table should not use logical Hive partition directories"@,
        ),
        violation_text(ViolationView::PhysicalPartitionKeys(keys)) == Some("expected physical partition keys"@),
        violation_text(ViolationView::LogicalPartitionKeys(keys)) == Some(
            "expected existing partition columns to keep logical physical names"@,
        ),
        violation_text(ViolationView::RandomPrefixDirectories) == Some(
            "expected evolved table to keep Hive-style partition directories when partition physical names match logical names"@,
        ),
        violation_text(ViolationView::FreshNameNotDistinct(name)) == Some(
            "fresh column-mapped field "@ + name + " should have a distinct physical name"@,
        ),
        violation_text(ViolationView::ExistingNameChanged(name)) == Some(
            "pre-existing field "@ + name + " should keep physical name equal to logical name"@,
        ),
        violation_text(ViolationView::EvolvedNameNotDistinct(name)) == Some(
            "evolved field "@ + name + " should get a distinct physical name"@,
        ),
        violation_text(ViolationView::EvolvedNameWithoutPrefix { field: name, physical_name: found }) == Some(
            "evolved field "@ + name + " should get a Delta physical name, got "@ + found,
        ),
        violation_text(ViolationView::QueryCount { sql: name, rows, expected_rows }) == Some(
            "unexpected row count for query: "@ + name,
        ),
{
}

} // verus!
