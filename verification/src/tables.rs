//! The tables of the lab: where they are, how they are made, and the commands that do it.
use crate::error::LabError;
#[allow(unused_imports)]
use crate::error::ErrorView;
#[allow(unused_imports)]
use crate::activation::activation_configuration;
#[allow(unused_imports)]
use crate::decimal::signed_decimal;
#[allow(unused_imports)]
use crate::json::JsonView;
#[allow(unused_imports)]
use crate::schema::{
    columns_make_a_schema, columns_say_how_they_are_mapped, field_views, literals, names_differ, ordinary_columns,
    partition_names, schema_json, table_columns, FieldMetadataView, TableFieldView,
};
#[allow(unused_imports)]
use crate::events::{batch_fields, batch_fits_table};
#[allow(unused_imports)]
use crate::mapping::{fresh_schema_failure, fresh_schema_passes, schema_mapping};
use crate::schema::{column_mapping_configuration, partition_columns, table_fields, TableField};
use crate::text::{join_path, same_text};
#[allow(unused_imports)]
use crate::text::{is_absolute, joined_path};
use vstd::prelude::*;

verus! {

/// What the command line asks for.
#[derive(Clone, Copy, Debug, PartialEq, Eq, Structural)]
pub enum Command {
    /// Write the CSV files.
    Generate,
    /// Write the CSV files and make the tables anew.
    Setup,
    /// Read the tables and check them.
    Read,
    /// Make the tables anew, then read and check them.
    Run,
}

/// The command that a word asks for; without a word, all is done.
pub open spec fn command_of(word: Option<Seq<char>>) -> Result<Command, ErrorView> {
    match word {
        None => Ok(Command::Run),
        Some(text) => if text == "generate"@ {
            Ok(Command::Generate)
        } else if text == "setup"@ {
            Ok(Command::Setup)
        } else if text == "read"@ {
            Ok(Command::Read)
        } else if text == "run"@ {
            Ok(Command::Run)
        } else {
            Err(ErrorView::UnknownCommand(text))
        },
    }
}

/// What a word that may be missing stands for.
pub open spec fn word_view(word: Option<&str>) -> Option<Seq<char>> {
    match word {
        Some(text) => Some(text@),
        None => None,
    }
}

/// The command that the first word of the command line asks for.
pub fn parse_command(word: Option<&str>) -> (command: Result<Command, LabError>)
    ensures
        command matches Ok(found) ==> command_of(word_view(word)) == Ok::<Command, ErrorView>(found),
        command matches Err(error) ==> command_of(word_view(word)) == Err::<Command, ErrorView>(error@),
{
    match word {
        None => Ok(Command::Run),
        Some(text) => if same_text(text, "generate") {
            Ok(Command::Generate)
        } else if same_text(text, "setup") {
            Ok(Command::Setup)
        } else if same_text(text, "read") {
            Ok(Command::Read)
        } else if same_text(text, "run") {
            Ok(Command::Run)
        } else {
            Err(LabError::UnknownCommand(text.to_owned()))
        },
    }
}

/// The tables of the lab.
#[derive(Clone, Copy, Debug, PartialEq, Eq, Structural)]
pub enum Table {
    /// A table without column mapping.
    Regular,
    /// A table with column mapping from the start.
    ColumnMapping,
    /// A table that gets column mapping later, and then new columns.
    EvolvedColumnMapping,
}

/// All tables, in the order in which they are made.
pub fn all_tables() -> (tables: [Table; 3])
    ensures
        tables@ == seq![Table::Regular, Table::ColumnMapping, Table::EvolvedColumnMapping],
{
    let tables = [Table::Regular, Table::ColumnMapping, Table::EvolvedColumnMapping];
    assert(tables@ =~= seq![Table::Regular, Table::ColumnMapping, Table::EvolvedColumnMapping]);
    tables
}

/// The directory of a table.
pub open spec fn table_directory(table: Table) -> Seq<char> {
    match table {
        Table::Regular => "regular_events"@,
        Table::ColumnMapping => "column_mapping_events"@,
        Table::EvolvedColumnMapping => "evolved_column_mapping_events"@,
    }
}

/// The directory of a table.
pub fn table_name(table: Table) -> (name: &'static str)
    ensures
        name@ == table_directory(table),
{
    match table {
        Table::Regular => "regular_events",
        Table::ColumnMapping => "column_mapping_events",
        Table::EvolvedColumnMapping => "evolved_column_mapping_events",
    }
}

/// The CSV file with the base columns, below the directory of the project.
pub fn base_csv(project: &str) -> (path: String)
    ensures
        path@ == joined_path(project@, "data/events_base.csv"@),
{
    join_path(project, "data/events_base.csv")
}

/// The CSV file with the evolved columns, below the directory of the project.
pub fn evolved_csv(project: &str) -> (path: String)
    ensures
        path@ == joined_path(project@, "data/events_evolved.csv"@),
{
    join_path(project, "data/events_evolved.csv")
}

/// The directory that holds the tables, below the directory of the project.
pub fn tables_root(project: &str) -> (path: String)
    ensures
        path@ == joined_path(project@, "tables"@),
{
    join_path(project, "tables")
}

/// The directory of a table, below the directory that holds the tables.
pub fn table_path(root: &str, table: Table) -> (path: String)
    ensures
        path@ == joined_path(root@, table_directory(table)),
{
    join_path(root, table_name(table))
}

/// The tables have different directories.
pub proof fn tables_are_apart(root: Seq<char>, a: Table, b: Table)
    requires
        a != b,
    ensures
        joined_path(root, table_directory(a)) != joined_path(root, table_directory(b)),
{
    reveal_strlit("regular_events");
    reveal_strlit("column_mapping_events");
    reveal_strlit("evolved_column_mapping_events");
    let (x, y) = (table_directory(a), table_directory(b));
    assert(x.len() != y.len());
    assert(joined_path(root, x).len() - x.len() == joined_path(root, y).len() - y.len());
}

/// The text of the URL that `url::Url::from_directory_path` makes of a path on a system whose paths
/// are parted by slashes; nothing where it gives an error.
pub uninterp spec fn directory_url(path: Seq<char>) -> Option<Seq<char>>;

/// Whether a text begins as the URL of a file does and ends as that of a directory does.
pub open spec fn is_directory_url(text: Seq<char>) -> bool {
    "file://"@.is_prefix_of(text) && text.len() > 0 && text.last() == '/'
}

/// `url::Url::from_directory_path`, named by [`directory_url`]. A path has a URL exactly if it begins
/// with a slash; the URL then is one of a file, and ends with a slash.
#[verifier::external_body]
fn from_directory_path(path: &str) -> (made: Option<String>)
    ensures
        made is Some <==> directory_url(path@) is Some,
        made is Some ==> directory_url(path@) == Some(made->0@),
        made is Some <==> is_absolute(path@),
        made is Some ==> is_directory_url(made->0@),
{
    url::Url::from_directory_path(path).ok().map(|url| url.to_string())
}

/// The URL of the directory of a table.
pub fn table_url(path: &str) -> (url: Result<String, LabError>)
    ensures
        url is Ok <==> is_absolute(path@),
        url matches Ok(text) ==> directory_url(path@) == Some(text@) && is_directory_url(text@),
        url matches Err(error) ==> error@ == ErrorView::DirectoryUrl(path@),
{
    match from_directory_path(path) {
        Some(url) => Ok(url),
        None => Err(LabError::DirectoryUrl(path.to_owned())),
    }
}

/// The events that a table is filled with: those of the CSV file with the base columns, or those of
/// the one with the evolved columns.
#[derive(Clone, Copy, Debug, PartialEq, Eq, Structural)]
pub enum Events {
    Base,
    Evolved,
}

/// How a table is made and filled.
#[derive(Debug)]
pub struct TableSetup {
    /// The columns it is made with.
    pub fields: Vec<TableField>,
    /// The columns it is partitioned by.
    pub partition_columns: [&'static str; 3],
    /// The properties it is made with, if it is made with column mapping.
    pub configuration: Option<[(String, Option<String>); 2]>,
    /// The events it is filled with at first.
    pub events: Events,
    /// The events it is filled with once column mapping has been switched on for it, if it is.
    pub events_after_activation: Option<Events>,
}

/// The columns that a table is made with.
pub open spec fn setup_columns(table: Table) -> Seq<TableFieldView> {
    match table {
        Table::Regular => table_columns(false, true, false),
        Table::ColumnMapping => table_columns(true, true, false),
        Table::EvolvedColumnMapping => table_columns(false, false, false),
    }
}

/// The events that a table is filled with at first.
pub open spec fn setup_events(table: Table) -> Events {
    match table {
        Table::EvolvedColumnMapping => Events::Base,
        _ => Events::Evolved,
    }
}

/// How a table is made and filled. Every table is partitioned by year, month and day.
pub fn table_setup(table: Table) -> (setup: TableSetup)
    ensures
        field_views(setup.fields@) == setup_columns(table),
        literals(setup.partition_columns@) == partition_names(),
        setup.configuration is Some <==> table == Table::ColumnMapping,
        setup.configuration matches Some(configuration) ==> {
            &&& configuration[0].0@ == "delta.columnMapping.mode"@
            &&& configuration[0].1 matches Some(mode) && mode@ == "name"@
            &&& configuration[1].0@ == "delta.columnMapping.maxColumnId"@
            &&& configuration[1].1 matches Some(id) && id@ == signed_decimal(9)
        },
        setup.events == setup_events(table),
        setup.events_after_activation == (if table == Table::EvolvedColumnMapping {
            Some(Events::Evolved)
        } else {
            None
        }),
{
    match table {
        Table::Regular => TableSetup {
            fields: table_fields(false, true, false),
            partition_columns: partition_columns(),
            configuration: None,
            events: Events::Evolved,
            events_after_activation: None,
        },
        Table::ColumnMapping => TableSetup {
            fields: table_fields(true, true, false),
            partition_columns: partition_columns(),
            configuration: Some(column_mapping_configuration(9)),
            events: Events::Evolved,
            events_after_activation: None,
        },
        Table::EvolvedColumnMapping => TableSetup {
            fields: table_fields(false, false, false),
            partition_columns: partition_columns(),
            configuration: None,
            events: Events::Base,
            events_after_activation: Some(Events::Evolved),
        },
    }
}

/// The columns that a table is made with make up a schema.
pub proof fn setup_makes_a_schema(table: Table)
    ensures
        names_differ(setup_columns(table)),
        ordinary_columns(setup_columns(table)),
{
    columns_make_a_schema(false, true, false);
    columns_make_a_schema(true, true, false);
    columns_make_a_schema(false, false, false);
}

/// The number that a table with column mapping is told of as its largest column id is the number of
/// its columns: both where it is made with column mapping, and where that is switched on later.
pub proof fn largest_id_is_number_of_columns()
    ensures
        setup_columns(Table::ColumnMapping).len() == 9,
        activation_configuration() matches JsonView::Object(members)
            && members["delta.columnMapping.maxColumnId"@] == JsonView::Text(
            signed_decimal(setup_columns(Table::EvolvedColumnMapping).len() as int),
        ),
{
    reveal_strlit("7");
    assert(setup_columns(Table::EvolvedColumnMapping).len() == 7);
    assert(signed_decimal(7) =~= "7"@);
}

/// Each command has one word, no word asks for all, and every other word is reported.
pub proof fn commands_have_words(word: Seq<char>)
    ensures
        command_of(None) == Ok::<Command, ErrorView>(Command::Run),
        command_of(Some(word)) == Ok::<Command, ErrorView>(Command::Generate) <==> word == "generate"@,
        command_of(Some(word)) == Ok::<Command, ErrorView>(Command::Setup) <==> word == "setup"@,
        command_of(Some(word)) == Ok::<Command, ErrorView>(Command::Read) <==> word == "read"@,
        command_of(Some(word)) == Ok::<Command, ErrorView>(Command::Run) <==> word == "run"@,
        word != "generate"@ && word != "setup"@ && word != "read"@ && word != "run"@ ==> command_of(Some(word))
            == Err::<Command, ErrorView>(ErrorView::UnknownCommand(word)),
{
    reveal_strlit("generate");
    reveal_strlit("setup");
    reveal_strlit("read");
    reveal_strlit("run");
    assert("generate"@.len() == 8 && "setup"@.len() == 5 && "read"@.len() == 4 && "run"@.len() == 3);
}

/// A word that may be missing stands for itself.
pub proof fn words_stand_for_themselves(word: &str)
    ensures
        word_view(Some(word)) == Some(word@),
        word_view(None) is None,
{
}

/// The directories of the tables.
pub proof fn tables_have_directories()
    ensures
        table_directory(Table::Regular) == "regular_events"@,
        table_directory(Table::ColumnMapping) == "column_mapping_events"@,
        table_directory(Table::EvolvedColumnMapping) == "evolved_column_mapping_events"@,
{
}

/// The URL of a directory names the scheme of files before all else, and ends with a slash.
pub proof fn directory_urls_are_those_of_files(text: Seq<char>)
    ensures
        is_directory_url(text) <==> seq!['f', 'i', 'l', 'e', ':', '/', '/'].is_prefix_of(text) && text.len() > 0
            && text.last() == '/',
{
    reveal_strlit("file://");
    assert("file://"@ =~= seq!['f', 'i', 'l', 'e', ':', '/', '/']);
}

/// The schema that the table with column mapping from the start is made with passes the check for such
/// tables: every column has a physical name of its own, which begins with `col-`.
pub proof fn fresh_setup_passes_its_check(at: int)
    requires
        0 <= at < setup_columns(Table::ColumnMapping).len(),
    ensures
        schema_mapping(schema_json(setup_columns(Table::ColumnMapping))) matches Ok(mappings) && fresh_schema_failure(
            mappings,
        ) is None,
        setup_columns(Table::ColumnMapping)[at].metadata.contains_key("delta.columnMapping.physicalName"@),
        setup_columns(Table::ColumnMapping)[at].metadata["delta.columnMapping.physicalName"@] == FieldMetadataView::Text(
            seq!['c', 'o', 'l', '-'] + setup_columns(Table::ColumnMapping)[at].name,
        ),
        setup_columns(Table::ColumnMapping)[at].metadata.contains_key("delta.columnMapping.id"@),
        setup_columns(Table::ColumnMapping)[at].metadata["delta.columnMapping.id"@] == FieldMetadataView::Number(at + 1),
{
    fresh_schema_passes();
    columns_say_how_they_are_mapped(true, true, false, at);
    let metadata = setup_columns(Table::ColumnMapping)[at].metadata;
    assert(metadata.dom().contains("delta.columnMapping.physicalName"@));
    assert(metadata.dom().contains("delta.columnMapping.id"@));
}

/// The tables that are made without column mapping have no metadata in their columns. The regular one
/// has the evolved columns from the start; the other has the base columns, which are those that column
/// mapping is switched on for.
pub proof fn other_setups_have_no_mapping(at: int)
    ensures
        setup_columns(Table::Regular).len() == 9,
        setup_columns(Table::EvolvedColumnMapping).len() == 7,
        0 <= at < 9 ==> setup_columns(Table::Regular)[at].metadata.dom() == Set::<Seq<char>>::empty(),
        0 <= at < 7 ==> setup_columns(Table::EvolvedColumnMapping)[at].metadata.dom() == Set::<Seq<char>>::empty(),
        0 <= at < 9 ==> setup_columns(Table::Regular)[at].name == setup_columns(Table::ColumnMapping)[at].name,
        0 <= at < 7 ==> setup_columns(Table::EvolvedColumnMapping)[at].name == table_columns(true, false, true)[at].name,
{
    if 0 <= at < 9 {
        columns_say_how_they_are_mapped(false, true, false, at);
    }
    if 0 <= at < 7 {
        columns_say_how_they_are_mapped(false, false, false, at);
    }
}

/// Every table is made with the columns of the events that it is filled with at first: the same names,
/// types and gaps, in the same order.
pub proof fn events_fit_the_setup(table: Table, at: int)
    requires
        0 <= at < setup_columns(table).len(),
    ensures
        setup_columns(table).len() == batch_fields(setup_events(table) == Events::Evolved).len(),
        setup_columns(table)[at].name == batch_fields(setup_events(table) == Events::Evolved)[at].name,
        setup_columns(table)[at].data_type == batch_fields(setup_events(table) == Events::Evolved)[at].data_type,
        setup_columns(table)[at].nullable == batch_fields(setup_events(table) == Events::Evolved)[at].nullable,
{
    batch_fits_table(table == Table::ColumnMapping, setup_events(table) == Events::Evolved, false, at);
}

} // verus!
