//! The columns of the lab's tables: as the library holds them, and as a Delta schema.
use crate::decimal::{signed_decimal, signed_decimal_text};
use crate::error::LabError;
#[allow(unused_imports)]
use crate::error::ErrorView;
use crate::json::JsonFailure;
#[allow(unused_imports)]
use crate::json::{json_value, JsonView};
use crate::text::{same_text, starts_with};
use crate::text_map::TextMap;
use vstd::prelude::*;

verus! {

/// The type of a column.
#[derive(Clone, Copy, Debug, PartialEq, Eq, Structural)]
pub enum FieldType {
    Long,
    Text,
    Double,
}

/// One value in the metadata of a column.
#[derive(Debug)]
pub enum FieldMetadata {
    Number(i64),
    Text(String),
}

/// A column of a table.
#[derive(Debug)]
pub struct TableField {
    pub name: String,
    pub data_type: FieldType,
    pub nullable: bool,
    pub metadata: TextMap<FieldMetadata>,
}

/// What a value in the metadata of a column stands for.
pub enum FieldMetadataView {
    Number(int),
    Text(Seq<char>),
}

/// What a column stands for.
pub struct TableFieldView {
    pub name: Seq<char>,
    pub data_type: FieldType,
    pub nullable: bool,
    pub metadata: Map<Seq<char>, FieldMetadataView>,
}

impl View for FieldMetadata {
    type V = FieldMetadataView;

    open spec fn view(&self) -> FieldMetadataView {
        match self {
            FieldMetadata::Number(n) => FieldMetadataView::Number(*n as int),
            FieldMetadata::Text(text) => FieldMetadataView::Text(text@),
        }
    }
}

impl View for TableField {
    type V = TableFieldView;

    open spec fn view(&self) -> TableFieldView {
        TableFieldView {
            name: self.name@,
            data_type: self.data_type,
            nullable: self.nullable,
            metadata: self.metadata@.map_values(|value: FieldMetadata| value@),
        }
    }
}

/// What a list of columns stands for.
pub open spec fn field_views(fields: Seq<TableField>) -> Seq<TableFieldView> {
    fields.map_values(|field: TableField| field@)
}

/// The names and types of the columns. The evolved tables have two more than the base ones.
pub open spec fn column_definitions(include_evolved_columns: bool) -> Seq<(Seq<char>, FieldType)> {
    let base = seq![
        ("event_id"@, FieldType::Long),
        ("customer_name"@, FieldType::Text),
        ("amount"@, FieldType::Double),
        ("partition_date"@, FieldType::Text),
        ("partition_year"@, FieldType::Text),
        ("partition_month"@, FieldType::Text),
        ("partition_day"@, FieldType::Text),
    ];
    if include_evolved_columns {
        base + seq![("event_category"@, FieldType::Text), ("source_system"@, FieldType::Text)]
    } else {
        base
    }
}

/// Whether a column may hold nothing: all but the event id and the columns named for partitions may.
pub open spec fn may_be_null(name: Seq<char>) -> bool {
    !(name == "event_id"@ || "partition_"@.is_prefix_of(name))
}

/// The name of a column in the data files of a table with column mapping.
pub open spec fn physical_name_of(name: Seq<char>, keep_existing_physical_names: bool) -> Seq<char> {
    if keep_existing_physical_names {
        name
    } else {
        "col-"@ + name
    }
}

/// The metadata of the column at a place, counted from zero, in a table with column mapping.
pub open spec fn mapping_metadata(at: int, name: Seq<char>, keep_existing_physical_names: bool) -> Map<
    Seq<char>,
    FieldMetadataView,
> {
    Map::empty().insert("delta.columnMapping.id"@, FieldMetadataView::Number(at + 1)).insert(
        "delta.columnMapping.physicalName"@,
        FieldMetadataView::Text(physical_name_of(name, keep_existing_physical_names)),
    )
}

/// The columns of a table.
pub open spec fn table_columns(
    column_mapping: bool,
    include_evolved_columns: bool,
    keep_existing_physical_names: bool,
) -> Seq<TableFieldView> {
    let definitions = column_definitions(include_evolved_columns);
    Seq::new(
        definitions.len(),
        |i: int|
            TableFieldView {
                name: definitions[i].0,
                data_type: definitions[i].1,
                nullable: may_be_null(definitions[i].0),
                metadata: if column_mapping {
                    mapping_metadata(i, definitions[i].0, keep_existing_physical_names)
                } else {
                    Map::empty()
                },
            },
    )
}

/// The keys under which the metadata of a column says how the column is mapped.
#[derive(Clone, Copy, Debug, PartialEq, Eq, Structural)]
pub enum MappingKey {
    Id,
    PhysicalName,
}

/// The text of such a key.
pub open spec fn mapping_key_text(key: MappingKey) -> Seq<char> {
    match key {
        MappingKey::Id => "delta.columnMapping.id"@,
        MappingKey::PhysicalName => "delta.columnMapping.physicalName"@,
    }
}

/// `as_ref` of `deltalake::kernel::ColumnMetadataKey`, which gives the text of each of the two keys.
#[verifier::external_body]
pub(crate) fn mapping_key(key: MappingKey) -> (text: String)
    ensures
        text@ == mapping_key_text(key),
{
    let key = match key {
        MappingKey::Id => deltalake::kernel::ColumnMetadataKey::ColumnMappingId,
        MappingKey::PhysicalName => deltalake::kernel::ColumnMetadataKey::ColumnMappingPhysicalName,
    };
    key.as_ref().to_string()
}

/// `as_ref` of `deltalake::TableProperty::ColumnMappingMode`, which gives the text of that property.
#[verifier::external_body]
fn column_mapping_mode() -> (text: String)
    ensures
        text@ == "delta.columnMapping.mode"@,
{
    deltalake::TableProperty::ColumnMappingMode.as_ref().to_string()
}

/// What a list of names and types stands for.
pub open spec fn definition_views(definitions: Seq<(&'static str, FieldType)>) -> Seq<(Seq<char>, FieldType)> {
    definitions.map_values(|definition: (&'static str, FieldType)| (definition.0@, definition.1))
}

/// Whether a column may hold nothing.
pub(crate) fn is_nullable(name: &str) -> (nullable: bool)
    ensures
        nullable <==> may_be_null(name@),
{
    !(same_text(name, "event_id") || starts_with(name, "partition_"))
}

/// The names and types of the columns.
pub(crate) fn definitions(include_evolved_columns: bool) -> (definitions: Vec<(&'static str, FieldType)>)
    ensures
        definition_views(definitions@) == column_definitions(include_evolved_columns),
{
    let mut definitions: Vec<(&'static str, FieldType)> = Vec::new();
    definitions.push(("event_id", FieldType::Long));
    definitions.push(("customer_name", FieldType::Text));
    definitions.push(("amount", FieldType::Double));
    definitions.push(("partition_date", FieldType::Text));
    definitions.push(("partition_year", FieldType::Text));
    definitions.push(("partition_month", FieldType::Text));
    definitions.push(("partition_day", FieldType::Text));
    if include_evolved_columns {
        definitions.push(("event_category", FieldType::Text));
        definitions.push(("source_system", FieldType::Text));
    }
    assert(definition_views(definitions@) =~= column_definitions(include_evolved_columns));
    definitions
}

/// The names of the columns.
pub open spec fn column_names(include_evolved_columns: bool) -> Seq<Seq<char>> {
    column_definitions(include_evolved_columns).map_values(|definition: (Seq<char>, FieldType)| definition.0)
}

/// The names of the columns that the evolved tables have beside the base ones.
pub open spec fn evolved_names() -> Seq<Seq<char>> {
    column_names(true).skip(column_names(false).len() as int)
}

/// What a list of literal texts stands for.
pub open spec fn literals(list: Seq<&'static str>) -> Seq<Seq<char>> {
    list.map_values(|text: &'static str| text@)
}

/// The names of the columns.
pub fn columns(include_evolved_columns: bool) -> (names: Vec<&'static str>)
    ensures
        literals(names@) == column_names(include_evolved_columns),
{
    let definitions = definitions(include_evolved_columns);
    let ghost meant = column_names(include_evolved_columns);
    let mut names: Vec<&'static str> = Vec::new();
    let mut i: usize = 0;
    while i < definitions.len()
        invariant
            i <= definitions@.len() == meant.len(),
            meant == column_names(include_evolved_columns),
            definition_views(definitions@) == column_definitions(include_evolved_columns),
            literals(names@) == meant.take(i as int),
        decreases definitions@.len() - i,
    {
        let (name, _) = definitions[i];
        let ghost before = names@;
        names.push(name);
        proof {
            assert(definition_views(definitions@)[i as int].0 == name@);
            assert(literals(names@) =~= literals(before).push(name@));
            assert(meant.take(i + 1) =~= meant.take(i as int).push(meant[i as int]));
        }
        i += 1;
    }
    assert(meant.take(meant.len() as int) =~= meant);
    names
}

/// The columns of a table: with or without column mapping, with or without the evolved columns, and
/// with physical names that repeat the logical ones or that stand apart from them.
pub fn table_fields(
    column_mapping: bool,
    include_evolved_columns: bool,
    keep_existing_physical_names: bool,
) -> (fields: Vec<TableField>)
    ensures
        field_views(fields@) == table_columns(
            column_mapping,
            include_evolved_columns,
            keep_existing_physical_names,
        ),
{
    let definitions = definitions(include_evolved_columns);
    let ghost expected = table_columns(column_mapping, include_evolved_columns, keep_existing_physical_names);
    let ghost meant = column_definitions(include_evolved_columns);
    let mut fields: Vec<TableField> = Vec::new();
    let mut i: usize = 0;
    while i < definitions.len()
        invariant
            i <= definitions@.len() == meant.len() == expected.len(),
            meant.len() <= 9,
            meant == column_definitions(include_evolved_columns),
            expected == table_columns(column_mapping, include_evolved_columns, keep_existing_physical_names),
            definition_views(definitions@) == meant,
            field_views(fields@) == expected.take(i as int),
        decreases definitions@.len() - i,
    {
        let (name, data_type) = definitions[i];
        assert(meant[i as int] == (name@, data_type)) by {
            assert(definition_views(definitions@)[i as int] == (name@, data_type));
        }
        let nullable = is_nullable(name);
        let mut metadata: TextMap<FieldMetadata> = TextMap::new();
        if column_mapping {
            let physical_name = if keep_existing_physical_names {
                name.to_owned()
            } else {
                "col-".to_owned().concat(name)
            };
            metadata = metadata.with(mapping_key(MappingKey::Id), FieldMetadata::Number(i as i64 + 1));
            metadata = metadata.with(mapping_key(MappingKey::PhysicalName), FieldMetadata::Text(physical_name));
        }
        let field = TableField { name: name.to_owned(), data_type, nullable, metadata };
        assert(field@.metadata =~= expected[i as int].metadata);
        assert(field@ == expected[i as int]);
        let ghost before = fields@;
        fields.push(field);
        assert(field_views(fields@) =~= field_views(before).push(field@));
        assert(expected.take(i + 1) =~= expected.take(i as int).push(expected[i as int]));
        i += 1;
    }
    assert(expected.take(expected.len() as int) =~= expected);
    fields
}

/// The columns that every table is partitioned by.
pub open spec fn partition_names() -> Seq<Seq<char>> {
    seq!["partition_year"@, "partition_month"@, "partition_day"@]
}

/// The columns that every table is partitioned by.
pub fn partition_columns() -> (columns: [&'static str; 3])
    ensures
        columns@.map_values(|column: &'static str| column@) == partition_names(),
{
    let columns = ["partition_year", "partition_month", "partition_day"];
    assert(columns@.map_values(|column: &'static str| column@) =~= partition_names());
    columns
}

/// The properties of a table with column mapping whose columns have ids up to the one given.
pub fn column_mapping_configuration(max_column_id: i64) -> (configuration: [(String, Option<String>); 2])
    ensures
        configuration[0].0@ == "delta.columnMapping.mode"@,
        configuration[0].1 matches Some(mode) && mode@ == "name"@,
        configuration[1].0@ == "delta.columnMapping.maxColumnId"@,
        configuration[1].1 matches Some(id) && id@ == signed_decimal(max_column_id as int),
{
    [
        (column_mapping_mode(), Some("name".to_owned())),
        ("delta.columnMapping.maxColumnId".to_owned(), Some(signed_decimal_text(max_column_id))),
    ]
}

/// A Delta schema.
#[verifier::external_type_specification]
#[verifier::external_body]
pub struct ExStructType(deltalake::kernel::StructType);

/// The columns that a schema holds, in their order; nothing where one of them is of a type, or has
/// a value in its metadata, that a [`TableField`] cannot have.
pub uninterp spec fn struct_fields(schema: deltalake::kernel::StructType) -> Option<Seq<TableFieldView>>;

/// No two columns have the same name.
pub open spec fn names_differ(fields: Seq<TableFieldView>) -> bool {
    forall|i: int, j: int| 0 <= i < j < fields.len() ==> (#[trigger] fields[i]).name != (#[trigger] fields[j]).name
}

/// No column is one of those that Delta itself fills in.
pub open spec fn ordinary_columns(fields: Seq<TableFieldView>) -> bool {
    forall|i: int|
        0 <= i < fields.len() ==> !(#[trigger] fields[i]).metadata.contains_key("delta.metadataSpec"@)
}

/// The name of a type in a schema.
pub open spec fn type_text(data_type: FieldType) -> Seq<char> {
    match data_type {
        FieldType::Long => "long"@,
        FieldType::Text => "string"@,
        FieldType::Double => "double"@,
    }
}

/// A value in the metadata of a column, as JSON.
pub open spec fn metadata_json(value: FieldMetadataView) -> JsonView {
    match value {
        FieldMetadataView::Number(n) => JsonView::Integer(n),
        FieldMetadataView::Text(text) => JsonView::Text(text),
    }
}

/// A column, as JSON.
pub open spec fn field_json(field: TableFieldView) -> JsonView {
    JsonView::Object(
        Map::empty().insert("name"@, JsonView::Text(field.name)).insert(
            "type"@,
            JsonView::Text(type_text(field.data_type)),
        ).insert("nullable"@, JsonView::Bool(field.nullable)).insert(
            "metadata"@,
            JsonView::Object(field.metadata.map_values(|value: FieldMetadataView| metadata_json(value))),
        ),
    )
}

/// A schema, as JSON.
pub open spec fn schema_json(fields: Seq<TableFieldView>) -> JsonView {
    JsonView::Object(
        Map::empty().insert("type"@, JsonView::Text("struct"@)).insert(
            "fields"@,
            JsonView::List(fields.map_values(|field: TableFieldView| field_json(field))),
        ),
    )
}

/// The first name that a column has after an earlier one.
pub open spec fn first_repeated_name(fields: Seq<TableFieldView>) -> Option<Seq<char>>
    decreases fields.len(),
{
    if fields.len() == 0 {
        None
    } else {
        let earlier = fields.drop_last();
        match first_repeated_name(earlier) {
            Some(name) => Some(name),
            None => if exists|i: int| 0 <= i < earlier.len() && (#[trigger] earlier[i]).name == fields.last().name {
                Some(fields.last().name)
            } else {
                None
            },
        }
    }
}

/// The words for columns of which two have the same name.
pub open spec fn repeated_name_text(fields: Seq<TableFieldView>) -> Seq<char> {
    "Schema error: Duplicate field name: "@ + first_repeated_name(fields)->0
}

/// Some name repeats an earlier one exactly if the names are not all different.
pub proof fn names_differ_unless_one_repeats(fields: Seq<TableFieldView>)
    ensures
        names_differ(fields) <==> first_repeated_name(fields) is None,
    decreases fields.len(),
{
    if fields.len() > 0 {
        let earlier = fields.drop_last();
        let last = fields.len() - 1;
        names_differ_unless_one_repeats(earlier);
        if names_differ(fields) {
            assert forall|i: int, j: int| 0 <= i < j < earlier.len() implies (#[trigger] earlier[i]).name != (
            #[trigger] earlier[j]).name by {
                assert(fields[i].name != fields[j].name);
            }
            assert forall|i: int| 0 <= i < earlier.len() implies (#[trigger] earlier[i]).name != fields.last().name by {
                assert(fields[i].name != fields[last].name);
            }
        }
        if first_repeated_name(fields) is None {
            assert forall|i: int, j: int| 0 <= i < j < fields.len() implies (#[trigger] fields[i]).name != (
            #[trigger] fields[j]).name by {
                assert(earlier[i] == fields[i]);
                if j < last {
                    assert(earlier[j] == fields[j]);
                }
            }
        }
    }
}

/// `StructType::try_new` of `deltalake`: it makes a schema of columns in their order unless two of
/// them have the same name, and then gives an error whose words name the first column that repeats an
/// earlier name. That two columns might be the same one of those
/// that Delta itself fills in is left out.
#[verifier::external_body]
fn struct_type(fields: &Vec<TableField>) -> (schema: Result<deltalake::kernel::StructType, String>)
    requires
        ordinary_columns(field_views(fields@)),
    ensures
        schema is Ok <==> names_differ(field_views(fields@)),
        schema matches Ok(made) ==> struct_fields(made) == Some(field_views(fields@)),
        schema matches Err(words) ==> words@ == repeated_name_text(field_views(fields@)),
{
    let converted = fields.iter().map(|field| {
        let data_type = match field.data_type {
            FieldType::Long => deltalake::kernel::DataType::LONG,
            FieldType::Text => deltalake::kernel::DataType::STRING,
            FieldType::Double => deltalake::kernel::DataType::DOUBLE,
        };
        let metadata = field.metadata.entries.iter().map(|(key, value)| match value {
            FieldMetadata::Number(n) => (key, deltalake::kernel::MetadataValue::Number(*n)),
            FieldMetadata::Text(text) => (key, deltalake::kernel::MetadataValue::String(text.clone())),
        });
        deltalake::kernel::StructField::new(&field.name, data_type, field.nullable).with_metadata(metadata)
    });
    deltalake::kernel::StructType::try_new(converted).map_err(|error| error.to_string())
}

/// `serde_json::to_string` of a schema: it always succeeds, and the JSON it writes lists the columns.
/// The order in which the text gives the metadata of a column differs from run to run.
#[verifier::external_body]
fn struct_type_text(schema: &deltalake::kernel::StructType) -> (text: Result<String, JsonFailure>)
    ensures
        text is Ok,
        text matches Ok(written) ==> (struct_fields(*schema) is Some ==> json_value(written@) == Some(
            schema_json(struct_fields(*schema)->0),
        )),
{
    serde_json::to_string(schema).map_err(|error| JsonFailure { words: error.to_string(), error })
}

/// Makes a Delta schema of columns.
pub fn table_schema(fields: &Vec<TableField>) -> (schema: Result<deltalake::kernel::StructType, LabError>)
    requires
        ordinary_columns(field_views(fields@)),
    ensures
        schema is Ok <==> names_differ(field_views(fields@)),
        schema matches Ok(made) ==> struct_fields(made) == Some(field_views(fields@)),
        schema matches Err(error) ==> error@ == ErrorView::Schema(repeated_name_text(field_views(fields@))),
{
    match struct_type(fields) {
        Ok(schema) => Ok(schema),
        Err(error) => Err(LabError::Schema(error)),
    }
}

/// Writes the Delta schema of columns.
pub fn schema_string(fields: &Vec<TableField>) -> (text: Result<String, LabError>)
    requires
        ordinary_columns(field_views(fields@)),
    ensures
        text is Ok <==> names_differ(field_views(fields@)),
        text matches Ok(written) ==> json_value(written@) == Some(schema_json(field_views(fields@))),
        text matches Err(error) ==> error@ == ErrorView::Schema(repeated_name_text(field_views(fields@))),
{
    let schema = match table_schema(fields) {
        Ok(schema) => schema,
        Err(error) => {
            return Err(error);
        },
    };
    match struct_type_text(&schema) {
        Ok(text) => Ok(text),
        Err(failure) => Err(LabError::Json(failure)),
    }
}

/// The columns of every table have different names, none is filled in by Delta itself, and so they
/// make up a schema.
pub proof fn columns_make_a_schema(
    column_mapping: bool,
    include_evolved_columns: bool,
    keep_existing_physical_names: bool,
)
    ensures
        names_differ(table_columns(column_mapping, include_evolved_columns, keep_existing_physical_names)),
        ordinary_columns(table_columns(column_mapping, include_evolved_columns, keep_existing_physical_names)),
{
    reveal_strlit("event_id");
    reveal_strlit("customer_name");
    reveal_strlit("amount");
    reveal_strlit("partition_date");
    reveal_strlit("partition_year");
    reveal_strlit("partition_month");
    reveal_strlit("partition_day");
    reveal_strlit("event_category");
    reveal_strlit("source_system");
    reveal_strlit("delta.columnMapping.id");
    reveal_strlit("delta.columnMapping.physicalName");
    reveal_strlit("delta.metadataSpec");
    let fields = table_columns(column_mapping, include_evolved_columns, keep_existing_physical_names);
    assert("delta.metadataSpec"@.len() != "delta.columnMapping.id"@.len());
    assert("delta.metadataSpec"@.len() != "delta.columnMapping.physicalName"@.len());
    assert forall|i: int, j: int| 0 <= i < j < fields.len() implies (#[trigger] fields[i]).name != (
    #[trigger] fields[j]).name by {
        let (a, b) = (fields[i].name, fields[j].name);
        if a.len() == b.len() {
            assert(a[0] != b[0] || a[10] != b[10] || a[12] != b[12]);
        }
    }
}

/// The two keys under which a column says how it is mapped are different.
pub proof fn mapping_keys_differ()
    ensures
        mapping_key_text(MappingKey::Id) != mapping_key_text(MappingKey::PhysicalName),
{
    reveal_strlit("delta.columnMapping.id");
    reveal_strlit("delta.columnMapping.physicalName");
    assert("delta.columnMapping.id"@.len() != "delta.columnMapping.physicalName"@.len());
}

/// Evolving a table only adds columns: those it had before stay as they were, in their places.
pub proof fn evolving_only_adds_columns(column_mapping: bool, keep_existing_physical_names: bool)
    ensures
        table_columns(column_mapping, false, keep_existing_physical_names).is_prefix_of(
            table_columns(column_mapping, true, keep_existing_physical_names),
        ),
{
    let base = table_columns(column_mapping, false, keep_existing_physical_names);
    let evolved = table_columns(column_mapping, true, keep_existing_physical_names);
    assert(evolved.subrange(0, base.len() as int) =~= base);
}

/// Without column mapping no column has metadata. With it the columns have the ids from one to their
/// number, and the physical name of each is its own name where existing names are kept, and a name
/// of its own that begins with `col-` where they are not.
pub proof fn columns_are_mapped(
    column_mapping: bool,
    include_evolved_columns: bool,
    keep_existing_physical_names: bool,
    at: int,
)
    requires
        0 <= at < table_columns(column_mapping, include_evolved_columns, keep_existing_physical_names).len(),
    ensures
        ({
            let field = table_columns(
                column_mapping,
                include_evolved_columns,
                keep_existing_physical_names,
            )[at];
            &&& !column_mapping ==> field.metadata == Map::<Seq<char>, FieldMetadataView>::empty()
            &&& column_mapping ==> {
                &&& field.metadata.contains_key(mapping_key_text(MappingKey::Id))
                &&& field.metadata[mapping_key_text(MappingKey::Id)] == FieldMetadataView::Number(at + 1)
                &&& field.metadata.contains_key(mapping_key_text(MappingKey::PhysicalName))
                &&& field.metadata[mapping_key_text(MappingKey::PhysicalName)] matches FieldMetadataView::Text(
                    physical_name,
                ) && {
                    &&& keep_existing_physical_names ==> physical_name == field.name
                    &&& !keep_existing_physical_names ==> physical_name != field.name && "col-"@.is_prefix_of(
                        physical_name,
                    ) && physical_name.skip(4) == field.name
                }
            }
        }),
{
    let field = table_columns(column_mapping, include_evolved_columns, keep_existing_physical_names)[at];
    reveal_strlit("col-");
    mapping_keys_differ();
    let apart = "col-"@ + field.name;
    assert(apart.len() != field.name.len());
    assert(apart.subrange(0, 4) =~= "col-"@);
    assert(apart.skip(4) =~= field.name);
}

/// One of the columns has that name and holds something in every row.
pub open spec fn has_required_column(fields: Seq<TableFieldView>, name: Seq<char>) -> bool {
    exists|i: int| 0 <= i < fields.len() && (#[trigger] fields[i]).name == name && !fields[i].nullable
}

/// The columns that a table is partitioned by are columns of the table, and hold something in every
/// row.
pub proof fn partition_columns_are_required(
    column_mapping: bool,
    include_evolved_columns: bool,
    keep_existing_physical_names: bool,
    at: int,
)
    requires
        0 <= at < partition_names().len(),
    ensures
        has_required_column(
            table_columns(column_mapping, include_evolved_columns, keep_existing_physical_names),
            partition_names()[at],
        ),
{
    reveal_strlit("partition_");
    reveal_strlit("partition_year");
    reveal_strlit("partition_month");
    reveal_strlit("partition_day");
    let fields = table_columns(column_mapping, include_evolved_columns, keep_existing_physical_names);
    let i = at + 4;
    let name = fields[i].name;
    assert(name == partition_names()[at]);
    assert(name.subrange(0, 10) =~= "partition_"@);
}

/// The columns of a table, in order: their names, that the event id alone is a whole number and the
/// amount alone a floating-point number while all others are text, and that only the customer, the
/// amount and the evolved columns may hold nothing.
pub proof fn columns_are_declared(
    column_mapping: bool,
    include_evolved_columns: bool,
    keep_existing_physical_names: bool,
    at: int,
)
    requires
        0 <= at < table_columns(column_mapping, include_evolved_columns, keep_existing_physical_names).len(),
    ensures
        ({
            let fields = table_columns(column_mapping, include_evolved_columns, keep_existing_physical_names);
            let names = seq![
                "event_id"@,
                "customer_name"@,
                "amount"@,
                "partition_date"@,
                "partition_year"@,
                "partition_month"@,
                "partition_day"@,
                "event_category"@,
                "source_system"@,
            ];
            &&& fields.len() == if include_evolved_columns {
                9int
            } else {
                7
            }
            &&& fields[at].name == names[at]
            &&& fields[at].data_type == FieldType::Long <==> fields[at].name == "event_id"@
            &&& fields[at].data_type == FieldType::Double <==> fields[at].name == "amount"@
            &&& fields[at].nullable <==> (fields[at].name == "customer_name"@ || fields[at].name == "amount"@
                || fields[at].name == "event_category"@ || fields[at].name == "source_system"@)
        }),
{
    reveal_strlit("event_id");
    reveal_strlit("customer_name");
    reveal_strlit("amount");
    reveal_strlit("partition_date");
    reveal_strlit("partition_year");
    reveal_strlit("partition_month");
    reveal_strlit("partition_day");
    reveal_strlit("event_category");
    reveal_strlit("source_system");
    reveal_strlit("partition_");
    let fields = table_columns(column_mapping, include_evolved_columns, keep_existing_physical_names);
    let name = fields[at].name;
    columns_make_a_schema(column_mapping, true, keep_existing_physical_names);
    let all = table_columns(column_mapping, true, keep_existing_physical_names);
    assert(all[0].name == "event_id"@ && all[1].name == "customer_name"@ && all[2].name == "amount"@);
    assert(all[7].name == "event_category"@ && all[8].name == "source_system"@);
    assert(all[at].name == name);
    assert forall|other: int| 0 <= other < 9 && other != at implies #[trigger] all[other].name != name by {
        if other < at {
            assert(all[other].name != all[at].name);
        } else {
            assert(all[at].name != all[other].name);
        }
    }
    if 3 <= at <= 6 {
        assert(name.subrange(0, 10) =~= "partition_"@);
    } else if "partition_"@.is_prefix_of(name) {
        assert(name.subrange(0, 10)[0] == "partition_"@[0]);
        assert(name[0] == 'p');
    }
}

/// What a column says of how it is mapped: nothing without column mapping, and with it its place, from
/// one on, and its physical name, which is its own name or that name after `col-`.
pub proof fn columns_say_how_they_are_mapped(
    column_mapping: bool,
    include_evolved_columns: bool,
    keep_existing_physical_names: bool,
    at: int,
)
    requires
        0 <= at < table_columns(column_mapping, include_evolved_columns, keep_existing_physical_names).len(),
    ensures
        ({
            let field = table_columns(column_mapping, include_evolved_columns, keep_existing_physical_names)[at];
            &&& !column_mapping ==> field.metadata.dom() == Set::<Seq<char>>::empty()
            &&& column_mapping ==> field.metadata.dom() == set![
                "delta.columnMapping.id"@,
                "delta.columnMapping.physicalName"@,
            ]
            &&& column_mapping ==> field.metadata["delta.columnMapping.id"@] == FieldMetadataView::Number(at + 1)
            &&& column_mapping && keep_existing_physical_names
                ==> field.metadata["delta.columnMapping.physicalName"@] == FieldMetadataView::Text(field.name)
            &&& column_mapping && !keep_existing_physical_names
                ==> field.metadata["delta.columnMapping.physicalName"@] == FieldMetadataView::Text(
                seq!['c', 'o', 'l', '-'] + field.name,
            )
        }),
{
    reveal_strlit("col-");
    mapping_keys_differ();
    assert("col-"@ =~= seq!['c', 'o', 'l', '-']);
    let field = table_columns(column_mapping, include_evolved_columns, keep_existing_physical_names)[at];
    if column_mapping {
        assert(field.metadata.dom() =~= set!["delta.columnMapping.id"@, "delta.columnMapping.physicalName"@]);
    } else {
        assert(field.metadata.dom() =~= Set::empty());
    }
}

/// The names of the columns are those that the tables have, the evolved ones stand last among them,
/// and the partition columns are year, month and day.
pub proof fn names_are_those_of_the_columns(column_mapping: bool, keep_existing_physical_names: bool)
    ensures
        forall|include_evolved_columns: bool, at: int|
            ({
                let fields = table_columns(column_mapping, include_evolved_columns, keep_existing_physical_names);
                0 <= at < fields.len() ==> #[trigger] column_names(include_evolved_columns)[at] == fields[at].name
            }),
        column_names(false).len() == 7,
        column_names(true).len() == 9,
        evolved_names() == seq!["event_category"@, "source_system"@],
        partition_names() == seq!["partition_year"@, "partition_month"@, "partition_day"@],
{
    assert(evolved_names() =~= seq!["event_category"@, "source_system"@]);
}

/// What a column, its metadata and lists of them stand for: each part for itself.
pub proof fn fields_stand_for_themselves(
    field: TableField,
    fields: Seq<TableField>,
    definitions: Seq<(&'static str, FieldType)>,
    list: Seq<&'static str>,
    number: i64,
    text: String,
    key: Seq<char>,
    at: int,
)
    ensures
        field@.name == field.name@,
        field@.data_type == field.data_type,
        field@.nullable == field.nullable,
        field@.metadata.contains_key(key) <==> field.metadata@.contains_key(key),
        field.metadata@.contains_key(key) ==> field@.metadata[key] == field.metadata@[key]@,
        FieldMetadata::Number(number)@ == FieldMetadataView::Number(number as int),
        FieldMetadata::Text(text)@ == FieldMetadataView::Text(text@),
        field_views(fields).len() == fields.len(),
        0 <= at < fields.len() ==> field_views(fields)[at] == fields[at]@,
        definition_views(definitions).len() == definitions.len(),
        0 <= at < definitions.len() ==> definition_views(definitions)[at] == (definitions[at].0@, definitions[at].1),
        literals(list).len() == list.len(),
        0 <= at < list.len() ==> literals(list)[at] == list[at]@,
{
}

/// The keys under which a column says how it is mapped.
pub proof fn mapping_keys_are_those_of_delta()
    ensures
        mapping_key_text(MappingKey::Id) == "delta.columnMapping.id"@,
        mapping_key_text(MappingKey::PhysicalName) == "delta.columnMapping.physicalName"@,
{
}

/// A schema in JSON is an object of two members: it names itself a struct, and lists its columns in
/// order.
pub proof fn schema_lists_its_columns(fields: Seq<TableFieldView>, at: int)
    ensures
        ({
            let schema = schema_json(fields);
            &&& schema is Object
            &&& schema->Object_0.dom() == set!["type"@, "fields"@]
            &&& schema->Object_0["type"@] == JsonView::Text("struct"@)
            &&& schema->Object_0["fields"@] is List
            &&& schema->Object_0["fields"@]->List_0.len() == fields.len()
            &&& 0 <= at < fields.len() ==> schema->Object_0["fields"@]->List_0[at] == field_json(fields[at])
        }),
{
    reveal_strlit("type");
    reveal_strlit("fields");
    assert("type"@.len() != "fields"@.len());
    assert(schema_json(fields)->Object_0.dom() =~= set!["type"@, "fields"@]);
}

/// A column in JSON is an object of four members: its name, its type by the name that Delta has for
/// it, whether it may hold nothing, and its metadata, value by value.
pub proof fn column_is_written_whole(field: TableFieldView, key: Seq<char>)
    ensures
        ({
            let written = field_json(field);
            let metadata = written->Object_0["metadata"@];
            &&& written is Object
            &&& written->Object_0.dom() == set!["name"@, "type"@, "nullable"@, "metadata"@]
            &&& written->Object_0["name"@] == JsonView::Text(field.name)
            &&& field.data_type == FieldType::Long ==> written->Object_0["type"@] == JsonView::Text("long"@)
            &&& field.data_type == FieldType::Text ==> written->Object_0["type"@] == JsonView::Text("string"@)
            &&& field.data_type == FieldType::Double ==> written->Object_0["type"@] == JsonView::Text("double"@)
            &&& written->Object_0["nullable"@] == JsonView::Bool(field.nullable)
            &&& metadata is Object
            &&& metadata->Object_0.contains_key(key) <==> field.metadata.contains_key(key)
            &&& field.metadata.contains_key(key) ==> match field.metadata[key] {
                FieldMetadataView::Number(n) => metadata->Object_0[key] == JsonView::Integer(n),
                FieldMetadataView::Text(text) => metadata->Object_0[key] == JsonView::Text(text),
            }
        }),
{
    reveal_strlit("name");
    reveal_strlit("type");
    reveal_strlit("nullable");
    reveal_strlit("metadata");
    assert("name"@.len() == 4 && "type"@.len() == 4 && "nullable"@.len() == 8 && "metadata"@.len() == 8);
    assert("name"@[0] != "type"@[0]);
    assert("nullable"@[0] != "metadata"@[0]);
    assert(field_json(field)->Object_0.dom() =~= set!["name"@, "type"@, "nullable"@, "metadata"@]);
}

/// Of the names that repeat an earlier one, the first is reported.
pub proof fn first_repeat_is_reported(fields: Seq<TableFieldView>, earlier: int, at: int)
    requires
        0 <= earlier < at < fields.len(),
        fields[earlier].name == fields[at].name,
        names_differ(fields.take(at)),
    ensures
        first_repeated_name(fields) == Some(fields[at].name),
        repeated_name_text(fields) == "Schema error: Duplicate field name: "@ + fields[at].name,
    decreases fields.len(),
{
    let front = fields.drop_last();
    if at < fields.len() - 1 {
        assert(front.take(at) =~= fields.take(at));
        first_repeat_is_reported(front, earlier, at);
    } else {
        assert(front =~= fields.take(at));
        names_differ_unless_one_repeats(front);
        assert(front[earlier].name == fields.last().name);
    }
}

/// Columns make up a schema where no two have the same name, and none is one that Delta fills in.
pub proof fn schema_needs_different_names(fields: Seq<TableFieldView>)
    ensures
        names_differ(fields) <==> forall|i: int, j: int|
            0 <= i < j < fields.len() ==> (#[trigger] fields[i]).name != (#[trigger] fields[j]).name,
        ordinary_columns(fields) <==> forall|i: int|
            0 <= i < fields.len() ==> !(#[trigger] fields[i]).metadata.contains_key("delta.metadataSpec"@),
{
}

} // verus!
