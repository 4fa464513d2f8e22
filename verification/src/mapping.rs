//! How the columns of a table are mapped to names in its data files, as the table's schema says.
use crate::error::{LabError, Violation};
#[allow(unused_imports)]
use crate::error::{failure, ErrorView, ViolationView};
#[allow(unused_imports)]
use crate::json::{items_of, json_error, json_value, member, members_of, string_of, views, JsonView};
use crate::json::{parse_json, Json};
use crate::log::{latest_metadata_action, LogFile};
#[allow(unused_imports)]
use crate::log::{file_names_differ, latest_metadata, log_views};
use crate::schema::{columns, mapping_key, MappingKey};
#[allow(unused_imports)]
use crate::schema::{
    column_names, columns_are_mapped, columns_make_a_schema, evolved_names, field_json, literals,
    mapping_key_text, names_differ, schema_json, table_columns, FieldMetadataView,
    TableFieldView,
};
use crate::text::{same_text, starts_with};
use crate::text_map::TextMap;
use vstd::prelude::*;

verus! {

/// The two names of a column.
#[derive(Debug)]
pub struct FieldMapping {
    pub logical_name: String,
    pub physical_name: String,
}

/// What the two names of a column stand for.
pub struct FieldMappingView {
    pub logical_name: Seq<char>,
    pub physical_name: Seq<char>,
}

impl View for FieldMapping {
    type V = FieldMappingView;

    open spec fn view(&self) -> FieldMappingView {
        FieldMappingView { logical_name: self.logical_name@, physical_name: self.physical_name@ }
    }
}

/// What a map to pairs of names stands for.
pub open spec fn mapping_views(mappings: Map<Seq<char>, FieldMapping>) -> Map<Seq<char>, FieldMappingView> {
    mappings.map_values(|mapping: FieldMapping| mapping@)
}

/// The two names that a field of a schema gives to its column.
pub open spec fn field_mapping(field: JsonView) -> Result<FieldMappingView, ErrorView> {
    match member(field, "name"@) {
        None => Err(ErrorView::MissingFieldName),
        Some(name) => match string_of(name) {
            None => Err(ErrorView::MissingFieldName),
            Some(logical_name) => named_field_mapping(field, logical_name),
        },
    }
}

/// The two names of a column whose own name is known.
pub open spec fn named_field_mapping(field: JsonView, logical_name: Seq<char>) -> Result<FieldMappingView, ErrorView> {
    match member(field, "metadata"@) {
        None => Err(ErrorView::MissingFieldMetadata(logical_name)),
        Some(metadata) => if members_of(metadata) is None {
            Err(ErrorView::MissingFieldMetadata(logical_name))
        } else {
            match member(metadata, mapping_key_text(MappingKey::PhysicalName)) {
                None => Err(ErrorView::MissingPhysicalName(logical_name)),
                Some(name) => match string_of(name) {
                    None => Err(ErrorView::MissingPhysicalName(logical_name)),
                    Some(physical_name) => Ok(FieldMappingView { logical_name, physical_name }),
                },
            }
        },
    }
}

/// The names of all columns, under their own names; of two columns of one name, those of the later.
/// The first field that does not say its names decides the error.
pub open spec fn fields_mapping(fields: Seq<JsonView>) -> Result<Map<Seq<char>, FieldMappingView>, ErrorView>
    decreases fields.len(),
{
    if fields.len() == 0 {
        Ok(Map::empty())
    } else {
        match fields_mapping(fields.drop_last()) {
            Err(error) => Err(error),
            Ok(mappings) => match field_mapping(fields.last()) {
                Err(error) => Err(error),
                Ok(mapping) => Ok(mappings.insert(mapping.logical_name, mapping)),
            },
        }
    }
}

/// The names of all columns of a schema.
pub open spec fn schema_mapping(schema: JsonView) -> Result<Map<Seq<char>, FieldMappingView>, ErrorView> {
    match member(schema, "fields"@) {
        None => Err(ErrorView::MissingSchemaFields),
        Some(fields) => match items_of(fields) {
            None => Err(ErrorView::MissingSchemaFields),
            Some(items) => fields_mapping(items),
        },
    }
}

/// The names of all columns of the schema in the metadata of a table.
pub open spec fn metadata_mapping(metadata: JsonView) -> Result<Map<Seq<char>, FieldMappingView>, ErrorView> {
    match member(metadata, "schemaString"@) {
        None => Err(ErrorView::MissingSchemaString),
        Some(text) => match string_of(text) {
            None => Err(ErrorView::MissingSchemaString),
            Some(schema_string) => match json_value(schema_string) {
                None => Err(ErrorView::Json(json_error(schema_string))),
                Some(schema) => schema_mapping(schema),
            },
        },
    }
}

/// The names of all columns of a table, by its logs.
pub open spec fn table_mapping(logs: Seq<crate::log::LogFileView>, table_path: Seq<char>) -> Result<
    Map<Seq<char>, FieldMappingView>,
    ErrorView,
> {
    match latest_metadata(logs, table_path) {
        Err(error) => Err(error),
        Ok(metadata) => metadata_mapping(metadata),
    }
}

/// Once a field does not say its names, no further one changes the outcome.
proof fn nameless_field_stays(fields: Seq<JsonView>, read: int)
    requires
        0 <= read <= fields.len(),
        fields_mapping(fields.take(read)) is Err,
    ensures
        fields_mapping(fields) == fields_mapping(fields.take(read)),
    decreases fields.len(),
{
    if read < fields.len() {
        assert(fields.drop_last().take(read) =~= fields.take(read));
        nameless_field_stays(fields.drop_last(), read);
    } else {
        assert(fields.take(read) =~= fields);
    }
}

/// The two names that a field of a schema gives to its column.
pub fn read_field_mapping(field: &Json) -> (mapping: Result<FieldMapping, LabError>)
    ensures
        mapping matches Ok(found) ==> field_mapping(field@) == Ok::<FieldMappingView, ErrorView>(found@),
        mapping matches Err(error) ==> field_mapping(field@) == Err::<FieldMappingView, ErrorView>(error@),
{
    let name = match field.get("name") {
        Some(name) => name.as_str(),
        None => None,
    };
    let logical_name = match name {
        Some(name) => name.to_owned(),
        None => {
            return Err(LabError::MissingFieldName);
        },
    };
    let metadata = match field.get("metadata") {
        Some(metadata) => metadata,
        None => {
            return Err(LabError::MissingFieldMetadata(logical_name));
        },
    };
    if metadata.as_object().is_none() {
        return Err(LabError::MissingFieldMetadata(logical_name));
    }
    let physical_name = match metadata.get(mapping_key(MappingKey::PhysicalName).as_str()) {
        Some(name) => name.as_str(),
        None => None,
    };
    match physical_name {
        Some(name) => Ok(FieldMapping { logical_name, physical_name: name.to_owned() }),
        None => Err(LabError::MissingPhysicalName(logical_name)),
    }
}

/// The names of all columns of a schema.
pub fn read_schema_mapping(schema: &Json) -> (mappings: Result<TextMap<FieldMapping>, LabError>)
    ensures
        mappings matches Ok(found) ==> schema_mapping(schema@) == Ok::<
            Map<Seq<char>, FieldMappingView>,
            ErrorView,
        >(mapping_views(found@)),
        mappings matches Err(error) ==> schema_mapping(schema@) == Err::<
            Map<Seq<char>, FieldMappingView>,
            ErrorView,
        >(error@),
{
    let items = match schema.get("fields") {
        Some(fields) => fields.as_array(),
        None => None,
    };
    let fields = match items {
        Some(fields) => fields,
        None => {
            return Err(LabError::MissingSchemaFields);
        },
    };
    let ghost all = views(fields@);
    let mut mappings: TextMap<FieldMapping> = TextMap::new();
    let mut i: usize = 0;
    assert(all.take(0) =~= Seq::empty());
    assert(mapping_views(mappings@) =~= Map::empty());
    while i < fields.len()
        invariant
            all == views(fields@),
            schema_mapping(schema@) == fields_mapping(all),
            i <= fields@.len(),
            fields_mapping(all.take(i as int)) == Ok::<Map<Seq<char>, FieldMappingView>, ErrorView>(
                mapping_views(mappings@),
            ),
        decreases fields@.len() - i,
    {
        proof {
            assert(all[i as int] == fields@[i as int]@);
            assert(all.take(i + 1).drop_last() =~= all.take(i as int));
            assert(all.take(i + 1).last() == all[i as int]);
            if fields_mapping(all.take(i + 1)) is Err {
                nameless_field_stays(all, i + 1);
            }
        }
        match read_field_mapping(&fields[i]) {
            Err(error) => {
                return Err(error);
            },
            Ok(mapping) => {
                let ghost before = mappings@;
                let name = mapping.logical_name.clone();
                mappings = mappings.with(name, mapping);
                assert(mapping_views(mappings@) =~= mapping_views(before).insert(
                    mapping@.logical_name,
                    mapping@,
                ));
            },
        }
        i += 1;
    }
    assert(all.take(all.len() as int) =~= all);
    Ok(mappings)
}

/// The names of all columns of the schema in the metadata of a table.
pub fn read_metadata_mapping(metadata: &Json) -> (mappings: Result<TextMap<FieldMapping>, LabError>)
    ensures
        mappings matches Ok(found) ==> metadata_mapping(metadata@) == Ok::<
            Map<Seq<char>, FieldMappingView>,
            ErrorView,
        >(mapping_views(found@)),
        mappings matches Err(error) ==> metadata_mapping(metadata@) == Err::<
            Map<Seq<char>, FieldMappingView>,
            ErrorView,
        >(error@),
{
    let text = match metadata.get("schemaString") {
        Some(text) => text.as_str(),
        None => None,
    };
    let schema_string = match text {
        Some(text) => text,
        None => {
            return Err(LabError::MissingSchemaString);
        },
    };
    match parse_json(schema_string) {
        Err(failure) => Err(LabError::Json(failure)),
        Ok(schema) => read_schema_mapping(&schema),
    }
}

/// The names of all columns of a table, by the last of its logs that holds metadata.
pub fn latest_schema_mapping(logs: &Vec<LogFile>, table_path: &str) -> (mappings: Result<
    TextMap<FieldMapping>,
    LabError,
>)
    requires
        file_names_differ(log_views(logs@)),
    ensures
        mappings matches Ok(found) ==> table_mapping(log_views(logs@), table_path@) == Ok::<
            Map<Seq<char>, FieldMappingView>,
            ErrorView,
        >(mapping_views(found@)),
        mappings matches Err(error) ==> table_mapping(log_views(logs@), table_path@) == Err::<
            Map<Seq<char>, FieldMappingView>,
            ErrorView,
        >(error@),
{
    match latest_metadata_action(logs, table_path) {
        Err(error) => Err(error),
        Ok(metadata) => read_metadata_mapping(&metadata),
    }
}

/// The first failure of a check that is made of one name after another.
pub open spec fn first_failure(names: Seq<Seq<char>>, check: spec_fn(Seq<char>) -> Option<ErrorView>) -> Option<
    ErrorView,
>
    decreases names.len(),
{
    if names.len() == 0 {
        None
    } else {
        match check(names[0]) {
            Some(error) => Some(error),
            None => first_failure(names.drop_first(), check),
        }
    }
}

/// A column of a table that was made with column mapping has a physical name apart from its own.
pub open spec fn fresh_failure(mappings: Map<Seq<char>, FieldMappingView>, name: Seq<char>) -> Option<ErrorView> {
    if !mappings.contains_key(name) {
        Some(ErrorView::MissingSchemaField(name))
    } else if mappings[name].physical_name == mappings[name].logical_name {
        Some(ErrorView::Violated(ViolationView::FreshNameNotDistinct(name)))
    } else {
        None
    }
}

/// A column that a table had before it got column mapping keeps its own name as its physical name.
pub open spec fn existing_failure(mappings: Map<Seq<char>, FieldMappingView>, name: Seq<char>) -> Option<ErrorView> {
    if !mappings.contains_key(name) {
        Some(ErrorView::MissingSchemaField(name))
    } else if mappings[name].physical_name != mappings[name].logical_name {
        Some(ErrorView::Violated(ViolationView::ExistingNameChanged(name)))
    } else {
        None
    }
}

/// A column that was added to a table with column mapping has a physical name apart from its own,
/// which begins with `col-`.
pub open spec fn evolved_failure(mappings: Map<Seq<char>, FieldMappingView>, name: Seq<char>) -> Option<ErrorView> {
    if !mappings.contains_key(name) {
        Some(ErrorView::MissingEvolvedSchemaField(name))
    } else if mappings[name].physical_name == mappings[name].logical_name {
        Some(ErrorView::Violated(ViolationView::EvolvedNameNotDistinct(name)))
    } else if !"col-"@.is_prefix_of(mappings[name].physical_name) {
        Some(
            ErrorView::Violated(
                ViolationView::EvolvedNameWithoutPrefix {
                    field: name,
                    physical_name: mappings[name].physical_name,
                },
            ),
        )
    } else {
        None
    }
}

/// How the schema of a table that was made with column mapping falls short, if it does.
pub open spec fn fresh_schema_failure(mappings: Map<Seq<char>, FieldMappingView>) -> Option<ErrorView> {
    first_failure(column_names(true), |name: Seq<char>| fresh_failure(mappings, name))
}

/// How the schema of a table that got column mapping and then new columns falls short, if it does.
pub open spec fn evolved_schema_failure(mappings: Map<Seq<char>, FieldMappingView>) -> Option<ErrorView> {
    match first_failure(column_names(false), |name: Seq<char>| existing_failure(mappings, name)) {
        Some(error) => Some(error),
        None => first_failure(evolved_names(), |name: Seq<char>| evolved_failure(mappings, name)),
    }
}

/// Which of the three checks to make of a column.
#[derive(Clone, Copy)]
enum Check {
    Fresh,
    Existing,
    Evolved,
}

spec fn check_failure(check: Check, mappings: Map<Seq<char>, FieldMappingView>) -> spec_fn(Seq<char>) -> Option<
    ErrorView,
> {
    match check {
        Check::Fresh => |name: Seq<char>| fresh_failure(mappings, name),
        Check::Existing => |name: Seq<char>| existing_failure(mappings, name),
        Check::Evolved => |name: Seq<char>| evolved_failure(mappings, name),
    }
}

/// Makes a check of one column.
fn check_name(check: Check, mappings: &TextMap<FieldMapping>, name: &str) -> (outcome: Result<(), LabError>)
    ensures
        failure(outcome) == check_failure(check, mapping_views(mappings@))(name@),
{
    match mappings.get(name) {
        None => match check {
            Check::Evolved => Err(LabError::MissingEvolvedSchemaField(name.to_owned())),
            _ => Err(LabError::MissingSchemaField(name.to_owned())),
        },
        Some(mapping) => {
            let same = same_text(mapping.physical_name.as_str(), mapping.logical_name.as_str());
            match check {
                Check::Fresh => if same {
                    Err(LabError::Violated(Violation::FreshNameNotDistinct(name.to_owned())))
                } else {
                    Ok(())
                },
                Check::Existing => if !same {
                    Err(LabError::Violated(Violation::ExistingNameChanged(name.to_owned())))
                } else {
                    Ok(())
                },
                Check::Evolved => if same {
                    Err(LabError::Violated(Violation::EvolvedNameNotDistinct(name.to_owned())))
                } else if !starts_with(mapping.physical_name.as_str(), "col-") {
                    Err(
                        LabError::Violated(
                            Violation::EvolvedNameWithoutPrefix {
                                field: name.to_owned(),
                                physical_name: mapping.physical_name.clone(),
                            },
                        ),
                    )
                } else {
                    Ok(())
                },
            }
        },
    }
}

/// Makes a check of one column after another, from a place in the list of their names to another.
fn check_names(
    check: Check,
    mappings: &TextMap<FieldMapping>,
    names: &Vec<&'static str>,
    from: usize,
    to: usize,
) -> (outcome: Result<(), LabError>)
    requires
        from <= to <= names@.len(),
    ensures
        failure(outcome) == first_failure(
            literals(names@).subrange(from as int, to as int),
            check_failure(check, mapping_views(mappings@)),
        ),
{
    let ghost all = literals(names@).subrange(from as int, to as int);
    let ghost test = check_failure(check, mapping_views(mappings@));
    let mut i: usize = from;
    assert(all.skip(0) =~= all);
    while i < to
        invariant
            from <= i <= to <= names@.len(),
            all == literals(names@).subrange(from as int, to as int),
            test == check_failure(check, mapping_views(mappings@)),
            first_failure(all, test) == first_failure(all.skip(i - from), test),
        decreases to - i,
    {
        proof {
            let rest = all.skip(i - from);
            assert(rest[0] == names@[i as int]@);
            assert(rest.drop_first() =~= all.skip(i + 1 - from));
        }
        match check_name(check, mappings, names[i]) {
            Err(error) => {
                return Err(error);
            },
            Ok(_) => {},
        }
        i += 1;
    }
    Ok(())
}

/// Checks the names of the columns of a table that was made with column mapping.
pub fn check_fresh_mapping(mappings: &TextMap<FieldMapping>) -> (outcome: Result<(), LabError>)
    ensures
        failure(outcome) == fresh_schema_failure(mapping_views(mappings@)),
{
    let names = columns(true);
    assert(literals(names@).subrange(0, names@.len() as int) =~= column_names(true));
    check_names(Check::Fresh, mappings, &names, 0, names.len())
}

/// Checks the names of the columns of a table that got column mapping and then new columns.
pub fn check_evolved_mapping(mappings: &TextMap<FieldMapping>) -> (outcome: Result<(), LabError>)
    ensures
        failure(outcome) == evolved_schema_failure(mapping_views(mappings@)),
{
    let names = columns(true);
    let existing = columns(false).len();
    proof {
        assert(column_names(false) =~= column_names(true).subrange(0, existing as int));
        assert(evolved_names() =~= column_names(true).subrange(existing as int, names@.len() as int));
    }
    match check_names(Check::Existing, mappings, &names, 0, existing) {
        Err(error) => Err(error),
        Ok(_) => check_names(Check::Evolved, mappings, &names, existing, names.len()),
    }
}

/// Checks the names of the columns of a table that was made with column mapping, by its logs.
pub fn assert_fresh_column_mapping_schema(logs: &Vec<LogFile>, table_path: &str) -> (outcome: Result<(), LabError>)
    requires
        file_names_differ(log_views(logs@)),
    ensures
        failure(outcome) == (match table_mapping(log_views(logs@), table_path@) {
            Err(error) => Some(error),
            Ok(mappings) => fresh_schema_failure(mappings),
        }),
{
    match latest_schema_mapping(logs, table_path) {
        Err(error) => Err(error),
        Ok(mappings) => check_fresh_mapping(&mappings),
    }
}

/// Checks the names of the columns of a table that got column mapping and then new columns, by its
/// logs.
pub fn assert_evolved_column_mapping_schema(logs: &Vec<LogFile>, table_path: &str) -> (outcome: Result<(), LabError>)
    requires
        file_names_differ(log_views(logs@)),
    ensures
        failure(outcome) == (match table_mapping(log_views(logs@), table_path@) {
            Err(error) => Some(error),
            Ok(mappings) => evolved_schema_failure(mappings),
        }),
{
    match latest_schema_mapping(logs, table_path) {
        Err(error) => Err(error),
        Ok(mappings) => check_evolved_mapping(&mappings),
    }
}

/// A check made of one name after another finds nothing exactly if it finds nothing of any name.
pub proof fn no_failure_at_all(names: Seq<Seq<char>>, check: spec_fn(Seq<char>) -> Option<ErrorView>)
    ensures
        first_failure(names, check) is None <==> forall|i: int| 0 <= i < names.len() ==> check(#[trigger] names[i]) is None,
    decreases names.len(),
{
    if names.len() > 0 {
        let rest = names.drop_first();
        no_failure_at_all(rest, check);
        if first_failure(names, check) is None {
            assert forall|i: int| 0 <= i < names.len() implies check(#[trigger] names[i]) is None by {
                if i > 0 {
                    assert(rest[i - 1] == names[i]);
                }
            }
        } else if forall|i: int| 0 <= i < names.len() ==> check(#[trigger] names[i]) is None {
            assert(check(names[0]) is None);
            assert forall|i: int| 0 <= i < rest.len() implies check(#[trigger] rest[i]) is None by {
                assert(rest[i] == names[i + 1]);
            }
        }
    }
}

/// No table has both the names of one that was made with column mapping and the names of one that
/// got it later.
pub proof fn fresh_is_not_evolved(mappings: Map<Seq<char>, FieldMappingView>)
    ensures
        !(fresh_schema_failure(mappings) is None && evolved_schema_failure(mappings) is None),
{
    no_failure_at_all(column_names(true), |name: Seq<char>| fresh_failure(mappings, name));
    no_failure_at_all(column_names(false), |name: Seq<char>| existing_failure(mappings, name));
    if fresh_schema_failure(mappings) is None && evolved_schema_failure(mappings) is None {
        let name = column_names(true)[0];
        assert(column_names(false)[0] == name);
        assert((|name: Seq<char>| fresh_failure(mappings, name))(name) is None);
        assert((|name: Seq<char>| existing_failure(mappings, name))(name) is None);
    }
}

/// Every column says its physical name.
pub open spec fn physical_names_given(fields: Seq<TableFieldView>) -> bool {
    forall|i: int| 0 <= i < fields.len() ==> physical_name_given((#[trigger] fields[i])) is Some
}

/// The physical name that a column says it has.
pub open spec fn physical_name_given(field: TableFieldView) -> Option<Seq<char>> {
    let key = mapping_key_text(MappingKey::PhysicalName);
    if field.metadata.contains_key(key) {
        match field.metadata[key] {
            FieldMetadataView::Text(name) => Some(name),
            _ => None,
        }
    } else {
        None
    }
}

proof fn written_field_is_read(field: TableFieldView)
    requires
        physical_name_given(field) is Some,
    ensures
        field_mapping(field_json(field)) == Ok::<FieldMappingView, ErrorView>(
            FieldMappingView { logical_name: field.name, physical_name: physical_name_given(field)->0 },
        ),
{
    reveal_strlit("name");
    reveal_strlit("type");
    reveal_strlit("nullable");
    reveal_strlit("metadata");
    assert("name"@.len() == 4 && "type"@.len() == 4 && "nullable"@.len() == 8 && "metadata"@.len() == 8);
    assert("name"@[0] != "type"@[0]);
    assert("nullable"@[0] != "metadata"@[0]);
}

proof fn written_fields_are_read(fields: Seq<TableFieldView>)
    requires
        names_differ(fields),
        physical_names_given(fields),
    ensures
        ({
            let read = fields_mapping(fields.map_values(|field: TableFieldView| field_json(field)));
            &&& read matches Ok(mappings) && forall|name: Seq<char>| #[trigger]
                mappings.contains_key(name) <==> exists|i: int| 0 <= i < fields.len() && (#[trigger] fields[i]).name == name
            &&& read matches Ok(mappings) && forall|i: int|
                0 <= i < fields.len() ==> mappings[(#[trigger] fields[i]).name] == (FieldMappingView {
                    logical_name: fields[i].name,
                    physical_name: physical_name_given(fields[i])->0,
                })
        }),
    decreases fields.len(),
{
    let all = fields.map_values(|field: TableFieldView| field_json(field));
    if fields.len() > 0 {
        let front = fields.drop_last();
        assert forall|i: int, j: int| 0 <= i < j < front.len() implies (#[trigger] front[i]).name != (
        #[trigger] front[j]).name by {
            assert(front[i] == fields[i] && front[j] == fields[j]);
        }
        assert forall|i: int| 0 <= i < front.len() implies physical_name_given((#[trigger] front[i])) is Some by {
            assert(front[i] == fields[i]);
        }
        written_fields_are_read(front);
        written_field_is_read(fields.last());
        assert(all.drop_last() =~= front.map_values(|field: TableFieldView| field_json(field)));
        let mappings = fields_mapping(all)->Ok_0;
        let earlier = fields_mapping(all.drop_last())->Ok_0;
        assert(fields[fields.len() - 1] == fields.last());
        assert forall|name: Seq<char>| #[trigger]
            mappings.contains_key(name) <==> exists|i: int| 0 <= i < fields.len() && (#[trigger] fields[i]).name == name by {
            if earlier.contains_key(name) {
                let i = choose|i: int| 0 <= i < front.len() && (#[trigger] front[i]).name == name;
                assert(fields[i].name == name);
            }
            if exists|i: int| 0 <= i < fields.len() && (#[trigger] fields[i]).name == name {
                let i = choose|i: int| 0 <= i < fields.len() && (#[trigger] fields[i]).name == name;
                if i < front.len() {
                    assert(front[i].name == name);
                }
            }
        }
        assert forall|i: int| 0 <= i < fields.len() implies mappings[(#[trigger] fields[i]).name] == (FieldMappingView {
            logical_name: fields[i].name,
            physical_name: physical_name_given(fields[i])->0,
        }) by {
            if i < front.len() {
                assert(front[i] == fields[i]);
                assert(fields[i].name != fields[fields.len() - 1].name);
            }
        }
    }
}

/// A schema that is written of columns with physical names reads back as those columns, each with
/// the physical name it was given.
pub proof fn written_schema_is_read(fields: Seq<TableFieldView>)
    requires
        names_differ(fields),
        physical_names_given(fields),
    ensures
        schema_mapping(schema_json(fields)) matches Ok(mappings) && forall|name: Seq<char>| #[trigger]
            mappings.contains_key(name) <==> exists|i: int| 0 <= i < fields.len() && (#[trigger] fields[i]).name == name,
        schema_mapping(schema_json(fields)) matches Ok(mappings) && forall|i: int|
            0 <= i < fields.len() ==> mappings[(#[trigger] fields[i]).name] == (FieldMappingView {
                logical_name: fields[i].name,
                physical_name: physical_name_given(fields[i])->0,
            }),
{
    reveal_strlit("type");
    reveal_strlit("fields");
    assert("type"@.len() != "fields"@.len());
    written_fields_are_read(fields);
}

/// The columns of a table with column mapping say their physical names.
pub proof fn mapped_columns_give_names(include_evolved_columns: bool, keep_existing_physical_names: bool)
    ensures
        physical_names_given(table_columns(true, include_evolved_columns, keep_existing_physical_names)),
{
    let fields = table_columns(true, include_evolved_columns, keep_existing_physical_names);
    assert forall|i: int| 0 <= i < fields.len() implies physical_name_given((#[trigger] fields[i])) is Some by {
        columns_are_mapped(true, include_evolved_columns, keep_existing_physical_names, i);
    }
}

/// The schema that a table is made with, with column mapping from the start, passes the check for
/// such tables.
pub proof fn fresh_schema_passes()
    ensures
        schema_mapping(schema_json(table_columns(true, true, false))) matches Ok(mappings) && fresh_schema_failure(
            mappings,
        ) is None,
{
    let fields = table_columns(true, true, false);
    columns_make_a_schema(true, true, false);
    mapped_columns_give_names(true, false);
    written_schema_is_read(fields);
    let mappings = schema_mapping(schema_json(fields))->Ok_0;
    let check = |name: Seq<char>| fresh_failure(mappings, name);
    let names = column_names(true);
    assert forall|i: int| 0 <= i < names.len() implies check(#[trigger] names[i]) is None by {
        columns_are_mapped(true, true, false, i);
        assert(fields[i].name == names[i]);
        assert(mappings.contains_key(names[i]));
    }
    no_failure_at_all(names, check);
}

/// The schema that switches column mapping on for a table keeps the name of every column the table
/// has: it passes that part of the check, and only the columns that are still to be added are missing.
pub proof fn activation_schema_keeps_names()
    ensures
        schema_mapping(schema_json(table_columns(true, false, true))) matches Ok(mappings) && first_failure(
            column_names(false),
            |name: Seq<char>| existing_failure(mappings, name),
        ) is None,
        schema_mapping(schema_json(table_columns(true, false, true))) matches Ok(mappings) && evolved_schema_failure(
            mappings,
        ) == Some(ErrorView::MissingEvolvedSchemaField(evolved_names()[0])),
{
    let fields = table_columns(true, false, true);
    columns_make_a_schema(true, false, true);
    mapped_columns_give_names(false, true);
    written_schema_is_read(fields);
    let mappings = schema_mapping(schema_json(fields))->Ok_0;
    let check = |name: Seq<char>| existing_failure(mappings, name);
    let names = column_names(false);
    assert forall|i: int| 0 <= i < names.len() implies check(#[trigger] names[i]) is None by {
        columns_are_mapped(true, false, true, i);
        assert(fields[i].name == names[i]);
        assert(mappings.contains_key(names[i]));
    }
    no_failure_at_all(names, check);
    let added = evolved_names()[0];
    assert(evolved_names().len() == 2);
    assert(!mappings.contains_key(added)) by {
        let evolved = table_columns(true, true, true);
        columns_make_a_schema(true, true, true);
        assert(evolved[7].name == added);
        assert forall|i: int| 0 <= i < fields.len() implies (#[trigger] fields[i]).name != added by {
            assert(evolved[i].name == fields[i].name);
            assert(evolved[i].name != evolved[7].name);
        }
    }
}

/// The columns of a table that got column mapping later, once the new columns were added to it: those
/// it had keep their names, and the new ones have physical names that begin with `col-`.
pub open spec fn evolved_columns(fields: Seq<TableFieldView>) -> bool {
    let kept = table_columns(true, false, true);
    &&& fields.len() == kept.len() + evolved_names().len()
    &&& kept.is_prefix_of(fields)
    &&& forall|i: int|
        0 <= i < evolved_names().len() ==> {
            &&& (#[trigger] fields[kept.len() + i]).name == evolved_names()[i]
            &&& physical_name_given(fields[kept.len() + i]) matches Some(name) && "col-"@.is_prefix_of(name)
        }
}

/// The schema of a table that got column mapping later passes the check for such tables once the new
/// columns were added with physical names of their own.
pub proof fn evolved_schema_passes(fields: Seq<TableFieldView>)
    requires
        evolved_columns(fields),
    ensures
        schema_mapping(schema_json(fields)) matches Ok(mappings) && evolved_schema_failure(mappings) is None,
{
    let kept = table_columns(true, false, true);
    let (old_names, new_names) = (column_names(false), evolved_names());
    assert forall|i: int| 0 <= i < kept.len() implies #[trigger] fields[i] == kept[i] by {
        assert(fields.subrange(0, kept.len() as int)[i] == kept[i]);
    }
    assert(kept.len() == 7 && new_names.len() == 2);
    assert(fields[kept.len() + 0int].name == new_names[0] && fields[kept.len() + 1int].name == new_names[1]);
    let named = table_columns(true, true, true);
    columns_make_a_schema(true, true, true);
    assert forall|i: int| 0 <= i < fields.len() implies (#[trigger] fields[i]).name == named[i].name by {
        if i < kept.len() {
            assert(fields[i] == kept[i]);
        }
    }
    assert forall|i: int, j: int| 0 <= i < j < fields.len() implies (#[trigger] fields[i]).name != (
    #[trigger] fields[j]).name by {
        assert(named[i].name != named[j].name);
    }
    mapped_columns_give_names(false, true);
    assert forall|i: int| 0 <= i < fields.len() implies physical_name_given((#[trigger] fields[i])) is Some by {
        if i < kept.len() {
            assert(fields[i] == kept[i]);
        } else {
            assert(fields[i] == fields[kept.len() + (i - kept.len())]);
        }
    }
    written_schema_is_read(fields);
    let mappings = schema_mapping(schema_json(fields))->Ok_0;
    let existing = |name: Seq<char>| existing_failure(mappings, name);
    assert forall|i: int| 0 <= i < old_names.len() implies existing(#[trigger] old_names[i]) is None by {
        columns_are_mapped(true, false, true, i);
        assert(fields[i] == kept[i] && kept[i].name == old_names[i]);
        assert(mappings.contains_key(old_names[i]));
    }
    no_failure_at_all(old_names, existing);
    let evolved = |name: Seq<char>| evolved_failure(mappings, name);
    reveal_strlit("col-");
    reveal_strlit("event_category");
    reveal_strlit("source_system");
    assert forall|i: int| 0 <= i < new_names.len() implies evolved(#[trigger] new_names[i]) is None by {
        let field = fields[kept.len() + i];
        assert(mappings.contains_key(field.name));
        let name = physical_name_given(field)->0;
        assert(name[0] == "col-"@[0]);
        assert(name != field.name);
    }
    no_failure_at_all(new_names, evolved);
}

/// A field of a schema gives two names exactly if it has a name, and in its metadata a physical name.
pub proof fn field_gives_its_two_names(field: JsonView, mapping: FieldMappingView)
    ensures
        field_mapping(field) == Ok::<FieldMappingView, ErrorView>(mapping) <==> {
            &&& member(field, "name"@) == Some(JsonView::Text(mapping.logical_name))
            &&& member(field, "metadata"@) is Some
            &&& member(field, "metadata"@)->0 is Object
            &&& member(member(field, "metadata"@)->0, "delta.columnMapping.physicalName"@) == Some(
                JsonView::Text(mapping.physical_name),
            )
        },
{
}

/// What is missing in a field that does not give two names: its name, then its metadata, then its
/// physical name.
pub proof fn missing_part_of_a_field_is_reported(field: JsonView, name: Seq<char>)
    ensures
        !(member(field, "name"@) is Some && member(field, "name"@)->0 is Text) ==> field_mapping(field) == Err::<
            FieldMappingView,
            ErrorView,
        >(ErrorView::MissingFieldName),
        member(field, "name"@) == Some(JsonView::Text(name)) && !(member(field, "metadata"@) is Some && member(
            field,
            "metadata"@,
        )->0 is Object) ==> field_mapping(field) == Err::<FieldMappingView, ErrorView>(
            ErrorView::MissingFieldMetadata(name),
        ),
        member(field, "name"@) == Some(JsonView::Text(name)) && member(field, "metadata"@) is Some && member(
            field,
            "metadata"@,
        )->0 is Object && !({
            let physical = member(member(field, "metadata"@)->0, "delta.columnMapping.physicalName"@);
            physical is Some && physical->0 is Text
        }) ==> field_mapping(field) == Err::<FieldMappingView, ErrorView>(ErrorView::MissingPhysicalName(name)),
{
}

/// Fields that all give two names give names to exactly the columns that they name.
pub proof fn fields_name_their_columns(fields: Seq<JsonView>, name: Seq<char>)
    requires
        forall|i: int| 0 <= i < fields.len() ==> field_mapping(#[trigger] fields[i]) is Ok,
    ensures
        fields_mapping(fields) is Ok,
        fields_mapping(fields)->Ok_0.contains_key(name) <==> exists|i: int|
            0 <= i < fields.len() && field_mapping(#[trigger] fields[i])->Ok_0.logical_name == name,
    decreases fields.len(),
{
    if fields.len() > 0 {
        let front = fields.drop_last();
        let last = fields.len() - 1;
        assert forall|i: int| 0 <= i < front.len() implies field_mapping(#[trigger] front[i]) is Ok by {
            assert(front[i] == fields[i]);
        }
        fields_name_their_columns(front, name);
        assert(field_mapping(fields[last]) is Ok);
        if fields_mapping(front)->Ok_0.contains_key(name) {
            let i = choose|i: int|
                0 <= i < front.len() && field_mapping(#[trigger] front[i])->Ok_0.logical_name == name;
            assert(fields[i] == front[i]);
        }
        if exists|i: int| 0 <= i < fields.len() && field_mapping(#[trigger] fields[i])->Ok_0.logical_name == name {
            let i = choose|i: int|
                0 <= i < fields.len() && field_mapping(#[trigger] fields[i])->Ok_0.logical_name == name;
            if i < last {
                assert(front[i] == fields[i]);
            }
        }
    }
}

/// Of the fields that name a column, the last gives it its names.
pub proof fn last_field_of_a_name_counts(fields: Seq<JsonView>, at: int)
    requires
        0 <= at < fields.len(),
        forall|i: int| 0 <= i < fields.len() ==> field_mapping(#[trigger] fields[i]) is Ok,
        forall|i: int|
            at < i < fields.len() ==> field_mapping(#[trigger] fields[i])->Ok_0.logical_name != field_mapping(
                fields[at],
            )->Ok_0.logical_name,
    ensures
        fields_mapping(fields) is Ok,
        fields_mapping(fields)->Ok_0[field_mapping(fields[at])->Ok_0.logical_name] == field_mapping(fields[at])->Ok_0,
    decreases fields.len(),
{
    let last = fields.len() - 1;
    let name = field_mapping(fields[at])->Ok_0.logical_name;
    fields_name_their_columns(fields, name);
    if at < last {
        let front = fields.drop_last();
        assert(front[at] == fields[at]);
        assert forall|i: int| 0 <= i < front.len() implies field_mapping(#[trigger] front[i]) is Ok by {
            assert(front[i] == fields[i]);
        }
        assert forall|i: int| at < i < front.len() implies field_mapping(#[trigger] front[i])->Ok_0.logical_name
            != name by {
            assert(front[i] == fields[i]);
        }
        last_field_of_a_name_counts(front, at);
        assert(field_mapping(fields[last])->Ok_0.logical_name != name);
    }
}

/// The first field that does not give two names decides the error.
pub proof fn first_nameless_field_is_reported(fields: Seq<JsonView>, at: int)
    requires
        0 <= at < fields.len(),
        forall|i: int| 0 <= i < at ==> field_mapping(#[trigger] fields[i]) is Ok,
        field_mapping(fields[at]) is Err,
    ensures
        fields_mapping(fields) == Err::<Map<Seq<char>, FieldMappingView>, ErrorView>(field_mapping(fields[at])->Err_0),
{
    let read = fields.take(at);
    assert forall|i: int| 0 <= i < read.len() implies field_mapping(#[trigger] read[i]) is Ok by {
        assert(read[i] == fields[i]);
    }
    fields_name_their_columns(read, Seq::empty());
    let more = fields.take(at + 1);
    assert(more.drop_last() =~= read);
    assert(more.last() == fields[at]);
    nameless_field_stays(fields, at + 1);
}

/// The names of the columns of a table are those of the fields that are listed in the schema that its
/// latest metadata holds as text. What is missing on the way is reported.
pub proof fn names_come_from_the_latest_schema(
    logs: Seq<crate::log::LogFileView>,
    table_path: Seq<char>,
    metadata: JsonView,
    schema: JsonView,
    text: Seq<char>,
)
    ensures
        latest_metadata(logs, table_path) == Ok::<JsonView, ErrorView>(metadata) ==> table_mapping(logs, table_path)
            == metadata_mapping(metadata),
        latest_metadata(logs, table_path) is Err ==> table_mapping(logs, table_path) == Err::<
            Map<Seq<char>, FieldMappingView>,
            ErrorView,
        >(latest_metadata(logs, table_path)->Err_0),
        !(member(metadata, "schemaString"@) is Some && member(metadata, "schemaString"@)->0 is Text)
            ==> metadata_mapping(metadata) == Err::<Map<Seq<char>, FieldMappingView>, ErrorView>(
            ErrorView::MissingSchemaString,
        ),
        member(metadata, "schemaString"@) == Some(JsonView::Text(text)) && json_value(text) is None
            ==> metadata_mapping(metadata) == Err::<Map<Seq<char>, FieldMappingView>, ErrorView>(
            ErrorView::Json(json_error(text)),
        ),
        member(metadata, "schemaString"@) == Some(JsonView::Text(text)) && json_value(text) == Some(schema)
            ==> metadata_mapping(metadata) == schema_mapping(schema),
        !(member(schema, "fields"@) is Some && member(schema, "fields"@)->0 is List) ==> schema_mapping(schema)
            == Err::<Map<Seq<char>, FieldMappingView>, ErrorView>(ErrorView::MissingSchemaFields),
        member(schema, "fields"@) is Some && member(schema, "fields"@)->0 is List ==> schema_mapping(schema)
            == fields_mapping(member(schema, "fields"@)->0->List_0),
{
}

/// What pairs of names and maps to them stand for: each name for itself.
pub proof fn mappings_stand_for_themselves(
    mapping: FieldMapping,
    mappings: Map<Seq<char>, FieldMapping>,
    name: Seq<char>,
)
    ensures
        mapping@.logical_name == mapping.logical_name@,
        mapping@.physical_name == mapping.physical_name@,
        mapping_views(mappings).contains_key(name) <==> mappings.contains_key(name),
        mappings.contains_key(name) ==> mapping_views(mappings)[name] == mappings[name]@,
{
}

/// The first of some names that fails a check decides its outcome.
pub proof fn first_failing_name_decides(
    names: Seq<Seq<char>>,
    check: spec_fn(Seq<char>) -> Option<ErrorView>,
    at: int,
)
    requires
        0 <= at < names.len(),
        forall|i: int| 0 <= i < at ==> check(#[trigger] names[i]) is None,
        check(names[at]) is Some,
    ensures
        first_failure(names, check) == check(names[at]),
    decreases at,
{
    if at > 0 {
        let rest = names.drop_first();
        assert(check(names[0]) is None);
        assert forall|i: int| 0 <= i < at - 1 implies check(#[trigger] rest[i]) is None by {
            assert(rest[i] == names[i + 1]);
        }
        first_failing_name_decides(rest, check, at - 1);
    }
}

/// A table that was made with column mapping passes its check exactly if each of the nine columns is
/// there and has a physical name that is not its own.
pub proof fn fresh_tables_have_names_apart(mappings: Map<Seq<char>, FieldMappingView>)
    ensures
        fresh_schema_failure(mappings) is None <==> forall|name: Seq<char>|
            (name == "event_id"@ || name == "customer_name"@ || name == "amount"@ || name == "partition_date"@ || name
                == "partition_year"@ || name == "partition_month"@ || name == "partition_day"@ || name
                == "event_category"@ || name == "source_system"@) ==> #[trigger] mappings.contains_key(name)
                && mappings[name].physical_name != mappings[name].logical_name,
{
    let names = seq![
        "event_id"@,
        "customer_name"@,
        "amount"@,
        "partition_date"@,
        "partition_year"@,
        "partition_month"@,
        "partition_day"@,
        "event_category"@,
        "source_system"@,
    ];
    let check = |name: Seq<char>| fresh_failure(mappings, name);
    assert(column_names(true) =~= names);
    no_failure_at_all(names, check);
    if fresh_schema_failure(mappings) is None {
        assert(check(names[0]) is None && check(names[1]) is None && check(names[2]) is None && check(names[3]) is None
            && check(names[4]) is None && check(names[5]) is None && check(names[6]) is None && check(names[7]) is None
            && check(names[8]) is None);
    } else {
        let at = choose|at: int| 0 <= at < names.len() && check(#[trigger] names[at]) is Some;
        assert(check(names[at]) is Some);
        assert(!(mappings.contains_key(names[at]) && mappings[names[at]].physical_name
            != mappings[names[at]].logical_name));
    }
}

/// A table that got column mapping later passes its check exactly if each of the seven columns it had
/// is there under its own name, and each of the two new ones under a name apart that begins with
/// `col-`.
pub proof fn evolved_tables_keep_names(mappings: Map<Seq<char>, FieldMappingView>)
    ensures
        evolved_schema_failure(mappings) is None <==> {
            &&& forall|name: Seq<char>|
                (name == "event_id"@ || name == "customer_name"@ || name == "amount"@ || name == "partition_date"@ || name
                    == "partition_year"@ || name == "partition_month"@ || name == "partition_day"@)
                    ==> #[trigger] mappings.contains_key(name) && mappings[name].physical_name
                    == mappings[name].logical_name
            &&& forall|name: Seq<char>|
                (name == "event_category"@ || name == "source_system"@) ==> {
                    &&& #[trigger] mappings.contains_key(name)
                    &&& mappings[name].physical_name != mappings[name].logical_name
                    &&& seq!['c', 'o', 'l', '-'].is_prefix_of(mappings[name].physical_name)
                }
        },
{
    let old_names = seq![
        "event_id"@,
        "customer_name"@,
        "amount"@,
        "partition_date"@,
        "partition_year"@,
        "partition_month"@,
        "partition_day"@,
    ];
    let new_names = seq!["event_category"@, "source_system"@];
    reveal_strlit("col-");
    assert("col-"@ =~= seq!['c', 'o', 'l', '-']);
    assert(column_names(false) =~= old_names);
    assert(evolved_names() =~= new_names);
    let existing = |name: Seq<char>| existing_failure(mappings, name);
    let evolved = |name: Seq<char>| evolved_failure(mappings, name);
    no_failure_at_all(old_names, existing);
    no_failure_at_all(new_names, evolved);
    if evolved_schema_failure(mappings) is None {
        assert(existing(old_names[0]) is None && existing(old_names[1]) is None && existing(old_names[2]) is None
            && existing(old_names[3]) is None && existing(old_names[4]) is None && existing(old_names[5]) is None
            && existing(old_names[6]) is None);
        assert(evolved(new_names[0]) is None && evolved(new_names[1]) is None);
    } else if first_failure(old_names, existing) is Some {
        let at = choose|at: int| 0 <= at < old_names.len() && existing(#[trigger] old_names[at]) is Some;
        assert(existing(old_names[at]) is Some);
        assert(!(mappings.contains_key(old_names[at]) && mappings[old_names[at]].physical_name
            == mappings[old_names[at]].logical_name));
    } else {
        let at = choose|at: int| 0 <= at < new_names.len() && evolved(#[trigger] new_names[at]) is Some;
        assert(evolved(new_names[at]) is Some);
        assert(at == 0 || at == 1);
        assert(!(mappings.contains_key(new_names[at]) && mappings[new_names[at]].physical_name
            != mappings[new_names[at]].logical_name && "col-"@.is_prefix_of(mappings[new_names[at]].physical_name)));
    }
}

/// What is reported of a column in the checks: that it is missing, or else which of its names is not as
/// it has to be.
pub proof fn failing_column_is_reported(mappings: Map<Seq<char>, FieldMappingView>, name: Seq<char>)
    ensures
        !mappings.contains_key(name) ==> {
            &&& fresh_failure(mappings, name) == Some(ErrorView::MissingSchemaField(name))
            &&& existing_failure(mappings, name) == Some(ErrorView::MissingSchemaField(name))
            &&& evolved_failure(mappings, name) == Some(ErrorView::MissingEvolvedSchemaField(name))
        },
        mappings.contains_key(name) && mappings[name].physical_name == mappings[name].logical_name ==> {
            &&& fresh_failure(mappings, name) == Some(ErrorView::Violated(ViolationView::FreshNameNotDistinct(name)))
            &&& existing_failure(mappings, name) is None
            &&& evolved_failure(mappings, name) == Some(
                ErrorView::Violated(ViolationView::EvolvedNameNotDistinct(name)),
            )
        },
        mappings.contains_key(name) && mappings[name].physical_name != mappings[name].logical_name ==> {
            &&& fresh_failure(mappings, name) is None
            &&& existing_failure(mappings, name) == Some(ErrorView::Violated(ViolationView::ExistingNameChanged(name)))
            &&& !"col-"@.is_prefix_of(mappings[name].physical_name) ==> evolved_failure(mappings, name) == Some(
                ErrorView::Violated(
                    ViolationView::EvolvedNameWithoutPrefix {
                        field: name,
                        physical_name: mappings[name].physical_name,
                    },
                ),
            )
        },
{
}

/// The first column that fails, in the order of the columns, decides what is reported of a schema: of
/// one that was made with column mapping, and of one that got it later, whose new columns come last.
pub proof fn first_failing_column_is_reported(mappings: Map<Seq<char>, FieldMappingView>, at: int)
    ensures
        0 <= at < 9 && fresh_failure(mappings, column_names(true)[at]) is Some && (forall|i: int|
            0 <= i < at ==> fresh_failure(mappings, #[trigger] column_names(true)[i]) is None) ==> fresh_schema_failure(
            mappings,
        ) == fresh_failure(mappings, column_names(true)[at]),
        0 <= at < 7 && existing_failure(mappings, column_names(false)[at]) is Some && (forall|i: int|
            0 <= i < at ==> existing_failure(mappings, #[trigger] column_names(false)[i]) is None)
            ==> evolved_schema_failure(mappings) == existing_failure(mappings, column_names(false)[at]),
        0 <= at < 2 && evolved_failure(mappings, evolved_names()[at]) is Some && (forall|i: int|
            0 <= i < 7 ==> existing_failure(mappings, #[trigger] column_names(false)[i]) is None) && (forall|i: int|
            0 <= i < at ==> evolved_failure(mappings, #[trigger] evolved_names()[i]) is None)
            ==> evolved_schema_failure(mappings) == evolved_failure(mappings, evolved_names()[at]),
{
    let fresh = |name: Seq<char>| fresh_failure(mappings, name);
    let existing = |name: Seq<char>| existing_failure(mappings, name);
    let evolved = |name: Seq<char>| evolved_failure(mappings, name);
    let (all, old_names, new_names) = (column_names(true), column_names(false), evolved_names());
    assert(all.len() == 9 && old_names.len() == 7 && new_names.len() == 2);
    if 0 <= at < 9 && fresh(all[at]) is Some && (forall|i: int| 0 <= i < at ==> fresh(#[trigger] all[i]) is None) {
        first_failing_name_decides(all, fresh, at);
    }
    if 0 <= at < 7 && existing(old_names[at]) is Some && (forall|i: int|
        0 <= i < at ==> existing(#[trigger] old_names[i]) is None) {
        first_failing_name_decides(old_names, existing, at);
    }
    if 0 <= at < 2 && evolved(new_names[at]) is Some && (forall|i: int|
        0 <= i < 7 ==> existing(#[trigger] old_names[i]) is None) && (forall|i: int|
        0 <= i < at ==> evolved(#[trigger] new_names[i]) is None) {
        no_failure_at_all(old_names, existing);
        first_failing_name_decides(new_names, evolved, at);
    }
}

} // verus!
