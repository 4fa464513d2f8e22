//! Switching column mapping on for a table that was made without it.
use crate::error::LabError;
#[allow(unused_imports)]
use crate::error::ErrorView;
#[allow(unused_imports)]
use crate::json::{
    agrees, exact, exact_agrees_with_itself, json_text, json_value, member, members_agree, members_nest_less, nests,
    JsonView,
};
use crate::json::{render_json, value_of, Json, JsonFailure};
use crate::log::{log_file_name, next_log_version, read_metadata_action};
#[allow(unused_imports)]
use crate::log::{
    added_keys, byte_strings, is_latest_log, is_latest_metadata, keys_in, latest_log, latest_metadata,
    latest_metadata_is_unique, log_metadata, log_name, log_name_gives_version, log_names_ascend, logs_are_versioned,
    metadata_in, next_log_is_latest, next_version, LogFileView,
};
#[allow(unused_imports)]
use crate::mapping::{
    activation_schema_keeps_names, evolved_schema_failure, mapped_columns_give_names, schema_mapping, table_mapping,
    written_schema_is_read, FieldMappingView,
};
use crate::schema::{schema_string, table_fields};
#[allow(unused_imports)]
use crate::schema::{
    column_is_written_whole, column_names, columns_are_mapped, columns_make_a_schema, columns_say_how_they_are_mapped,
    evolved_names, field_json, schema_json, schema_lists_its_columns, table_columns, type_text,
};
#[allow(unused_imports)]
use crate::text::{bytes_before, bytes_before_transitive, lines, lines_of_joined};
use vstd::prelude::*;
use vstd::utf8::encode_utf8;

verus! {

/// The versions of the table format that column mapping needs.
pub open spec fn protocol_json() -> JsonView {
    JsonView::Object(
        Map::empty().insert("minReaderVersion"@, JsonView::Integer(2)).insert(
            "minWriterVersion"@,
            JsonView::Integer(5),
        ),
    )
}

/// The versions of the table format that column mapping needs.
pub fn column_mapping_versions() -> (versions: Json)
    ensures
        versions@ == protocol_json(),
{
    Json::object().with("minReaderVersion", Json::integer(2)).with("minWriterVersion", Json::integer(5))
}

/// The protocol action of a Delta log.
#[verifier::external_type_specification]
#[verifier::external_body]
pub struct ExProtocol(deltalake::kernel::Protocol);

/// What a protocol action holds, as JSON.
pub uninterp spec fn protocol_content(protocol: deltalake::kernel::Protocol) -> JsonView;

/// An integer of 32 bits with a sign.
pub open spec fn is_small_integer(value: JsonView) -> bool {
    value matches JsonView::Integer(n) && i32::MIN <= n <= i32::MAX
}

/// Two versions of the table format, and nothing else.
pub open spec fn is_pair_of_versions(value: JsonView) -> bool {
    value matches JsonView::Object(members) && {
        &&& members.dom() == set!["minReaderVersion"@, "minWriterVersion"@]
        &&& is_small_integer(members["minReaderVersion"@])
        &&& is_small_integer(members["minWriterVersion"@])
    }
}

/// `serde_json::from_value` into a `deltalake::kernel::Protocol`: it makes a protocol action of two
/// versions that fit into 32 bits, and the action holds them and no table features.
#[verifier::external_body]
fn protocol_of(versions: &Json) -> (protocol: Result<deltalake::kernel::Protocol, JsonFailure>)
    requires
        is_pair_of_versions(versions@),
    ensures
        protocol is Ok,
        protocol matches Ok(made) ==> protocol_content(made) == versions@,
{
    serde_json::from_value(value_of(versions)).map_err(|error| JsonFailure { words: error.to_string(), error })
}

/// The protocol action that column mapping needs.
pub fn column_mapping_protocol() -> (protocol: Result<deltalake::kernel::Protocol, LabError>)
    ensures
        protocol is Ok,
        protocol matches Ok(made) ==> protocol_content(made) == protocol_json(),
{
    let versions = column_mapping_versions();
    proof {
        reveal_strlit("minReaderVersion");
        reveal_strlit("minWriterVersion");
        assert("minReaderVersion"@[3] != "minWriterVersion"@[3]);
        assert(versions@->Object_0.dom() =~= set!["minReaderVersion"@, "minWriterVersion"@]);
    }
    match protocol_of(&versions) {
        Ok(protocol) => Ok(protocol),
        Err(failure) => Err(LabError::Json(failure)),
    }
}

/// What the log says of the operation that switches column mapping on.
pub open spec fn commit_info_json() -> JsonView {
    JsonView::Object(
        Map::empty().insert("operation"@, JsonView::Text("SET TBLPROPERTIES"@)).insert(
            "operationParameters"@,
            JsonView::Object(
                Map::empty().insert(
                    "properties"@,
                    JsonView::Text("{\"delta.columnMapping.mode\":\"name\"}"@),
                ),
            ),
        ).insert("isBlindAppend"@, JsonView::Bool(true)).insert(
            "engineInfo"@,
            JsonView::Text("delta-column-mapping-lab"@),
        ),
    )
}

fn commit_info() -> (info: Json)
    ensures
        info@ == commit_info_json(),
{
    let parameters = Json::object().with(
        "properties",
        Json::text("{\"delta.columnMapping.mode\":\"name\"}"),
    );
    Json::object().with("operation", Json::text("SET TBLPROPERTIES")).with(
        "operationParameters",
        parameters,
    ).with("isBlindAppend", Json::flag(true)).with("engineInfo", Json::text("delta-column-mapping-lab"))
}

/// An action of a log: an object whose one member names the kind of the action.
pub open spec fn action_json(kind: Seq<char>, action: JsonView) -> JsonView {
    JsonView::Object(Map::empty().insert(kind, action))
}

/// The properties that switch column mapping on for the seven columns of a base table.
pub open spec fn activation_configuration() -> JsonView {
    JsonView::Object(
        Map::empty().insert("delta.columnMapping.mode"@, JsonView::Text("name"@)).insert(
            "delta.columnMapping.maxColumnId"@,
            JsonView::Text("7"@),
        ),
    )
}

/// Metadata that can be given members: an object, or nothing, which then becomes one.
pub open spec fn can_have_members(metadata: JsonView) -> bool {
    metadata is Object || metadata is Null
}

/// The members that metadata has.
pub open spec fn own_members(metadata: JsonView) -> Map<Seq<char>, JsonView> {
    match metadata {
        JsonView::Object(members) => members,
        _ => Map::empty(),
    }
}

/// The metadata of a table after column mapping has been switched on, with the schema as it was
/// written.
pub open spec fn activated(metadata: JsonView, schema: Seq<char>) -> JsonView {
    JsonView::Object(
        own_members(metadata).insert("schemaString"@, JsonView::Text(schema)).insert(
            "configuration"@,
            activation_configuration(),
        ),
    )
}

/// A text is the schema that switches column mapping on: every column of the base table keeps its
/// name.
pub open spec fn is_activation_schema(schema: Seq<char>) -> bool {
    json_value(schema) == Some(schema_json(table_columns(true, false, true)))
}

/// The text of the log that switches column mapping on.
pub open spec fn activation_text(metadata: JsonView) -> Seq<char> {
    json_text(action_json("commitInfo"@, commit_info_json())) + seq!['\n'] + (json_text(
        action_json("protocol"@, protocol_json()),
    ) + seq!['\n'] + (json_text(action_json("metaData"@, metadata)) + seq!['\n'] + Seq::<char>::empty()))
}

/// The metadata of a table after column mapping has been switched on. The text of the schema may give
/// the members of its objects in any order.
pub fn activate_metadata(metadata: Json) -> (changed: Result<Json, LabError>)
    requires
        can_have_members(metadata@),
    ensures
        changed is Ok,
        changed matches Ok(found) ==> exists|schema: Seq<char>| #[trigger]
            is_activation_schema(schema) && found@ == activated(metadata@, schema),
{
    let fields = table_fields(true, false, true);
    proof {
        columns_make_a_schema(true, false, true);
    }
    let schema = match schema_string(&fields) {
        Ok(schema) => schema,
        Err(error) => {
            return Err(error);
        },
    };
    let configuration = Json::object().with("delta.columnMapping.mode", Json::text("name")).with(
        "delta.columnMapping.maxColumnId",
        Json::text("7"),
    );
    let members = if metadata.is_null() {
        Json::object()
    } else {
        metadata
    };
    assert(is_activation_schema(schema@));
    Ok(members.with("schemaString", Json::text(schema.as_str())).with("configuration", configuration))
}

/// The lines of the log that switches column mapping on.
pub open spec fn activation_lines(metadata: JsonView) -> Seq<Seq<char>> {
    seq![
        json_text(action_json("commitInfo"@, commit_info_json())),
        json_text(action_json("protocol"@, protocol_json())),
        json_text(action_json("metaData"@, metadata)),
    ]
}

/// No text holds a line end.
pub open spec fn are_single_lines(list: Seq<Seq<char>>) -> bool {
    forall|i: int|
        0 <= i < list.len() ==> !(#[trigger] list[i]).contains('\n') && !list[i].contains('\r')
}

/// A text consists of the three lines of the log that switches column mapping on, and each is JSON: the
/// first two read back as they are, and the third as an action that agrees with the metadata.
pub open spec fn written_lines(metadata: JsonView, text: Seq<char>) -> bool {
    let list = activation_lines(metadata);
    &&& text == activation_text(metadata)
    &&& lines(text) == list
    &&& json_value(list[0]) == Some(action_json("commitInfo"@, commit_info_json()))
    &&& json_value(list[1]) == Some(action_json("protocol"@, protocol_json()))
    &&& json_value(list[2]) is Some
    &&& agrees(json_value(list[2])->0, action_json("metaData"@, metadata), 127)
}

/// The actions that do not depend on the table read back as they are written.
proof fn fixed_actions_are_exact()
    ensures
        exact(action_json("commitInfo"@, commit_info_json()), 127),
        exact(action_json("protocol"@, protocol_json()), 127),
{
    reveal_with_fuel(exact, 4);
    assert(exact(protocol_json(), 126));
    assert(exact(action_json("protocol"@, protocol_json()), 127));
    assert(exact(commit_info_json(), 126)) by {
        let members = commit_info_json()->Object_0;
        assert forall|name: Seq<char>| members.contains_key(name) implies exact(#[trigger] members[name], 125) by {
            if members[name] is Object {
                let inner = members[name]->Object_0;
                assert forall|key: Seq<char>| inner.contains_key(key) implies exact(#[trigger] inner[key], 124) by {
                }
            }
        }
    }
    assert(exact(action_json("commitInfo"@, commit_info_json()), 127));
}

/// An action nests one level deeper than what it holds.
proof fn action_nests(kind: Seq<char>, action: JsonView, depth: nat)
    requires
        nests(action, depth),
    ensures
        nests(action_json(kind, action), depth + 1),
{
    let members = action_json(kind, action)->Object_0;
    assert forall|name: Seq<char>| members.contains_key(name) implies nests(#[trigger] members[name], depth) by {
        assert(name == kind);
    }
}

/// Three lines, each with a line feed behind it, are those three lines.
proof fn three_lines(first: Seq<char>, second: Seq<char>, third: Seq<char>)
    requires
        are_single_lines(seq![first, second, third]),
    ensures
        lines(first + seq!['\n'] + (second + seq!['\n'] + (third + seq!['\n'] + Seq::<char>::empty()))) == seq![
            first,
            second,
            third,
        ],
{
    let list = seq![first, second, third];
    assert(list[0] == first && list[1] == second && list[2] == third);
    let last = third + seq!['\n'] + Seq::<char>::empty();
    lines_of_joined(first, second + seq!['\n'] + last);
    lines_of_joined(second, last);
    lines_of_joined(third, Seq::empty());
    reveal_with_fuel(lines, 2);
    assert(lines(Seq::<char>::empty()) =~= Seq::<Seq<char>>::empty());
    assert(lines(first + seq!['\n'] + (second + seq!['\n'] + last)) =~= list);
}

/// The log that switches column mapping on holds the metadata that it was written with, but that a
/// floating-point number in it may have become another number.
pub proof fn activation_text_holds_metadata(metadata: JsonView, text: Seq<char>, path: Seq<char>)
    requires
        written_lines(metadata, text),
    ensures
        metadata_in(lines(text), path) is Ok,
        agrees(metadata_in(lines(text), path)->Ok_0, metadata, 126),
        exact(metadata, 126) ==> metadata_in(lines(text), path) == Ok::<JsonView, ErrorView>(metadata),
{
    reveal_with_fuel(metadata_in, 4);
    kinds_differ();
    let all = lines(text);
    let action = json_value(all[2])->0;
    assert(all.drop_first()[0] == all[1]);
    assert(all.drop_first().drop_first()[0] == all[2]);
    members_agree(action, action_json("metaData"@, metadata), "metaData"@, 127);
    if exact(metadata, 126) {
        exact_agrees_with_itself(member(action, "metaData"@)->0, metadata, 126);
    }
}

proof fn kinds_differ()
    ensures
        "commitInfo"@ != "metaData"@,
        "protocol"@ != "metaData"@,
        "commitInfo"@ != "add"@,
        "protocol"@ != "add"@,
        "metaData"@ != "add"@,
{
    reveal_strlit("commitInfo");
    reveal_strlit("protocol");
    reveal_strlit("metaData");
    reveal_strlit("add");
    assert("commitInfo"@.len() == 10 && "protocol"@.len() == 8 && "metaData"@.len() == 8 && "add"@.len() == 3);
    assert("protocol"@[0] != "metaData"@[0]);
}

/// The log that switches column mapping on adds no file, and so gives no partition values.
pub proof fn activation_adds_no_keys(metadata: JsonView, text: Seq<char>)
    requires
        written_lines(metadata, text),
    ensures
        keys_in(lines(text)) == Ok::<Set<Seq<char>>, ErrorView>(Set::empty()),
{
    reveal_with_fuel(keys_in, 4);
    kinds_differ();
    let all = lines(text);
    let two = all.drop_last();
    let one = two.drop_last();
    assert(all.last() == all[2] && two.last() == all[1] && one.last() == all[0]);
    assert(one.drop_last().len() == 0);
    members_agree(json_value(all[2])->0, action_json("metaData"@, metadata), "add"@, 127);
    assert(added_keys(json_value(all[0])->0) =~= Set::empty());
    assert(added_keys(json_value(all[1])->0) =~= Set::empty());
    assert(added_keys(json_value(all[2])->0) =~= Set::empty());
    let none = Set::<Seq<char>>::empty();
    assert(none.union(none) =~= none);
}

/// The text of the log that switches column mapping on: three lines, whatever the metadata.
pub fn activation_contents(metadata: Json) -> (text: String)
    ensures
        text@ == activation_text(metadata@),
        are_single_lines(activation_lines(metadata@)),
        lines(text@) == activation_lines(metadata@),
        nests(metadata@, 126) ==> written_lines(metadata@, text@),
{
    proof {
        fixed_actions_are_exact();
        if nests(metadata@, 126) {
            action_nests("metaData"@, metadata@, 126);
        }
        reveal_strlit("\n");
    }
    let ghost meant = metadata@;
    let first = render_json(&Json::object().with("commitInfo", commit_info()));
    let second = render_json(&Json::object().with("protocol", column_mapping_versions()));
    let third = render_json(&Json::object().with("metaData", metadata));
    let text = first.concat("\n").concat(second.as_str()).concat("\n").concat(third.as_str()).concat("\n");
    proof {
        assert("\n"@ =~= seq!['\n']);
        assert(text@ =~= activation_text(meant));
        assert(activation_lines(meant) =~= seq![first@, second@, third@]);
        three_lines(first@, second@, third@);
    }
    text
}

/// A log to be written.
#[derive(Debug)]
pub struct Commit {
    pub name: String,
    pub contents: String,
}

/// The log that switches column mapping on for a table, from the table's first log, whose path is
/// given for reports, and the names of the files beside it.
pub fn activate_column_mapping_for_existing_table(first_log: &str, path: &str, names: &Vec<Vec<u8>>) -> (commit: Result<
    Commit,
    LabError,
>)
    requires
        next_version(byte_strings(names@)) matches Ok(version) ==> version <= u64::MAX,
    ensures
        match metadata_in(lines(first_log@), path@) {
            Err(error) => commit matches Err(found) && found@ == error,
            Ok(metadata) => if !can_have_members(metadata) {
                commit matches Err(found) && found@ == ErrorView::MetadataNotObject
            } else {
                match next_version(byte_strings(names@)) {
                    Err(error) => commit matches Err(found) && found@ == error,
                    Ok(version) => commit matches Ok(made) && made.name@ == log_name(version as u64) && exists|
                        schema: Seq<char>,
                    | #[trigger]
                        is_activation_schema(schema) && written_lines(activated(metadata, schema), made.contents@)
                            && are_single_lines(activation_lines(activated(metadata, schema))),
                }
            },
        },
{
    let metadata = match read_metadata_action(first_log, path) {
        Ok(metadata) => metadata,
        Err(error) => {
            return Err(error);
        },
    };
    if !metadata.is_null() && metadata.as_object().is_none() {
        return Err(LabError::MetadataNotObject);
    }
    let ghost before = metadata@;
    let changed = match activate_metadata(metadata) {
        Ok(changed) => changed,
        Err(error) => {
            return Err(error);
        },
    };
    let version = match next_log_version(names) {
        Ok(version) => version,
        Err(error) => {
            return Err(error);
        },
    };
    proof {
        let schema = choose|schema: Seq<char>| #[trigger]
            is_activation_schema(schema) && changed@ == activated(before, schema);
        activated_nests(before, schema);
    }
    Ok(Commit { name: log_file_name(version), contents: activation_contents(changed) })
}

/// Switching column mapping on keeps the nesting of metadata within the bound.
proof fn activated_nests(metadata: JsonView, schema: Seq<char>)
    requires
        nests(metadata, 126),
        can_have_members(metadata),
    ensures
        nests(activated(metadata, schema), 126),
{
    reveal_with_fuel(nests, 3);
    assert(nests(activation_configuration(), 125));
    let members = activated(metadata, schema)->Object_0;
    assert forall|name: Seq<char>| members.contains_key(name) implies nests(#[trigger] members[name], 125) by {
        if name != "configuration"@ && name != "schemaString"@ {
            assert(own_members(metadata).contains_key(name));
            assert(members[name] == own_members(metadata)[name]);
            members_nest_less(metadata, name, 126);
        }
    }
}

/// Switching column mapping on puts no floating-point number into metadata.
proof fn activated_is_exact(metadata: JsonView, schema: Seq<char>)
    requires
        exact(metadata, 126),
    ensures
        exact(activated(metadata, schema), 126),
{
    reveal_with_fuel(exact, 3);
    assert(exact(activation_configuration(), 125));
    let members = activated(metadata, schema)->Object_0;
    assert forall|name: Seq<char>| members.contains_key(name) implies exact(#[trigger] members[name], 125) by {
        if name != "configuration"@ && name != "schemaString"@ {
            assert(own_members(metadata).contains_key(name));
            assert(members[name] == own_members(metadata)[name]);
        }
    }
}

/// The names of files.
pub open spec fn log_names(logs: Seq<LogFileView>) -> Seq<Seq<u8>> {
    logs.map_values(|log: LogFileView| log.name)
}

/// The files of a log once a further one has been written.
pub open spec fn with_log(logs: Seq<LogFileView>, version: u64, contents: Seq<char>) -> Seq<LogFileView> {
    logs.push(LogFileView { name: encode_utf8(log_name(version)), contents: Some(contents) })
}

/// A version and a text are those of the log that switches column mapping on for a table with some
/// metadata, whose logs are named for their versions.
pub open spec fn is_activation(
    logs: Seq<LogFileView>,
    version: u64,
    metadata: JsonView,
    schema: Seq<char>,
    contents: Seq<char>,
) -> bool {
    &&& logs_are_versioned(log_names(logs))
    &&& next_version(log_names(logs)) == Ok::<int, ErrorView>(version as int)
    &&& is_activation_schema(schema)
    &&& written_lines(activated(metadata, schema), contents)
}

/// The log that switches column mapping on takes the place of no other. Once it has been written beside
/// the others, it is the latest, adds no partition values, and decides the metadata of the table and the names of its columns.
pub proof fn activation_takes_effect(
    logs: Seq<LogFileView>,
    table_path: Seq<char>,
    version: u64,
    metadata: JsonView,
    schema: Seq<char>,
    contents: Seq<char>,
)
    requires
        is_activation(logs, version, metadata, schema, contents),
    ensures
        ({
            let extended = with_log(logs, version, contents);
            &&& !log_names(logs).contains(encode_utf8(log_name(version)))
            &&& latest_log(log_names(extended)) == Some(encode_utf8(log_name(version)))
            &&& keys_in(lines(contents)) == Ok::<Set<Seq<char>>, ErrorView>(Set::empty())
            &&& latest_metadata(extended, table_path) matches Ok(read) && agrees(
                read,
                activated(metadata, schema),
                126,
            )
            &&& exact(metadata, 126) ==> latest_metadata(extended, table_path) == Ok::<
                JsonView,
                ErrorView,
            >(activated(metadata, schema))
            &&& table_mapping(extended, table_path) == schema_mapping(schema_json(table_columns(true, false, true)))
        }),
{
    reveal_strlit("schemaString");
    reveal_strlit("configuration");
    assert("schemaString"@.len() != "configuration"@.len());
    let written = LogFileView { name: encode_utf8(log_name(version)), contents: Some(contents) };
    let extended = with_log(logs, version, contents);
    let at = logs.len() as int;
    let changed = activated(metadata, schema);
    if exact(metadata, 126) {
        activated_is_exact(metadata, schema);
    }
    activation_text_holds_metadata(changed, contents, table_path);
    activation_adds_no_keys(changed, contents);
    log_name_gives_version(version);
    let names = log_names(logs);
    assert(log_names(extended) =~= names.push(written.name));
    next_log_is_latest(names, version);
    let latest = latest_log(names)->0;
    assert(is_latest_log(names, latest));
    let place = names.index_of(latest);
    assert(names[place] == latest);
    let last = choose|last: u64| names[place] == #[trigger] encode_utf8(log_name(last));
    log_name_gives_version(last);
    log_names_ascend(last, version);
    assert forall|i: int| 0 <= i < extended.len() && i != at && log_metadata(
        #[trigger] extended[i],
        table_path,
    ) is Some implies bytes_before(extended[i].name, extended[at].name) by {
        assert(extended[i] == logs[i]);
        assert(names[i] == logs[i].name);
        if names[i] != latest {
            bytes_before_transitive(names[i], latest, written.name);
        }
    }
    let read = metadata_in(lines(contents), table_path)->Ok_0;
    assert(log_metadata(extended[at], table_path) == Some(read));
    assert(is_latest_metadata(extended, table_path, at));
    latest_metadata_is_unique(extended, table_path, at);
    assert(member(changed, "schemaString"@) == Some(JsonView::Text(schema)));
    members_agree(read, changed, "schemaString"@, 126);
    assert(member(read, "schemaString"@) == Some(JsonView::Text(schema)));
}

/// The names of exactly the columns of the base tables, each of which is its own physical name.
pub open spec fn keeps_names(mappings: Map<Seq<char>, FieldMappingView>) -> bool {
    &&& mappings.dom() == column_names(false).to_set()
    &&& forall|name: Seq<char>| #[trigger]
        mappings.contains_key(name) ==> mappings[name] == (FieldMappingView {
            logical_name: name,
            physical_name: name,
        })
}

/// A table for which column mapping has just been switched on has the columns it had, and each keeps
/// its name. It does not pass the check for tables that also got new columns: the first of them is
/// missing.
pub proof fn activation_keeps_names(
    logs: Seq<LogFileView>,
    table_path: Seq<char>,
    version: u64,
    metadata: JsonView,
    schema: Seq<char>,
    contents: Seq<char>,
)
    requires
        is_activation(logs, version, metadata, schema, contents),
    ensures
        table_mapping(with_log(logs, version, contents), table_path) matches Ok(mappings) && keeps_names(mappings),
        table_mapping(with_log(logs, version, contents), table_path) matches Ok(mappings) && evolved_schema_failure(
            mappings,
        ) == Some(ErrorView::MissingEvolvedSchemaField("event_category"@)),
{
    activation_takes_effect(logs, table_path, version, metadata, schema, contents);
    activation_schema_keeps_names();
    let fields = table_columns(true, false, true);
    let names = column_names(false);
    columns_make_a_schema(true, false, true);
    mapped_columns_give_names(false, true);
    written_schema_is_read(fields);
    let mappings = schema_mapping(schema_json(fields))->Ok_0;
    assert(fields.len() == names.len());
    assert forall|name: Seq<char>| #[trigger] mappings.contains_key(name) <==> names.to_set().contains(name) by {
        if mappings.contains_key(name) {
            let i = choose|i: int| 0 <= i < fields.len() && (#[trigger] fields[i]).name == name;
            assert(names[i] == name);
        }
        if names.to_set().contains(name) {
            let i = names.index_of(name);
            assert(names[i] == name);
            assert(fields[i].name == name);
        }
    }
    assert(mappings.dom() =~= names.to_set());
    assert forall|name: Seq<char>| #[trigger] mappings.contains_key(name) implies mappings[name] == (
    FieldMappingView { logical_name: name, physical_name: name }) by {
        let i = choose|i: int| 0 <= i < fields.len() && (#[trigger] fields[i]).name == name;
        columns_are_mapped(true, false, true, i);
    }
    assert(evolved_names()[0] == "event_category"@);
}

/// Switching column mapping on changes two members of the metadata of a table, the schema and the
/// configuration, and leaves every other as it was: it takes none away and adds none.
pub proof fn activation_keeps_all_else(metadata: JsonView, schema: Seq<char>, name: Seq<char>)
    ensures
        activated(metadata, schema) is Object,
        name != "schemaString"@ && name != "configuration"@ ==> member(activated(metadata, schema), name) == member(
            metadata,
            name,
        ),
        member(activated(metadata, schema), "schemaString"@) == Some(JsonView::Text(schema)),
        member(activated(metadata, schema), "configuration"@) is Some,
{
    reveal_strlit("schemaString");
    reveal_strlit("configuration");
    assert("schemaString"@.len() != "configuration"@.len());
}

/// The configuration that switches column mapping on has two properties: the mode, by name, and the
/// largest column id.
pub proof fn activation_configures_two_properties(metadata: JsonView, schema: Seq<char>)
    ensures
        ({
            let configuration = activated(metadata, schema)->Object_0["configuration"@];
            &&& configuration is Object
            &&& configuration->Object_0.dom() == set!["delta.columnMapping.mode"@, "delta.columnMapping.maxColumnId"@]
            &&& configuration->Object_0["delta.columnMapping.mode"@] == JsonView::Text("name"@)
            &&& configuration->Object_0["delta.columnMapping.maxColumnId"@] == JsonView::Text(seq!['7'])
        }),
        activation_configuration() == activated(metadata, schema)->Object_0["configuration"@],
{
    reveal_strlit("delta.columnMapping.mode");
    reveal_strlit("delta.columnMapping.maxColumnId");
    reveal_strlit("7");
    assert("7"@ =~= seq!['7']);
    assert("delta.columnMapping.mode"@.len() != "delta.columnMapping.maxColumnId"@.len());
    assert(activation_configuration()->Object_0.dom() =~= set![
        "delta.columnMapping.mode"@,
        "delta.columnMapping.maxColumnId"@,
    ]);
}

/// Column mapping needs the second version of the table format to read and the fifth to write, and
/// nothing else is asked for.
pub proof fn protocol_asks_for_two_versions()
    ensures
        protocol_json() is Object,
        protocol_json()->Object_0.dom() == set!["minReaderVersion"@, "minWriterVersion"@],
        protocol_json()->Object_0["minReaderVersion"@] == JsonView::Integer(2),
        protocol_json()->Object_0["minWriterVersion"@] == JsonView::Integer(5),
{
    reveal_strlit("minReaderVersion");
    reveal_strlit("minWriterVersion");
    assert("minReaderVersion"@[3] != "minWriterVersion"@[3]);
    assert(protocol_json()->Object_0.dom() =~= set!["minReaderVersion"@, "minWriterVersion"@]);
}

/// What the log says of the operation: that it sets a table property, which, that it reads nothing, and
/// who did it.
pub proof fn operation_is_described()
    ensures
        ({
            let info = commit_info_json();
            let parameters = info->Object_0["operationParameters"@];
            &&& info is Object
            &&& info->Object_0.dom() == set![
                "operation"@,
                "operationParameters"@,
                "isBlindAppend"@,
                "engineInfo"@,
            ]
            &&& info->Object_0["operation"@] == JsonView::Text("SET TBLPROPERTIES"@)
            &&& parameters is Object
            &&& parameters->Object_0.dom() == set!["properties"@]
            &&& parameters->Object_0["properties"@] == JsonView::Text(
                "{\"delta.columnMapping.mode\":\"name\"}"@,
            )
            &&& info->Object_0["isBlindAppend"@] == JsonView::Bool(true)
            &&& info->Object_0["engineInfo"@] == JsonView::Text("delta-column-mapping-lab"@)
        }),
{
    reveal_strlit("operation");
    reveal_strlit("operationParameters");
    reveal_strlit("isBlindAppend");
    reveal_strlit("engineInfo");
    assert("operation"@.len() == 9 && "operationParameters"@.len() == 19 && "isBlindAppend"@.len() == 13
        && "engineInfo"@.len() == 10);
    let members = commit_info_json()->Object_0;
    assert(members.dom() =~= set!["operation"@, "operationParameters"@, "isBlindAppend"@, "engineInfo"@]);
    assert(members["operationParameters"@]->Object_0.dom() =~= set!["properties"@]);
}

/// The log that switches column mapping on has three lines: the operation, the protocol and the
/// metadata, each an object of that one member, and each with a line feed behind it.
pub proof fn log_holds_operation_protocol_and_metadata(
    metadata: JsonView,
    operation: JsonView,
    protocol: JsonView,
    change: JsonView,
)
    requires
        operation is Object && operation->Object_0.dom() == set!["commitInfo"@] && operation->Object_0["commitInfo"@]
            == commit_info_json(),
        protocol is Object && protocol->Object_0.dom() == set!["protocol"@] && protocol->Object_0["protocol"@]
            == protocol_json(),
        change is Object && change->Object_0.dom() == set!["metaData"@] && change->Object_0["metaData"@] == metadata,
    ensures
        activation_lines(metadata) == seq![json_text(operation), json_text(protocol), json_text(change)],
        activation_text(metadata) == json_text(operation).push('\n') + json_text(protocol).push('\n') + json_text(
            change,
        ).push('\n'),
{
    one_member_is_an_action(operation, "commitInfo"@);
    one_member_is_an_action(protocol, "protocol"@);
    one_member_is_an_action(change, "metaData"@);
    assert(activation_text(metadata) =~= json_text(operation).push('\n') + json_text(protocol).push('\n') + json_text(
        change,
    ).push('\n'));
}

/// An object of one member is the action of that kind.
pub proof fn one_member_is_an_action(value: JsonView, kind: Seq<char>)
    requires
        value is Object,
        value->Object_0.dom() == set![kind],
    ensures
        value == action_json(kind, value->Object_0[kind]),
{
    match value {
        JsonView::Object(members) => {
            assert(members.contains_key(kind));
            assert(members =~= Map::empty().insert(kind, members[kind]));
        },
        _ => {},
    }
}

/// Metadata can be given members where it is an object, or nothing at all.
pub proof fn objects_and_nothing_can_have_members(metadata: JsonView)
    ensures
        can_have_members(metadata) <==> metadata is Object || metadata is Null,
{
}

/// The schema that switches column mapping on lists the seven columns of the base tables, in order,
/// under their own names and types, with the ids from one to seven, and with their own names as physical
/// names.
pub proof fn activation_schema_lists_the_base_columns(schema: Seq<char>, at: int)
    requires
        is_activation_schema(schema),
        0 <= at < 7,
    ensures
        ({
            let fields = member(json_value(schema)->0, "fields"@)->0;
            let field = fields->List_0[at];
            let base = table_columns(false, false, false)[at];
            &&& json_value(schema) is Some
            &&& fields is List
            &&& fields->List_0.len() == 7
            &&& member(field, "name"@) == Some(JsonView::Text(base.name))
            &&& member(field, "nullable"@) == Some(JsonView::Bool(base.nullable))
            &&& member(field, "type"@) == Some(JsonView::Text(type_text(base.data_type)))
            &&& member(member(field, "metadata"@)->0, "delta.columnMapping.id"@) == Some(JsonView::Integer(at + 1))
            &&& member(member(field, "metadata"@)->0, "delta.columnMapping.physicalName"@) == Some(
                JsonView::Text(base.name),
            )
        }),
{
    let fields = table_columns(true, false, true);
    schema_lists_its_columns(fields, at);
    column_is_written_whole(fields[at], "delta.columnMapping.id"@);
    column_is_written_whole(fields[at], "delta.columnMapping.physicalName"@);
    columns_say_how_they_are_mapped(true, false, true, at);
    let written = field_json(fields[at])->Object_0;
    assert(written.contains_key("name"@) && written.contains_key("nullable"@) && written.contains_key("type"@)
        && written.contains_key("metadata"@));
    assert(schema_json(fields)->Object_0.contains_key("fields"@));
    assert(fields[at].metadata.contains_key("delta.columnMapping.id"@));
    assert(fields[at].metadata.contains_key("delta.columnMapping.physicalName"@));
}

/// A table keeps its names exactly if it has the seven base columns and each is its own physical name.
pub proof fn kept_names_are_those_of_the_base_columns(mappings: Map<Seq<char>, FieldMappingView>, name: Seq<char>)
    requires
        keeps_names(mappings),
    ensures
        mappings.contains_key(name) <==> (name == "event_id"@ || name == "customer_name"@ || name == "amount"@ || name
            == "partition_date"@ || name == "partition_year"@ || name == "partition_month"@ || name
            == "partition_day"@),
        mappings.contains_key(name) ==> mappings[name].logical_name == name && mappings[name].physical_name == name,
{
    let names = column_names(false);
    assert(mappings.contains_key(name) <==> names.to_set().contains(name));
    assert(names.len() == 7);
    assert(names[0] == "event_id"@ && names[1] == "customer_name"@ && names[2] == "amount"@ && names[3]
        == "partition_date"@ && names[4] == "partition_year"@ && names[5] == "partition_month"@ && names[6]
        == "partition_day"@);
    if names.contains(name) {
        let i = names.index_of(name);
        assert(names[i] == name);
    }
}

/// A text is the schema that switches column mapping on exactly if it is the JSON of the base columns
/// with column mapping, under the names that they have.
pub proof fn activation_schema_is_that_of_the_base_columns(schema: Seq<char>)
    ensures
        is_activation_schema(schema) <==> json_value(schema) is Some && json_value(schema)->0 == schema_json(
            table_columns(true, false, true),
        ),
{
}

/// The lines of a log hold no line feed and no carriage return, and each is JSON: the operation and the
/// protocol as they are, and the metadata but for its floating-point numbers.
pub proof fn written_lines_are_json(metadata: JsonView, text: Seq<char>, list: Seq<Seq<char>>, at: int)
    ensures
        are_single_lines(list) && 0 <= at < list.len() ==> !list[at].contains('\n') && !list[at].contains('\r'),
        written_lines(metadata, text) ==> {
            &&& lines(text).len() == 3
            &&& lines(text) == activation_lines(metadata)
            &&& text == activation_text(metadata)
            &&& json_value(lines(text)[0]) == Some(action_json("commitInfo"@, commit_info_json()))
            &&& json_value(lines(text)[1]) == Some(action_json("protocol"@, protocol_json()))
            &&& json_value(lines(text)[2]) is Some
            &&& member(json_value(lines(text)[2])->0, "metaData"@) is Some
            &&& agrees(member(json_value(lines(text)[2])->0, "metaData"@)->0, metadata, 126)
        },
{
    if written_lines(metadata, text) {
        members_agree(json_value(lines(text)[2])->0, action_json("metaData"@, metadata), "metaData"@, 127);
    }
}

} // verus!
