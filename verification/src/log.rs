//! The log of a table: the names of its files, and the actions they hold.
use crate::decimal::{padded_text, parse_u64};
#[allow(unused_imports)]
use crate::decimal::{IntegerError, is_digit, padded, padded_digits_differ, padded_reads_back, read_integer, twenty_digits_suffice};
use crate::error::LabError;
#[allow(unused_imports)]
use crate::error::ErrorView;
#[allow(unused_imports)]
use crate::json::{json_error, json_value, member, members_nest_less, members_of, nests, JsonView};
use crate::json::{parse_json, Json};
use crate::text::{compare_bytes, text_lines, Order};
#[allow(unused_imports)]
use crate::text::{bytes_before, bytes_before_irreflexive, bytes_before_total, bytes_before_transitive, lines, smaller_at, texts};
use crate::text_map::TextMap;
use vstd::prelude::*;
use vstd::utf8::{
    decode_utf8, encode_utf8, encode_utf8_decode_utf8, encode_utf8_valid_utf8, is_ascii_chars,
    is_ascii_chars_encode_utf8, valid_utf8,
};

verus! {

/// What a list of file names stands for.
pub open spec fn byte_strings(names: Seq<Vec<u8>>) -> Seq<Seq<u8>> {
    names.map_values(|name: Vec<u8>| name@)
}

/// The ending of the name of a log file: `.json`.
pub open spec fn log_ending() -> Seq<u8> {
    seq![0x2eu8, 0x6au8, 0x73u8, 0x6fu8, 0x6eu8]
}

/// A file name is that of a log if it has the ending, and something stands before it.
pub open spec fn is_log_name(name: Seq<u8>) -> bool {
    name.len() > 5 && name.skip(name.len() - 5) == log_ending()
}

/// The name of a log without the ending.
pub open spec fn log_stem(name: Seq<u8>) -> Seq<u8> {
    name.take(name.len() - 5)
}

/// A name is that of the latest log if it is the last one in the order of names.
pub open spec fn is_latest_log(names: Seq<Seq<u8>>, name: Seq<u8>) -> bool {
    &&& names.contains(name)
    &&& is_log_name(name)
    &&& forall|i: int|
        0 <= i < names.len() && is_log_name(#[trigger] names[i]) ==> names[i] == name || bytes_before(
            names[i],
            name,
        )
}

/// The name of the latest log, if there is a log.
pub open spec fn latest_log(names: Seq<Seq<u8>>) -> Option<Seq<u8>> {
    if exists|name: Seq<u8>| is_latest_log(names, name) {
        Some(choose|name: Seq<u8>| is_latest_log(names, name))
    } else {
        None
    }
}

/// There is only one latest log.
pub proof fn latest_log_is_unique(names: Seq<Seq<u8>>, name: Seq<u8>)
    requires
        is_latest_log(names, name),
    ensures
        latest_log(names) == Some(name),
{
    let other = choose|other: Seq<u8>| is_latest_log(names, other);
    if other != name {
        let i = names.index_of(name);
        let j = names.index_of(other);
        assert(names[i] == name && names[j] == other);
        bytes_before_transitive(name, other, name);
        bytes_before_irreflexive(name);
    }
}

/// There is a latest log wherever there is a log at all.
pub proof fn latest_log_is_there(names: Seq<Seq<u8>>)
    ensures
        latest_log(names) is None <==> forall|i: int| 0 <= i < names.len() ==> !is_log_name(#[trigger] names[i]),
    decreases names.len(),
{
    if latest_log(names) is Some {
        let name = choose|name: Seq<u8>| is_latest_log(names, name);
        let i = names.index_of(name);
        assert(names[i] == name);
    } else if names.len() > 0 {
        let front = names.drop_last();
        let last = names.last();
        latest_log_is_there(front);
        assert(names[names.len() - 1] == last);
        if latest_log(front) is Some {
            let name = choose|name: Seq<u8>| is_latest_log(front, name);
            let i = front.index_of(name);
            assert(names[i] == name);
            if is_log_name(last) && last != name && !bytes_before(last, name) {
                bytes_before_total(last, name);
                assert forall|j: int| 0 <= j < names.len() && is_log_name(#[trigger] names[j]) implies names[j] == last
                    || bytes_before(names[j], last) by {
                    if j < front.len() && front[j] != name {
                        bytes_before_transitive(front[j], name, last);
                    }
                }
                assert(is_latest_log(names, last));
            } else {
                assert forall|j: int| 0 <= j < names.len() && is_log_name(#[trigger] names[j]) implies names[j] == name
                    || bytes_before(names[j], name) by {
                    if j < front.len() {
                        assert(front[j] == names[j]);
                    }
                }
                assert(is_latest_log(names, name));
            }
        } else {
            assert forall|j: int| 0 <= j < front.len() implies !is_log_name(#[trigger] names[j]) by {
                assert(front[j] == names[j]);
            }
            if is_log_name(last) {
                assert(is_latest_log(names, last));
            }
        }
    }
}

/// Whether a file name is that of a log.
pub fn is_log(name: &Vec<u8>) -> (found: bool)
    ensures
        found <==> is_log_name(name@),
{
    let n = name.len();
    if n <= 5 {
        return false;
    }
    let ghost ending = name@.skip(name@.len() - 5);
    let found = name[n - 5] == 0x2e && name[n - 4] == 0x6a && name[n - 3] == 0x73 && name[n - 2] == 0x6f
        && name[n - 1] == 0x6e;
    proof {
        if found {
            assert(ending =~= log_ending());
        } else {
            assert(ending[0] == name@[n - 5] && ending[1] == name@[n - 4] && ending[2] == name@[n - 3]
                && ending[3] == name@[n - 2] && ending[4] == name@[n - 1]);
        }
    }
    found
}

/// The name of the latest log among the names of the files beside it.
pub fn latest_log_json(names: &Vec<Vec<u8>>) -> (latest: Result<&Vec<u8>, LabError>)
    ensures
        latest matches Ok(name) ==> latest_log(byte_strings(names@)) == Some(name@) && is_log_name(name@),
        latest matches Err(error) ==> latest_log(byte_strings(names@)) is None && error@ == ErrorView::MissingLogJson,
{
    let ghost all = byte_strings(names@);
    let mut best: Option<usize> = None;
    let mut i: usize = 0;
    while i < names.len()
        invariant
            all == byte_strings(names@),
            i <= names@.len(),
            best matches Some(at) ==> at < i && is_log_name(all[at as int]) && forall|j: int|
                0 <= j < i && is_log_name(#[trigger] all[j]) ==> all[j] == all[at as int] || bytes_before(
                    all[j],
                    all[at as int],
                ),
            best is None ==> forall|j: int| 0 <= j < i ==> !is_log_name(#[trigger] all[j]),
        decreases names@.len() - i,
    {
        assert(all[i as int] == names@[i as int]@);
        if is_log(&names[i]) {
            match best {
                None => {
                    best = Some(i);
                },
                Some(at) => {
                    assert(all[at as int] == names@[at as int]@);
                    if compare_bytes(names[at].as_slice(), names[i].as_slice()) == Order::Less {
                        assert forall|j: int| 0 <= j < i && is_log_name(#[trigger] all[j]) implies all[j]
                            == all[i as int] || bytes_before(all[j], all[i as int]) by {
                            if all[j] != all[at as int] {
                                bytes_before_transitive(all[j], all[at as int], all[i as int]);
                            }
                        }
                        best = Some(i);
                    } else {
                        proof {
                            bytes_before_total(all[i as int], all[at as int]);
                        }
                    }
                },
            }
        }
        i += 1;
    }
    match best {
        Some(at) => {
            proof {
                assert(all[at as int] == names@[at as int]@);
                assert(is_latest_log(all, all[at as int]));
                latest_log_is_unique(all, all[at as int]);
            }
            Ok(&names[at])
        },
        None => {
            assert forall|name: Seq<u8>| !is_latest_log(all, name) by {
                if is_latest_log(all, name) {
                    let j = all.index_of(name);
                    assert(all[j] == name);
                }
            }
            Err(LabError::MissingLogJson)
        },
    }
}

/// `std::str::from_utf8`: it accepts exactly the bytes that are UTF-8, and gives the text they encode.
#[verifier::external_body]
fn utf8_text(bytes: &[u8]) -> (text: Option<&str>)
    ensures
        text is Some <==> valid_utf8(bytes@),
        text matches Some(found) ==> found@ == decode_utf8(bytes@),
{
    std::str::from_utf8(bytes).ok()
}

/// The version that a log has by its name.
pub open spec fn version_of(name: Seq<u8>) -> Result<int, ErrorView> {
    if !valid_utf8(log_stem(name)) {
        Err(ErrorView::LogName)
    } else {
        match read_integer(decode_utf8(log_stem(name)), 0, u64::MAX as int) {
            Ok(version) => Ok(version),
            Err(error) => Err(ErrorView::LogVersion(error)),
        }
    }
}

/// The version that a log has by its name.
pub fn log_version(name: &Vec<u8>) -> (version: Result<u64, LabError>)
    requires
        is_log_name(name@),
    ensures
        version matches Ok(found) ==> version_of(name@) == Ok::<int, ErrorView>(found as int),
        version matches Err(error) ==> version_of(name@) == Err::<int, ErrorView>(error@),
{
    let stem = &name.as_slice()[0..name.len() - 5];
    assert(stem@ =~= log_stem(name@));
    match utf8_text(stem) {
        None => Err(LabError::LogName),
        Some(text) => match parse_u64(text) {
            Ok(version) => Ok(version),
            Err(error) => Err(LabError::LogVersion(error)),
        },
    }
}

/// The version that the next log gets: one above that of the latest log.
pub open spec fn next_version(names: Seq<Seq<u8>>) -> Result<int, ErrorView> {
    match latest_log(names) {
        None => Err(ErrorView::MissingLogJson),
        Some(name) => match version_of(name) {
            Ok(version) => Ok(version + 1),
            Err(error) => Err(error),
        },
    }
}

/// The version that the next log gets. No log comes after the one with the largest version there is.
pub fn next_log_version(names: &Vec<Vec<u8>>) -> (version: Result<u64, LabError>)
    requires
        next_version(byte_strings(names@)) matches Ok(version) ==> version <= u64::MAX,
    ensures
        version matches Ok(found) ==> next_version(byte_strings(names@)) == Ok::<int, ErrorView>(found as int),
        version matches Err(error) ==> next_version(byte_strings(names@)) == Err::<int, ErrorView>(error@),
{
    match latest_log_json(names) {
        Err(error) => Err(error),
        Ok(name) => match log_version(name) {
            Err(error) => Err(error),
            Ok(version) => Ok(version + 1),
        },
    }
}

/// A file of a log, and what it holds; nothing if it cannot be read as text.
#[derive(Debug)]
pub struct LogFile {
    pub name: Vec<u8>,
    pub contents: Option<String>,
}

/// What the file of a log stands for.
pub struct LogFileView {
    pub name: Seq<u8>,
    pub contents: Option<Seq<char>>,
}

impl View for LogFile {
    type V = LogFileView;

    open spec fn view(&self) -> LogFileView {
        LogFileView {
            name: self.name@,
            contents: match self.contents {
                Some(contents) => Some(contents@),
                None => None,
            },
        }
    }
}

/// What a list of files stands for.
pub open spec fn log_views(logs: Seq<LogFile>) -> Seq<LogFileView> {
    logs.map_values(|log: LogFile| log@)
}

/// The metadata in the first of some lines that holds any. A line before it that is no JSON decides
/// the error.
pub open spec fn metadata_in(log_lines: Seq<Seq<char>>, path: Seq<char>) -> Result<JsonView, ErrorView>
    decreases log_lines.len(),
{
    if log_lines.len() == 0 {
        Err(ErrorView::MissingMetadataAction(path))
    } else {
        match json_value(log_lines[0]) {
            None => Err(ErrorView::Json(json_error(log_lines[0]))),
            Some(action) => match member(action, "metaData"@) {
                Some(metadata) => Ok(metadata),
                None => metadata_in(log_lines.drop_first(), path),
            },
        }
    }
}

/// The metadata that a log holds. The path is the one to report where it holds none.
pub fn read_metadata_action(contents: &str, path: &str) -> (metadata: Result<Json, LabError>)
    ensures
        metadata matches Ok(found) ==> metadata_in(lines(contents@), path@) == Ok::<JsonView, ErrorView>(found@),
        metadata matches Ok(found) ==> nests(found@, 126),
        metadata matches Err(error) ==> metadata_in(lines(contents@), path@) == Err::<JsonView, ErrorView>(error@),
{
    let list = text_lines(contents);
    let ghost all = lines(contents@);
    let mut i: usize = 0;
    assert(all.skip(0) =~= all);
    while i < list.len()
        invariant
            texts(list@) == all,
            all == lines(contents@),
            i <= list@.len(),
            metadata_in(all, path@) == metadata_in(all.skip(i as int), path@),
        decreases list@.len() - i,
    {
        proof {
            assert(texts(list@)[i as int] == list@[i as int]@);
            assert(all.skip(i as int)[0] == all[i as int]);
            assert(all.skip(i as int).drop_first() =~= all.skip(i + 1));
        }
        match parse_json(list[i].as_str()) {
            Err(failure) => {
                return Err(LabError::Json(failure));
            },
            Ok(action) => {
                proof {
                    if member(action@, "metaData"@) is Some {
                        members_nest_less(action@, "metaData"@, 127);
                    }
                }
                if let Some(metadata) = action.take("metaData") {
                    return Ok(metadata);
                }
            },
        }
        i += 1;
    }
    Err(LabError::MissingMetadataAction(path.to_owned()))
}

/// The metadata that a file holds, if it is a log that can be read and holds any.
pub open spec fn log_metadata(log: LogFileView, path: Seq<char>) -> Option<JsonView> {
    match log.contents {
        Some(contents) => if is_log_name(log.name) {
            match metadata_in(lines(contents), path) {
                Ok(metadata) => Some(metadata),
                Err(_) => None,
            }
        } else {
            None
        },
        None => None,
    }
}

/// The file at a place is the last one, in the order of names, that holds metadata.
pub open spec fn is_latest_metadata(logs: Seq<LogFileView>, path: Seq<char>, at: int) -> bool {
    &&& 0 <= at < logs.len()
    &&& log_metadata(logs[at], path) is Some
    &&& forall|i: int|
        0 <= i < logs.len() && i != at && log_metadata(#[trigger] logs[i], path) is Some ==> bytes_before(
            logs[i].name,
            logs[at].name,
        )
}

/// The metadata of a table: that in the last of its logs that holds any.
pub open spec fn latest_metadata(logs: Seq<LogFileView>, path: Seq<char>) -> Result<JsonView, ErrorView> {
    if exists|at: int| is_latest_metadata(logs, path, at) {
        Ok(log_metadata(logs[choose|at: int| is_latest_metadata(logs, path, at)], path)->0)
    } else {
        Err(ErrorView::MissingMetadataAction(path))
    }
}

/// No two files have the same name.
pub open spec fn file_names_differ(logs: Seq<LogFileView>) -> bool {
    forall|i: int, j: int| 0 <= i < j < logs.len() ==> (#[trigger] logs[i]).name != (#[trigger] logs[j]).name
}

/// Only one file is the last one that holds metadata.
pub proof fn latest_metadata_is_unique(logs: Seq<LogFileView>, path: Seq<char>, at: int)
    requires
        is_latest_metadata(logs, path, at),
    ensures
        latest_metadata(logs, path) == Ok::<JsonView, ErrorView>(log_metadata(logs[at], path)->0),
{
    let other = choose|other: int| is_latest_metadata(logs, path, other);
    assert(is_latest_metadata(logs, path, other));
    if other != at {
        bytes_before_transitive(logs[at].name, logs[other].name, logs[at].name);
        bytes_before_irreflexive(logs[at].name);
    }
}

/// A table has metadata wherever one of its logs holds any.
pub proof fn latest_metadata_is_there(logs: Seq<LogFileView>, path: Seq<char>)
    requires
        file_names_differ(logs),
    ensures
        latest_metadata(logs, path) is Err <==> forall|i: int|
            0 <= i < logs.len() ==> log_metadata(#[trigger] logs[i], path) is None,
    decreases logs.len(),
{
    if latest_metadata(logs, path) is Ok {
        let at = choose|at: int| is_latest_metadata(logs, path, at);
        assert(log_metadata(logs[at], path) is Some);
    } else if logs.len() > 0 {
        let front = logs.drop_last();
        let last = logs.len() - 1;
        assert forall|i: int, j: int| 0 <= i < j < front.len() implies (#[trigger] front[i]).name != (
        #[trigger] front[j]).name by {
            assert(front[i] == logs[i] && front[j] == logs[j]);
        }
        latest_metadata_is_there(front, path);
        if latest_metadata(front, path) is Ok {
            let at = choose|at: int| is_latest_metadata(front, path, at);
            assert(front[at] == logs[at] && logs[at].name != logs[last].name);
            let later = log_metadata(logs[last], path) is Some && !bytes_before(logs[last].name, logs[at].name);
            let best = if later {
                last
            } else {
                at
            };
            bytes_before_total(logs[last].name, logs[at].name);
            assert forall|i: int| 0 <= i < logs.len() && i != best && log_metadata(
                #[trigger] logs[i],
                path,
            ) is Some implies bytes_before(logs[i].name, logs[best].name) by {
                if i < front.len() {
                    assert(front[i] == logs[i]);
                    if later && i != at {
                        bytes_before_transitive(logs[i].name, logs[at].name, logs[last].name);
                    }
                }
            }
            assert(is_latest_metadata(logs, path, best));
        } else {
            assert forall|i: int| 0 <= i < front.len() implies log_metadata(#[trigger] logs[i], path) is None by {
                assert(front[i] == logs[i]);
            }
            if log_metadata(logs[last], path) is Some {
                assert(is_latest_metadata(logs, path, last));
            }
        }
    }
}

/// The metadata of a table: that in the last of its logs that holds any. Logs that cannot be read are
/// passed over.
pub fn latest_metadata_action(logs: &Vec<LogFile>, table_path: &str) -> (metadata: Result<Json, LabError>)
    requires
        file_names_differ(log_views(logs@)),
    ensures
        metadata matches Ok(found) ==> latest_metadata(log_views(logs@), table_path@) == Ok::<JsonView, ErrorView>(
            found@,
        ),
        metadata matches Err(error) ==> latest_metadata(log_views(logs@), table_path@) == Err::<
            JsonView,
            ErrorView,
        >(error@),
{
    let ghost all = log_views(logs@);
    let ghost path = table_path@;
    let mut best: Option<(usize, Json)> = None;
    let mut i: usize = 0;
    while i < logs.len()
        invariant
            all == log_views(logs@),
            path == table_path@,
            file_names_differ(all),
            i <= logs@.len(),
            best matches Some(found) ==> found.0 < i && log_metadata(all[found.0 as int], path) == Some(found.1@)
                && forall|j: int|
                0 <= j < i && j != found.0 && log_metadata(#[trigger] all[j], path) is Some ==> bytes_before(
                    all[j].name,
                    all[found.0 as int].name,
                ),
            best is None ==> forall|j: int| 0 <= j < i ==> log_metadata(#[trigger] all[j], path) is None,
        decreases logs@.len() - i,
    {
        assert(all[i as int] == logs@[i as int]@);
        let metadata = read_log_metadata(&logs[i], table_path);
        if let Some(metadata) = metadata {
            let later = match &best {
                None => true,
                Some(found) => {
                    proof {
                        assert(all[found.0 as int] == logs@[found.0 as int]@);
                        bytes_before_total(all[i as int].name, all[found.0 as int].name);
                    }
                    compare_bytes(logs[found.0].name.as_slice(), logs[i].name.as_slice()) == Order::Less
                },
            };
            if later {
                proof {
                    if let Some(found) = best {
                        assert forall|j: int| 0 <= j < i && log_metadata(#[trigger] all[j], path) is Some implies bytes_before(
                            all[j].name,
                            all[i as int].name,
                        ) by {
                            if j != found.0 {
                                bytes_before_transitive(
                                    all[j].name,
                                    all[found.0 as int].name,
                                    all[i as int].name,
                                );
                            }
                        }
                    }
                }
                best = Some((i, metadata));
            }
        }
        i += 1;
    }
    match best {
        Some((at, metadata)) => {
            proof {
                assert(is_latest_metadata(all, path, at as int));
                latest_metadata_is_unique(all, path, at as int);
            }
            Ok(metadata)
        },
        None => Err(LabError::MissingMetadataAction(table_path.to_owned())),
    }
}

/// The metadata that a file holds, if it is a log that can be read and holds any.
fn read_log_metadata(log: &LogFile, path: &str) -> (metadata: Option<Json>)
    ensures
        metadata is Some <==> log_metadata(log@, path@) is Some,
        metadata matches Some(found) ==> log_metadata(log@, path@) == Some(found@),
{
    if !is_log(&log.name) {
        return None;
    }
    match &log.contents {
        None => None,
        Some(contents) => match read_metadata_action(contents.as_str(), path) {
            Ok(metadata) => Some(metadata),
            Err(_) => None,
        },
    }
}

/// The columns that an action gives partition values for, if it adds a file.
pub open spec fn added_keys(action: JsonView) -> Set<Seq<char>> {
    match member(action, "add"@) {
        Some(added) => match member(added, "partitionValues"@) {
            Some(values) => match members_of(values) {
                Some(members) => members.dom(),
                None => Set::empty(),
            },
            None => Set::empty(),
        },
        None => Set::empty(),
    }
}

/// The columns that some lines of a log give partition values for. The first line that is no JSON
/// decides the error.
pub open spec fn keys_in(log_lines: Seq<Seq<char>>) -> Result<Set<Seq<char>>, ErrorView>
    decreases log_lines.len(),
{
    if log_lines.len() == 0 {
        Ok(Set::empty())
    } else {
        match keys_in(log_lines.drop_last()) {
            Err(error) => Err(error),
            Ok(keys) => match json_value(log_lines.last()) {
                None => Err(ErrorView::Json(json_error(log_lines.last()))),
                Some(action) => Ok(keys.union(added_keys(action))),
            },
        }
    }
}

/// The columns that the files a log adds have partition values for.
#[derive(Debug)]
pub struct AddSummary {
    pub partition_keys: TextMap<()>,
}

impl View for AddSummary {
    type V = Set<Seq<char>>;

    open spec fn view(&self) -> Set<Seq<char>> {
        self.partition_keys@.dom()
    }
}

impl AddSummary {
    /// The same columns once more.
    pub(crate) fn copied(&self) -> (copy: AddSummary)
        ensures
            copy@ == self@,
    {
        let n = self.partition_keys.len();
        let ghost keys = self.partition_keys.keys();
        let mut partition_keys: TextMap<()> = TextMap::new();
        let mut i: usize = 0;
        while i < n
            invariant
                n == keys.len(),
                keys == self.partition_keys.keys(),
                i <= n,
                forall|key: Seq<char>|
                    #[trigger] partition_keys@.contains_key(key) <==> keys.take(i as int).contains(key),
            decreases n - i,
        {
            let (key, _) = self.partition_keys.entry(i);
            let ghost before = partition_keys@;
            partition_keys = partition_keys.with(key.to_owned(), ());
            proof {
                let (read, one_more) = (keys.take(i as int), keys.take(i + 1));
                assert(one_more =~= read.push(key@));
                assert forall|other: Seq<char>| #[trigger]
                    partition_keys@.contains_key(other) <==> one_more.contains(other) by {
                    if read.contains(other) {
                        let j = read.index_of(other);
                        assert(one_more[j] == other);
                    }
                    if one_more.contains(other) && other != key@ {
                        let j = one_more.index_of(other);
                        assert(one_more[j] == other);
                        assert(read[j] == other);
                    }
                    assert(one_more[i as int] == key@);
                }
            }
            i += 1;
        }
        assert(keys.take(n as int) =~= keys);
        assert(partition_keys@.dom() =~= self.partition_keys@.dom());
        AddSummary { partition_keys }
    }
}

/// Once a line cannot be read, no further one changes the outcome.
proof fn unreadable_line_stays(log_lines: Seq<Seq<char>>, read: int)
    requires
        0 <= read <= log_lines.len(),
        keys_in(log_lines.take(read)) is Err,
    ensures
        keys_in(log_lines) == keys_in(log_lines.take(read)),
    decreases log_lines.len(),
{
    if read < log_lines.len() {
        assert(log_lines.drop_last().take(read) =~= log_lines.take(read));
        unreadable_line_stays(log_lines.drop_last(), read);
    } else {
        assert(log_lines.take(read) =~= log_lines);
    }
}

/// Adds the columns that an action gives partition values for.
pub fn add_partition_keys(summary: AddSummary, action: &Json) -> (extended: AddSummary)
    ensures
        extended@ == summary@.union(added_keys(action@)),
{
    let members = match action.get("add") {
        Some(added) => match added.get("partitionValues") {
            Some(values) => values.as_object(),
            None => None,
        },
        None => None,
    };
    match members {
        None => {
            assert(added_keys(action@) =~= Set::empty());
            assert(summary@.union(added_keys(action@)) =~= summary@);
            summary
        },
        Some(members) => {
            let n = members.len();
            let ghost keys = members.keys();
            let ghost before = summary@;
            let mut partition_keys = summary.partition_keys;
            let mut i: usize = 0;
            while i < n
                invariant
                    n == keys.len(),
                    keys == members.keys(),
                    i <= n,
                    partition_keys@.dom() =~= before.union(keys.take(i as int).to_set()),
                decreases n - i,
            {
                let (key, _) = members.entry(i);
                let ghost held = partition_keys@.dom();
                partition_keys = partition_keys.with(key.to_owned(), ());
                proof {
                    assert(partition_keys@.dom() =~= held.insert(keys[i as int]));
                    assert(keys.take(i + 1) =~= keys.take(i as int).push(keys[i as int]));
                    let shorter = keys.take(i as int);
                    let longer = keys.take(i + 1);
                    assert(longer.to_set() =~= shorter.to_set().insert(keys[i as int])) by {
                        assert forall|k: Seq<char>| longer.contains(k) implies shorter.contains(k) || k
                            == keys[i as int] by {
                            let j = longer.index_of(k);
                            assert(longer[j] == k);
                            if j < i {
                                assert(shorter[j] == k);
                            }
                        }
                        assert forall|k: Seq<char>| shorter.contains(k) || k == keys[i as int] implies longer.contains(
                            k,
                        ) by {
                            if shorter.contains(k) {
                                let j = shorter.index_of(k);
                                assert(longer[j] == k);
                            } else {
                                assert(longer[i as int] == k);
                            }
                        }
                    }
                    assert(partition_keys@.dom() =~= before.union(longer.to_set()));
                }
                i += 1;
            }
            proof {
                assert(keys.take(n as int) =~= keys);
                assert(keys.to_set() =~= added_keys(action@)) by {
                    assert forall|k: Seq<char>| keys.to_set().contains(k) == added_keys(action@).contains(k) by {
                        assert(keys.contains(k) == members@.contains_key(k));
                    }
                }
            }
            AddSummary { partition_keys }
        },
    }
}

/// The columns that the files a log adds have partition values for.
pub fn latest_add_summary(contents: &str) -> (summary: Result<AddSummary, LabError>)
    ensures
        summary matches Ok(found) ==> keys_in(lines(contents@)) == Ok::<Set<Seq<char>>, ErrorView>(found@),
        summary matches Err(error) ==> keys_in(lines(contents@)) == Err::<Set<Seq<char>>, ErrorView>(error@),
{
    let list = text_lines(contents);
    let ghost all = lines(contents@);
    let mut summary = AddSummary { partition_keys: TextMap::new() };
    let mut i: usize = 0;
    assert(all.take(0) =~= Seq::empty());
    assert(summary@ =~= Set::empty());
    while i < list.len()
        invariant
            texts(list@) == all,
            all == lines(contents@),
            i <= list@.len(),
            keys_in(all.take(i as int)) == Ok::<Set<Seq<char>>, ErrorView>(summary@),
        decreases list@.len() - i,
    {
        proof {
            assert(texts(list@)[i as int] == list@[i as int]@);
            assert(all.take(i + 1).drop_last() =~= all.take(i as int));
            assert(all.take(i + 1).last() == all[i as int]);
            if keys_in(all.take(i + 1)) is Err {
                unreadable_line_stays(all, i + 1);
            }
        }
        match parse_json(list[i].as_str()) {
            Err(failure) => {
                return Err(LabError::Json(failure));
            },
            Ok(action) => {
                summary = add_partition_keys(summary, &action);
            },
        }
        i += 1;
    }
    assert(all.take(all.len() as int) =~= all);
    Ok(summary)
}

/// The name of the log with a version: the version with twenty digits, and the ending.
pub open spec fn log_name(version: u64) -> Seq<char> {
    padded(version as nat, 20) + ".json"@
}

/// The name of the log with a version.
pub fn log_file_name(version: u64) -> (name: String)
    ensures
        name@ == log_name(version),
{
    padded_text(version, 20).concat(".json")
}

/// The bytes of the name of the log with a version: one for each character.
proof fn log_name_bytes(version: u64)
    ensures
        encode_utf8(log_name(version)).len() == 25,
        forall|i: int| 0 <= i < 25 ==> #[trigger] encode_utf8(log_name(version))[i] == log_name(version)[i] as u8,
        log_name(version).len() == 25,
        log_name(version).take(20) == padded(version as nat, 20),
        forall|i: int| 0 <= i < 20 ==> is_digit(#[trigger] log_name(version)[i]),
{
    reveal_strlit(".json");
    padded_reads_back(version);
    let name = log_name(version);
    assert(name.take(20) =~= padded(version as nat, 20));
    assert forall|i: int| 0 <= i < 20 implies is_digit(#[trigger] name[i]) by {
        assert(name[i] == padded(version as nat, 20)[i]);
    }
    assert forall|i: int| 0 <= i < name.len() implies '\0' <= #[trigger] name[i] <= '\u{7f}' by {
        if i >= 20 {
            assert(name[i] == ".json"@[i - 20]);
        }
    }
    assert(is_ascii_chars(name));
    is_ascii_chars_encode_utf8(name);
}

/// A log is found again by its name, which gives its version back.
pub proof fn log_name_gives_version(version: u64)
    ensures
        is_log_name(encode_utf8(log_name(version))),
        version_of(encode_utf8(log_name(version))) == Ok::<int, ErrorView>(version as int),
{
    reveal_strlit(".json");
    log_name_bytes(version);
    let name = log_name(version);
    let bytes = encode_utf8(name);
    let digits = padded(version as nat, 20);
    assert(bytes.skip(20) =~= log_ending()) by {
        assert(name[20] == '.' && name[21] == 'j' && name[22] == 's' && name[23] == 'o' && name[24] == 'n');
        assert(bytes.skip(20)[0] == bytes[20] && bytes.skip(20)[1] == bytes[21] && bytes.skip(20)[2] == bytes[22]
            && bytes.skip(20)[3] == bytes[23] && bytes.skip(20)[4] == bytes[24]);
    }
    padded_reads_back(version);
    assert(is_ascii_chars(digits)) by {
        assert forall|i: int| 0 <= i < digits.len() implies '\0' <= #[trigger] digits[i] <= '\u{7f}' by {
            assert(is_digit(digits[i]));
        }
    }
    is_ascii_chars_encode_utf8(digits);
    assert(log_stem(bytes) =~= encode_utf8(digits)) by {
        assert forall|i: int| 0 <= i < 20 implies log_stem(bytes)[i] == encode_utf8(digits)[i] by {
            assert(bytes[i] == name[i] as u8);
            assert(name[i] == digits[i]);
            assert(encode_utf8(digits)[i] == digits[i] as u8);
        }
    }
    encode_utf8_valid_utf8(digits);
    encode_utf8_decode_utf8(digits);
}

/// The names of logs stand in the order of their versions.
pub proof fn log_names_ascend(earlier: u64, later: u64)
    requires
        earlier < later,
    ensures
        bytes_before(encode_utf8(log_name(earlier)), encode_utf8(log_name(later))),
{
    twenty_digits_suffice(later);
    let at = padded_digits_differ(earlier as nat, later as nat, 20);
    log_name_bytes(earlier);
    log_name_bytes(later);
    let (a, b) = (log_name(earlier), log_name(later));
    let (x, y) = (encode_utf8(a), encode_utf8(b));
    assert forall|i: int| 0 <= i < at implies x.take(at)[i] == y.take(at)[i] by {
        assert(padded(earlier as nat, 20).take(at)[i] == padded(later as nat, 20).take(at)[i]);
        assert(x[i] == a[i] as u8 && y[i] == b[i] as u8);
    }
    assert(x.take(at) =~= y.take(at));
    assert(a[at] == padded(earlier as nat, 20)[at] && b[at] == padded(later as nat, 20)[at]);
    assert(x[at] == a[at] as u8 && y[at] == b[at] as u8);
    assert(is_digit(a[at]) && is_digit(b[at]));
    assert(smaller_at(x, y, at));
}

/// Every log has the name that goes with its version.
pub open spec fn logs_are_versioned(names: Seq<Seq<u8>>) -> bool {
    forall|i: int|
        0 <= i < names.len() && is_log_name(#[trigger] names[i]) ==> exists|version: u64|
            names[i] == #[trigger] encode_utf8(log_name(version))
}

/// In a log whose files are named for their versions, the file that is written with the next version
/// becomes the latest log, and no file has its name before.
pub proof fn next_log_is_latest(names: Seq<Seq<u8>>, version: u64)
    requires
        logs_are_versioned(names),
        next_version(names) == Ok::<int, ErrorView>(version as int),
    ensures
        latest_log(names.push(encode_utf8(log_name(version)))) == Some(encode_utf8(log_name(version))),
        !names.contains(encode_utf8(log_name(version))),
{
    let next = encode_utf8(log_name(version));
    let extended = names.push(next);
    let latest = latest_log(names)->0;
    assert(is_latest_log(names, latest));
    let at = names.index_of(latest);
    assert(names[at] == latest);
    let last = choose|last: u64| names[at] == #[trigger] encode_utf8(log_name(last));
    log_name_gives_version(last);
    assert(last + 1 == version);
    log_names_ascend(last, version);
    log_name_gives_version(version);
    assert(extended[names.len() as int] == next);
    assert forall|i: int| 0 <= i < extended.len() && is_log_name(#[trigger] extended[i]) implies extended[i] == next
        || bytes_before(extended[i], next) by {
        if i < names.len() {
            assert(extended[i] == names[i]);
            if names[i] != latest {
                bytes_before_transitive(names[i], latest, next);
            }
        }
    }
    assert(is_latest_log(extended, next));
    latest_log_is_unique(extended, next);
    if names.contains(next) {
        let same = names.index_of(next);
        assert(names[same] == next);
        assert(next == latest || bytes_before(next, latest));
        if next != latest {
            bytes_before_transitive(next, latest, next);
        }
        bytes_before_irreflexive(next);
    }
}

/// A file is a log exactly if its name ends in `.json` and something stands before that.
pub proof fn logs_end_in_json(name: Seq<u8>)
    ensures
        is_log_name(name) <==> {
            let n = name.len() as int;
            &&& n > 5
            &&& name[n - 5] == '.' as u8
            &&& name[n - 4] == 'j' as u8
            &&& name[n - 3] == 's' as u8
            &&& name[n - 2] == 'o' as u8
            &&& name[n - 1] == 'n' as u8
        },
{
    let n = name.len() as int;
    if n > 5 {
        let ending = name.skip(n - 5);
        assert(ending[0] == name[n - 5] && ending[1] == name[n - 4] && ending[2] == name[n - 3] && ending[3] == name[n
            - 2] && ending[4] == name[n - 1]);
        if name[n - 5] == '.' as u8 && name[n - 4] == 'j' as u8 && name[n - 3] == 's' as u8 && name[n - 2] == 'o' as u8
            && name[n - 1] == 'n' as u8 {
            assert(ending =~= log_ending());
        }
    }
}

/// The latest log is one of the logs, and no log comes after it in the order of names.
pub proof fn no_log_comes_after_the_latest(names: Seq<Seq<u8>>, at: int)
    requires
        latest_log(names) is Some,
        0 <= at < names.len(),
        is_log_name(names[at]),
    ensures
        names.contains(latest_log(names)->0),
        is_log_name(latest_log(names)->0),
        !bytes_before(latest_log(names)->0, names[at]),
{
    let latest = choose|name: Seq<u8>| is_latest_log(names, name);
    assert(is_latest_log(names, latest));
    if bytes_before(latest, names[at]) {
        if names[at] != latest {
            bytes_before_transitive(latest, names[at], latest);
        }
        bytes_before_irreflexive(latest);
    }
}

/// The version of a log is the number before the ending of its name, and the next version is one above
/// that of the latest log.
pub proof fn version_stands_in_the_name(stem: Seq<char>, names: Seq<Seq<u8>>)
    ensures
        ({
            let name = encode_utf8(stem) + seq!['.' as u8, 'j' as u8, 's' as u8, 'o' as u8, 'n' as u8];
            &&& version_of(name) == match read_integer(stem, 0, 0xffff_ffff_ffff_ffff) {
                Ok(version) => Ok::<int, ErrorView>(version),
                Err(error) => Err::<int, ErrorView>(ErrorView::LogVersion(error)),
            }
            &&& latest_log(names) == Some(name) ==> next_version(names) == match read_integer(
                stem,
                0,
                0xffff_ffff_ffff_ffff,
            ) {
                Ok(version) => Ok::<int, ErrorView>(version + 1),
                Err(error) => Err::<int, ErrorView>(ErrorView::LogVersion(error)),
            }
            &&& latest_log(names) is None ==> next_version(names) == Err::<int, ErrorView>(ErrorView::MissingLogJson)
        }),
{
    let name = encode_utf8(stem) + seq!['.' as u8, 'j' as u8, 's' as u8, 'o' as u8, 'n' as u8];
    assert(log_stem(name) =~= encode_utf8(stem));
    encode_utf8_valid_utf8(stem);
    encode_utf8_decode_utf8(stem);
}

/// A log whose name is no text before the ending has no version.
pub proof fn name_without_text_has_no_version(stem: Seq<u8>, ending: Seq<u8>, names: Seq<Seq<u8>>)
    requires
        !valid_utf8(stem),
        ending.len() == 5,
    ensures
        version_of(stem + ending) == Err::<int, ErrorView>(ErrorView::LogName),
        latest_log(names) == Some(stem + ending) ==> next_version(names) == Err::<int, ErrorView>(ErrorView::LogName),
{
    assert(log_stem(stem + ending) =~= stem);
}

/// The name of a log is its version with twenty digits and the ending.
pub proof fn log_name_has_twenty_digits(version: u64, at: int)
    requires
        0 <= at < 20,
    ensures
        log_name(version).len() == 25,
        '0' <= log_name(version)[at] <= '9',
        log_name(version).skip(20) == seq!['.', 'j', 's', 'o', 'n'],
        read_integer(log_name(version).take(20), 0, 0xffff_ffff_ffff_ffff) == Ok::<int, IntegerError>(version as int),
{
    reveal_strlit(".json");
    log_name_bytes(version);
    padded_reads_back(version);
    assert(log_name(version).skip(20) =~= seq!['.', 'j', 's', 'o', 'n']);
}

/// The metadata of a log is what the first line with a member `metaData` has there. The lines before it
/// have to be JSON, and those behind it do not matter.
pub proof fn first_metadata_counts(log_lines: Seq<Seq<char>>, path: Seq<char>, at: int)
    requires
        0 <= at < log_lines.len(),
        forall|i: int|
            0 <= i < at ==> json_value(#[trigger] log_lines[i]) is Some && member(
                json_value(log_lines[i])->0,
                "metaData"@,
            ) is None,
    ensures
        json_value(log_lines[at]) is None ==> metadata_in(log_lines, path) == Err::<JsonView, ErrorView>(
            ErrorView::Json(json_error(log_lines[at])),
        ),
        json_value(log_lines[at]) is Some && member(json_value(log_lines[at])->0, "metaData"@) is Some ==> metadata_in(
            log_lines,
            path,
        ) == Ok::<JsonView, ErrorView>(member(json_value(log_lines[at])->0, "metaData"@)->0),
    decreases at,
{
    if at > 0 {
        let rest = log_lines.drop_first();
        assert(json_value(log_lines[0]) is Some);
        assert forall|i: int| 0 <= i < at - 1 implies json_value(#[trigger] rest[i]) is Some && member(
            json_value(rest[i])->0,
            "metaData"@,
        ) is None by {
            assert(rest[i] == log_lines[i + 1]);
        }
        first_metadata_counts(rest, path, at - 1);
    }
}

/// A log in which no line has a member `metaData` holds no metadata, and the given path is reported.
pub proof fn log_without_metadata_is_reported(log_lines: Seq<Seq<char>>, path: Seq<char>)
    requires
        forall|i: int|
            0 <= i < log_lines.len() ==> json_value(#[trigger] log_lines[i]) is Some && member(
                json_value(log_lines[i])->0,
                "metaData"@,
            ) is None,
    ensures
        metadata_in(log_lines, path) == Err::<JsonView, ErrorView>(ErrorView::MissingMetadataAction(path)),
    decreases log_lines.len(),
{
    if log_lines.len() > 0 {
        let rest = log_lines.drop_first();
        assert(json_value(log_lines[0]) is Some);
        assert forall|i: int| 0 <= i < rest.len() implies json_value(#[trigger] rest[i]) is Some && member(
            json_value(rest[i])->0,
            "metaData"@,
        ) is None by {
            assert(rest[i] == log_lines[i + 1]);
        }
        log_without_metadata_is_reported(rest, path);
    }
}

/// A file gives metadata exactly if it is a log, could be read, and holds metadata.
pub proof fn only_logs_give_metadata(log: LogFileView, path: Seq<char>)
    ensures
        log_metadata(log, path) is Some <==> is_log_name(log.name) && log.contents is Some && metadata_in(
            lines(log.contents->0),
            path,
        ) is Ok,
        log_metadata(log, path) is Some ==> metadata_in(lines(log.contents->0), path) == Ok::<JsonView, ErrorView>(
            log_metadata(log, path)->0,
        ),
{
}

/// The metadata of a table comes from one of its logs, and no log that comes later holds any. Where no
/// log holds any, the path of the table is reported.
pub proof fn no_metadata_comes_after_the_latest(logs: Seq<LogFileView>, path: Seq<char>)
    requires
        file_names_differ(logs),
    ensures
        latest_metadata(logs, path) matches Ok(metadata) ==> exists|at: int|
            0 <= at < logs.len() && log_metadata(#[trigger] logs[at], path) == Some(metadata) && forall|i: int|
                0 <= i < logs.len() && bytes_before(logs[at].name, (#[trigger] logs[i]).name) ==> log_metadata(
                    logs[i],
                    path,
                ) is None,
        latest_metadata(logs, path) matches Err(error) ==> error == ErrorView::MissingMetadataAction(path) && forall|i: int|
            0 <= i < logs.len() ==> log_metadata(#[trigger] logs[i], path) is None,
{
    latest_metadata_is_there(logs, path);
    if latest_metadata(logs, path) is Ok {
        let at = choose|at: int| is_latest_metadata(logs, path, at);
        assert(is_latest_metadata(logs, path, at));
        assert forall|i: int|
            0 <= i < logs.len() && bytes_before(logs[at].name, (#[trigger] logs[i]).name) implies log_metadata(
            logs[i],
            path,
        ) is None by {
            if log_metadata(logs[i], path) is Some {
                if i != at {
                    bytes_before_transitive(logs[at].name, logs[i].name, logs[at].name);
                }
                bytes_before_irreflexive(logs[at].name);
            }
        }
    }
}

/// A column is among those that some lines give partition values for exactly if one of the lines is an
/// action that adds a file, with an object of partition values in which the column is a member.
/// Whatever else the action holds does not matter.
pub proof fn keys_are_those_of_added_files(log_lines: Seq<Seq<char>>, key: Seq<char>)
    requires
        forall|i: int| 0 <= i < log_lines.len() ==> json_value(#[trigger] log_lines[i]) is Some,
    ensures
        keys_in(log_lines) is Ok,
        keys_in(log_lines)->Ok_0.contains(key) <==> exists|i: int|
            0 <= i < log_lines.len() && ({
                let action = json_value(#[trigger] log_lines[i])->0;
                &&& action is Object
                &&& action->Object_0.contains_key("add"@)
                &&& action->Object_0["add"@] is Object
                &&& action->Object_0["add"@]->Object_0.contains_key("partitionValues"@)
                &&& action->Object_0["add"@]->Object_0["partitionValues"@] is Object
                &&& action->Object_0["add"@]->Object_0["partitionValues"@]->Object_0.contains_key(key)
            }),
    decreases log_lines.len(),
{
    if log_lines.len() > 0 {
        let front = log_lines.drop_last();
        let last = log_lines.len() - 1;
        assert forall|i: int| 0 <= i < front.len() implies json_value(#[trigger] front[i]) is Some by {
            assert(front[i] == log_lines[i]);
        }
        assert(json_value(log_lines[last]) is Some);
        keys_are_those_of_added_files(front, key);
        if keys_in(front)->Ok_0.contains(key) {
            let i = choose|i: int|
                0 <= i < front.len() && ({
                    let action = json_value(#[trigger] front[i])->0;
                    &&& action is Object
                    &&& action->Object_0.contains_key("add"@)
                    &&& action->Object_0["add"@] is Object
                    &&& action->Object_0["add"@]->Object_0.contains_key("partitionValues"@)
                    &&& action->Object_0["add"@]->Object_0["partitionValues"@] is Object
                    &&& action->Object_0["add"@]->Object_0["partitionValues"@]->Object_0.contains_key(key)
                });
            assert(log_lines[i] == front[i]);
        }
        if added_keys(json_value(log_lines[last])->0).contains(key) {
            assert(json_value(log_lines[last])->0 is Object);
        }
        assert forall|i: int| 0 <= i < front.len() implies #[trigger] log_lines[i] == front[i] by {}
    }
}

/// The first line that is no JSON decides the error for the partition values of a log.
pub proof fn first_broken_line_is_reported(log_lines: Seq<Seq<char>>, at: int)
    requires
        0 <= at < log_lines.len(),
        forall|i: int| 0 <= i < at ==> json_value(#[trigger] log_lines[i]) is Some,
        json_value(log_lines[at]) is None,
    ensures
        keys_in(log_lines) == Err::<Set<Seq<char>>, ErrorView>(ErrorView::Json(json_error(log_lines[at]))),
{
    let read = log_lines.take(at);
    assert forall|i: int| 0 <= i < read.len() implies json_value(#[trigger] read[i]) is Some by {
        assert(read[i] == log_lines[i]);
    }
    keys_are_those_of_added_files(read, Seq::empty());
    let more = log_lines.take(at + 1);
    assert(more.drop_last() =~= read);
    assert(more.last() == log_lines[at]);
    unreadable_line_stays(log_lines, at + 1);
}

/// What files of a log, their names and the columns of a summary stand for: each part for itself.
pub proof fn logs_stand_for_themselves(
    log: LogFile,
    logs: Seq<LogFile>,
    names: Seq<Vec<u8>>,
    summary: AddSummary,
    key: Seq<char>,
    at: int,
)
    ensures
        log@.name == log.name@,
        log@.contents is Some <==> log.contents is Some,
        log.contents is Some ==> log@.contents == Some(log.contents->0@),
        log_views(logs).len() == logs.len(),
        0 <= at < logs.len() ==> log_views(logs)[at] == logs[at]@,
        byte_strings(names).len() == names.len(),
        0 <= at < names.len() ==> byte_strings(names)[at] == names[at]@,
        summary@.contains(key) <==> summary.partition_keys@.contains_key(key),
{
}

/// Files have different names exactly if no two places hold the same one, and logs are named for their
/// versions exactly if each has the name that goes with some version.
pub proof fn names_of_files_are_compared(logs: Seq<LogFileView>, names: Seq<Seq<u8>>)
    ensures
        file_names_differ(logs) <==> forall|i: int, j: int|
            0 <= i < j < logs.len() ==> (#[trigger] logs[i]).name != (#[trigger] logs[j]).name,
        logs_are_versioned(names) <==> forall|i: int|
            0 <= i < names.len() && is_log_name(#[trigger] names[i]) ==> exists|version: u64|
                names[i] == #[trigger] encode_utf8(log_name(version)),
{
}

} // verus!
