//! The single checks on what the tables look like on disk, and on what queries count in them.
use crate::error::{LabError, Violation};
#[allow(unused_imports)]
use crate::error::{failure, ErrorView, ViolationView};
#[allow(unused_imports)]
use crate::log::byte_strings;
use crate::log::AddSummary;
use crate::schema::partition_columns;
#[allow(unused_imports)]
use crate::schema::{literals, partition_names, physical_name_of};
use crate::summary::RECORDS_PER_PARTITION;
use crate::tables::Table;
use crate::text::{join_path, same_text, starts_with};
#[allow(unused_imports)]
use crate::text::joined_path;
use vstd::prelude::*;

verus! {

/// The directory that holds the events of the first date in a table with Hive-style partitions.
pub open spec fn hive_path(table_path: Seq<char>) -> Seq<char> {
    joined_path(table_path, "partition_year=2026/partition_month=04/partition_day=27"@)
}

/// The directory that holds the events of the first date in a table with Hive-style partitions.
pub fn hive_partition(table_path: &str) -> (path: String)
    ensures
        path@ == hive_path(table_path@),
{
    join_path(table_path, "partition_year=2026/partition_month=04/partition_day=27")
}

/// The failure of the check for the directory of a Hive-style partition.
pub open spec fn hive_failure(table_path: Seq<char>, exists: bool) -> Option<ErrorView> {
    if exists {
        None
    } else {
        Some(ErrorView::Violated(ViolationView::MissingHivePartition(hive_path(table_path))))
    }
}

/// Checks that a table has the directory of a Hive-style partition, given whether it exists.
pub fn assert_hive_partition_exists(table_path: &str, exists: bool) -> (outcome: Result<(), LabError>)
    ensures
        failure(outcome) == hive_failure(table_path@, exists),
{
    if exists {
        Ok(())
    } else {
        Err(LabError::Violated(Violation::MissingHivePartition(hive_partition(table_path))))
    }
}

/// The directory that a table has if it names its partitions after its columns.
pub open spec fn logical_path(table_path: Seq<char>) -> Seq<char> {
    joined_path(table_path, "partition_year=2026"@)
}

/// The directory that a table has if it names its partitions after its columns.
pub fn logical_directory(table_path: &str) -> (path: String)
    ensures
        path@ == logical_path(table_path@),
{
    join_path(table_path, "partition_year=2026")
}

/// The failure of the check for directories that are named after columns.
pub open spec fn logical_directory_failure(exists: bool) -> Option<ErrorView> {
    if exists {
        Some(ErrorView::Violated(ViolationView::LogicalDirectories))
    } else {
        None
    }
}

/// Checks that a table does not name its partitions after its columns, given whether the directory
/// for that exists.
pub fn assert_no_logical_directories(exists: bool) -> (outcome: Result<(), LabError>)
    ensures
        failure(outcome) == logical_directory_failure(exists),
{
    if exists {
        Err(LabError::Violated(Violation::LogicalDirectories))
    } else {
        Ok(())
    }
}

/// Every key is a physical name.
pub open spec fn are_physical(keys: Set<Seq<char>>) -> bool {
    forall|key: Seq<char>| #[trigger] keys.contains(key) ==> "col-"@.is_prefix_of(key)
}

/// The failure of the check for physical names.
pub open spec fn physical_keys_failure(keys: Set<Seq<char>>) -> Option<ErrorView> {
    if are_physical(keys) {
        None
    } else {
        Some(ErrorView::Violated(ViolationView::PhysicalPartitionKeys(keys)))
    }
}

/// Checks that partition values are kept under physical names.
pub fn assert_physical_partition_keys(summary: &AddSummary) -> (outcome: Result<(), LabError>)
    ensures
        failure(outcome) == physical_keys_failure(summary@),
{
    let n = summary.partition_keys.len();
    let ghost keys = summary.partition_keys.keys();
    let mut i: usize = 0;
    while i < n
        invariant
            n == keys.len(),
            keys == summary.partition_keys.keys(),
            i <= n,
            forall|j: int| 0 <= j < i ==> "col-"@.is_prefix_of(#[trigger] keys[j]),
        decreases n - i,
    {
        let (key, _) = summary.partition_keys.entry(i);
        if !starts_with(key, "col-") {
            assert(summary@.contains(key@));
            return Err(LabError::Violated(Violation::PhysicalPartitionKeys(summary.copied())));
        }
        i += 1;
    }
    assert forall|key: Seq<char>| #[trigger] summary@.contains(key) implies "col-"@.is_prefix_of(key) by {
        assert(summary.partition_keys@.contains_key(key));
        let j = keys.index_of(key);
        assert(keys[j] == key);
    }
    Ok(())
}

/// The failure of the check for the names of the partition columns.
pub open spec fn logical_keys_failure(keys: Set<Seq<char>>) -> Option<ErrorView> {
    if keys == partition_names().to_set() {
        None
    } else {
        Some(ErrorView::Violated(ViolationView::LogicalPartitionKeys(keys)))
    }
}

/// Checks that partition values are kept under the names of the partition columns, and under no
/// others.
pub fn assert_logical_partition_keys(summary: &AddSummary) -> (outcome: Result<(), LabError>)
    ensures
        failure(outcome) == logical_keys_failure(summary@),
{
    let expected = partition_columns();
    let ghost names = partition_names();
    let n = summary.partition_keys.len();
    let ghost keys = summary.partition_keys.keys();
    assert(literals(expected@) == names);
    assert(names.len() == 3);
    assert forall|i: int| 0 <= i < 3 implies (#[trigger] expected@[i])@ == names[i] by {
        assert(literals(expected@)[i] == expected@[i]@);
    }
    let mut i: usize = 0;
    while i < 3
        invariant
            i <= 3,
            names == partition_names(),
            names.len() == 3,
            forall|j: int| 0 <= j < 3 ==> (#[trigger] expected@[j])@ == names[j],
            forall|j: int| 0 <= j < i ==> summary@.contains(#[trigger] names[j]),
        decreases 3 - i,
    {
        if summary.partition_keys.get(expected[i]).is_none() {
            proof {
                assert(expected@[i as int]@ == names[i as int]);
                assert(names.to_set().contains(names[i as int]));
            }
            return Err(LabError::Violated(Violation::LogicalPartitionKeys(summary.copied())));
        }
        assert(expected@[i as int]@ == names[i as int]);
        i += 1;
    }
    let mut at: usize = 0;
    while at < n
        invariant
            n == keys.len(),
            keys == summary.partition_keys.keys(),
            names == partition_names(),
            names.len() == 3,
            forall|j: int| 0 <= j < 3 ==> (#[trigger] expected@[j])@ == names[j],
            at <= n,
            forall|j: int| 0 <= j < at ==> names.contains(#[trigger] keys[j]),
        decreases n - at,
    {
        let (key, _) = summary.partition_keys.entry(at);
        assert(expected@[0]@ == names[0] && expected@[1]@ == names[1] && expected@[2]@ == names[2]);
        if !(same_text(key, expected[0]) || same_text(key, expected[1]) || same_text(key, expected[2])) {
            proof {
                assert(summary@.contains(key@));
                assert(!names.contains(key@));
                assert(!names.to_set().contains(key@));
            }
            return Err(LabError::Violated(Violation::LogicalPartitionKeys(summary.copied())));
        }
        at += 1;
    }
    proof {
        assert forall|key: Seq<char>| #[trigger] summary@.contains(key) <==> names.to_set().contains(key) by {
            if summary@.contains(key) {
                assert(summary.partition_keys@.contains_key(key));
                let j = keys.index_of(key);
                assert(keys[j] == key);
            }
            if names.to_set().contains(key) {
                let j = names.index_of(key);
                assert(names[j] == key);
            }
        }
        assert(summary@ =~= names.to_set());
    }
    Ok(())
}

/// A digit or a letter from `a` to `f`, small or capital.
pub open spec fn is_hex_digit(byte: u8) -> bool {
    0x30 <= byte <= 0x39 || 0x41 <= byte <= 0x46 || 0x61 <= byte <= 0x66
}

/// The name of a directory that files are spread over at random: two hexadecimal digits.
pub open spec fn is_random_prefix(name: Seq<u8>) -> bool {
    name.len() == 2 && is_hex_digit(name[0]) && is_hex_digit(name[1])
}

/// One of the names is that of a directory that files are spread over at random.
pub open spec fn some_random_prefix(names: Seq<Seq<u8>>) -> bool {
    exists|i: int| 0 <= i < names.len() && is_random_prefix(#[trigger] names[i])
}

fn hex_digit(byte: u8) -> (found: bool)
    ensures
        found <==> is_hex_digit(byte),
{
    (0x30 <= byte && byte <= 0x39) || (0x41 <= byte && byte <= 0x46) || (0x61 <= byte && byte <= 0x66)
}

/// Whether one of the names in the directory of a table is that of a directory that files are spread
/// over at random.
pub fn has_random_prefix_dirs(names: &Vec<Vec<u8>>) -> (found: bool)
    ensures
        found <==> some_random_prefix(byte_strings(names@)),
{
    let ghost all = byte_strings(names@);
    let mut i: usize = 0;
    while i < names.len()
        invariant
            all == byte_strings(names@),
            i <= names@.len(),
            forall|j: int| 0 <= j < i ==> !is_random_prefix(#[trigger] all[j]),
        decreases names@.len() - i,
    {
        let name = &names[i];
        assert(all[i as int] == name@);
        if name.len() == 2 && hex_digit(name[0]) && hex_digit(name[1]) {
            return true;
        }
        i += 1;
    }
    false
}

/// The failure of the check for directories that files are spread over at random.
pub open spec fn random_prefix_failure(names: Seq<Seq<u8>>) -> Option<ErrorView> {
    if some_random_prefix(names) {
        Some(ErrorView::Violated(ViolationView::RandomPrefixDirectories))
    } else {
        None
    }
}

/// Checks that the files of a table are not spread over directories at random.
pub fn assert_no_random_prefix_dirs(names: &Vec<Vec<u8>>) -> (outcome: Result<(), LabError>)
    ensures
        failure(outcome) == random_prefix_failure(byte_strings(names@)),
{
    if has_random_prefix_dirs(names) {
        Err(LabError::Violated(Violation::RandomPrefixDirectories))
    } else {
        Ok(())
    }
}

/// What a query for a count gave.
#[derive(Debug)]
pub enum QueryResult {
    /// No batch at all.
    NoBatches,
    /// A first column of another type.
    NotInt64,
    /// A number.
    Count(i64),
}

/// The count that a query gave.
pub open spec fn counted(result: QueryResult, sql: Seq<char>) -> Result<i64, ErrorView> {
    match result {
        QueryResult::NoBatches => Err(ErrorView::NoBatches(sql)),
        QueryResult::NotInt64 => Err(ErrorView::CountNotInt64(sql)),
        QueryResult::Count(rows) => Ok(rows),
    }
}

/// The count that a query gave.
pub fn query_count(result: &QueryResult, sql: &str) -> (count: Result<i64, LabError>)
    ensures
        count matches Ok(rows) ==> counted(*result, sql@) == Ok::<i64, ErrorView>(rows),
        count matches Err(error) ==> counted(*result, sql@) == Err::<i64, ErrorView>(error@),
{
    match result {
        QueryResult::NoBatches => Err(LabError::NoBatches(sql.to_owned())),
        QueryResult::NotInt64 => Err(LabError::CountNotInt64(sql.to_owned())),
        QueryResult::Count(rows) => Ok(*rows),
    }
}

/// The failure of the check on a count.
pub open spec fn query_failure(result: QueryResult, sql: Seq<char>, expected: i64) -> Option<ErrorView> {
    match counted(result, sql) {
        Err(error) => Some(error),
        Ok(rows) => if rows == expected {
            None
        } else {
            Some(ErrorView::Violated(ViolationView::QueryCount { sql, rows, expected_rows: expected }))
        },
    }
}

/// Checks that a query gave the expected count.
pub fn assert_query_count(result: &QueryResult, sql: &str, expected: i64) -> (outcome: Result<(), LabError>)
    ensures
        failure(outcome) == query_failure(*result, sql@, expected),
{
    match query_count(result, sql) {
        Err(error) => Err(error),
        Ok(rows) => if rows == expected {
            Ok(())
        } else {
            Err(
                LabError::Violated(
                    Violation::QueryCount { sql: sql.to_owned(), rows, expected_rows: expected },
                ),
            )
        },
    }
}

/// A query for a count in a table, and the count that is expected.
#[derive(Clone, Copy, Debug)]
pub struct QueryCheck {
    pub table: Table,
    pub sql: &'static str,
    pub expected: i64,
}

/// What a query and its expected count stand for.
pub struct QueryCheckView {
    pub table: Table,
    pub sql: Seq<char>,
    pub expected: i64,
}

impl View for QueryCheck {
    type V = QueryCheckView;

    open spec fn view(&self) -> QueryCheckView {
        QueryCheckView { table: self.table, sql: self.sql@, expected: self.expected }
    }
}

/// What a list of queries stands for.
pub open spec fn check_views(checks: Seq<QueryCheck>) -> Seq<QueryCheckView> {
    checks.map_values(|check: QueryCheck| check@)
}

/// Counts the events of the first date.
pub open spec fn date_query() -> Seq<char> {
    "SELECT COUNT(*) FROM events WHERE partition_year = '2026' AND partition_month = '04' AND partition_day = '27'"@
}

/// Counts the events of one id, by a column that the tables get when they evolve.
pub open spec fn event_query() -> Seq<char> {
    "SELECT COUNT(*) FROM events WHERE event_id = 100001 AND source_system = 'batch'"@
}

/// Counts the events of the first date that one customer has, with amounts of one range.
pub open spec fn report_query() -> Seq<char> {
    "SELECT COUNT(*) FROM events WHERE partition_year = '2026' AND partition_month = '04' AND partition_day = '27' AND customer_name = 'customer-100123' AND amount BETWEEN 494.90 AND 494.92"@
}

/// The queries by columns under their logical names.
pub open spec fn logical_filter_checks() -> Seq<QueryCheckView> {
    seq![
        QueryCheckView { table: Table::Regular, sql: date_query(), expected: RECORDS_PER_PARTITION as i64 },
        QueryCheckView { table: Table::ColumnMapping, sql: date_query(), expected: RECORDS_PER_PARTITION as i64 },
        QueryCheckView { table: Table::ColumnMapping, sql: event_query(), expected: 1 },
        QueryCheckView { table: Table::EvolvedColumnMapping, sql: date_query(), expected: (RECORDS_PER_PARTITION * 2) as i64 },
        QueryCheckView { table: Table::EvolvedColumnMapping, sql: event_query(), expected: 1 },
    ]
}

/// The queries that a report makes: the same one to every table.
pub open spec fn report_filter_checks() -> Seq<QueryCheckView> {
    seq![
        QueryCheckView { table: Table::Regular, sql: report_query(), expected: 1 },
        QueryCheckView { table: Table::ColumnMapping, sql: report_query(), expected: 1 },
        QueryCheckView { table: Table::EvolvedColumnMapping, sql: report_query(), expected: 1 },
    ]
}

/// The queries that a report makes.
pub fn report_filters() -> (checks: Vec<QueryCheck>)
    ensures
        check_views(checks@) == report_filter_checks(),
{
    let sql = "SELECT COUNT(*) FROM events WHERE partition_year = '2026' AND partition_month = '04' AND partition_day = '27' AND customer_name = 'customer-100123' AND amount BETWEEN 494.90 AND 494.92";
    let checks = vec![
        QueryCheck { table: Table::Regular, sql, expected: 1 },
        QueryCheck { table: Table::ColumnMapping, sql, expected: 1 },
        QueryCheck { table: Table::EvolvedColumnMapping, sql, expected: 1 },
    ];
    assert(check_views(checks@) =~= report_filter_checks());
    checks
}

/// All queries: those by columns under their logical names, and then those that a report makes.
pub fn logical_filters() -> (checks: Vec<QueryCheck>)
    ensures
        check_views(checks@) == logical_filter_checks() + report_filter_checks(),
{
    let by_date = "SELECT COUNT(*) FROM events WHERE partition_year = '2026' AND partition_month = '04' AND partition_day = '27'";
    let by_event = "SELECT COUNT(*) FROM events WHERE event_id = 100001 AND source_system = 'batch'";
    let mut checks = vec![
        QueryCheck { table: Table::Regular, sql: by_date, expected: RECORDS_PER_PARTITION as i64 },
        QueryCheck { table: Table::ColumnMapping, sql: by_date, expected: RECORDS_PER_PARTITION as i64 },
        QueryCheck { table: Table::ColumnMapping, sql: by_event, expected: 1 },
        QueryCheck { table: Table::EvolvedColumnMapping, sql: by_date, expected: (RECORDS_PER_PARTITION * 2) as i64 },
        QueryCheck { table: Table::EvolvedColumnMapping, sql: by_event, expected: 1 },
    ];
    assert(check_views(checks@) =~= logical_filter_checks());
    let mut report = report_filters();
    let ghost (front, back) = (checks@, report@);
    checks.append(&mut report);
    assert(check_views(front + back) =~= check_views(front) + check_views(back));
    checks
}

/// No table keeps its partition values both under the names of its columns and under physical names.
pub proof fn logical_keys_are_not_physical(keys: Set<Seq<char>>)
    ensures
        !(logical_keys_failure(keys) is None && physical_keys_failure(keys) is None),
{
    reveal_strlit("col-");
    reveal_strlit("partition_year");
    let name = partition_names()[0];
    assert(partition_names().to_set().contains(name));
    if logical_keys_failure(keys) is None && are_physical(keys) {
        assert("col-"@.is_prefix_of(name));
        assert(name[0] == "col-"@[0]);
    }
}

/// The partition columns pass the check for physical names under the names that they get where
/// existing names are not kept, and the check for their own names where they are.
pub proof fn mapped_partition_keys_pass()
    ensures
        physical_keys_failure(
            partition_names().map_values(|name: Seq<char>| physical_name_of(name, false)).to_set(),
        ) is None,
        logical_keys_failure(
            partition_names().map_values(|name: Seq<char>| physical_name_of(name, true)).to_set(),
        ) is None,
{
    let names = partition_names();
    let fresh = names.map_values(|name: Seq<char>| physical_name_of(name, false));
    assert forall|key: Seq<char>| #[trigger] fresh.to_set().contains(key) implies "col-"@.is_prefix_of(key) by {
        let i = fresh.index_of(key);
        assert(fresh[i] == key);
        assert(key == "col-"@ + names[i]);
        assert(key.subrange(0, "col-"@.len() as int) =~= "col-"@);
    }
    assert(names.map_values(|name: Seq<char>| physical_name_of(name, true)) =~= names);
}

/// A directory that is named after a column and a value, with an equals sign between them, is none
/// that files are spread over at random.
pub proof fn hive_names_are_not_random(name: Seq<u8>)
    requires
        name.contains(0x3du8),
    ensures
        !is_random_prefix(name),
{
    let i = name.index_of(0x3du8);
    assert(name[i] == 0x3du8);
}

/// A query passes its check exactly if it gave the expected count: a smaller or a larger one fails, and
/// so does any other answer.
pub proof fn only_the_expected_count_passes(result: QueryResult, sql: Seq<char>, expected: i64)
    ensures
        query_failure(result, sql, expected) is None <==> result == QueryResult::Count(expected),
        result matches QueryResult::Count(rows) ==> (rows < expected || rows > expected) ==> query_failure(
            result,
            sql,
            expected,
        ) == Some(ErrorView::Violated((ViolationView::QueryCount { sql, rows, expected_rows: expected }))),
        result is NoBatches ==> query_failure(result, sql, expected) == Some(ErrorView::NoBatches(sql)),
        result is NotInt64 ==> query_failure(result, sql, expected) == Some(ErrorView::CountNotInt64(sql)),
{
}

/// A query has a count exactly if it gave one, and then it is that one.
pub proof fn counts_are_handed_on(rows: i64, sql: Seq<char>)
    ensures
        counted(QueryResult::Count(rows), sql) == Ok::<i64, ErrorView>(rows),
        counted(QueryResult::NoBatches, sql) == Err::<i64, ErrorView>(ErrorView::NoBatches(sql)),
        counted(QueryResult::NotInt64, sql) == Err::<i64, ErrorView>(ErrorView::CountNotInt64(sql)),
{
}

/// The directories that are looked for, and what is reported of them: one of a Hive-style partition
/// where it is missing, and one that is named after a column where it is there.
pub proof fn directories_are_reported(table_path: Seq<char>)
    ensures
        hive_path(table_path) == joined_path(
            table_path,
            "partition_year=2026/partition_month=04/partition_day=27"@,
        ),
        logical_path(table_path) == joined_path(table_path, "partition_year=2026"@),
        hive_failure(table_path, true) is None,
        hive_failure(table_path, false) == Some(
            ErrorView::Violated(ViolationView::MissingHivePartition(hive_path(table_path))),
        ),
        logical_directory_failure(false) is None,
        logical_directory_failure(true) == Some(ErrorView::Violated(ViolationView::LogicalDirectories)),
{
}

/// Keys pass as physical names exactly if each begins with `col-`; otherwise all of them are reported.
pub proof fn physical_keys_begin_with_col(keys: Set<Seq<char>>)
    ensures
        physical_keys_failure(keys) is None <==> forall|key: Seq<char>| #[trigger]
            keys.contains(key) ==> key.len() >= 4 && key.take(4) == seq!['c', 'o', 'l', '-'],
        physical_keys_failure(keys) is Some ==> physical_keys_failure(keys) == Some(
            ErrorView::Violated(ViolationView::PhysicalPartitionKeys(keys)),
        ),
{
    reveal_strlit("col-");
    assert("col-"@ =~= seq!['c', 'o', 'l', '-']);
    assert forall|key: Seq<char>| #[trigger]
        "col-"@.is_prefix_of(key) <==> key.len() >= 4 && key.take(4) == seq!['c', 'o', 'l', '-'] by {
        if key.len() >= 4 {
            assert(key.take(4) =~= key.subrange(0, 4));
        }
    }
    if physical_keys_failure(keys) is Some {
        let key = choose|key: Seq<char>| #[trigger] keys.contains(key) && !"col-"@.is_prefix_of(key);
        assert(keys.contains(key));
    }
}

/// Keys pass as the names of the partition columns exactly if they are year, month and day, all three
/// and no other; otherwise all of them are reported.
pub proof fn logical_keys_are_year_month_and_day(keys: Set<Seq<char>>)
    ensures
        logical_keys_failure(keys) is None <==> forall|key: Seq<char>| #[trigger]
            keys.contains(key) <==> (key == "partition_year"@ || key == "partition_month"@ || key == "partition_day"@),
        logical_keys_failure(keys) is Some ==> logical_keys_failure(keys) == Some(
            ErrorView::Violated(ViolationView::LogicalPartitionKeys(keys)),
        ),
{
    let names = partition_names();
    assert(names[0] == "partition_year"@ && names[1] == "partition_month"@ && names[2] == "partition_day"@);
    assert forall|key: Seq<char>| #[trigger]
        names.to_set().contains(key) <==> (key == "partition_year"@ || key == "partition_month"@ || key
            == "partition_day"@) by {
        if names.contains(key) {
            let i = names.index_of(key);
            assert(names[i] == key);
        }
    }
    if forall|key: Seq<char>| #[trigger]
        keys.contains(key) <==> (key == "partition_year"@ || key == "partition_month"@ || key == "partition_day"@) {
        assert(keys =~= names.to_set());
    }
}

/// Files are spread at random exactly if a name in the directory consists of two hexadecimal digits.
pub proof fn random_prefixes_have_two_digits(names: Seq<Seq<u8>>)
    ensures
        random_prefix_failure(names) is None <==> forall|i: int|
            0 <= i < names.len() ==> !((#[trigger] names[i]).len() == 2 && is_hex_digit(names[i][0]) && is_hex_digit(
                names[i][1],
            )),
        random_prefix_failure(names) is Some ==> random_prefix_failure(names) == Some(
            ErrorView::Violated(ViolationView::RandomPrefixDirectories),
        ),
        some_random_prefix(names) <==> random_prefix_failure(names) is Some,
{
    if some_random_prefix(names) {
        let i = choose|i: int| 0 <= i < names.len() && is_random_prefix(#[trigger] names[i]);
        assert(is_random_prefix(names[i]));
    } else {
        assert forall|i: int| 0 <= i < names.len() implies !is_random_prefix(#[trigger] names[i]) by {}
    }
}

/// A hexadecimal digit is a decimal one or a letter up to `f`, small or capital.
pub proof fn hexadecimal_digits(byte: u8)
    ensures
        is_hex_digit(byte) <==> ('0' as u8 <= byte <= '9' as u8 || 'a' as u8 <= byte <= 'f' as u8 || 'A' as u8 <= byte
            <= 'F' as u8),
{
}

/// The queries by columns under their logical names, and what they are to count: the events of the
/// first date in every table, of which the evolved one has each twice, and one event by its id.
pub proof fn logical_queries_are_fixed()
    ensures
        ({
            let checks = logical_filter_checks();
            let dated = "SELECT COUNT(*) FROM events WHERE partition_year = '2026' AND partition_month = '04' AND partition_day = '27'"@;
            let event = "SELECT COUNT(*) FROM events WHERE event_id = 100001 AND source_system = 'batch'"@;
            &&& checks.len() == 5
            &&& checks[0].table == Table::Regular && checks[0].sql == dated && checks[0].expected == 1000
            &&& checks[1].table == Table::ColumnMapping && checks[1].sql == dated && checks[1].expected == 1000
            &&& checks[2].table == Table::ColumnMapping && checks[2].sql == event && checks[2].expected == 1
            &&& checks[3].table == Table::EvolvedColumnMapping && checks[3].sql == dated && checks[3].expected == 2000
            &&& checks[4].table == Table::EvolvedColumnMapping && checks[4].sql == event && checks[4].expected == 1
        }),
{
}

/// The query of a report goes to each table once, and is to count one event.
pub proof fn report_query_goes_to_every_table()
    ensures
        ({
            let checks = report_filter_checks();
            let report = "SELECT COUNT(*) FROM events WHERE partition_year = '2026' AND partition_month = '04' AND partition_day = '27' AND customer_name = 'customer-100123' AND amount BETWEEN 494.90 AND 494.92"@;
            &&& checks.len() == 3
            &&& checks[0].table == Table::Regular && checks[0].sql == report && checks[0].expected == 1
            &&& checks[1].table == Table::ColumnMapping && checks[1].sql == report && checks[1].expected == 1
            &&& checks[2].table == Table::EvolvedColumnMapping && checks[2].sql == report && checks[2].expected == 1
        }),
{
}

/// What queries and lists of them stand for: each part for itself.
pub proof fn queries_stand_for_themselves(check: QueryCheck, checks: Seq<QueryCheck>, at: int)
    ensures
        check@.table == check.table,
        check@.sql == check.sql@,
        check@.expected == check.expected,
        check_views(checks).len() == checks.len(),
        0 <= at < checks.len() ==> check_views(checks)[at] == checks[at]@,
{
}

/// The directory of the Hive-style partition lies below the one that is named after the year: a table
/// that has the first has the second.
pub proof fn hive_partition_is_below_its_year(table_path: Seq<char>)
    ensures
        hive_path(table_path) == joined_path(logical_path(table_path), "partition_month=04/partition_day=27"@),
{
    reveal_strlit("partition_year=2026/partition_month=04/partition_day=27");
    reveal_strlit("partition_year=2026");
    reveal_strlit("partition_month=04/partition_day=27");
    let year = logical_path(table_path);
    assert(year.last() == '6');
    assert("partition_year=2026/partition_month=04/partition_day=27"@ =~= "partition_year=2026"@ + seq!['/']
        + "partition_month=04/partition_day=27"@);
    assert(hive_path(table_path) =~= year + seq!['/'] + "partition_month=04/partition_day=27"@);
}

} // verus!
