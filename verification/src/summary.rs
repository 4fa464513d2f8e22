//! What a table holds: how many rows there are in it, and for each date.
use crate::error::{LabError, Violation};
#[allow(unused_imports)]
use crate::error::{failure, ErrorView, ViolationView};
#[allow(unused_imports)]
use crate::schema::literals;
#[allow(unused_imports)]
use crate::text::texts;
use crate::text_map::TextMap;
use vstd::prelude::*;

verus! {

/// The values of a column of a batch, of which some may be missing.
#[derive(Debug)]
pub enum StringColumn {
    /// The batch has no such column.
    Missing,
    /// A column of strings.
    Utf8(Vec<Option<String>>),
    /// A column of strings that are kept apart from the column.
    Utf8View(Vec<Option<String>>),
    /// A column of another type.
    Other(String),
}

/// The rows of a table come in batches; of each, the number of its rows and its partition dates
/// matter.
#[derive(Debug)]
pub struct Batch {
    pub num_rows: usize,
    pub partition_date: StringColumn,
}

/// A value, or the empty string where it is missing.
pub open spec fn value_or_empty(value: Option<String>) -> Seq<char> {
    match value {
        Some(text) => text@,
        None => Seq::empty(),
    }
}

/// The strings in a column, with the empty string for those that are missing.
pub open spec fn column_values(column: StringColumn, name: Seq<char>) -> Result<Seq<Seq<char>>, ErrorView> {
    match column {
        StringColumn::Missing => Err(ErrorView::MissingColumn(name)),
        StringColumn::Utf8(values) => Ok(values@.map_values(|value: Option<String>| value_or_empty(value))),
        StringColumn::Utf8View(values) => Ok(values@.map_values(|value: Option<String>| value_or_empty(value))),
        StringColumn::Other(found) => Err(ErrorView::NotUtf8 { column: name, found: found@ }),
    }
}

fn present_values(values: &Vec<Option<String>>) -> (list: Vec<String>)
    ensures
        texts(list@) == values@.map_values(|value: Option<String>| value_or_empty(value)),
{
    let ghost meant = values@.map_values(|value: Option<String>| value_or_empty(value));
    let mut list: Vec<String> = Vec::new();
    let mut i: usize = 0;
    while i < values.len()
        invariant
            i <= values@.len() == meant.len(),
            meant == values@.map_values(|value: Option<String>| value_or_empty(value)),
            texts(list@) == meant.take(i as int),
        decreases values@.len() - i,
    {
        let value = match &values[i] {
            Some(text) => text.clone(),
            None => String::new(),
        };
        let ghost before = list@;
        list.push(value);
        proof {
            assert(texts(list@) =~= texts(before).push(value@));
            assert(meant.take(i + 1) =~= meant.take(i as int).push(meant[i as int]));
        }
        i += 1;
    }
    assert(meant.take(meant.len() as int) =~= meant);
    list
}

/// The strings in a column, with the empty string for those that are missing.
pub fn string_values(column: &StringColumn, name: &str) -> (values: Result<Vec<String>, LabError>)
    ensures
        values matches Ok(found) ==> column_values(*column, name@) == Ok::<Seq<Seq<char>>, ErrorView>(texts(found@)),
        values matches Err(error) ==> column_values(*column, name@) == Err::<Seq<Seq<char>>, ErrorView>(error@),
{
    match column {
        StringColumn::Missing => Err(LabError::MissingColumn(name.to_owned())),
        StringColumn::Utf8(values) => Ok(present_values(values)),
        StringColumn::Utf8View(values) => Ok(present_values(values)),
        StringColumn::Other(found) => Err(LabError::NotUtf8 { column: name.to_owned(), found: found.clone() }),
    }
}

/// How often a value occurs.
pub open spec fn occurrences(values: Seq<Seq<char>>, value: Seq<char>) -> nat
    decreases values.len(),
{
    if values.len() == 0 {
        0
    } else {
        occurrences(values.drop_last(), value) + if values.last() == value {
            1nat
        } else {
            0nat
        }
    }
}

/// How many rows there are in some batches.
pub open spec fn total_rows(batches: Seq<Batch>) -> nat
    decreases batches.len(),
{
    if batches.len() == 0 {
        0
    } else {
        total_rows(batches.drop_last()) + batches.last().num_rows as nat
    }
}

/// The dates of all rows. The first batch whose dates cannot be had decides the error.
pub open spec fn all_dates(batches: Seq<Batch>) -> Result<Seq<Seq<char>>, ErrorView>
    decreases batches.len(),
{
    if batches.len() == 0 {
        Ok(Seq::empty())
    } else {
        match all_dates(batches.drop_last()) {
            Err(error) => Err(error),
            Ok(dates) => match column_values(batches.last().partition_date, "partition_date"@) {
                Err(error) => Err(error),
                Ok(values) => Ok(dates + values),
            },
        }
    }
}

/// A column of a batch has a value, or misses one, for every row.
pub open spec fn batch_is_even(batch: Batch) -> bool {
    column_values(batch.partition_date, "partition_date"@) matches Ok(values) ==> values.len() == batch.num_rows
}

/// A map counts how often each value occurs, and has no other keys.
pub open spec fn counts_values(counts: Map<Seq<char>, usize>, values: Seq<Seq<char>>) -> bool {
    &&& forall|value: Seq<char>| #[trigger] counts.contains_key(value) <==> values.contains(value)
    &&& forall|value: Seq<char>| #[trigger] counts.contains_key(value) ==> counts[value] == occurrences(values, value)
}

/// What a table holds, as a pair: how many rows there are, and how many for each date.
pub open spec fn summary_of(batches: Seq<Batch>) -> Result<(usize, Map<Seq<char>, usize>), ErrorView> {
    match all_dates(batches) {
        Err(error) => Err(error),
        Ok(dates) => Ok(
            (
                total_rows(batches) as usize,
                Map::new(
                    |date: Seq<char>| dates.contains(date),
                    |date: Seq<char>| occurrences(dates, date) as usize,
                ),
            ),
        ),
    }
}

/// What a table holds.
#[derive(Debug)]
pub struct TableSummary {
    pub row_count: usize,
    pub partition_counts: TextMap<usize>,
}

impl View for TableSummary {
    type V = (usize, Map<Seq<char>, usize>);

    open spec fn view(&self) -> (usize, Map<Seq<char>, usize>) {
        (self.row_count, self.partition_counts@)
    }
}

proof fn occurrences_are_bounded(values: Seq<Seq<char>>, value: Seq<char>)
    ensures
        occurrences(values, value) <= values.len(),
        occurrences(values, value) > 0 <==> values.contains(value),
    decreases values.len(),
{
    if values.len() > 0 {
        let front = values.drop_last();
        occurrences_are_bounded(front, value);
        if front.contains(value) {
            let i = front.index_of(value);
            assert(values[i] == value);
        }
        if values.contains(value) && values.last() != value {
            let i = values.index_of(value);
            assert(values[i] == value);
            assert(front[i] == value);
        }
        if values.last() == value {
            assert(values[values.len() - 1] == value);
        }
    }
}

/// Once the dates of a batch cannot be had, no further batch changes the outcome.
proof fn missing_dates_stay(batches: Seq<Batch>, read: int)
    requires
        0 <= read <= batches.len(),
        all_dates(batches.take(read)) is Err,
    ensures
        all_dates(batches) == all_dates(batches.take(read)),
    decreases batches.len(),
{
    if read < batches.len() {
        assert(batches.drop_last().take(read) =~= batches.take(read));
        missing_dates_stay(batches.drop_last(), read);
    } else {
        assert(batches.take(read) =~= batches);
    }
}

proof fn rows_grow(batches: Seq<Batch>, read: int)
    requires
        0 <= read <= batches.len(),
    ensures
        total_rows(batches.take(read)) <= total_rows(batches),
    decreases batches.len(),
{
    if read < batches.len() {
        assert(batches.drop_last().take(read) =~= batches.take(read));
        rows_grow(batches.drop_last(), read);
    } else {
        assert(batches.take(read) =~= batches);
    }
}

/// Every row has a date.
pub proof fn dates_match_rows(batches: Seq<Batch>)
    requires
        forall|i: int| 0 <= i < batches.len() ==> batch_is_even(#[trigger] batches[i]),
        all_dates(batches) is Ok,
    ensures
        all_dates(batches)->Ok_0.len() == total_rows(batches),
    decreases batches.len(),
{
    if batches.len() > 0 {
        let front = batches.drop_last();
        assert forall|i: int| 0 <= i < front.len() implies batch_is_even(#[trigger] front[i]) by {
            assert(front[i] == batches[i]);
        }
        dates_match_rows(front);
        assert(batch_is_even(batches[batches.len() - 1]));
    }
}

/// Counts some more values.
fn count_values(counts: TextMap<usize>, counted: Ghost<Seq<Seq<char>>>, values: &Vec<String>) -> (extended: TextMap<
    usize,
>)
    requires
        counts_values(counts@, counted@),
        counted@.len() + values@.len() <= usize::MAX,
    ensures
        counts_values(extended@, counted@ + texts(values@)),
{
    let ghost base = counted@;
    let ghost all = texts(values@);
    let mut counts = counts;
    let mut i: usize = 0;
    assert(base + all.take(0) =~= base);
    while i < values.len()
        invariant
            all == texts(values@),
            i <= values@.len(),
            base.len() + values@.len() <= usize::MAX,
            counts_values(counts@, base + all.take(i as int)),
        decreases values@.len() - i,
    {
        let ghost seen = base + all.take(i as int);
        let ghost value = values@[i as int]@;
        let ghost longer = base + all.take(i + 1);
        let ghost before = counts@;
        let count: usize = match counts.get(values[i].as_str()) {
            Some(count) => *count,
            None => 0,
        };
        proof {
            assert(all[i as int] == value);
            assert(longer =~= seen.push(value));
            assert(longer.drop_last() =~= seen);
            occurrences_are_bounded(seen, value);
            occurrences_are_bounded(longer, value);
        }
        counts = counts.with(values[i].clone(), count + 1);
        assert forall|key: Seq<char>| #[trigger] counts@.contains_key(key) <==> longer.contains(key) by {
            occurrences_are_bounded(seen, key);
            occurrences_are_bounded(longer, key);
            assert(before.contains_key(key) <==> seen.contains(key));
        }
        assert forall|key: Seq<char>| #[trigger] counts@.contains_key(key) implies counts@[key] == occurrences(
            longer,
            key,
        ) by {
            if key != value {
                assert(before.contains_key(key));
            }
        }
        i += 1;
    }
    assert(all.take(all.len() as int) =~= all);
    counts
}

/// What a table holds, from the batches that its rows come in.
pub fn read_summary(batches: &Vec<Batch>) -> (summary: Result<TableSummary, LabError>)
    requires
        total_rows(batches@) <= usize::MAX,
        forall|i: int| 0 <= i < batches@.len() ==> batch_is_even(#[trigger] batches@[i]),
    ensures
        summary matches Ok(found) ==> {
            &&& found.row_count == total_rows(batches@)
            &&& all_dates(batches@) matches Ok(dates) && counts_values(found.partition_counts@, dates)
            &&& summary_of(batches@) == Ok::<(usize, Map<Seq<char>, usize>), ErrorView>(found@)
        },
        summary matches Err(error) ==> all_dates(batches@) == Err::<Seq<Seq<char>>, ErrorView>(error@),
{
    let ghost all = batches@;
    let mut row_count: usize = 0;
    let mut partition_counts: TextMap<usize> = TextMap::new();
    let ghost mut dates: Seq<Seq<char>> = Seq::empty();
    let mut i: usize = 0;
    assert(all.take(0) =~= Seq::empty());
    while i < batches.len()
        invariant
            all == batches@,
            total_rows(all) <= usize::MAX,
            forall|j: int| 0 <= j < all.len() ==> batch_is_even(#[trigger] all[j]),
            i <= all.len(),
            row_count == total_rows(all.take(i as int)),
            all_dates(all.take(i as int)) == Ok::<Seq<Seq<char>>, ErrorView>(dates),
            counts_values(partition_counts@, dates),
        decreases all.len() - i,
    {
        proof {
            let read = all.take(i + 1);
            assert(read.drop_last() =~= all.take(i as int));
            assert(read.last() == all[i as int]);
            rows_grow(all, i + 1);
            if all_dates(read) is Err {
                missing_dates_stay(all, i + 1);
            } else {
                assert forall|j: int| 0 <= j < read.len() implies batch_is_even(#[trigger] read[j]) by {
                    assert(read[j] == all[j]);
                }
                dates_match_rows(read);
            }
        }
        row_count += batches[i].num_rows;
        match string_values(&batches[i].partition_date, "partition_date") {
            Err(error) => {
                return Err(error);
            },
            Ok(values) => {
                partition_counts = count_values(partition_counts, Ghost(dates), &values);
                proof {
                    dates = dates + texts(values@);
                }
            },
        }
        i += 1;
    }
    assert(all.take(all.len() as int) =~= all);
    assert(partition_counts@ =~= summary_of(all)->Ok_0.1);
    Ok(TableSummary { row_count, partition_counts })
}

/// The dates that the generated events fall on.
pub open spec fn date_names() -> Seq<Seq<char>> {
    seq!["2026-04-27"@, "2026-04-28"@, "2026-05-01"@]
}

/// The dates that the generated events fall on.
pub fn partition_dates() -> (dates: [&'static str; 3])
    ensures
        literals(dates@) == date_names(),
{
    let dates = ["2026-04-27", "2026-04-28", "2026-05-01"];
    assert(literals(dates@) =~= date_names());
    dates
}

/// How many events are generated for each date.
pub const RECORDS_PER_PARTITION: usize = 1000;

/// What a map holds for a key.
pub open spec fn count_of(counts: Map<Seq<char>, usize>, date: Seq<char>) -> Option<usize> {
    if counts.contains_key(date) {
        Some(counts[date])
    } else {
        None
    }
}

/// The first of some dates that does not have the expected number of rows.
pub open spec fn partition_failure(counts: Map<Seq<char>, usize>, dates: Seq<Seq<char>>, expected: usize) -> Option<
    ErrorView,
>
    decreases dates.len(),
{
    if dates.len() == 0 {
        None
    } else if count_of(counts, dates[0]) != Some(expected) {
        Some(
            ErrorView::Violated(
                ViolationView::PartitionCount {
                    date: dates[0],
                    count: count_of(counts, dates[0]),
                    expected_count: expected,
                },
            ),
        )
    } else {
        partition_failure(counts, dates.drop_first(), expected)
    }
}

/// How what a table holds falls short of so many rows for each of the dates, if it does.
pub open spec fn summary_failure(row_count: usize, counts: Map<Seq<char>, usize>, expected_per_partition: usize) -> Option<
    ErrorView,
> {
    if row_count != expected_per_partition * 3 {
        Some(
            ErrorView::Violated(
                ViolationView::RowCount { actual: row_count, expected: (expected_per_partition * 3) as usize },
            ),
        )
    } else {
        partition_failure(counts, date_names(), expected_per_partition)
    }
}

/// Checks that a table holds three times so many rows, and so many for each of the dates. Of a summary
/// that was made of rows, this leaves no other dates (see [`passing_summary_is_complete`]).
pub fn assert_summary(summary: &TableSummary, expected_per_partition: usize) -> (outcome: Result<(), LabError>)
    requires
        expected_per_partition * 3 <= usize::MAX,
    ensures
        failure(outcome) == summary_failure(
            summary.row_count,
            summary.partition_counts@,
            expected_per_partition,
        ),
{
    let expected = expected_per_partition * 3;
    if summary.row_count != expected {
        return Err(LabError::Violated(Violation::RowCount { actual: summary.row_count, expected }));
    }
    let dates = partition_dates();
    let ghost all = date_names();
    let ghost counts = summary.partition_counts@;
    let mut i: usize = 0;
    assert(all.skip(0) =~= all);
    while i < 3
        invariant
            i <= 3,
            all == date_names(),
            all == literals(dates@),
            counts == summary.partition_counts@,
            summary.row_count == expected_per_partition * 3,
            partition_failure(counts, all, expected_per_partition) == partition_failure(
                counts,
                all.skip(i as int),
                expected_per_partition,
            ),
        decreases 3 - i,
    {
        proof {
            assert(all.skip(i as int)[0] == dates@[i as int]@);
            assert(all.skip(i as int).drop_first() =~= all.skip(i + 1));
        }
        let count = match summary.partition_counts.get(dates[i]) {
            Some(count) => Some(*count),
            None => None,
        };
        if count != Some(expected_per_partition) {
            return Err(
                LabError::Violated(
                    Violation::PartitionCount {
                        date: dates[i].to_owned(),
                        count,
                        expected_count: expected_per_partition,
                    },
                ),
            );
        }
        i += 1;
    }
    Ok(())
}

/// Four different values do not occur more often than there are values.
proof fn four_values_share(values: Seq<Seq<char>>, a: Seq<char>, b: Seq<char>, c: Seq<char>, d: Seq<char>)
    requires
        a != b,
        a != c,
        a != d,
        b != c,
        b != d,
        c != d,
    ensures
        occurrences(values, a) + occurrences(values, b) + occurrences(values, c) + occurrences(values, d)
            <= values.len(),
    decreases values.len(),
{
    if values.len() > 0 {
        four_values_share(values.drop_last(), a, b, c, d);
    }
}

/// The dates are different.
pub proof fn dates_differ()
    ensures
        date_names().no_duplicates(),
{
    reveal_strlit("2026-04-27");
    reveal_strlit("2026-04-28");
    reveal_strlit("2026-05-01");
    assert("2026-04-27"@[9] != "2026-04-28"@[9]);
    assert("2026-04-27"@[6] != "2026-05-01"@[6]);
    assert("2026-04-28"@[6] != "2026-05-01"@[6]);
}

/// A table that passes the check holds exactly so many rows for each of the dates, and no row for
/// any other date.
pub proof fn passing_summary_is_complete(
    row_count: usize,
    counts: Map<Seq<char>, usize>,
    dates: Seq<Seq<char>>,
    expected_per_partition: usize,
)
    requires
        counts_values(counts, dates),
        dates.len() == row_count,
        summary_failure(row_count, counts, expected_per_partition) is None,
    ensures
        forall|i: int|
            0 <= i < 3 ==> occurrences(dates, #[trigger] date_names()[i]) == expected_per_partition,
        forall|date: Seq<char>| dates.contains(date) ==> #[trigger] date_names().contains(date),
{
    reveal_with_fuel(partition_failure, 4);
    dates_differ();
    let all = date_names();
    let (a, b, c) = (all[0], all[1], all[2]);
    assert(all.drop_first()[0] == b);
    assert(all.drop_first().drop_first()[0] == c);
    assert(counts.contains_key(a) && counts.contains_key(b) && counts.contains_key(c));
    assert forall|date: Seq<char>| dates.contains(date) implies #[trigger] all.contains(date) by {
        if date != a && date != b && date != c {
            assert(a != b && a != c && b != c);
            four_values_share(dates, a, b, c, date);
            occurrences_are_bounded(dates, date);
        } else if date == a {
            assert(all[0] == date);
        } else if date == b {
            assert(all[1] == date);
        } else {
            assert(all[2] == date);
        }
    }
}

/// How often a value occurs is how often the collection of the values holds it.
proof fn occurrences_are_counted(values: Seq<Seq<char>>, value: Seq<char>)
    ensures
        occurrences(values, value) == values.to_multiset().count(value),
    decreases values.len(),
{
    broadcast use vstd::seq_lib::group_to_multiset_ensures;

    if values.len() > 0 {
        let front = values.drop_last();
        occurrences_are_counted(front, value);
        assert(values =~= front.push(values.last()));
        assert(values.to_multiset() =~= front.to_multiset().insert(values.last()));
    }
}

/// What a table holds depends neither on the order of its rows nor on how they are cut into batches.
pub proof fn order_and_cuts_do_not_matter(batches: Seq<Batch>, others: Seq<Batch>)
    requires
        forall|i: int| 0 <= i < batches.len() ==> batch_is_even(#[trigger] batches[i]),
        forall|i: int| 0 <= i < others.len() ==> batch_is_even(#[trigger] others[i]),
        all_dates(batches) is Ok,
        all_dates(others) is Ok,
        all_dates(batches)->Ok_0.to_multiset() == all_dates(others)->Ok_0.to_multiset(),
    ensures
        summary_of(batches) == summary_of(others),
{
    broadcast use vstd::seq_lib::group_to_multiset_ensures;

    let (dates, other_dates) = (all_dates(batches)->Ok_0, all_dates(others)->Ok_0);
    dates_match_rows(batches);
    dates_match_rows(others);
    assert(dates.len() == dates.to_multiset().len());
    assert(other_dates.len() == other_dates.to_multiset().len());
    let (counts, other_counts) = (summary_of(batches)->Ok_0.1, summary_of(others)->Ok_0.1);
    assert forall|date: Seq<char>|
        (#[trigger] counts.contains_key(date) <==> other_counts.contains_key(date)) && (counts.contains_key(date)
            ==> counts[date] == other_counts[date]) by {
        occurrences_are_counted(dates, date);
        occurrences_are_counted(other_dates, date);
        occurrences_are_bounded(dates, date);
        occurrences_are_bounded(other_dates, date);
    }
    assert(counts =~= other_counts);
}

/// How often some values occur, added up.
pub open spec fn sum_of_occurrences(values: Seq<Seq<char>>, keys: Seq<Seq<char>>) -> nat
    decreases keys.len(),
{
    if keys.len() == 0 {
        0
    } else {
        sum_of_occurrences(values, keys.drop_last()) + occurrences(values, keys.last())
    }
}

proof fn one_more_value(values: Seq<Seq<char>>, keys: Seq<Seq<char>>)
    requires
        values.len() > 0,
        keys.no_duplicates(),
    ensures
        sum_of_occurrences(values, keys) == sum_of_occurrences(values.drop_last(), keys) + if keys.contains(
            values.last(),
        ) {
            1nat
        } else {
            0nat
        },
    decreases keys.len(),
{
    if keys.len() > 0 {
        let front = keys.drop_last();
        one_more_value(values, front);
        if front.contains(values.last()) {
            let i = front.index_of(values.last());
            assert(keys[i] == values.last());
            assert(keys[i] != keys[keys.len() - 1]);
        } else if keys.contains(values.last()) {
            let i = keys.index_of(values.last());
            assert(keys[i] == values.last());
            if i < front.len() {
                assert(front[i] == values.last());
            }
        } else {
            assert(keys[keys.len() - 1] != values.last());
        }
    }
}

/// The counts of all values add up to the number of the values: no row is counted twice or left out.
pub proof fn counts_add_up(values: Seq<Seq<char>>, keys: Seq<Seq<char>>)
    requires
        keys.no_duplicates(),
        forall|value: Seq<char>| #[trigger] values.contains(value) ==> keys.contains(value),
    ensures
        sum_of_occurrences(values, keys) == values.len(),
    decreases values.len(),
{
    if values.len() == 0 {
        nothing_to_count(values, keys);
    } else {
        let front = values.drop_last();
        assert forall|value: Seq<char>| #[trigger] front.contains(value) implies keys.contains(value) by {
            let i = front.index_of(value);
            assert(values[i] == value);
            assert(values.contains(value));
        }
        counts_add_up(front, keys);
        assert(values[values.len() - 1] == values.last());
        assert(values.contains(values.last()));
        one_more_value(values, keys);
    }
}

proof fn nothing_to_count(values: Seq<Seq<char>>, keys: Seq<Seq<char>>)
    requires
        values.len() == 0,
    ensures
        sum_of_occurrences(values, keys) == 0,
    decreases keys.len(),
{
    if keys.len() > 0 {
        nothing_to_count(values, keys.drop_last());
    }
}

/// A column of strings has a value for each of its entries: the string, or the empty one where it is
/// missing. Any other column is reported, with what was found in its place.
pub proof fn columns_hold_their_strings(values: Vec<Option<String>>, found: String, name: Seq<char>, at: int)
    ensures
        column_values(StringColumn::Utf8(values), name) is Ok,
        column_values(StringColumn::Utf8(values), name)->Ok_0.len() == values@.len(),
        0 <= at < values@.len() && values@[at] is Some ==> column_values(StringColumn::Utf8(values), name)->Ok_0[at]
            == values@[at]->0@,
        0 <= at < values@.len() && values@[at] is None ==> column_values(
            StringColumn::Utf8(values),
            name,
        )->Ok_0[at].len() == 0,
        column_values(StringColumn::Utf8View(values), name) == column_values(StringColumn::Utf8(values), name),
        column_values(StringColumn::Missing, name) == Err::<Seq<Seq<char>>, ErrorView>(ErrorView::MissingColumn(name)),
        column_values(StringColumn::Other(found), name) == Err::<Seq<Seq<char>>, ErrorView>(
            (ErrorView::NotUtf8 { column: name, found: found@ }),
        ),
{
}

/// A value occurs once for each place where it stands.
pub proof fn places_are_counted(values: Seq<Seq<char>>, last: Seq<char>, value: Seq<char>)
    ensures
        occurrences(Seq::<Seq<char>>::empty(), value) == 0,
        occurrences(values.push(last), value) == occurrences(values, value) + if last == value {
            1int
        } else {
            0
        },
{
    assert(values.push(last).drop_last() =~= values);
}

/// One batch more adds its rows to those of a table, and its dates behind theirs.
pub proof fn batches_are_put_together(batches: Seq<Batch>, last: Batch)
    ensures
        total_rows(Seq::<Batch>::empty()) == 0,
        all_dates(Seq::<Batch>::empty()) == Ok::<Seq<Seq<char>>, ErrorView>(Seq::empty()),
        total_rows(batches.push(last)) == total_rows(batches) + last.num_rows,
        all_dates(batches) matches Err(error) ==> all_dates(batches.push(last)) == Err::<Seq<Seq<char>>, ErrorView>(error),
        all_dates(batches) matches Ok(dates) ==> (column_values(last.partition_date, "partition_date"@) matches Ok(more)
            ==> all_dates(batches.push(last)) == Ok::<Seq<Seq<char>>, ErrorView>(dates + more)),
        all_dates(batches) is Ok ==> (column_values(last.partition_date, "partition_date"@) matches Err(error)
            ==> all_dates(batches.push(last)) == Err::<Seq<Seq<char>>, ErrorView>(error)),
{
    assert(batches.push(last).drop_last() =~= batches);
}

/// What a table holds is the number of its rows, and for each date that occurs how often it does.
pub proof fn dates_are_counted(batches: Seq<Batch>, date: Seq<char>)
    requires
        total_rows(batches) <= usize::MAX,
        forall|i: int| 0 <= i < batches.len() ==> batch_is_even(#[trigger] batches[i]),
    ensures
        all_dates(batches) matches Err(error) ==> summary_of(batches) == Err::<
            (usize, Map<Seq<char>, usize>),
            ErrorView,
        >(error),
        all_dates(batches) matches Ok(dates) ==> {
            &&& summary_of(batches) is Ok
            &&& summary_of(batches)->Ok_0.0 == total_rows(batches)
            &&& summary_of(batches)->Ok_0.1.contains_key(date) <==> dates.contains(date)
            &&& dates.contains(date) ==> summary_of(batches)->Ok_0.1[date] == occurrences(dates, date)
        },
{
    if all_dates(batches) is Ok {
        dates_match_rows(batches);
        occurrences_are_bounded(all_dates(batches)->Ok_0, date);
    }
}

/// A batch is even exactly if its column of dates has as many values as the batch has rows, where
/// there is such a column.
pub proof fn even_batches_have_a_date_for_each_row(batch: Batch)
    ensures
        batch_is_even(batch) <==> (column_values(batch.partition_date, "partition_date"@) is Ok ==> column_values(
            batch.partition_date,
            "partition_date"@,
        )->Ok_0.len() == batch.num_rows),
{
}

/// A table passes exactly if it has three times the expected number of rows, and the expected number
/// for each of the three dates.
pub proof fn each_date_has_the_expected_rows(row_count: usize, counts: Map<Seq<char>, usize>, expected: usize)
    ensures
        summary_failure(row_count, counts, expected) is None <==> {
            &&& row_count == 3 * expected
            &&& counts.contains_key("2026-04-27"@) && counts["2026-04-27"@] == expected
            &&& counts.contains_key("2026-04-28"@) && counts["2026-04-28"@] == expected
            &&& counts.contains_key("2026-05-01"@) && counts["2026-05-01"@] == expected
        },
{
    reveal_with_fuel(partition_failure, 4);
    let all = date_names();
    assert(all[0] == "2026-04-27"@);
    assert(all.drop_first()[0] == "2026-04-28"@);
    assert(all.drop_first().drop_first()[0] == "2026-05-01"@);
}

/// What is reported of a table that does not pass: the number of its rows where that is wrong, and else
/// the first date whose number is, with what was counted for it.
pub proof fn wrong_count_is_reported(row_count: usize, counts: Map<Seq<char>, usize>, expected: usize)
    requires
        3 * expected <= usize::MAX,
    ensures
        row_count != 3 * expected ==> summary_failure(row_count, counts, expected) == Some(
            ErrorView::Violated((ViolationView::RowCount { actual: row_count, expected: (3 * expected) as usize })),
        ),
        row_count == 3 * expected && !(counts.contains_key("2026-04-27"@) && counts["2026-04-27"@] == expected)
            ==> summary_failure(row_count, counts, expected) == Some(
            ErrorView::Violated(
                (ViolationView::PartitionCount {
                    date: "2026-04-27"@,
                    count: count_of(counts, "2026-04-27"@),
                    expected_count: expected,
                }),
            ),
        ),
        row_count == 3 * expected && counts.contains_key("2026-04-27"@) && counts["2026-04-27"@] == expected && !(
        counts.contains_key("2026-04-28"@) && counts["2026-04-28"@] == expected) ==> summary_failure(
            row_count,
            counts,
            expected,
        ) == Some(
            ErrorView::Violated(
                (ViolationView::PartitionCount {
                    date: "2026-04-28"@,
                    count: count_of(counts, "2026-04-28"@),
                    expected_count: expected,
                }),
            ),
        ),
        row_count == 3 * expected && counts.contains_key("2026-04-27"@) && counts["2026-04-27"@] == expected
            && counts.contains_key("2026-04-28"@) && counts["2026-04-28"@] == expected && !(counts.contains_key(
            "2026-05-01"@,
        ) && counts["2026-05-01"@] == expected) ==> summary_failure(row_count, counts, expected) == Some(
            ErrorView::Violated(
                (ViolationView::PartitionCount {
                    date: "2026-05-01"@,
                    count: count_of(counts, "2026-05-01"@),
                    expected_count: expected,
                }),
            ),
        ),
{
    reveal_with_fuel(partition_failure, 4);
    let all = date_names();
    assert(all[0] == "2026-04-27"@);
    assert(all.drop_first()[0] == "2026-04-28"@);
    assert(all.drop_first().drop_first()[0] == "2026-05-01"@);
}

/// What is counted for a date, and what a summary stands for: what the map holds, and nothing where it
/// holds nothing.
pub proof fn counts_stand_for_themselves(counts: Map<Seq<char>, usize>, date: Seq<char>, summary: TableSummary)
    ensures
        counts.contains_key(date) ==> count_of(counts, date) == Some(counts[date]),
        !counts.contains_key(date) ==> count_of(counts, date) is None,
        summary@.0 == summary.row_count,
        summary@.1 == summary.partition_counts@,
        date_names() == seq!["2026-04-27"@, "2026-04-28"@, "2026-05-01"@],
        RECORDS_PER_PARTITION == 1000,
{
}

} // verus!
