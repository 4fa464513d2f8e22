//! The validation of the tables: what has to be observed, in which order, and what has to hold of it.
use crate::checks::{
    assert_hive_partition_exists, assert_no_logical_directories, assert_no_random_prefix_dirs,
    assert_physical_partition_keys, assert_logical_partition_keys, assert_query_count, hive_partition,
    logical_directory, logical_filters, QueryResult,
};
#[allow(unused_imports)]
use crate::checks::{
    check_views, hive_failure, hive_path, is_hex_digit, logical_directory_failure, logical_filter_checks,
    logical_keys_are_year_month_and_day, logical_keys_failure, logical_path, only_the_expected_count_passes,
    physical_keys_begin_with_col, physical_keys_failure, query_failure, random_prefix_failure,
    random_prefixes_have_two_digits, report_filter_checks, QueryCheckView,
};
use crate::error::LabError;
#[allow(unused_imports)]
use crate::error::{failure, ErrorView};
#[allow(unused_imports)]
use crate::log::{byte_strings, file_names_differ, keys_in, log_views};
use crate::log::{latest_add_summary, AddSummary, LogFile};
use crate::mapping::{assert_evolved_column_mapping_schema, assert_fresh_column_mapping_schema};
#[allow(unused_imports)]
use crate::mapping::{evolved_schema_failure, fresh_schema_failure, table_mapping};
use crate::summary::{assert_summary, read_summary, Batch, TableSummary, RECORDS_PER_PARTITION};
#[allow(unused_imports)]
use crate::summary::{batch_is_even, each_date_has_the_expected_rows, summary_failure, summary_of, total_rows};
use crate::tables::{table_path, Table};
#[allow(unused_imports)]
use crate::tables::table_directory;
#[allow(unused_imports)]
use crate::text::{joined_path, lines};
use vstd::prelude::*;

verus! {

/// What is to be observed next.
#[derive(Debug)]
pub enum Step {
    /// All rows of the table in a directory.
    ReadTable(String),
    /// Whether there is something at a path.
    TestPath(String),
    /// What the latest log of the table in a directory holds.
    ReadLatestLog(String),
    /// The names in a directory; none if it cannot be read.
    ListDirectory(String),
    /// All logs of the table in a directory.
    ReadLogs(String),
    /// What a query gives on the table in a directory.
    Query { path: String, sql: String },
}

/// What was observed.
#[derive(Debug)]
pub enum Observation {
    Rows(Vec<Batch>),
    Exists(bool),
    Contents(String),
    Names(Vec<Vec<u8>>),
    Logs(Vec<LogFile>),
    Answer(QueryResult),
}

/// What a step stands for.
pub enum StepView {
    ReadTable(Seq<char>),
    TestPath(Seq<char>),
    ReadLatestLog(Seq<char>),
    ListDirectory(Seq<char>),
    ReadLogs(Seq<char>),
    Query { path: Seq<char>, sql: Seq<char> },
}

impl View for Step {
    type V = StepView;

    open spec fn view(&self) -> StepView {
        match self {
            Step::ReadTable(path) => StepView::ReadTable(path@),
            Step::TestPath(path) => StepView::TestPath(path@),
            Step::ReadLatestLog(path) => StepView::ReadLatestLog(path@),
            Step::ListDirectory(path) => StepView::ListDirectory(path@),
            Step::ReadLogs(path) => StepView::ReadLogs(path@),
            Step::Query { path, sql } => StepView::Query { path: path@, sql: sql@ },
        }
    }
}

/// The directory of a table.
pub open spec fn place_of(root: Seq<char>, table: Table) -> Seq<char> {
    joined_path(root, table_directory(table))
}

/// All queries.
pub open spec fn query_checks() -> Seq<QueryCheckView> {
    logical_filter_checks() + report_filter_checks()
}

/// The steps before the queries.
pub open spec fn steps_on_disk(root: Seq<char>) -> Seq<StepView> {
    let regular = place_of(root, Table::Regular);
    let column_mapping = place_of(root, Table::ColumnMapping);
    let evolved = place_of(root, Table::EvolvedColumnMapping);
    seq![
        StepView::ReadTable(regular),
        StepView::ReadTable(column_mapping),
        StepView::ReadTable(evolved),
        StepView::TestPath(hive_path(regular)),
        StepView::TestPath(logical_path(column_mapping)),
        StepView::TestPath(hive_path(evolved)),
        StepView::ReadLatestLog(column_mapping),
        StepView::ReadLatestLog(evolved),
        StepView::ListDirectory(evolved),
        StepView::ReadLogs(column_mapping),
        StepView::ReadLogs(evolved),
    ]
}

/// All steps, in order. A step is known by its place in this list, counted from zero.
pub open spec fn steps(root: Seq<char>) -> Seq<StepView> {
    steps_on_disk(root) + query_checks().map_values(
        |check: QueryCheckView| StepView::Query { path: place_of(root, check.table), sql: check.sql },
    )
}

/// How far a validation has come.
#[derive(Debug)]
pub struct Validation {
    pub(crate) root: String,
    pub(crate) done: usize,
    pub(crate) summaries: Vec<TableSummary>,
    pub(crate) add_summaries: Vec<AddSummary>,
}

/// How far a validation has come: how many steps are done, what the tables hold that were read, and
/// the columns that the latest logs have partition values for.
pub struct ValidationView {
    pub root: Seq<char>,
    pub done: nat,
    pub summaries: Seq<(usize, Map<Seq<char>, usize>)>,
    pub keys: Seq<Set<Seq<char>>>,
}

impl View for Validation {
    type V = ValidationView;

    closed spec fn view(&self) -> ValidationView {
        ValidationView {
            root: self.root@,
            done: self.done as nat,
            summaries: self.summaries@.map_values(|summary: TableSummary| summary@),
            keys: self.add_summaries@.map_values(|summary: AddSummary| summary@),
        }
    }
}

/// A validation that has come so far has kept what the steps up to there gave.
pub open spec fn is_consistent(state: ValidationView) -> bool {
    &&& state.done <= 19
    &&& state.summaries.len() == if state.done < 3 {
        state.done
    } else {
        3
    }
    &&& state.keys.len() == if state.done <= 6 {
        0nat
    } else if state.done == 7 {
        1
    } else {
        2
    }
}

/// A validation that nothing was observed for.
pub open spec fn initial(root: Seq<char>) -> ValidationView {
    ValidationView { root, done: 0, summaries: Seq::empty(), keys: Seq::empty() }
}

/// A validation with one more step done.
pub open spec fn moved_on(state: ValidationView) -> ValidationView {
    ValidationView { done: state.done + 1, ..state }
}

/// A validation with one more step done, if nothing failed in it.
pub open spec fn moved_on_unless(state: ValidationView, failed: Option<ErrorView>) -> Result<ValidationView, ErrorView> {
    match failed {
        Some(error) => Err(error),
        None => Ok(moved_on(state)),
    }
}

/// The failure of the check on what the three tables hold: the first of them that fails decides.
pub open spec fn summaries_failure(summaries: Seq<(usize, Map<Seq<char>, usize>)>) -> Option<ErrorView> {
    let regular = summary_failure(summaries[0].0, summaries[0].1, RECORDS_PER_PARTITION);
    let column_mapping = summary_failure(summaries[1].0, summaries[1].1, RECORDS_PER_PARTITION);
    let evolved = summary_failure(summaries[2].0, summaries[2].1, (RECORDS_PER_PARTITION * 2) as usize);
    if regular is Some {
        regular
    } else if column_mapping is Some {
        column_mapping
    } else {
        evolved
    }
}

/// What becomes of a validation when the rows of a table were read. Once all three tables were read,
/// what they hold is checked.
pub open spec fn after_rows(state: ValidationView, batches: Seq<Batch>) -> Result<ValidationView, ErrorView> {
    match summary_of(batches) {
        Err(error) => Err(error),
        Ok(summary) => {
            let extended = ValidationView { summaries: state.summaries.push(summary), ..state };
            moved_on_unless(
                extended,
                if state.done == 2 {
                    summaries_failure(extended.summaries)
                } else {
                    None
                },
            )
        },
    }
}

/// What becomes of a validation when a latest log was read. The table that had column mapping from
/// the start is to have physical names in it, and the other one the names of its columns.
pub open spec fn after_contents(state: ValidationView, contents: Seq<char>) -> Result<ValidationView, ErrorView> {
    match keys_in(lines(contents)) {
        Err(error) => Err(error),
        Ok(keys) => {
            let extended = ValidationView { keys: state.keys.push(keys), ..state };
            moved_on_unless(
                extended,
                if state.done == 6 {
                    physical_keys_failure(keys)
                } else {
                    logical_keys_failure(keys)
                },
            )
        },
    }
}

/// The failure of the check on the schema in the logs of a table.
pub open spec fn logs_failure(root: Seq<char>, table: Table, logs: Seq<LogFile>) -> Option<ErrorView> {
    match table_mapping(log_views(logs), place_of(root, table)) {
        Err(error) => Some(error),
        Ok(mappings) => if table == Table::ColumnMapping {
            fresh_schema_failure(mappings)
        } else {
            evolved_schema_failure(mappings)
        },
    }
}

/// What becomes of a validation by an observation. One of another kind than the step asks for fails.
pub open spec fn after(state: ValidationView, observation: Observation) -> Result<ValidationView, ErrorView> {
    let done = state.done as int;
    match observation {
        Observation::Rows(batches) if done < 3 => after_rows(state, batches@),
        Observation::Exists(exists) if done == 3 => moved_on_unless(
            state,
            hive_failure(place_of(state.root, Table::Regular), exists),
        ),
        Observation::Exists(exists) if done == 4 => moved_on_unless(state, logical_directory_failure(exists)),
        Observation::Exists(exists) if done == 5 => moved_on_unless(
            state,
            hive_failure(place_of(state.root, Table::EvolvedColumnMapping), exists),
        ),
        Observation::Contents(contents) if done == 6 || done == 7 => after_contents(state, contents@),
        Observation::Names(names) if done == 8 => moved_on_unless(
            state,
            random_prefix_failure(byte_strings(names@)),
        ),
        Observation::Logs(logs) if done == 9 => moved_on_unless(
            state,
            logs_failure(state.root, Table::ColumnMapping, logs@),
        ),
        Observation::Logs(logs) if done == 10 => moved_on_unless(
            state,
            logs_failure(state.root, Table::EvolvedColumnMapping, logs@),
        ),
        Observation::Answer(result) if 11 <= done < 19 => moved_on_unless(
            state,
            query_failure(result, query_checks()[done - 11].sql, query_checks()[done - 11].expected),
        ),
        _ => Err(ErrorView::Unobserved(done as usize)),
    }
}

/// What an observation has to meet to be one at all: rows can be counted, and the columns of a batch
/// have a value for every row; the files of a directory have different names.
pub open spec fn is_observable(observation: Observation) -> bool {
    match observation {
        Observation::Rows(batches) => total_rows(batches@) <= usize::MAX && forall|i: int|
            0 <= i < batches@.len() ==> batch_is_even(#[trigger] batches@[i]),
        Observation::Logs(logs) => file_names_differ(log_views(logs@)),
        _ => true,
    }
}

impl Validation {
    #[verifier::type_invariant]
    spec fn holds_together(self) -> bool {
        is_consistent(self@)
    }

    /// A validation of the tables in a directory that nothing was observed for.
    pub fn new(root: &str) -> (validation: Validation)
        ensures
            validation@ == initial(root@),
    {
        let validation = Validation {
            root: root.to_owned(),
            done: 0,
            summaries: Vec::new(),
            add_summaries: Vec::new(),
        };
        assert(validation@.summaries =~= Seq::empty());
        assert(validation@.keys =~= Seq::empty());
        validation
    }

    /// What the tables hold that were read.
    pub fn summaries(&self) -> (summaries: &Vec<TableSummary>)
        ensures
            summaries@.map_values(|summary: TableSummary| summary@) == self@.summaries,
    {
        &self.summaries
    }

    /// The columns that the latest logs have partition values for.
    pub fn add_summaries(&self) -> (summaries: &Vec<AddSummary>)
        ensures
            summaries@.map_values(|summary: AddSummary| summary@) == self@.keys,
    {
        &self.add_summaries
    }

    /// What is to be observed next; nothing once all steps are done.
    pub fn next_step(&self) -> (step: Option<Step>)
        ensures
            is_consistent(self@),
            step is Some <==> self@.done < steps(self@.root).len(),
            step matches Some(next) ==> next@ == steps(self@.root)[self@.done as int],
    {
        proof {
            use_type_invariant(self);
        }
        let root = self.root.as_str();
        if self.done == 0 {
            Some(Step::ReadTable(table_path(root, Table::Regular)))
        } else if self.done == 1 {
            Some(Step::ReadTable(table_path(root, Table::ColumnMapping)))
        } else if self.done == 2 {
            Some(Step::ReadTable(table_path(root, Table::EvolvedColumnMapping)))
        } else if self.done == 3 {
            Some(Step::TestPath(hive_partition(table_path(root, Table::Regular).as_str())))
        } else if self.done == 4 {
            Some(Step::TestPath(logical_directory(table_path(root, Table::ColumnMapping).as_str())))
        } else if self.done == 5 {
            Some(Step::TestPath(hive_partition(table_path(root, Table::EvolvedColumnMapping).as_str())))
        } else if self.done == 6 {
            Some(Step::ReadLatestLog(table_path(root, Table::ColumnMapping)))
        } else if self.done == 7 {
            Some(Step::ReadLatestLog(table_path(root, Table::EvolvedColumnMapping)))
        } else if self.done == 8 {
            Some(Step::ListDirectory(table_path(root, Table::EvolvedColumnMapping)))
        } else if self.done == 9 {
            Some(Step::ReadLogs(table_path(root, Table::ColumnMapping)))
        } else if self.done == 10 {
            Some(Step::ReadLogs(table_path(root, Table::EvolvedColumnMapping)))
        } else if self.done < 19 {
            let checks = logical_filters();
            assert(check_views(checks@).len() == 8);
            let check = checks[self.done - 11];
            assert(check_views(checks@)[self.done - 11] == check@);
            Some(Step::Query { path: table_path(root, check.table), sql: check.sql.to_owned() })
        } else {
            None
        }
    }

    /// The same validation, with one more step done.
    fn moved_on(self) -> (next: Validation)
        requires
            is_consistent(moved_on(self@)),
        ensures
            next@ == moved_on(self@),
    {
        Validation { done: self.done + 1, ..self }
    }

    /// The same validation with one more step done, unless something failed in it.
    fn moved_on_unless(self, outcome: Result<(), LabError>) -> (next: Result<Validation, LabError>)
        requires
            is_consistent(moved_on(self@)),
        ensures
            next matches Ok(validation) ==> moved_on_unless(self@, failure(outcome)) == Ok::<ValidationView, ErrorView>(
                validation@,
            ),
            next matches Err(error) ==> moved_on_unless(self@, failure(outcome)) == Err::<ValidationView, ErrorView>(
                error@,
            ),
    {
        match outcome {
            Err(error) => Err(error),
            Ok(_) => Ok(self.moved_on()),
        }
    }

    /// Takes in what was observed for the next step. An error says what does not hold; without one
    /// the step is done.
    pub fn observe(self, observation: Observation) -> (next: Result<Validation, LabError>)
        requires
            is_observable(observation),
        ensures
            next matches Ok(validation) ==> after(self@, observation) == Ok::<ValidationView, ErrorView>(validation@),
            next matches Err(error) ==> after(self@, observation) == Err::<ValidationView, ErrorView>(error@),
    {
        proof {
            use_type_invariant(&self);
        }
        let done = self.done;
        match observation {
            Observation::Rows(batches) if done < 3 => self.observe_rows(&batches),
            Observation::Exists(exists) if done == 3 => {
                let outcome = assert_hive_partition_exists(
                    table_path(self.root.as_str(), Table::Regular).as_str(),
                    exists,
                );
                self.moved_on_unless(outcome)
            },
            Observation::Exists(exists) if done == 4 => self.moved_on_unless(assert_no_logical_directories(exists)),
            Observation::Exists(exists) if done == 5 => {
                let outcome = assert_hive_partition_exists(
                    table_path(self.root.as_str(), Table::EvolvedColumnMapping).as_str(),
                    exists,
                );
                self.moved_on_unless(outcome)
            },
            Observation::Contents(contents) if done == 6 || done == 7 => self.observe_contents(contents.as_str()),
            Observation::Names(names) if done == 8 => self.moved_on_unless(assert_no_random_prefix_dirs(&names)),
            Observation::Logs(logs) if done == 9 => {
                let outcome = assert_fresh_column_mapping_schema(
                    &logs,
                    table_path(self.root.as_str(), Table::ColumnMapping).as_str(),
                );
                self.moved_on_unless(outcome)
            },
            Observation::Logs(logs) if done == 10 => {
                let outcome = assert_evolved_column_mapping_schema(
                    &logs,
                    table_path(self.root.as_str(), Table::EvolvedColumnMapping).as_str(),
                );
                self.moved_on_unless(outcome)
            },
            Observation::Answer(result) if 11 <= done && done < 19 => {
                let checks = logical_filters();
                assert(check_views(checks@).len() == 8);
                let check = checks[done - 11];
                assert(check_views(checks@)[done - 11] == check@);
                self.moved_on_unless(assert_query_count(&result, check.sql, check.expected))
            },
            _ => Err(LabError::Unobserved(done)),
        }
    }

    fn observe_rows(self, batches: &Vec<Batch>) -> (next: Result<Validation, LabError>)
        requires
            is_consistent(self@),
            self@.done < 3,
            total_rows(batches@) <= usize::MAX,
            forall|i: int| 0 <= i < batches@.len() ==> batch_is_even(#[trigger] batches@[i]),
        ensures
            next matches Ok(validation) ==> after_rows(self@, batches@) == Ok::<ValidationView, ErrorView>(validation@),
            next matches Err(error) ==> after_rows(self@, batches@) == Err::<ValidationView, ErrorView>(error@),
    {
        let summary = match read_summary(batches) {
            Err(error) => return Err(error),
            Ok(summary) => summary,
        };
        let ghost before = self@;
        let Validation { root, done, mut summaries, add_summaries } = self;
        summaries.push(summary);
        let ghost views = summaries@.map_values(|summary: TableSummary| summary@);
        assert(views =~= before.summaries.push(summary@));
        if done == 2 {
            assert(views[0] == summaries@[0]@ && views[1] == summaries@[1]@ && views[2] == summaries@[2]@);
            match assert_summary(&summaries[0], RECORDS_PER_PARTITION) {
                Err(error) => return Err(error),
                Ok(_) => {},
            }
            match assert_summary(&summaries[1], RECORDS_PER_PARTITION) {
                Err(error) => return Err(error),
                Ok(_) => {},
            }
            match assert_summary(&summaries[2], RECORDS_PER_PARTITION * 2) {
                Err(error) => return Err(error),
                Ok(_) => {},
            }
        }
        Ok(Validation { root, done: done + 1, summaries, add_summaries })
    }

    fn observe_contents(self, contents: &str) -> (next: Result<Validation, LabError>)
        requires
            is_consistent(self@),
            self@.done == 6 || self@.done == 7,
        ensures
            next matches Ok(validation) ==> after_contents(self@, contents@) == Ok::<ValidationView, ErrorView>(
                validation@,
            ),
            next matches Err(error) ==> after_contents(self@, contents@) == Err::<ValidationView, ErrorView>(error@),
    {
        let summary = match latest_add_summary(contents) {
            Err(error) => return Err(error),
            Ok(summary) => summary,
        };
        let outcome = if self.done == 6 {
            assert_physical_partition_keys(&summary)
        } else {
            assert_logical_partition_keys(&summary)
        };
        match outcome {
            Err(error) => return Err(error),
            Ok(_) => {},
        }
        let ghost before = self@;
        let Validation { root, done, summaries, mut add_summaries } = self;
        add_summaries.push(summary);
        assert(add_summaries@.map_values(|summary: AddSummary| summary@) =~= before.keys.push(summary@));
        Ok(Validation { root, done: done + 1, summaries, add_summaries })
    }
}

/// How far a validation comes by some observations, one after the other.
pub open spec fn validated(root: Seq<char>, observations: Seq<Observation>) -> Result<ValidationView, ErrorView>
    decreases observations.len(),
{
    if observations.len() == 0 {
        Ok(initial(root))
    } else {
        match validated(root, observations.drop_last()) {
            Err(error) => Err(error),
            Ok(state) => after(state, observations.last()),
        }
    }
}

/// What has to hold of the observation at a place.
pub open spec fn is_expected(root: Seq<char>, at: int, observation: Observation) -> bool {
    match observation {
        Observation::Rows(batches) if at < 3 => summary_of(batches@) matches Ok(summary) && summary_failure(
            summary.0,
            summary.1,
            if at == 2 {
                (RECORDS_PER_PARTITION * 2) as usize
            } else {
                RECORDS_PER_PARTITION
            },
        ) is None,
        Observation::Exists(exists) if at == 3 || at == 5 => exists,
        Observation::Exists(exists) if at == 4 => !exists,
        Observation::Contents(contents) if at == 6 => keys_in(lines(contents@)) matches Ok(keys)
            && physical_keys_failure(keys) is None,
        Observation::Contents(contents) if at == 7 => keys_in(lines(contents@)) matches Ok(keys)
            && logical_keys_failure(keys) is None,
        Observation::Names(names) if at == 8 => random_prefix_failure(byte_strings(names@)) is None,
        Observation::Logs(logs) if at == 9 => logs_failure(root, Table::ColumnMapping, logs@) is None,
        Observation::Logs(logs) if at == 10 => logs_failure(root, Table::EvolvedColumnMapping, logs@) is None,
        Observation::Answer(result) if 11 <= at < 19 => query_failure(
            result,
            query_checks()[at - 11].sql,
            query_checks()[at - 11].expected,
        ) is None,
        _ => false,
    }
}

/// Every observation is as it has to be.
pub open spec fn all_expected(root: Seq<char>, observations: Seq<Observation>) -> bool {
    forall|at: int| 0 <= at < observations.len() ==> is_expected(root, at, #[trigger] observations[at])
}

/// A validation goes through step by step, and keeps what the tables hold.
proof fn state_is_known(root: Seq<char>, observations: Seq<Observation>)
    requires
        validated(root, observations) is Ok,
    ensures
        ({
            let state = validated(root, observations)->Ok_0;
            &&& state.root == root
            &&& state.done == observations.len()
            &&& is_consistent(state)
            &&& forall|at: int|
                0 <= at < state.summaries.len() ==> holds_rows_of(#[trigger] state.summaries[at], observations[at])
        }),
    decreases observations.len(),
{
    if observations.len() > 0 {
        let front = observations.drop_last();
        state_is_known(root, front);
        let (before, state) = (validated(root, front)->Ok_0, validated(root, observations)->Ok_0);
        assert forall|at: int| 0 <= at < state.summaries.len() implies holds_rows_of(
            #[trigger] state.summaries[at],
            observations[at],
        ) by {
            if at < before.summaries.len() {
                assert(state.summaries[at] == before.summaries[at]);
                assert(holds_rows_of(before.summaries[at], front[at]));
                assert(front[at] == observations[at]);
            }
        }
    }
}

/// A summary is that of the rows that were observed.
pub open spec fn holds_rows_of(summary: (usize, Map<Seq<char>, usize>), observation: Observation) -> bool {
    observation matches Observation::Rows(batches) && summary_of(batches@) == Ok::<
        (usize, Map<Seq<char>, usize>),
        ErrorView,
    >(summary)
}

/// Once all three tables were read, a validation has come so far exactly if they hold what they have
/// to.
proof fn three_tables_pass(root: Seq<char>, observations: Seq<Observation>)
    requires
        observations.len() == 3,
    ensures
        validated(root, observations) is Ok <==> all_expected(root, observations),
{
    reveal_with_fuel(validated, 4);
    let two = observations.drop_last();
    let one = two.drop_last();
    assert(one.drop_last().len() == 0);
    assert(one.last() == observations[0] && two.last() == observations[1]);
    let (a, b, c) = (observations[0], observations[1], observations[2]);
    assert(observations.last() == c);
    if all_expected(root, observations) {
        assert(is_expected(root, 0, a) && is_expected(root, 1, b) && is_expected(root, 2, c));
    }
    if validated(root, observations) is Ok {
        assert(a is Rows && b is Rows && c is Rows);
        assert(is_expected(root, 0, a) && is_expected(root, 1, b) && is_expected(root, 2, c));
        assert forall|at: int| 0 <= at < observations.len() implies is_expected(
            root,
            at,
            #[trigger] observations[at],
        ) by {}
    }
}

proof fn passes_so_far(root: Seq<char>, observations: Seq<Observation>)
    requires
        observations.len() >= 3,
    ensures
        validated(root, observations) is Ok <==> all_expected(root, observations),
    decreases observations.len(),
{
    if observations.len() == 3 {
        three_tables_pass(root, observations);
    } else {
        let front = observations.drop_last();
        let at = observations.len() - 1;
        passes_so_far(root, front);
        assert(forall|i: int| 0 <= i < front.len() ==> #[trigger] front[i] == observations[i]);
        if all_expected(root, observations) {
            assert forall|i: int| 0 <= i < front.len() implies is_expected(root, i, #[trigger] front[i]) by {
                assert(is_expected(root, i, observations[i]));
            }
            assert(is_expected(root, at, observations[at]));
        }
        if all_expected(root, front) {
            state_is_known(root, front);
            if is_expected(root, at, observations[at]) {
                assert forall|i: int| 0 <= i < observations.len() implies is_expected(
                    root,
                    i,
                    #[trigger] observations[i],
                ) by {
                    if i < front.len() {
                        assert(is_expected(root, i, front[i]));
                    }
                }
            }
        }
    }
}

/// A validation passes exactly if every expectation holds: what each of the three tables holds, where
/// its files are, under which names its logs keep partition values and columns, and what every query
/// counts.
pub proof fn passes_if_and_only_if_all_is_expected(root: Seq<char>, observations: Seq<Observation>)
    requires
        observations.len() == steps(root).len(),
    ensures
        validated(root, observations) is Ok <==> all_expected(root, observations),
{
    passes_so_far(root, observations);
}

/// Where a validation passes, the three tables hold three thousand, three thousand and six thousand
/// rows.
pub proof fn passing_tables_have_rows(root: Seq<char>, observations: Seq<Observation>)
    requires
        observations.len() == steps(root).len(),
        validated(root, observations) is Ok,
    ensures
        ({
            let summaries = validated(root, observations)->Ok_0.summaries;
            &&& summaries.len() == 3
            &&& summaries[0].0 == 3000
            &&& summaries[1].0 == 3000
            &&& summaries[2].0 == 6000
        }),
{
    passes_so_far(root, observations);
    state_is_known(root, observations);
    let summaries = validated(root, observations)->Ok_0.summaries;
    assert(holds_rows_of(summaries[0], observations[0]) && is_expected(root, 0, observations[0]));
    assert(holds_rows_of(summaries[1], observations[1]) && is_expected(root, 1, observations[1]));
    assert(holds_rows_of(summaries[2], observations[2]) && is_expected(root, 2, observations[2]));
}

/// Every observation that a validation accepts is the answer to one step, in order: as many steps are
/// done as observations were made, and never more than there are.
pub proof fn steps_come_in_order(root: Seq<char>, observations: Seq<Observation>)
    requires
        validated(root, observations) is Ok,
    ensures
        ({
            let state = validated(root, observations)->Ok_0;
            &&& state.root == root
            &&& state.done == observations.len() <= steps(root).len()
        }),
{
    state_is_known(root, observations);
}

/// A validation that failed stays failed, whatever is observed after it.
pub proof fn failure_is_final(root: Seq<char>, observations: Seq<Observation>, more: Seq<Observation>)
    requires
        validated(root, observations) is Err,
    ensures
        validated(root, observations + more) == validated(root, observations),
    decreases more.len(),
{
    if more.len() == 0 {
        assert(observations + more =~= observations);
    } else {
        failure_is_final(root, observations, more.drop_last());
        assert((observations + more).drop_last() =~= observations + more.drop_last());
    }
}

/// The tables have to hold a thousand rows for each of the three dates, and the evolved one twice as
/// many.
pub proof fn rows_that_are_expected(root: Seq<char>, batches: Vec<Batch>, at: int)
    requires
        0 <= at < 3,
    ensures
        is_expected(root, at, Observation::Rows(batches)) <==> {
            let rows = if at == 2 {
                2000int
            } else {
                1000
            };
            &&& summary_of(batches@) is Ok
            &&& summary_of(batches@)->Ok_0.0 == 3 * rows
            &&& summary_of(batches@)->Ok_0.1.contains_key("2026-04-27"@)
            &&& summary_of(batches@)->Ok_0.1["2026-04-27"@] == rows
            &&& summary_of(batches@)->Ok_0.1.contains_key("2026-04-28"@)
            &&& summary_of(batches@)->Ok_0.1["2026-04-28"@] == rows
            &&& summary_of(batches@)->Ok_0.1.contains_key("2026-05-01"@)
            &&& summary_of(batches@)->Ok_0.1["2026-05-01"@] == rows
        },
{
    if summary_of(batches@) is Ok {
        let summary = summary_of(batches@)->Ok_0;
        each_date_has_the_expected_rows(summary.0, summary.1, 1000);
        each_date_has_the_expected_rows(summary.0, summary.1, 2000);
    }
}

/// The regular and the evolved table have to have the directory of a Hive-style partition, and the one
/// with column mapping from the start none that is named after a column.
pub proof fn directories_that_are_expected(root: Seq<char>, exists: bool)
    ensures
        is_expected(root, 3, Observation::Exists(exists)) <==> exists,
        is_expected(root, 4, Observation::Exists(exists)) <==> !exists,
        is_expected(root, 5, Observation::Exists(exists)) <==> exists,
{
}

/// The latest log of the table with column mapping from the start has to give partition values under
/// names that begin with `col-`, and that of the evolved one under exactly year, month and day.
pub proof fn keys_that_are_expected(root: Seq<char>, contents: String)
    ensures
        is_expected(root, 6, Observation::Contents(contents)) <==> {
            &&& keys_in(lines(contents@)) is Ok
            &&& forall|key: Seq<char>| #[trigger]
                keys_in(lines(contents@))->Ok_0.contains(key) ==> key.len() >= 4 && key.take(4) == seq![
                    'c',
                    'o',
                    'l',
                    '-',
                ]
        },
        is_expected(root, 7, Observation::Contents(contents)) <==> {
            &&& keys_in(lines(contents@)) is Ok
            &&& forall|key: Seq<char>| #[trigger]
                keys_in(lines(contents@))->Ok_0.contains(key) <==> (key == "partition_year"@ || key
                    == "partition_month"@ || key == "partition_day"@)
        },
{
    if keys_in(lines(contents@)) is Ok {
        physical_keys_begin_with_col(keys_in(lines(contents@))->Ok_0);
        logical_keys_are_year_month_and_day(keys_in(lines(contents@))->Ok_0);
    }
}

/// No name in the directory of the evolved table may consist of two hexadecimal digits.
pub proof fn names_that_are_expected(root: Seq<char>, names: Vec<Vec<u8>>)
    ensures
        is_expected(root, 8, Observation::Names(names)) <==> forall|i: int|
            0 <= i < names@.len() ==> !((#[trigger] byte_strings(names@)[i]).len() == 2 && is_hex_digit(
                byte_strings(names@)[i][0],
            ) && is_hex_digit(byte_strings(names@)[i][1])),
{
    random_prefixes_have_two_digits(byte_strings(names@));
}

/// The logs of the two tables with column mapping have to hold a schema that passes the check for a
/// table of that kind, each for the directory of its table.
pub proof fn schemas_that_are_expected(root: Seq<char>, logs: Vec<LogFile>)
    ensures
        is_expected(root, 9, Observation::Logs(logs)) <==> {
            let mappings = table_mapping(log_views(logs@), joined_path(root, "column_mapping_events"@));
            mappings is Ok && fresh_schema_failure(mappings->Ok_0) is None
        },
        is_expected(root, 10, Observation::Logs(logs)) <==> {
            let mappings = table_mapping(log_views(logs@), joined_path(root, "evolved_column_mapping_events"@));
            mappings is Ok && evolved_schema_failure(mappings->Ok_0) is None
        },
{
}

/// Every query has to give its count, those by logical names first and then those of the report.
pub proof fn answers_that_are_expected(root: Seq<char>, at: int, result: QueryResult)
    requires
        11 <= at < 19,
    ensures
        is_expected(root, at, Observation::Answer(result)) <==> {
            let checks = logical_filter_checks() + report_filter_checks();
            result == QueryResult::Count(checks[at - 11].expected)
        },
{
    only_the_expected_count_passes(result, query_checks()[at - 11].sql, query_checks()[at - 11].expected);
}

/// Nothing else is expected at any place: each step has its kind of observation.
pub proof fn each_step_has_its_kind(root: Seq<char>, at: int, observation: Observation)
    requires
        is_expected(root, at, observation),
        0 <= at,
    ensures
        at < 19,
        observation is Rows <==> at < 3,
        observation is Exists <==> 3 <= at <= 5,
        observation is Contents <==> 6 <= at <= 7,
        observation is Names <==> at == 8,
        observation is Logs <==> 9 <= at <= 10,
        observation is Answer <==> at >= 11,
{
}

/// All is expected exactly if every observation is, at its place.
pub proof fn all_means_each(root: Seq<char>, observations: Seq<Observation>)
    ensures
        all_expected(root, observations) <==> forall|at: int|
            0 <= at < observations.len() ==> is_expected(root, at, #[trigger] observations[at]),
{
}

/// The steps of a validation: the rows of the three tables, the directories, the latest logs, the names
/// in the directory of the evolved table, the logs, and then the queries.
pub proof fn steps_are_in_this_order(root: Seq<char>)
    ensures
        ({
            let regular = joined_path(root, "regular_events"@);
            let column_mapping = joined_path(root, "column_mapping_events"@);
            let evolved = joined_path(root, "evolved_column_mapping_events"@);
            let all = steps(root);
            &&& all.len() == 19
            &&& all[0] == StepView::ReadTable(regular)
            &&& all[1] == StepView::ReadTable(column_mapping)
            &&& all[2] == StepView::ReadTable(evolved)
            &&& all[3] == StepView::TestPath(hive_path(regular))
            &&& all[4] == StepView::TestPath(logical_path(column_mapping))
            &&& all[5] == StepView::TestPath(hive_path(evolved))
            &&& all[6] == StepView::ReadLatestLog(column_mapping)
            &&& all[7] == StepView::ReadLatestLog(evolved)
            &&& all[8] == StepView::ListDirectory(evolved)
            &&& all[9] == StepView::ReadLogs(column_mapping)
            &&& all[10] == StepView::ReadLogs(evolved)
        }),
{
}

/// The step of a query asks for that query in the directory of its table.
pub proof fn queries_are_the_last_steps(root: Seq<char>, at: int)
    requires
        11 <= at < 19,
    ensures
        ({
            let check = (logical_filter_checks() + report_filter_checks())[at - 11];
            &&& steps(root)[at] is Query
            &&& steps(root)[at]->sql == check.sql
            &&& steps(root)[at]->Query_path == joined_path(root, table_directory(check.table))
        }),
{
}

/// What a step and the beginning of a validation stand for.
pub proof fn steps_stand_for_themselves(path: String, sql: String, root: Seq<char>)
    ensures
        Step::ReadTable(path)@ == StepView::ReadTable(path@),
        Step::TestPath(path)@ == StepView::TestPath(path@),
        Step::ReadLatestLog(path)@ == StepView::ReadLatestLog(path@),
        Step::ListDirectory(path)@ == StepView::ListDirectory(path@),
        Step::ReadLogs(path)@ == StepView::ReadLogs(path@),
        (Step::Query { path, sql })@ == (StepView::Query { path: path@, sql: sql@ }),
        initial(root).root == root,
        initial(root).done == 0,
        initial(root).summaries.len() == 0,
        initial(root).keys.len() == 0,
{
}

/// An observation that is as it has to be moves a validation on by one step and keeps its root. From
/// the fourth step on, every other one makes it fail.
pub proof fn expected_observations_move_on(state: ValidationView, observation: Observation)
    requires
        is_consistent(state),
        3 <= state.done < 19,
    ensures
        after(state, observation) is Ok <==> is_expected(state.root, state.done as int, observation),
        after(state, observation) matches Ok(next) ==> {
            &&& next.root == state.root
            &&& next.done == state.done + 1
            &&& next.summaries == state.summaries
            &&& observation is Contents ==> keys_in(lines(observation->Contents_0@)) == Ok::<
                Set<Seq<char>>,
                ErrorView,
            >(next.keys.last()) && next.keys.drop_last() == state.keys
            &&& !(observation is Contents) ==> next.keys == state.keys
        },
{
    if let Observation::Contents(contents) = observation {
        if after(state, observation) is Ok {
            assert(after(state, observation)->Ok_0.keys.drop_last() =~= state.keys);
        }
    }
}

/// What is reported of an observation that is not as it has to be is what the check of its step
/// reports, and one of another kind is reported by the place of the step.
pub proof fn failing_step_is_reported(state: ValidationView, observation: Observation)
    requires
        is_consistent(state),
        after(state, observation) is Err,
    ensures
        ({
            let error = after(state, observation)->Err_0;
            let regular = joined_path(state.root, "regular_events"@);
            let column_mapping = joined_path(state.root, "column_mapping_events"@);
            let evolved = joined_path(state.root, "evolved_column_mapping_events"@);
            match observation {
                Observation::Rows(batches) => state.done < 3 && summary_of(batches@) is Err ==> error == summary_of(
                    batches@,
                )->Err_0,
                Observation::Exists(_) => {
                    &&& state.done == 3 ==> Some(error) == hive_failure(regular, false)
                    &&& state.done == 4 ==> Some(error) == logical_directory_failure(true)
                    &&& state.done == 5 ==> Some(error) == hive_failure(evolved, false)
                },
                Observation::Contents(contents) => state.done == 6 || state.done == 7 ==> match keys_in(
                    lines(contents@),
                ) {
                    Err(broken) => error == broken,
                    Ok(keys) => Some(error) == if state.done == 6 {
                        physical_keys_failure(keys)
                    } else {
                        logical_keys_failure(keys)
                    },
                },
                Observation::Names(names) => state.done == 8 ==> Some(error) == random_prefix_failure(
                    byte_strings(names@),
                ),
                Observation::Logs(logs) => {
                    &&& state.done == 9 ==> match table_mapping(log_views(logs@), column_mapping) {
                        Err(broken) => error == broken,
                        Ok(mappings) => Some(error) == fresh_schema_failure(mappings),
                    }
                    &&& state.done == 10 ==> match table_mapping(log_views(logs@), evolved) {
                        Err(broken) => error == broken,
                        Ok(mappings) => Some(error) == evolved_schema_failure(mappings),
                    }
                },
                Observation::Answer(result) => 11 <= state.done < 19 ==> {
                    let check = (logical_filter_checks() + report_filter_checks())[state.done - 11];
                    Some(error) == query_failure(result, check.sql, check.expected)
                },
            }
        }),
{
}

/// An observation of another kind than the step asks for is reported by the place of the step.
pub proof fn other_kinds_are_reported(state: ValidationView, observation: Observation)
    requires
        is_consistent(state),
        observation is Rows ==> state.done >= 3,
        observation is Exists ==> state.done < 3 || state.done > 5,
        observation is Contents ==> state.done != 6 && state.done != 7,
        observation is Names ==> state.done != 8,
        observation is Logs ==> state.done != 9 && state.done != 10,
        observation is Answer ==> state.done < 11 || state.done == 19,
    ensures
        after(state, observation) == Err::<ValidationView, ErrorView>(ErrorView::Unobserved(state.done as usize)),
{
}

/// The rows of a table are kept, and nothing is asked of them until the third table was read. Then the
/// tables are checked in order, a thousand rows for each date in the first two and two thousand in the
/// third, and the first that fails is reported.
pub proof fn tables_are_checked_once_all_were_read(state: ValidationView, batches: Vec<Batch>)
    requires
        is_consistent(state),
        state.done < 3,
        summary_of(batches@) is Ok,
    ensures
        ({
            let summary = summary_of(batches@)->Ok_0;
            let outcome = after(state, Observation::Rows(batches));
            let first = summary_failure(state.summaries[0].0, state.summaries[0].1, 1000);
            let second = summary_failure(state.summaries[1].0, state.summaries[1].1, 1000);
            let third = summary_failure(summary.0, summary.1, 2000);
            &&& outcome is Ok ==> outcome->Ok_0.root == state.root && outcome->Ok_0.done == state.done + 1
                && outcome->Ok_0.summaries == state.summaries.push(summary) && outcome->Ok_0.keys == state.keys
            &&& state.done < 2 ==> outcome is Ok
            &&& state.done == 2 ==> {
                &&& first is Some ==> outcome == Err::<ValidationView, ErrorView>(first->0)
                &&& first is None && second is Some ==> outcome == Err::<ValidationView, ErrorView>(second->0)
                &&& first is None && second is None && third is Some ==> outcome == Err::<ValidationView, ErrorView>(
                    third->0,
                )
                &&& first is None && second is None && third is None ==> outcome is Ok
            }
        }),
{
}

/// One observation more is judged by where the validation has come before it.
pub proof fn observations_come_one_by_one(root: Seq<char>, observations: Seq<Observation>, last: Observation)
    ensures
        validated(root, Seq::<Observation>::empty()) == Ok::<ValidationView, ErrorView>(initial(root)),
        validated(root, observations) matches Ok(state) ==> validated(root, observations.push(last)) == after(
            state,
            last,
        ),
        validated(root, observations) matches Err(error) ==> validated(root, observations.push(last)) == Err::<
            ValidationView,
            ErrorView,
        >(error),
{
    assert(observations.push(last).drop_last() =~= observations);
}

/// An observation is one at all exactly if its rows can be counted and each has a date or misses one,
/// or if its logs have different names.
pub proof fn observations_are_possible(observation: Observation)
    ensures
        is_observable(observation) <==> match observation {
            Observation::Rows(batches) => total_rows(batches@) <= usize::MAX && forall|i: int|
                0 <= i < batches@.len() ==> batch_is_even(#[trigger] batches@[i]),
            Observation::Logs(logs) => file_names_differ(log_views(logs@)),
            _ => true,
        },
{
}

} // verus!
