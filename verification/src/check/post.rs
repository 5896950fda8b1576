//! Checks on the finished frequency tables.

use vstd::prelude::*;
use crate::check::{countable, in_range, locate, locator_of, PostCheck};
use crate::config::{Config, ConfigView};
use crate::context::{Context, ContextView};
use crate::error::Violation;
use crate::frequency::{has_rare, sub_table_of, system_missing, total, Frequency, SubTable};
use crate::report::{
    distinct_names, lemma_with_check, lemma_with_status, names, status_of, with_check, with_status, MetadataView,
    Report, ReportView, StatusView,
};
use crate::text::{decimal_digits, render_unsigned};
use crate::variable::{position_of_name, VariableView};
use vstd::string::StringExecFns;

verus! {

/// The post checks in the order in which they run.
pub open spec fn registered() -> Seq<PostCheck> {
    seq![
        PostCheck::PrimaryVariable,
        PostCheck::SystemMissingOverThreshold,
        PostCheck::VariablesWithUniqueValues,
    ]
}

/// The post checks in the order in which they run.
pub fn register() -> (checks: Vec<PostCheck>)
    ensures
        checks@ == registered(),
{
    let mut checks: Vec<PostCheck> = Vec::new();
    checks.push(PostCheck::PrimaryVariable);
    checks.push(PostCheck::SystemMissingOverThreshold);
    checks.push(PostCheck::VariablesWithUniqueValues);
    assert(checks@ =~= registered());
    checks
}

/// The name under which the system-missing check reports.
pub const SYSTEM_MISSING: &'static str = "system_missing_over_threshold";

/// Why the system-missing check fails a variable.
pub const SYSTEM_MISSING_REASON: &'static str = "system missing values over threshold";

/// What the system-missing check looks for, up to the threshold.
pub const SYSTEM_MISSING_DESC_HEAD: &'static str =
    "Variables with large quantities of values missing. (Threshold: ";

/// The end of that description, after the threshold.
pub const SYSTEM_MISSING_DESC_TAIL: &'static str = "%)";

/// The name under which the unique-values check reports.
pub const UNIQUE_VALUES: &'static str = "variables_with_unique_values";

/// What the unique-values check looks for.
pub const UNIQUE_VALUES_DESC: &'static str = "Detects values as outliers if they are unique.";

/// Why the unique-values check fails a variable.
pub const UNIQUE_VALUES_REASON: &'static str = "has disclosive outlier";

/// The report after the primary-variable check: where a variable of the
/// configured name is registered, the aggregated case count is the number
/// of distinct values seen of it; else the report is as it was.
pub open spec fn primary_variable_of(
    context: ContextView,
    config: ConfigView,
    report: ReportView,
) -> ReportView {
    match config.primary_variable {
        None => report,
        Some(name) => match position_of_name(context.variables, name) {
            None => report,
            Some(i) => ReportView {
                metadata: MetadataView {
                    case_count: Some(
                        sub_table_of(
                            context.frequency_table,
                            context.variables[i].index as int,
                        ).len() as u64,
                    ),
                    ..report.metadata
                },
                ..report
            },
        },
    }
}

/// Counts the distinct values of the primary variable.
pub fn primary_variable(context: &Context, config: &Config, report: &mut Report)
    ensures
        final(report)@ == primary_variable_of(context@, config@, old(report)@),
{
    match &config.primary_variable {
        None => {},
        Some(name) => {
            match context.variables.find_by_name(name.setting.as_str()) {
                None => {},
                Some(variable) => {
                    let distinct: usize = match context.frequency_table.sub_table(variable.index) {
                        Some(table) => table.distinct(),
                        None => 0,
                    };
                    report.metadata.case_count = Some(distinct as u64);
                },
            }
        },
    }
}

/// Whether more than `threshold` per cent of the observations are system
/// missing. A variable without observations has none missing.
pub open spec fn over_threshold(rows: Seq<Frequency>, threshold: u64) -> bool {
    100 * system_missing(rows) > threshold * total(rows)
}

fn exceeds(table: Option<&SubTable>, threshold: u64) -> (over: bool)
    ensures
        over == over_threshold(
            match table {
                Some(t) => t@,
                None => Seq::empty(),
            },
            threshold,
        ),
{
    match table {
        None => false,
        Some(t) => {
            let missing = t.system_missing_count();
            let all = t.row_count();
            assert(100 * (missing as int) <= 100 * 0xffff_ffff_ffff_ffff);
            assert((threshold as int) * (all as int) <= 0xffff_ffff_ffff_ffff
                * 0xffff_ffff_ffff_ffff) by (nonlinear_arith)
                requires
                    0 <= threshold <= 0xffff_ffff_ffff_ffff,
                    0 <= all <= 0xffff_ffff_ffff_ffff,
            ;
            100u128 * (missing as u128) > (threshold as u128) * (all as u128)
        },
    }
}

/// The description of the system-missing check for a threshold.
pub open spec fn system_missing_desc(threshold: u64) -> Seq<char> {
    SYSTEM_MISSING_DESC_HEAD@ + decimal_digits(threshold as nat) + SYSTEM_MISSING_DESC_TAIL@
}

/// The status after the system-missing check has gone through the
/// variables in order: each one over the threshold is a failure, with its
/// locator.
pub open spec fn system_missing_tally(
    variables: Seq<VariableView>,
    tables: Seq<Seq<Frequency>>,
    threshold: u64,
    status: StatusView,
) -> StatusView
    decreases variables.len(),
{
    if variables.len() == 0 {
        status
    } else {
        let before = system_missing_tally(variables.drop_last(), tables, threshold, status);
        let variable = variables.last();
        if over_threshold(sub_table_of(tables, variable.index as int), threshold) {
            before.failed(locator_of(variable, SYSTEM_MISSING_REASON@))
        } else {
            before
        }
    }
}

/// The outcome of the system-missing check. It refuses a dataset in which
/// some variable's observations differ from the reported case count. Else
/// every variable over the threshold fails, and all others pass: the
/// passes are the reported number of variables less the failures.
pub open spec fn system_missing_over_threshold_of(
    context: ContextView,
    config: ConfigView,
    report: ReportView,
) -> Result<ReportView, Violation> {
    match config.system_missing_value_threshold {
        None => Ok(report),
        Some(threshold) => match context.case_count_check(report.metadata.raw_case_count) {
            Err(violation) => Err(violation),
            Ok(_) => {
                let rows = with_check(report.summary, SYSTEM_MISSING@, system_missing_desc(threshold));
                let counted = system_missing_tally(
                    context.variables,
                    context.frequency_table,
                    threshold,
                    status_of(rows, SYSTEM_MISSING@)->0,
                );
                let outcome = StatusView {
                    pass: report.metadata.variable_count - counted.fail,
                    ..counted
                };
                Ok(ReportView { summary: with_status(rows, SYSTEM_MISSING@, outcome), ..report })
            },
        },
    }
}

/// Fails the variables of which more than the configured share of values
/// is system missing.
pub fn system_missing_over_threshold(context: &Context, config: &Config, report: &mut Report) -> (outcome:
    Result<(), Violation>)
    requires
        config@.system_missing_value_threshold is Some ==> countable(
            old(report)@.summary,
            SYSTEM_MISSING@,
        ),
    ensures
        match system_missing_over_threshold_of(context@, config@, old(report)@) {
            Ok(after) => outcome is Ok && final(report)@ == after,
            Err(violation) => outcome == Err::<(), Violation>(violation) && final(report)@ == old(
                report,
            )@,
        },
        config@.system_missing_value_threshold is Some && outcome is Ok ==> {
            &&& status_of(final(report)@.summary, SYSTEM_MISSING@) matches Some(status)
            &&& status.pass + status.fail == final(report)@.metadata.variable_count
        },
{
    match &config.value_config.system_missing_value_threshold {
        None => Ok(()),
        Some(setting) => {
            let threshold = setting.setting;
            match context.check_case_counts(report.metadata.raw_case_count) {
                Err(violation) => Err(violation),
                Ok(_) => {
                    let desc = String::from_str(SYSTEM_MISSING_DESC_HEAD).concat(
                        render_unsigned(threshold).as_str(),
                    ).concat(SYSTEM_MISSING_DESC_TAIL);
                    let variable_count = report.metadata.variable_count;
                    let n = context.variables.len();
                    proof {
                        lemma_with_check(
                            report@.summary,
                            SYSTEM_MISSING@,
                            desc@,
                            SYSTEM_MISSING@,
                        );
                    }
                    let ghost rows = with_check(report@.summary, SYSTEM_MISSING@, desc@);
                    let status = report.summary.entry(SYSTEM_MISSING, desc.as_str());
                    let ghost start = status@;
                    let mut i: usize = 0;
                    while i < n
                        invariant
                            i <= n,
                            n == context@.variables.len(),
                            n <= i32::MAX,
                            in_range(start),
                            start.fail <= status.fail <= start.fail + i,
                            status@ == system_missing_tally(
                                context@.variables.take(i as int),
                                context@.frequency_table,
                                threshold,
                                start,
                            ),
                        decreases n - i,
                    {
                        let variable = context.variables.at(i);
                        proof {
                            let next = context@.variables.take(i + 1);
                            assert(next.drop_last() =~= context@.variables.take(i as int));
                            assert(next.last() == variable@);
                        }
                        if exceeds(context.frequency_table.sub_table(variable.index), threshold) {
                            status.record_fail(locate(variable, SYSTEM_MISSING_REASON));
                        }
                        i += 1;
                    }
                    assert(context@.variables.take(n as int) =~= context@.variables);
                    status.pass = variable_count as i64 - status.fail;
                    proof {
                        lemma_with_status(rows, SYSTEM_MISSING@, status@, SYSTEM_MISSING@);
                    }
                    Ok(())
                },
            }
        },
    }
}

/// The status after the unique-values check has gone through the
/// variables in order: a variable with any value seen at most `threshold`
/// times fails as a whole, every other one passes.
pub open spec fn unique_values_tally(
    variables: Seq<VariableView>,
    tables: Seq<Seq<Frequency>>,
    threshold: u64,
    status: StatusView,
) -> StatusView
    decreases variables.len(),
{
    if variables.len() == 0 {
        status
    } else {
        let before = unique_values_tally(variables.drop_last(), tables, threshold, status);
        let variable = variables.last();
        if has_rare(sub_table_of(tables, variable.index as int), threshold as nat) {
            before.failed(locator_of(variable, UNIQUE_VALUES_REASON@))
        } else {
            before.passed()
        }
    }
}

/// The report after the unique-values check.
pub open spec fn variables_with_unique_values_of(
    context: ContextView,
    config: ConfigView,
    report: ReportView,
) -> ReportView {
    match config.variables_with_unique_values {
        None => report,
        Some(threshold) => {
            let rows = with_check(report.summary, UNIQUE_VALUES@, UNIQUE_VALUES_DESC@);
            let outcome = unique_values_tally(
                context.variables,
                context.frequency_table,
                threshold,
                status_of(rows, UNIQUE_VALUES@)->0,
            );
            ReportView { summary: with_status(rows, UNIQUE_VALUES@, outcome), ..report }
        },
    }
}

/// Fails the variables that hold a value seen no more often than the
/// configured number of times.
pub fn variables_with_unique_values(context: &Context, config: &Config, report: &mut Report)
    requires
        config@.variables_with_unique_values is Some ==> countable(
            old(report)@.summary,
            UNIQUE_VALUES@,
        ),
    ensures
        final(report)@ == variables_with_unique_values_of(context@, config@, old(report)@),
{
    match &config.variables_with_unique_values {
        None => {},
        Some(setting) => {
            let threshold = setting.setting;
            let n = context.variables.len();
            proof {
                lemma_with_check(
                    report@.summary,
                    UNIQUE_VALUES@,
                    UNIQUE_VALUES_DESC@,
                    UNIQUE_VALUES@,
                );
            }
            let status = report.summary.entry(UNIQUE_VALUES, UNIQUE_VALUES_DESC);
            let ghost start = status@;
            let mut i: usize = 0;
            while i < n
                invariant
                    i <= n,
                    n == context@.variables.len(),
                    n <= i32::MAX,
                    in_range(start),
                    start.fail <= status.fail <= start.fail + i,
                    start.pass <= status.pass <= start.pass + i,
                    status@ == unique_values_tally(
                        context@.variables.take(i as int),
                        context@.frequency_table,
                        threshold,
                        start,
                    ),
                decreases n - i,
            {
                let variable = context.variables.at(i);
                proof {
                    let next = context@.variables.take(i + 1);
                    assert(next.drop_last() =~= context@.variables.take(i as int));
                    assert(next.last() == variable@);
                }
                let rare = match context.frequency_table.sub_table(variable.index) {
                    Some(table) => table.has_count_at_most(threshold),
                    None => false,
                };
                if rare {
                    status.record_fail(locate(variable, UNIQUE_VALUES_REASON));
                } else {
                    status.record_pass();
                }
                i += 1;
            }
            assert(context@.variables.take(n as int) =~= context@.variables);
        },
    }
}

/// The outcome of one post check.
pub open spec fn post_check_of(
    check: PostCheck,
    context: ContextView,
    config: ConfigView,
    report: ReportView,
) -> Result<ReportView, Violation> {
    match check {
        PostCheck::PrimaryVariable => Ok(primary_variable_of(context, config, report)),
        PostCheck::SystemMissingOverThreshold => system_missing_over_threshold_of(
            context,
            config,
            report,
        ),
        PostCheck::VariablesWithUniqueValues => Ok(
            variables_with_unique_values_of(context, config, report),
        ),
    }
}

/// The outcome of the listed post checks, run one after the other: the
/// report as the last check to succeed left it, and the breach that the
/// first check to fail found, if one failed. No check runs after a
/// failure.
pub open spec fn post_checks_of(
    checks: Seq<PostCheck>,
    context: ContextView,
    config: ConfigView,
    report: ReportView,
) -> (ReportView, Result<(), Violation>)
    decreases checks.len(),
{
    if checks.len() == 0 {
        (report, Ok(()))
    } else {
        let (before, outcome) = post_checks_of(checks.drop_last(), context, config, report);
        match outcome {
            Err(violation) => (before, Err(violation)),
            Ok(_) => match post_check_of(checks.last(), context, config, before) {
                Ok(after) => (after, Ok(())),
                Err(violation) => (before, Err(violation)),
            },
        }
    }
}

/// Whether a post check can run on a report.
pub open spec fn post_check_ready(check: PostCheck, config: ConfigView, report: ReportView) -> bool {
    match check {
        PostCheck::PrimaryVariable => true,
        PostCheck::SystemMissingOverThreshold => config.system_missing_value_threshold is Some
            ==> countable(report.summary, SYSTEM_MISSING@),
        PostCheck::VariablesWithUniqueValues => config.variables_with_unique_values is Some
            ==> countable(report.summary, UNIQUE_VALUES@),
    }
}

/// The two post checks that report do so under different names.
pub proof fn lemma_names_differ()
    ensures
        SYSTEM_MISSING@ != UNIQUE_VALUES@,
{
    reveal_strlit("system_missing_over_threshold");
    reveal_strlit("variables_with_unique_values");
    assert(SYSTEM_MISSING@.len() != UNIQUE_VALUES@.len());
}

/// The system-missing check leaves the outcome of every other check as it
/// was.
pub proof fn lemma_system_missing_keeps(
    context: ContextView,
    config: ConfigView,
    report: ReportView,
    other: Seq<char>,
)
    requires
        other != SYSTEM_MISSING@,
        system_missing_over_threshold_of(context, config, report) is Ok,
    ensures
        status_of(
            system_missing_over_threshold_of(context, config, report)->Ok_0.summary,
            other,
        ) == status_of(report.summary, other),
        distinct_names(report.summary) ==> distinct_names(
            system_missing_over_threshold_of(context, config, report)->Ok_0.summary,
        ),
{
    if config.system_missing_value_threshold is Some {
        let threshold = config.system_missing_value_threshold->0;
        let desc = system_missing_desc(threshold);
        let rows = with_check(report.summary, SYSTEM_MISSING@, desc);
        let after = system_missing_over_threshold_of(context, config, report)->Ok_0;
        let outcome = choose|outcome: StatusView|
            after.summary == with_status(rows, SYSTEM_MISSING@, outcome);
        lemma_with_check(report.summary, SYSTEM_MISSING@, desc, other);
        lemma_with_status(rows, SYSTEM_MISSING@, outcome, other);
    }
}

/// The unique-values check leaves the outcome of every other check as it
/// was.
pub proof fn lemma_unique_values_keeps(
    context: ContextView,
    config: ConfigView,
    report: ReportView,
    other: Seq<char>,
)
    requires
        other != UNIQUE_VALUES@,
    ensures
        status_of(variables_with_unique_values_of(context, config, report).summary, other)
            == status_of(report.summary, other),
        distinct_names(report.summary) ==> distinct_names(
            variables_with_unique_values_of(context, config, report).summary,
        ),
        config.variables_with_unique_values is Some ==> status_of(
            variables_with_unique_values_of(context, config, report).summary,
            UNIQUE_VALUES@,
        ) is Some,
        config.variables_with_unique_values is None ==> variables_with_unique_values_of(
            context,
            config,
            report,
        ) == report,
{
    if config.variables_with_unique_values is Some {
        let rows = with_check(report.summary, UNIQUE_VALUES@, UNIQUE_VALUES_DESC@);
        let after = variables_with_unique_values_of(context, config, report);
        let outcome = choose|outcome: StatusView|
            after.summary == with_status(rows, UNIQUE_VALUES@, outcome);
        lemma_with_check(report.summary, UNIQUE_VALUES@, UNIQUE_VALUES_DESC@, other);
        lemma_with_status(rows, UNIQUE_VALUES@, outcome, other);
        lemma_with_status(rows, UNIQUE_VALUES@, outcome, UNIQUE_VALUES@);
    }
}

/// A post check leaves the other post checks ready to run.
proof fn lemma_stays_ready(
    check: PostCheck,
    other: PostCheck,
    context: ContextView,
    config: ConfigView,
    report: ReportView,
)
    requires
        check != other,
        post_check_ready(other, config, report),
        post_check_of(check, context, config, report) is Ok,
    ensures
        post_check_ready(other, config, post_check_of(check, context, config, report)->Ok_0),
{
    lemma_names_differ();
    match check {
        PostCheck::PrimaryVariable => {},
        PostCheck::SystemMissingOverThreshold => {
            lemma_system_missing_keeps(context, config, report, UNIQUE_VALUES@);
        },
        PostCheck::VariablesWithUniqueValues => {
            lemma_unique_values_keeps(context, config, report, SYSTEM_MISSING@);
        },
    }
}

/// Runs one post check.
pub fn run_post_check(check: PostCheck, context: &Context, config: &Config, report: &mut Report) -> (outcome:
    Result<(), Violation>)
    requires
        post_check_ready(check, config@, old(report)@),
    ensures
        match post_check_of(check, context@, config@, old(report)@) {
            Ok(after) => outcome is Ok && final(report)@ == after,
            Err(violation) => outcome == Err::<(), Violation>(violation) && final(report)@ == old(
                report,
            )@,
        },
{
    match check {
        PostCheck::PrimaryVariable => {
            primary_variable(context, config, report);
            Ok(())
        },
        PostCheck::SystemMissingOverThreshold => system_missing_over_threshold(
            context,
            config,
            report,
        ),
        PostCheck::VariablesWithUniqueValues => {
            variables_with_unique_values(context, config, report);
            Ok(())
        },
    }
}

/// Runs the listed post checks in order and stops at the first that
/// fails. No check may be listed twice.
pub fn run_post_checks(
    checks: &Vec<PostCheck>,
    context: &Context,
    config: &Config,
    report: &mut Report,
) -> (outcome: Result<(), Violation>)
    requires
        checks@.no_duplicates(),
        forall|k: int|
            0 <= k < checks.len() ==> post_check_ready(#[trigger] checks[k], config@, old(report)@),
    ensures
        (final(report)@, outcome) == post_checks_of(checks@, context@, config@, old(report)@),
{
    let mut i: usize = 0;
    while i < checks.len()
        invariant
            i <= checks.len(),
            checks@.no_duplicates(),
            forall|k: int|
                i <= k < checks.len() ==> post_check_ready(#[trigger] checks[k], config@, report@),
            (report@, Ok::<(), Violation>(())) == post_checks_of(
                checks@.take(i as int),
                context@,
                config@,
                old(report)@,
            ),
        decreases checks.len() - i,
    {
        let ghost before = report@;
        proof {
            assert(checks@.take(i + 1).drop_last() =~= checks@.take(i as int));
        }
        match run_post_check(checks[i], context, config, report) {
            Err(violation) => {
                proof {
                    lemma_stops_at_failure(checks@, i + 1, context@, config@, old(report)@);
                }
                return Err(violation);
            },
            Ok(_) => {
                proof {
                    assert forall|k: int| i < k < checks.len() implies post_check_ready(
                        #[trigger] checks[k],
                        config@,
                        report@,
                    ) by {
                        lemma_stays_ready(checks[i as int], checks[k], context@, config@, before);
                    }
                }
            },
        }
        i += 1;
    }
    assert(checks@.take(i as int) =~= checks@);
    Ok(())
}

/// Once a check has failed, the checks after it change nothing.
proof fn lemma_stops_at_failure(
    checks: Seq<PostCheck>,
    upto: int,
    context: ContextView,
    config: ConfigView,
    report: ReportView,
)
    requires
        0 <= upto <= checks.len(),
        post_checks_of(checks.take(upto), context, config, report).1 is Err,
    ensures
        post_checks_of(checks, context, config, report) == post_checks_of(
            checks.take(upto),
            context,
            config,
            report,
        ),
    decreases checks.len() - upto,
{
    if upto == checks.len() {
        assert(checks.take(upto) =~= checks);
    } else {
        assert(checks.take(upto + 1).drop_last() =~= checks.take(upto));
        lemma_stops_at_failure(checks, upto + 1, context, config, report);
    }
}

/// No post check changes what the file reports of its rows and variables,
/// and none gives a check a second line in the summary.
pub proof fn lemma_keeps_metadata(
    checks: Seq<PostCheck>,
    context: ContextView,
    config: ConfigView,
    report: ReportView,
)
    ensures
        post_checks_of(checks, context, config, report).0.metadata.raw_case_count
            == report.metadata.raw_case_count,
        post_checks_of(checks, context, config, report).0.metadata.variable_count
            == report.metadata.variable_count,
        distinct_names(report.summary) ==> distinct_names(
            post_checks_of(checks, context, config, report).0.summary,
        ),
    decreases checks.len(),
{
    if checks.len() > 0 {
        lemma_keeps_metadata(checks.drop_last(), context, config, report);
        let (before, outcome) = post_checks_of(checks.drop_last(), context, config, report);
        if outcome is Ok && post_check_of(checks.last(), context, config, before) is Ok {
            lemma_names_differ();
            match checks.last() {
                PostCheck::PrimaryVariable => {},
                PostCheck::SystemMissingOverThreshold => {
                    lemma_system_missing_keeps(context, config, before, UNIQUE_VALUES@);
                },
                PostCheck::VariablesWithUniqueValues => {
                    lemma_unique_values_keeps(context, config, before, SYSTEM_MISSING@);
                },
            }
        }
    }
}

/// Where no registered variable has the configured name, the
/// primary-variable check leaves the report as it was: the aggregated case
/// count stays unset. Where one has it, the count is the number of that
/// variable's distinct values.
pub proof fn lemma_primary_variable(context: ContextView, name: Seq<char>, config: ConfigView, report: ReportView)
    requires
        config.primary_variable == Some(name),
    ensures
        (forall|i: int| 0 <= i < context.variables.len() ==> (#[trigger] context.variables[i]).name != name)
            ==> primary_variable_of(context, config, report) == report,
        forall|i: int|
            0 <= i < context.variables.len() && (#[trigger] context.variables[i]).name == name && (
            forall|j: int| 0 <= j < i ==> (#[trigger] context.variables[j]).name != name)
                ==> primary_variable_of(context, config, report).metadata.case_count == Some(
                sub_table_of(context.frequency_table, context.variables[i].index as int).len() as u64,
            ),
{
    assert forall|i: int|
        0 <= i < context.variables.len() && (#[trigger] context.variables[i]).name == name && (
        forall|j: int| 0 <= j < i ==> (#[trigger] context.variables[j]).name != name) implies primary_variable_of(
        context,
        config,
        report,
    ).metadata.case_count == Some(
        sub_table_of(context.frequency_table, context.variables[i].index as int).len() as u64,
    ) by {
        let found = position_of_name(context.variables, name)->0;
        if found < i {
            assert(context.variables[found].name != name);
        } else if i < found {
            assert(context.variables[i].name != name);
        }
    }
}

/// One value seen no more often than the threshold is enough for a
/// variable to have a rare value, whatever its other values; a variable
/// all of whose values were seen more often has none.
pub proof fn lemma_rare_value(rows: Seq<Frequency>, threshold: nat)
    ensures
        forall|i: int| 0 <= i < rows.len() && (#[trigger] rows[i]).count <= threshold ==> has_rare(rows, threshold),
        (forall|i: int| 0 <= i < rows.len() ==> (#[trigger] rows[i]).count > threshold) ==> !has_rare(
            rows,
            threshold,
        ),
{
}

/// The unique-values check counts every variable once: the last variable
/// of a list fails, with its locator, if it has a rare value, and passes
/// if it has none; the variables before it are counted as they would be
/// without it.
pub proof fn lemma_unique_values_step(
    variables: Seq<VariableView>,
    variable: VariableView,
    tables: Seq<Seq<Frequency>>,
    threshold: u64,
    status: StatusView,
)
    ensures
        unique_values_tally(variables.push(variable), tables, threshold, status) == if has_rare(
            sub_table_of(tables, variable.index as int),
            threshold as nat,
        ) {
            unique_values_tally(variables, tables, threshold, status).failed(
                locator_of(variable, UNIQUE_VALUES_REASON@),
            )
        } else {
            unique_values_tally(variables, tables, threshold, status).passed()
        },
        unique_values_tally(variables, tables, threshold, status).pass + unique_values_tally(
            variables,
            tables,
            threshold,
            status,
        ).fail == status.pass + status.fail + variables.len(),
    decreases variables.len(),
{
    assert(variables.push(variable).drop_last() =~= variables);
    if variables.len() > 0 {
        lemma_unique_values_step(
            variables.drop_last(),
            variables.last(),
            tables,
            threshold,
            status,
        );
        assert(variables.drop_last().push(variables.last()) =~= variables);
    }
}

/// After the system-missing check, passes and failures add up to the
/// number of variables that the file reports.
pub proof fn lemma_system_missing_accounts(context: ContextView, config: ConfigView, report: ReportView)
    requires
        config.system_missing_value_threshold is Some,
        system_missing_over_threshold_of(context, config, report) is Ok,
    ensures
        ({
            let after = system_missing_over_threshold_of(context, config, report)->Ok_0;
            &&& after.metadata == report.metadata
            &&& status_of(after.summary, SYSTEM_MISSING@) matches Some(status)
            &&& status.pass + status.fail == report.metadata.variable_count
        }),
{
    let threshold = config.system_missing_value_threshold->0;
    let rows = with_check(report.summary, SYSTEM_MISSING@, system_missing_desc(threshold));
    let counted = system_missing_tally(
        context.variables,
        context.frequency_table,
        threshold,
        status_of(rows, SYSTEM_MISSING@)->0,
    );
    let outcome = StatusView { pass: report.metadata.variable_count - counted.fail, ..counted };
    lemma_with_check(report.summary, SYSTEM_MISSING@, system_missing_desc(threshold), SYSTEM_MISSING@);
    lemma_with_status(rows, SYSTEM_MISSING@, outcome, SYSTEM_MISSING@);
}

/// What one post check does to the lines of the summary: it gives itself
/// a line if it reports and is configured, and leaves the outcome of every
/// other check as it was.
pub proof fn lemma_post_check_lines(
    check: PostCheck,
    context: ContextView,
    config: ConfigView,
    report: ReportView,
    other: Seq<char>,
)
    requires
        post_check_of(check, context, config, report) is Ok,
    ensures
        other != SYSTEM_MISSING@ && other != UNIQUE_VALUES@ ==> status_of(
            post_check_of(check, context, config, report)->Ok_0.summary,
            other,
        ) == status_of(report.summary, other),
        status_of(post_check_of(check, context, config, report)->Ok_0.summary, SYSTEM_MISSING@)
            is Some <==> status_of(report.summary, SYSTEM_MISSING@) is Some || (check
            == PostCheck::SystemMissingOverThreshold && config.system_missing_value_threshold
            is Some),
        status_of(post_check_of(check, context, config, report)->Ok_0.summary, UNIQUE_VALUES@)
            is Some <==> status_of(report.summary, UNIQUE_VALUES@) is Some || (check
            == PostCheck::VariablesWithUniqueValues && config.variables_with_unique_values
            is Some),
{
    lemma_names_differ();
    match check {
        PostCheck::PrimaryVariable => {},
        PostCheck::SystemMissingOverThreshold => {
            if config.system_missing_value_threshold is Some {
                lemma_system_missing_accounts(context, config, report);
                lemma_system_missing_keeps(context, config, report, UNIQUE_VALUES@);
                if other != SYSTEM_MISSING@ {
                    lemma_system_missing_keeps(context, config, report, other);
                }
            }
        },
        PostCheck::VariablesWithUniqueValues => {
            lemma_unique_values_keeps(context, config, report, SYSTEM_MISSING@);
            if other != UNIQUE_VALUES@ {
                lemma_unique_values_keeps(context, config, report, other);
            }
        },
    }
}

/// What a list of post checks that all succeed does to the lines of the
/// summary: each listed check that reports and is configured has a line
/// afterwards, and the outcome of every other check is as it was.
pub proof fn lemma_post_checks_lines(
    checks: Seq<PostCheck>,
    context: ContextView,
    config: ConfigView,
    report: ReportView,
    other: Seq<char>,
)
    requires
        post_checks_of(checks, context, config, report).1 is Ok,
    ensures
        other != SYSTEM_MISSING@ && other != UNIQUE_VALUES@ ==> status_of(
            post_checks_of(checks, context, config, report).0.summary,
            other,
        ) == status_of(report.summary, other),
        status_of(post_checks_of(checks, context, config, report).0.summary, SYSTEM_MISSING@)
            is Some <==> status_of(report.summary, SYSTEM_MISSING@) is Some || (checks.contains(
            PostCheck::SystemMissingOverThreshold,
        ) && config.system_missing_value_threshold is Some),
        status_of(post_checks_of(checks, context, config, report).0.summary, UNIQUE_VALUES@)
            is Some <==> status_of(report.summary, UNIQUE_VALUES@) is Some || (checks.contains(
            PostCheck::VariablesWithUniqueValues,
        ) && config.variables_with_unique_values is Some),
    decreases checks.len(),
{
    if checks.len() == 0 {
        assert(!checks.contains(PostCheck::SystemMissingOverThreshold));
        assert(!checks.contains(PostCheck::VariablesWithUniqueValues));
    } else {
        let front = checks.drop_last();
        let (before, outcome) = post_checks_of(front, context, config, report);
        lemma_post_checks_lines(front, context, config, report, other);
        lemma_post_check_lines(checks.last(), context, config, before, other);
        lemma_contains_last(checks, PostCheck::SystemMissingOverThreshold);
        lemma_contains_last(checks, PostCheck::VariablesWithUniqueValues);
    }
}

/// A list holds a check if its last element is that check or the elements
/// before it hold it.
proof fn lemma_contains_last(checks: Seq<PostCheck>, check: PostCheck)
    requires
        checks.len() > 0,
    ensures
        checks.contains(check) <==> checks.last() == check || checks.drop_last().contains(check),
{
    let front = checks.drop_last();
    if checks.contains(check) {
        let i = choose|i: int| 0 <= i < checks.len() && checks[i] == check;
        if i < checks.len() - 1 {
            assert(front[i] == check);
        }
    }
    if front.contains(check) {
        let i = choose|i: int| 0 <= i < front.len() && front[i] == check;
        assert(checks[i] == check);
    }
    if checks.last() == check {
        assert(checks[checks.len() - 1] == check);
    }
}

} // verus!
