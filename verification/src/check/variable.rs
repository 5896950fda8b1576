//! Checks on the definition of a variable.

use vstd::prelude::*;
use crate::check::{countable, locate, locator_of, VariableCheck};
use crate::config::{Config, ConfigView};
use crate::report::{
    distinct_names, lemma_with_check, lemma_with_status, status_of, with_check, with_status,
    Report, ReportView, StatusView,
};
use crate::text::{any_occurs_in, contains};
use crate::variable::{Variable, VariableView};

verus! {

/// The name under which the date-format check reports.
pub const PRECISE_DATE_FORMAT: &'static str = "precise_date_format";

/// What the date-format check looks for.
pub const PRECISE_DATE_FORMAT_DESC: &'static str =
    "Flags date formats that are too specific and could potentially be disclosive.";

/// Why the date-format check fails a variable.
pub const PRECISE_DATE_FORMAT_REASON: &'static str = "date format is too precise";

/// The variable checks in the order in which they run.
pub open spec fn registered() -> Seq<VariableCheck> {
    seq![VariableCheck::PreciseDateFormat]
}

/// The variable checks in the order in which they run.
pub fn register() -> (checks: Vec<VariableCheck>)
    ensures
        checks@ == registered(),
{
    let mut checks: Vec<VariableCheck> = Vec::new();
    checks.push(VariableCheck::PreciseDateFormat);
    assert(checks@ =~= registered());
    checks
}

/// The report after the date-format check has seen one variable: the
/// variable fails if its format holds any of the configured parts, and
/// passes otherwise.
pub open spec fn precise_date_format_of(
    variable: VariableView,
    config: ConfigView,
    report: ReportView,
) -> ReportView {
    match config.precise_date_format {
        None => report,
        Some(patterns) => {
            let rows = with_check(report.summary, PRECISE_DATE_FORMAT@, PRECISE_DATE_FORMAT_DESC@);
            let status = status_of(rows, PRECISE_DATE_FORMAT@)->0;
            let outcome = if any_occurs_in(variable.value_format, patterns) {
                status.failed(locator_of(variable, PRECISE_DATE_FORMAT_REASON@))
            } else {
                status.passed()
            };
            ReportView { summary: with_status(rows, PRECISE_DATE_FORMAT@, outcome), ..report }
        },
    }
}

/// Fails a variable whose display format shows a date or time more
/// precisely than the configuration allows.
pub fn precise_date_format(variable: &Variable, config: &Config, report: &mut Report)
    requires
        config@.precise_date_format is Some ==> countable(
            old(report)@.summary,
            PRECISE_DATE_FORMAT@,
        ),
    ensures
        final(report)@ == precise_date_format_of(variable@, config@, old(report)@),
{
    match &config.variable_config.precise_date_format {
        None => {},
        Some(patterns) => {
            proof {
                lemma_with_check(
                    report@.summary,
                    PRECISE_DATE_FORMAT@,
                    PRECISE_DATE_FORMAT_DESC@,
                    PRECISE_DATE_FORMAT@,
                );
            }
            let status = report.summary.entry(PRECISE_DATE_FORMAT, PRECISE_DATE_FORMAT_DESC);
            if contains(variable.value_format.as_str(), &patterns.setting) {
                status.record_fail(locate(variable, PRECISE_DATE_FORMAT_REASON));
            } else {
                status.record_pass();
            }
        },
    }
}

/// The report at the start of a read, as far as one variable check goes:
/// a check that is configured has its line in the summary from the start,
/// with nothing counted, so that it reports on a file without variables
/// too.
pub open spec fn variable_check_entered(
    check: VariableCheck,
    config: ConfigView,
    report: ReportView,
) -> ReportView {
    match check {
        VariableCheck::PreciseDateFormat => match config.precise_date_format {
            None => report,
            Some(_) => ReportView {
                summary: with_check(report.summary, PRECISE_DATE_FORMAT@, PRECISE_DATE_FORMAT_DESC@),
                ..report
            },
        },
    }
}

/// The report after each of the listed variable checks that is configured
/// has been given its line, in the order of the list.
pub open spec fn variable_checks_entered(
    checks: Seq<VariableCheck>,
    config: ConfigView,
    report: ReportView,
) -> ReportView
    decreases checks.len(),
{
    if checks.len() == 0 {
        report
    } else {
        variable_check_entered(
            checks.last(),
            config,
            variable_checks_entered(checks.drop_last(), config, report),
        )
    }
}

/// Gives one variable check its line in the summary, if it is configured.
pub fn enter_variable_check(check: VariableCheck, config: &Config, report: &mut Report)
    ensures
        final(report)@ == variable_check_entered(check, config@, old(report)@),
{
    match check {
        VariableCheck::PreciseDateFormat => {
            if config.variable_config.precise_date_format.is_some() {
                report.summary.enter(PRECISE_DATE_FORMAT, PRECISE_DATE_FORMAT_DESC);
            }
        },
    }
}

/// Gives each of the listed variable checks that is configured its line in
/// the summary, in the order of the list.
pub fn enter_variable_checks(checks: &Vec<VariableCheck>, config: &Config, report: &mut Report)
    ensures
        final(report)@ == variable_checks_entered(checks@, config@, old(report)@),
{
    let mut i: usize = 0;
    while i < checks.len()
        invariant
            i <= checks.len(),
            report@ == variable_checks_entered(checks@.take(i as int), config@, old(report)@),
        decreases checks.len() - i,
    {
        proof {
            assert(checks@.take(i + 1).drop_last() =~= checks@.take(i as int));
        }
        enter_variable_check(checks[i], config, report);
        i += 1;
    }
    assert(checks@.take(i as int) =~= checks@);
}

/// Giving the variable checks their lines counts nothing: the metadata and
/// the outcome of every other check are as they were, no check gets a
/// second line, and the date-format check has the tallies that it had, or
/// none yet.
pub proof fn lemma_variable_checks_entered(
    checks: Seq<VariableCheck>,
    config: ConfigView,
    report: ReportView,
    other: Seq<char>,
)
    ensures
        variable_checks_entered(checks, config, report).metadata == report.metadata,
        distinct_names(report.summary) ==> distinct_names(
            variable_checks_entered(checks, config, report).summary,
        ),
        other != PRECISE_DATE_FORMAT@ ==> status_of(
            variable_checks_entered(checks, config, report).summary,
            other,
        ) == status_of(report.summary, other),
        status_or_fresh(variable_checks_entered(checks, config, report), PRECISE_DATE_FORMAT@).pass
            == status_or_fresh(report, PRECISE_DATE_FORMAT@).pass,
        status_or_fresh(variable_checks_entered(checks, config, report), PRECISE_DATE_FORMAT@).fail
            == status_or_fresh(report, PRECISE_DATE_FORMAT@).fail,
        status_of(variable_checks_entered(checks, config, report).summary, PRECISE_DATE_FORMAT@)
            is Some <==> status_of(report.summary, PRECISE_DATE_FORMAT@) is Some || (
        config.precise_date_format is Some && checks.contains(VariableCheck::PreciseDateFormat)),
    decreases checks.len(),
{
    if checks.len() > 0 {
        let before = variable_checks_entered(checks.drop_last(), config, report);
        lemma_variable_checks_entered(checks.drop_last(), config, report, other);
        lemma_with_check(before.summary, PRECISE_DATE_FORMAT@, PRECISE_DATE_FORMAT_DESC@, other);
        lemma_with_check(
            before.summary,
            PRECISE_DATE_FORMAT@,
            PRECISE_DATE_FORMAT_DESC@,
            PRECISE_DATE_FORMAT@,
        );
        assert(checks.last() == VariableCheck::PreciseDateFormat);
        assert(checks.contains(VariableCheck::PreciseDateFormat));
    } else {
        assert(!checks.contains(VariableCheck::PreciseDateFormat));
    }
}

/// The report after one variable check has seen one variable.
pub open spec fn variable_check_of(
    check: VariableCheck,
    variable: VariableView,
    config: ConfigView,
    report: ReportView,
) -> ReportView {
    match check {
        VariableCheck::PreciseDateFormat => precise_date_format_of(variable, config, report),
    }
}

/// The report after the listed variable checks have seen one variable, one
/// after the other.
pub open spec fn variable_checks_of(
    checks: Seq<VariableCheck>,
    variable: VariableView,
    config: ConfigView,
    report: ReportView,
) -> ReportView
    decreases checks.len(),
{
    if checks.len() == 0 {
        report
    } else {
        variable_check_of(
            checks.last(),
            variable,
            config,
            variable_checks_of(checks.drop_last(), variable, config, report),
        )
    }
}

/// Whether a variable check can run on a report.
pub open spec fn variable_check_ready(
    check: VariableCheck,
    config: ConfigView,
    report: ReportView,
) -> bool {
    match check {
        VariableCheck::PreciseDateFormat => config.precise_date_format is Some ==> countable(
            report.summary,
            PRECISE_DATE_FORMAT@,
        ),
    }
}

/// Runs one variable check on one variable.
pub fn run_variable_check(
    check: VariableCheck,
    variable: &Variable,
    config: &Config,
    report: &mut Report,
)
    requires
        variable_check_ready(check, config@, old(report)@),
    ensures
        final(report)@ == variable_check_of(check, variable@, config@, old(report)@),
{
    match check {
        VariableCheck::PreciseDateFormat => precise_date_format(variable, config, report),
    }
}

/// Runs the listed variable checks on one variable, in order. No check may
/// be listed twice.
pub fn run_variable_checks(
    checks: &Vec<VariableCheck>,
    variable: &Variable,
    config: &Config,
    report: &mut Report,
)
    requires
        checks@.no_duplicates(),
        forall|k: int|
            0 <= k < checks.len() ==> variable_check_ready(
                #[trigger] checks[k],
                config@,
                old(report)@,
            ),
    ensures
        final(report)@ == variable_checks_of(checks@, variable@, config@, old(report)@),
{
    let mut i: usize = 0;
    while i < checks.len()
        invariant
            i <= checks.len(),
            checks@.no_duplicates(),
            forall|k: int|
                i <= k < checks.len() ==> variable_check_ready(
                    #[trigger] checks[k],
                    config@,
                    report@,
                ),
            report@ == variable_checks_of(checks@.take(i as int), variable@, config@, old(report)@),
        decreases checks.len() - i,
    {
        proof {
            assert(checks@.take(i + 1).drop_last() =~= checks@.take(i as int));
        }
        run_variable_check(checks[i], variable, config, report);
        proof {
            assert forall|k: int| i < k < checks.len() implies variable_check_ready(
                #[trigger] checks[k],
                config@,
                report@,
            ) by {
                assert(checks[k] != checks[i as int]);
            }
        }
        i += 1;
    }
    assert(checks@.take(i as int) =~= checks@);
}

/// The outcome of the check of this name, or a fresh one if it has none.
pub open spec fn status_or_fresh(report: ReportView, name: Seq<char>) -> StatusView {
    match status_of(report.summary, name) {
        Some(status) => status,
        None => StatusView::fresh(Seq::empty()),
    }
}

/// The date-format check leaves the metadata and the outcome of every
/// other check as they were. Where it runs, it counts the variable once,
/// as a pass or as a failure.
pub proof fn lemma_precise_date_format_counts(
    variable: VariableView,
    config: ConfigView,
    report: ReportView,
    other: Seq<char>,
)
    ensures
        precise_date_format_of(variable, config, report).metadata == report.metadata,
        distinct_names(report.summary) ==> distinct_names(
            precise_date_format_of(variable, config, report).summary,
        ),
        other != PRECISE_DATE_FORMAT@ ==> status_of(
            precise_date_format_of(variable, config, report).summary,
            other,
        ) == status_of(report.summary, other),
        config.precise_date_format is None ==> precise_date_format_of(variable, config, report)
            == report,
        config.precise_date_format is Some ==> ({
            let before = status_or_fresh(report, PRECISE_DATE_FORMAT@);
            let after = status_of(
                precise_date_format_of(variable, config, report).summary,
                PRECISE_DATE_FORMAT@,
            );
            &&& after is Some
            &&& before.pass <= after->0.pass
            &&& before.fail <= after->0.fail
            &&& after->0.pass + after->0.fail == before.pass + before.fail + 1
        }),
{
    if config.precise_date_format is Some {
        let rows = with_check(report.summary, PRECISE_DATE_FORMAT@, PRECISE_DATE_FORMAT_DESC@);
        let status = status_of(rows, PRECISE_DATE_FORMAT@)->0;
        let outcome = if any_occurs_in(variable.value_format, config.precise_date_format->0) {
            status.failed(locator_of(variable, PRECISE_DATE_FORMAT_REASON@))
        } else {
            status.passed()
        };
        lemma_with_check(report.summary, PRECISE_DATE_FORMAT@, PRECISE_DATE_FORMAT_DESC@, other);
        lemma_with_check(
            report.summary,
            PRECISE_DATE_FORMAT@,
            PRECISE_DATE_FORMAT_DESC@,
            PRECISE_DATE_FORMAT@,
        );
        lemma_with_status(rows, PRECISE_DATE_FORMAT@, outcome, other);
    }
}

/// A list of variable checks without repetition counts a variable at most
/// once under each name, and leaves everything else as it was.
pub proof fn lemma_variable_checks_count(
    checks: Seq<VariableCheck>,
    variable: VariableView,
    config: ConfigView,
    report: ReportView,
    other: Seq<char>,
)
    requires
        checks.no_duplicates(),
    ensures
        variable_checks_of(checks, variable, config, report).metadata == report.metadata,
        distinct_names(report.summary) ==> distinct_names(
            variable_checks_of(checks, variable, config, report).summary,
        ),
        other != PRECISE_DATE_FORMAT@ ==> status_of(
            variable_checks_of(checks, variable, config, report).summary,
            other,
        ) == status_of(report.summary, other),
        ({
            let before = status_or_fresh(report, PRECISE_DATE_FORMAT@);
            let after = status_or_fresh(
                variable_checks_of(checks, variable, config, report),
                PRECISE_DATE_FORMAT@,
            );
            &&& before.pass <= after.pass
            &&& before.fail <= after.fail
            &&& after.pass + after.fail <= before.pass + before.fail + 1
        }),
        status_of(variable_checks_of(checks, variable, config, report).summary, PRECISE_DATE_FORMAT@)
            is Some <==> status_of(report.summary, PRECISE_DATE_FORMAT@) is Some || (
        config.precise_date_format is Some && checks.contains(VariableCheck::PreciseDateFormat)),
{
    if checks.len() == 0 {
        assert(!checks.contains(VariableCheck::PreciseDateFormat));
    } else if checks.len() == 1 {
        assert(checks.drop_last().len() == 0);
        assert(variable_checks_of(checks.drop_last(), variable, config, report) == report);
        assert(checks[0] == VariableCheck::PreciseDateFormat);
        assert(checks.contains(VariableCheck::PreciseDateFormat));
        lemma_precise_date_format_counts(variable, config, report, other);
    } else {
        assert(checks[0] == checks[1]);
    }
}

} // verus!
