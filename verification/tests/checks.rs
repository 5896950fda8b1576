use qamydata::check::post::{
    primary_variable, register, run_post_checks, system_missing_over_threshold,
    variables_with_unique_values, SYSTEM_MISSING, UNIQUE_VALUES,
};
use qamydata::check::variable::{precise_date_format, run_variable_checks, PRECISE_DATE_FORMAT};
use qamydata::check::{Check, PostCheck, VariableCheck};
use qamydata::config::{Config, Setting};
use qamydata::context::Context;
use qamydata::error::Violation;
use qamydata::missing::Missing;
use qamydata::report::{Locator, Report};
use qamydata::variable::Variable;

/// The variable with this index, counted from 1, as a reader that counts
/// from 0 hands it over.
fn variable(index: i32, name: &str, format: &str) -> Variable {
    Variable::from_raw_parts(index - 1, name.to_string(), None, Some(format.to_string()), None)
}

fn observe(context: &mut Context, variable_index: i32, key: &str, missing: Missing, times: u32) {
    for _ in 0..times {
        context.frequency_table.observe(variable_index, key.to_string(), missing);
    }
}

/// One variable with 100 observations, 30 of them system missing.
fn thirty_percent_missing() -> Context {
    let mut context = Context::new();
    context.variables.register(variable(1, "income", "%9.0g")).unwrap();
    observe(&mut context, 1, "", Missing::SystemMissing, 30);
    observe(&mut context, 1, "100", Missing::NotMissing, 50);
    observe(&mut context, 1, "200", Missing::NotMissing, 20);
    context
}

fn report_of(raw_case_count: i32, variable_count: i32) -> Report {
    let mut report = Report::new("test.dta");
    report.metadata.raw_case_count = raw_case_count;
    report.metadata.variable_count = variable_count;
    report
}

fn with_threshold(threshold: u64) -> Config {
    let mut config = Config::new();
    config.value_config.system_missing_value_threshold = Some(Setting { setting: threshold });
    config
}

fn with_unique(threshold: u64) -> Config {
    let mut config = Config::new();
    config.variables_with_unique_values = Some(Setting { setting: threshold });
    config
}

fn with_primary(name: &str) -> Config {
    let mut config = Config::new();
    config.primary_variable = Some(Setting { setting: name.to_string() });
    config
}

fn with_date_parts(parts: &[&str]) -> Config {
    let mut config = Config::new();
    config.variable_config.precise_date_format =
        Some(Setting { setting: parts.iter().map(|p| p.to_string()).collect() });
    config
}

#[test]
fn post_checks_are_registered_in_order() {
    assert_eq!(
        register(),
        vec![
            PostCheck::PrimaryVariable,
            PostCheck::SystemMissingOverThreshold,
            PostCheck::VariablesWithUniqueValues
        ]
    );
}

#[test]
fn variable_checks_are_registered_in_order() {
    assert_eq!(
        qamydata::check::variable::register(),
        vec![VariableCheck::PreciseDateFormat]
    );
    let checks = Check::new();
    assert_eq!(checks.variable.len(), 1);
    assert_eq!(checks.post.len(), 3);
}

#[test]
fn thirty_percent_missing_fails_a_threshold_of_25() {
    let context = thirty_percent_missing();
    let mut report = report_of(100, 1);
    assert_eq!(system_missing_over_threshold(&context, &with_threshold(25), &mut report), Ok(()));
    let status = report.summary.get(SYSTEM_MISSING).unwrap();
    assert_eq!(status.fail, 1);
    assert_eq!(status.pass, 0);
    let locators = status.locator.as_ref().unwrap();
    assert_eq!(locators.len(), 1);
    assert_eq!(
        locators.get(0),
        &Locator {
            variable_name: "income".to_string(),
            variable_index: 1,
            value_index: -1,
            reason: Some("system missing values over threshold".to_string()),
        }
    );
}

#[test]
fn thirty_percent_missing_passes_a_threshold_of_35() {
    let context = thirty_percent_missing();
    let mut report = report_of(100, 1);
    assert_eq!(system_missing_over_threshold(&context, &with_threshold(35), &mut report), Ok(()));
    let status = report.summary.get(SYSTEM_MISSING).unwrap();
    assert_eq!(status.fail, 0);
    assert_eq!(status.pass, 1);
    assert!(status.locator.is_none());
}

#[test]
fn a_share_equal_to_the_threshold_passes() {
    let context = thirty_percent_missing();
    let mut report = report_of(100, 1);
    assert_eq!(system_missing_over_threshold(&context, &with_threshold(30), &mut report), Ok(()));
    assert_eq!(report.summary.get(SYSTEM_MISSING).unwrap().fail, 0);
    let mut report = report_of(100, 1);
    assert_eq!(system_missing_over_threshold(&context, &with_threshold(29), &mut report), Ok(()));
    assert_eq!(report.summary.get(SYSTEM_MISSING).unwrap().fail, 1);
}

#[test]
fn a_share_is_not_rounded_down_to_the_threshold() {
    // 1 of 3 is a third, which is more than 33 per cent.
    let mut context = Context::new();
    context.variables.register(variable(1, "v", "")).unwrap();
    observe(&mut context, 1, "", Missing::SystemMissing, 1);
    observe(&mut context, 1, "1", Missing::NotMissing, 2);
    let mut report = report_of(3, 1);
    assert_eq!(system_missing_over_threshold(&context, &with_threshold(33), &mut report), Ok(()));
    assert_eq!(report.summary.get(SYSTEM_MISSING).unwrap().fail, 1);
    let mut report = report_of(3, 1);
    assert_eq!(system_missing_over_threshold(&context, &with_threshold(34), &mut report), Ok(()));
    assert_eq!(report.summary.get(SYSTEM_MISSING).unwrap().fail, 0);
}

#[test]
fn system_missing_description_names_the_threshold() {
    let context = thirty_percent_missing();
    let mut report = report_of(100, 1);
    system_missing_over_threshold(&context, &with_threshold(25), &mut report).unwrap();
    assert_eq!(
        report.summary.get(SYSTEM_MISSING).unwrap().desc,
        "Variables with large quantities of values missing. (Threshold: 25%)"
    );
}

#[test]
fn passes_and_failures_add_up_to_the_variable_count() {
    let mut context = Context::new();
    for (i, name) in ["a", "b", "c", "d"].iter().enumerate() {
        context.variables.register(variable(i as i32 + 1, name, "")).unwrap();
    }
    observe(&mut context, 1, "", Missing::SystemMissing, 10);
    observe(&mut context, 2, "", Missing::SystemMissing, 6);
    observe(&mut context, 2, "x", Missing::NotMissing, 4);
    observe(&mut context, 3, "x", Missing::NotMissing, 10);
    observe(&mut context, 4, "", Missing::SystemMissing, 5);
    observe(&mut context, 4, "x", Missing::DefinedMissing, 5);
    let mut report = report_of(10, 4);
    assert_eq!(system_missing_over_threshold(&context, &with_threshold(50), &mut report), Ok(()));
    let status = report.summary.get(SYSTEM_MISSING).unwrap();
    assert_eq!(status.fail, 2);
    assert_eq!(status.pass, 2);
    assert_eq!(status.pass + status.fail, 4);
    let locators = status.locator.as_ref().unwrap();
    assert_eq!(locators.len(), 2);
    assert_eq!(locators.get(0).variable_name, "a");
    assert_eq!(locators.get(1).variable_name, "b");
}

#[test]
fn a_dataset_without_rows_has_nothing_missing() {
    let mut context = Context::new();
    context.variables.register(variable(1, "a", "")).unwrap();
    let mut report = report_of(0, 1);
    assert_eq!(system_missing_over_threshold(&context, &with_threshold(0), &mut report), Ok(()));
    let status = report.summary.get(SYSTEM_MISSING).unwrap();
    assert_eq!(status.fail, 0);
    assert_eq!(status.pass, 1);
}

#[test]
fn system_missing_check_refuses_a_case_count_mismatch() {
    let context = thirty_percent_missing();
    let mut report = report_of(99, 1);
    assert_eq!(
        system_missing_over_threshold(&context, &with_threshold(25), &mut report),
        Err(Violation::CaseCountMismatch { variable_index: 1, observed: 100, expected: 99 })
    );
    assert_eq!(report.summary.len(), 0);
}

#[test]
fn system_missing_check_without_setting_does_nothing() {
    let context = thirty_percent_missing();
    let mut report = report_of(99, 1);
    assert_eq!(system_missing_over_threshold(&context, &Config::new(), &mut report), Ok(()));
    assert_eq!(report.summary.len(), 0);
    assert!(report.summary.get(SYSTEM_MISSING).is_none());
}

#[test]
fn one_singleton_condemns_the_variable() {
    let mut context = Context::new();
    context.variables.register(variable(1, "postcode", "")).unwrap();
    observe(&mut context, 1, "LS1", Missing::NotMissing, 1000);
    observe(&mut context, 1, "LS2", Missing::NotMissing, 500);
    observe(&mut context, 1, "ZE3", Missing::NotMissing, 1);
    let mut report = report_of(1501, 1);
    variables_with_unique_values(&context, &with_unique(1), &mut report);
    let status = report.summary.get(UNIQUE_VALUES).unwrap();
    assert_eq!(status.fail, 1);
    assert_eq!(status.pass, 0);
    assert_eq!(status.desc, "Detects values as outliers if they are unique.");
    let locators = status.locator.as_ref().unwrap();
    assert_eq!(locators.len(), 1);
    assert_eq!(
        locators.get(0),
        &Locator {
            variable_name: "postcode".to_string(),
            variable_index: 1,
            value_index: -1,
            reason: Some("has disclosive outlier".to_string()),
        }
    );
}

#[test]
fn all_counts_over_the_threshold_pass() {
    let mut context = Context::new();
    context.variables.register(variable(1, "sex", "")).unwrap();
    observe(&mut context, 1, "1", Missing::NotMissing, 2);
    observe(&mut context, 1, "2", Missing::NotMissing, 3);
    let mut report = report_of(5, 1);
    variables_with_unique_values(&context, &with_unique(1), &mut report);
    let status = report.summary.get(UNIQUE_VALUES).unwrap();
    assert_eq!(status.fail, 0);
    assert_eq!(status.pass, 1);
    assert!(status.locator.is_none());
}

#[test]
fn the_threshold_itself_counts_as_rare() {
    let mut context = Context::new();
    context.variables.register(variable(1, "sex", "")).unwrap();
    observe(&mut context, 1, "1", Missing::NotMissing, 2);
    observe(&mut context, 1, "2", Missing::NotMissing, 3);
    let mut report = report_of(5, 1);
    variables_with_unique_values(&context, &with_unique(2), &mut report);
    assert_eq!(report.summary.get(UNIQUE_VALUES).unwrap().fail, 1);
}

#[test]
fn unique_values_are_judged_variable_by_variable() {
    let mut context = Context::new();
    context.variables.register(variable(1, "id", "")).unwrap();
    context.variables.register(variable(2, "sex", "")).unwrap();
    context.variables.register(variable(3, "empty", "")).unwrap();
    for row in 0..4 {
        observe(&mut context, 1, &row.to_string(), Missing::NotMissing, 1);
    }
    observe(&mut context, 2, "1", Missing::NotMissing, 2);
    observe(&mut context, 2, "2", Missing::NotMissing, 2);
    let mut report = report_of(4, 3);
    variables_with_unique_values(&context, &with_unique(1), &mut report);
    let status = report.summary.get(UNIQUE_VALUES).unwrap();
    assert_eq!(status.fail, 1);
    assert_eq!(status.pass, 2);
    assert_eq!(status.locator.as_ref().unwrap().get(0).variable_index, 1);
}

#[test]
fn unique_values_check_without_setting_does_nothing() {
    let context = thirty_percent_missing();
    let mut report = report_of(100, 1);
    variables_with_unique_values(&context, &Config::new(), &mut report);
    assert_eq!(report.summary.len(), 0);
}

#[test]
fn unknown_primary_variable_leaves_the_case_count_unset() {
    let context = thirty_percent_missing();
    let mut report = report_of(100, 1);
    primary_variable(&context, &with_primary("household"), &mut report);
    assert_eq!(report.metadata.case_count, None);
}

#[test]
fn primary_variable_with_five_distinct_values() {
    let mut context = Context::new();
    context.variables.register(variable(1, "sex", "")).unwrap();
    context.variables.register(variable(2, "household", "")).unwrap();
    for key in ["h1", "h2", "h3", "h1", "h4", "h5", "h5", "h2"] {
        observe(&mut context, 2, key, Missing::NotMissing, 1);
        observe(&mut context, 1, "1", Missing::NotMissing, 1);
    }
    let mut report = report_of(8, 2);
    primary_variable(&context, &with_primary("household"), &mut report);
    assert_eq!(report.metadata.case_count, Some(5));
}

#[test]
fn primary_variable_without_observations_has_zero_cases() {
    let mut context = Context::new();
    context.variables.register(variable(1, "household", "")).unwrap();
    let mut report = report_of(0, 1);
    primary_variable(&context, &with_primary("household"), &mut report);
    assert_eq!(report.metadata.case_count, Some(0));
}

#[test]
fn primary_variable_check_without_setting_does_nothing() {
    let context = thirty_percent_missing();
    let mut report = report_of(100, 1);
    primary_variable(&context, &Config::new(), &mut report);
    assert_eq!(report.metadata.case_count, None);
}

#[test]
fn precise_time_format_fails_with_a_locator() {
    let config = with_date_parts(&["HH:MM:SS"]);
    let mut report = Report::new("test.dta");
    let v = variable(4, "interviewed", "%tcHH:MM:SS");
    precise_date_format(&v, &config, &mut report);
    let status = report.summary.get(PRECISE_DATE_FORMAT).unwrap();
    assert_eq!(status.fail, 1);
    assert_eq!(status.pass, 0);
    assert_eq!(
        status.desc,
        "Flags date formats that are too specific and could potentially be disclosive."
    );
    let locators = status.locator.as_ref().unwrap();
    assert_eq!(locators.len(), 1);
    assert_eq!(locators.get(0).variable_index, 4);
    assert_eq!(locators.get(0).value_index, -1);
    assert_eq!(locators.get(0).variable_name, "interviewed");
    assert_eq!(locators.get(0).reason, Some("date format is too precise".to_string()));
}

#[test]
fn date_only_format_passes() {
    let config = with_date_parts(&["HH:MM:SS"]);
    let mut report = Report::new("test.dta");
    let v = variable(4, "born", "%td");
    precise_date_format(&v, &config, &mut report);
    let status = report.summary.get(PRECISE_DATE_FORMAT).unwrap();
    assert_eq!(status.fail, 0);
    assert_eq!(status.pass, 1);
    assert!(status.locator.is_none());
}

#[test]
fn date_format_tallies_add_up_over_variables() {
    let config = with_date_parts(&["HH:MM:SS", "ss"]);
    let mut report = Report::new("test.dta");
    precise_date_format(&variable(1, "a", "%td"), &config, &mut report);
    precise_date_format(&variable(2, "b", "%tcHH:MM:SS"), &config, &mut report);
    precise_date_format(&variable(3, "c", "%tc_ss"), &config, &mut report);
    precise_date_format(&variable(4, "d", ""), &config, &mut report);
    let status = report.summary.get(PRECISE_DATE_FORMAT).unwrap();
    assert_eq!(status.pass, 2);
    assert_eq!(status.fail, 2);
    assert_eq!(report.summary.len(), 1);
    let locators = status.locator.as_ref().unwrap();
    assert_eq!(locators.len(), 2);
    assert_eq!(locators.get(0).variable_index, 2);
    assert_eq!(locators.get(1).variable_index, 3);
}

#[test]
fn date_format_check_without_setting_does_nothing() {
    let mut report = Report::new("test.dta");
    precise_date_format(&variable(1, "a", "%tcHH:MM:SS"), &Config::new(), &mut report);
    assert_eq!(report.summary.len(), 0);
}

#[test]
fn variable_checks_run_from_the_list() {
    let config = with_date_parts(&["HH:MM:SS"]);
    let mut report = Report::new("test.dta");
    let checks = qamydata::check::variable::register();
    run_variable_checks(&checks, &variable(1, "a", "%tcHH:MM:SS"), &config, &mut report);
    assert_eq!(report.summary.get(PRECISE_DATE_FORMAT).unwrap().fail, 1);
    let mut untouched = Report::new("test.dta");
    run_variable_checks(&Vec::new(), &variable(1, "a", "%tcHH:MM:SS"), &config, &mut untouched);
    assert_eq!(untouched.summary.len(), 0);
}

#[test]
fn post_checks_report_in_the_order_of_the_list() {
    let context = thirty_percent_missing();
    let mut config = with_threshold(25);
    config.variables_with_unique_values = Some(Setting { setting: 1 });
    config.primary_variable = Some(Setting { setting: "income".to_string() });
    let mut report = report_of(100, 1);
    assert_eq!(run_post_checks(&register(), &context, &config, &mut report), Ok(()));
    assert_eq!(report.metadata.case_count, Some(3));
    assert_eq!(report.summary.len(), 2);
    assert_eq!(report.summary.name_at(0), SYSTEM_MISSING);
    assert_eq!(report.summary.name_at(1), UNIQUE_VALUES);
    assert_eq!(report.summary.status_at(0).fail, 1);
    assert_eq!(report.summary.status_at(1).pass, 1);

    let reversed = vec![PostCheck::VariablesWithUniqueValues, PostCheck::SystemMissingOverThreshold];
    let mut report = report_of(100, 1);
    assert_eq!(run_post_checks(&reversed, &context, &config, &mut report), Ok(()));
    assert_eq!(report.metadata.case_count, None);
    assert_eq!(report.summary.name_at(0), UNIQUE_VALUES);
    assert_eq!(report.summary.name_at(1), SYSTEM_MISSING);
}

#[test]
fn post_checks_stop_at_the_first_failure() {
    let context = thirty_percent_missing();
    let mut config = with_threshold(25);
    config.variables_with_unique_values = Some(Setting { setting: 1 });
    let mut report = report_of(7, 1);
    assert_eq!(
        run_post_checks(&register(), &context, &config, &mut report),
        Err(Violation::CaseCountMismatch { variable_index: 1, observed: 100, expected: 7 })
    );
    assert!(report.summary.get(UNIQUE_VALUES).is_none());
    assert!(report.summary.get(SYSTEM_MISSING).is_none());
}

#[test]
fn case_counts_are_held_against_every_variable() {
    let mut context = Context::new();
    context.variables.register(variable(1, "a", "")).unwrap();
    context.variables.register(variable(2, "b", "")).unwrap();
    observe(&mut context, 1, "x", Missing::NotMissing, 3);
    observe(&mut context, 2, "x", Missing::NotMissing, 2);
    assert_eq!(
        context.check_case_counts(3),
        Err(Violation::CaseCountMismatch { variable_index: 2, observed: 2, expected: 3 })
    );
    assert_eq!(
        context.check_case_counts(2),
        Err(Violation::CaseCountMismatch { variable_index: 1, observed: 3, expected: 2 })
    );
    observe(&mut context, 2, "y", Missing::NotMissing, 1);
    assert_eq!(context.check_case_counts(3), Ok(()));
    assert_eq!(
        context.check_case_counts(-1),
        Err(Violation::CaseCountMismatch { variable_index: 1, observed: 3, expected: -1 })
    );
}
