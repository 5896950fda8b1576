use qamydata::check::post::{SYSTEM_MISSING, UNIQUE_VALUES};
use qamydata::check::variable::PRECISE_DATE_FORMAT;
use qamydata::config::{Config, Setting};
use qamydata::engine::{read, Engine, Event};
use qamydata::error::{ReadError, Violation};
use qamydata::missing::{Missing, MissingSignals};
use qamydata::value::AnyValue;
use qamydata::variable::Variable;

const PLAIN: MissingSignals = MissingSignals {
    is_system_missing: false,
    is_tagged_missing: false,
    tag: '\0',
    is_defined_missing: false,
};

const SYSTEM: MissingSignals = MissingSignals {
    is_system_missing: true,
    is_tagged_missing: false,
    tag: '\0',
    is_defined_missing: false,
};

/// The variable with this index, counted from 1, as a reader that counts
/// from 0 hands it over.
fn variable(index: i32, name: &str, format: &str, labels: &str) -> Variable {
    Variable::from_raw_parts(
        index - 1,
        name.to_string(),
        None,
        Some(format.to_string()),
        Some(labels.to_string()),
    )
}

fn full_config() -> Config {
    let mut config = Config::new();
    config.variable_config.precise_date_format =
        Some(Setting { setting: vec!["HH:MM:SS".to_string()] });
    config.value_config.system_missing_value_threshold = Some(Setting { setting: 25 });
    config.primary_variable = Some(Setting { setting: "id".to_string() });
    config.variables_with_unique_values = Some(Setting { setting: 1 });
    config
}

fn metadata(rows: i32, variables: i32) -> Event {
    Event::Metadata {
        raw_case_count: rows,
        variable_count: variables,
        creation_time: 1530000000,
        modified_time: 1530000600,
        file_label: "A survey".to_string(),
        file_format_version: 118,
        file_encoding: Some("UTF-8".to_string()),
        compression: "none".to_string(),
    }
}

fn cell(row: i32, variable: i32, value: AnyValue, signals: MissingSignals) -> Event {
    Event::Value { row_index: row, variable_index: variable, value, signals }
}

/// Four rows of three variables: an id, a sex with labels, and a time of
/// interview of which half is system missing.
fn survey() -> Vec<Event> {
    let mut events = vec![
        metadata(4, 3),
        Event::Variable(variable(1, "id", "%9.0g", "")),
        Event::Variable(variable(2, "sex", "%8.0g", "sexlbl")),
        Event::Variable(variable(3, "seen", "%tcHH:MM:SS", "")),
        Event::ValueLabel {
            dictionary_id: "sexlbl".to_string(),
            key: "1".to_string(),
            label: "Male".to_string(),
        },
        Event::ValueLabel {
            dictionary_id: "sexlbl".to_string(),
            key: "2".to_string(),
            label: "Female".to_string(),
        },
    ];
    for row in 1..=4 {
        events.push(cell(row, 1, AnyValue::Integer(100 + row as i64), PLAIN));
        events.push(cell(row, 2, AnyValue::Integer(1 + (row as i64 % 2)), PLAIN));
        if row % 2 == 0 {
            events.push(cell(row, 3, AnyValue::Empty, SYSTEM));
        } else {
            events.push(cell(row, 3, AnyValue::Real("1845000000".to_string()), PLAIN));
        }
    }
    events
}

#[test]
fn a_whole_read_gives_the_report() {
    let report = read(full_config(), "survey.dta", &survey(), None).unwrap();
    assert_eq!(report.metadata.file_name, "survey.dta");
    assert_eq!(report.metadata.raw_case_count, 4);
    assert_eq!(report.metadata.variable_count, 3);
    assert_eq!(report.metadata.creation_time, 1530000000);
    assert_eq!(report.metadata.modified_time, 1530000600);
    assert_eq!(report.metadata.file_label, "A survey");
    assert_eq!(report.metadata.file_format_version, 118);
    assert_eq!(report.metadata.file_encoding, Some("UTF-8".to_string()));
    assert_eq!(report.metadata.compression, "none");
    assert_eq!(report.metadata.case_count, Some(4));

    assert_eq!(report.summary.len(), 3);
    assert_eq!(report.summary.name_at(0), PRECISE_DATE_FORMAT);
    assert_eq!(report.summary.name_at(1), SYSTEM_MISSING);
    assert_eq!(report.summary.name_at(2), UNIQUE_VALUES);

    let dates = report.summary.get(PRECISE_DATE_FORMAT).unwrap();
    assert_eq!((dates.pass, dates.fail), (2, 1));
    assert_eq!(dates.locator.as_ref().unwrap().get(0).variable_name, "seen");

    let missing = report.summary.get(SYSTEM_MISSING).unwrap();
    assert_eq!((missing.pass, missing.fail), (2, 1));
    assert_eq!(missing.locator.as_ref().unwrap().get(0).variable_index, 3);

    let unique = report.summary.get(UNIQUE_VALUES).unwrap();
    assert_eq!((unique.pass, unique.fail), (2, 1));
    assert_eq!(unique.locator.as_ref().unwrap().get(0).variable_name, "id");
}

#[test]
fn an_unconfigured_check_is_absent_from_the_report() {
    let mut config = Config::new();
    config.variables_with_unique_values = Some(Setting { setting: 1 });
    let report = read(config, "survey.dta", &survey(), None).unwrap();
    assert_eq!(report.summary.len(), 1);
    assert!(report.summary.get(UNIQUE_VALUES).is_some());
    assert!(report.summary.get(SYSTEM_MISSING).is_none());
    assert!(report.summary.get(PRECISE_DATE_FORMAT).is_none());
    assert_eq!(report.metadata.case_count, None);
}

#[test]
fn an_empty_configuration_gives_metadata_only() {
    let report = read(Config::new(), "survey.dta", &survey(), None).unwrap();
    assert_eq!(report.summary.len(), 0);
    assert_eq!(report.metadata.raw_case_count, 4);
}

#[test]
fn an_empty_read_gives_an_empty_report() {
    let report = read(full_config(), "nothing.sav", &Vec::new(), None).unwrap();
    assert_eq!(report.metadata.raw_case_count, 0);
    assert_eq!(report.metadata.variable_count, 0);
    assert_eq!(report.metadata.case_count, None);
    assert_eq!(report.summary.len(), 3);
    assert_eq!(report.summary.name_at(0), PRECISE_DATE_FORMAT);
    assert_eq!(report.summary.name_at(1), SYSTEM_MISSING);
    assert_eq!(report.summary.name_at(2), UNIQUE_VALUES);
    let dates = report.summary.get(PRECISE_DATE_FORMAT).unwrap();
    assert_eq!((dates.pass, dates.fail), (0, 0));
    assert_eq!(
        dates.desc,
        "Flags date formats that are too specific and could potentially be disclosive."
    );
    assert!(dates.locator.is_none());
    let missing = report.summary.get(SYSTEM_MISSING).unwrap();
    assert_eq!((missing.pass, missing.fail), (0, 0));
    let unique = report.summary.get(UNIQUE_VALUES).unwrap();
    assert_eq!((unique.pass, unique.fail), (0, 0));
}

#[test]
fn a_configured_date_check_has_its_line_before_any_variable() {
    let engine = Engine::new(full_config(), "survey.dta");
    assert_eq!(engine.report().summary.len(), 1);
    let status = engine.report().summary.get(PRECISE_DATE_FORMAT).unwrap();
    assert_eq!((status.pass, status.fail), (0, 0));
    let unconfigured = Engine::new(Config::new(), "survey.dta");
    assert_eq!(unconfigured.report().summary.len(), 0);
}

#[test]
fn a_check_is_in_the_report_exactly_if_it_is_configured() {
    for dates in [false, true] {
        for missing in [false, true] {
            for unique in [false, true] {
                let mut config = Config::new();
                if dates {
                    config.variable_config.precise_date_format =
                        Some(Setting { setting: vec!["HH:MM:SS".to_string()] });
                }
                if missing {
                    config.value_config.system_missing_value_threshold =
                        Some(Setting { setting: 25 });
                }
                if unique {
                    config.variables_with_unique_values = Some(Setting { setting: 1 });
                }
                for events in [Vec::new(), survey()] {
                    let report = read(config.clone(), "survey.dta", &events, None).unwrap();
                    assert_eq!(report.summary.get(PRECISE_DATE_FORMAT).is_some(), dates);
                    assert_eq!(report.summary.get(SYSTEM_MISSING).is_some(), missing);
                    assert_eq!(report.summary.get(UNIQUE_VALUES).is_some(), unique);
                }
            }
        }
    }
}

#[test]
fn the_first_variable_of_a_reader_is_accepted() {
    let mut engine = Engine::new(Config::new(), "survey.dta");
    let first = Variable::from_raw_parts(0, "id".to_string(), None, None, None);
    assert_eq!(engine.on_variable(first), Ok(()));
    assert_eq!(engine.context().variables.len(), 1);
    assert_eq!(engine.context().variables.get(1).unwrap().name, "id");
}

#[test]
fn reading_twice_gives_equal_reports() {
    let first = read(full_config(), "survey.dta", &survey(), None);
    let second = read(full_config(), "survey.dta", &survey(), None);
    assert!(first.is_ok());
    assert_eq!(first, second);
}

#[test]
fn reading_twice_gives_equal_failures() {
    let mut events = survey();
    events.pop();
    let first = read(full_config(), "survey.dta", &events, None);
    let second = read(full_config(), "survey.dta", &events, None);
    assert!(first.is_err());
    assert_eq!(first, second);
}

#[test]
fn every_variable_is_observed_as_often_as_the_file_has_rows() {
    let mut engine = Engine::new(full_config(), "survey.dta");
    for event in survey().iter() {
        engine.on_event(event).unwrap();
    }
    for index in 1..=3 {
        assert_eq!(engine.context().frequency_table.row_count(index), 4);
    }
    let report = engine.finish(None).unwrap();
    assert_eq!(report.metadata.raw_case_count, 4);
}

#[test]
fn a_missing_cell_is_a_case_count_mismatch() {
    let mut events = survey();
    events.pop();
    assert_eq!(
        read(full_config(), "survey.dta", &events, None),
        Err(ReadError::Breach(Violation::CaseCountMismatch {
            variable_index: 3,
            observed: 3,
            expected: 4
        }))
    );
}

#[test]
fn a_mismatch_is_fatal_whatever_the_configuration() {
    let mut events = survey();
    events.pop();
    assert_eq!(
        read(Config::new(), "survey.dta", &events, None),
        Err(ReadError::Breach(Violation::CaseCountMismatch {
            variable_index: 3,
            observed: 3,
            expected: 4
        }))
    );
}

#[test]
fn a_variable_out_of_order_is_fatal() {
    let events = vec![
        metadata(0, 2),
        Event::Variable(variable(2, "late", "", "")),
        Event::Variable(variable(1, "early", "", "")),
    ];
    assert_eq!(
        read(full_config(), "survey.dta", &events, None),
        Err(ReadError::Breach(Violation::VariableOutOfOrder { registered: 0, found: 2 }))
    );
}

#[test]
fn a_value_of_an_undefined_variable_is_fatal() {
    let events = vec![
        metadata(1, 1),
        Event::Variable(variable(1, "id", "", "")),
        cell(1, 2, AnyValue::Integer(1), PLAIN),
    ];
    assert_eq!(
        read(full_config(), "survey.dta", &events, None),
        Err(ReadError::Breach(Violation::UnknownVariable { variable_index: 2 }))
    );
    let events =
        vec![metadata(1, 1), Event::Variable(variable(1, "id", "", "")), cell(1, 0, AnyValue::Empty, PLAIN)];
    assert_eq!(
        read(full_config(), "survey.dta", &events, None),
        Err(ReadError::Breach(Violation::UnknownVariable { variable_index: 0 }))
    );
}

#[test]
fn conflicting_signals_are_fatal() {
    let conflict = MissingSignals {
        is_system_missing: true,
        is_tagged_missing: false,
        tag: '\0',
        is_defined_missing: true,
    };
    let events = vec![
        metadata(1, 1),
        Event::Variable(variable(1, "id", "", "")),
        cell(1, 1, AnyValue::Integer(1), conflict),
    ];
    assert_eq!(
        read(full_config(), "survey.dta", &events, None),
        Err(ReadError::Breach(Violation::ConflictingSignals { variable_index: 1, row_index: 1 }))
    );
}

#[test]
fn the_first_breach_is_the_one_reported() {
    let events = vec![
        metadata(1, 1),
        Event::Variable(variable(1, "id", "", "")),
        cell(1, 5, AnyValue::Integer(1), PLAIN),
        Event::Variable(variable(7, "late", "", "")),
    ];
    assert_eq!(
        read(full_config(), "survey.dta", &events, None),
        Err(ReadError::Breach(Violation::UnknownVariable { variable_index: 5 }))
    );
}

#[test]
fn after_a_breach_events_change_nothing() {
    let mut engine = Engine::new(full_config(), "survey.dta");
    engine.on_event(&metadata(1, 1)).unwrap();
    engine.on_variable(variable(1, "id", "", "")).unwrap();
    let breach = Violation::VariableOutOfOrder { registered: 1, found: 3 };
    assert_eq!(engine.on_variable(variable(3, "x", "", "")), Err(breach));
    assert_eq!(engine.failure(), Some(breach));
    assert_eq!(engine.on_variable(variable(2, "sex", "", "")), Err(breach));
    assert_eq!(engine.on_value(1, 1, AnyValue::Integer(1), PLAIN), Err(breach));
    assert_eq!(engine.on_value_label("d", "1", "one"), Err(breach));
    assert_eq!(engine.on_metadata(9, 9, 0, 0, "", 0, None, ""), Err(breach));
    assert_eq!(engine.context().variables.len(), 1);
    assert_eq!(engine.context().frequency_table.row_count(1), 0);
    assert_eq!(engine.context().value_labels.label_of("d", "1"), "");
    assert_eq!(engine.report().metadata.raw_case_count, 1);
    assert_eq!(engine.finish(None), Err(ReadError::Breach(breach)));
}

#[test]
fn a_reader_failure_gives_its_message() {
    let outcome = read(
        full_config(),
        "",
        &Vec::new(),
        Some("Unable to open file".to_string()),
    );
    assert_eq!(outcome, Err(ReadError::Reader("Unable to open file".to_string())));
    assert_eq!(outcome.unwrap_err().message(), "Unable to open file");
}

#[test]
fn a_reader_failure_overrides_a_good_read() {
    let outcome = read(full_config(), "survey.dta", &survey(), Some("corrupt".to_string()));
    assert_eq!(outcome, Err(ReadError::Reader("corrupt".to_string())));
}

#[test]
fn a_value_comes_back_with_label_and_missingness() {
    let mut engine = Engine::new(Config::new(), "survey.dta");
    engine.on_variable(variable(1, "sex", "", "sexlbl")).unwrap();
    engine.on_value_label("sexlbl", "1", "Male").unwrap();
    let value = engine.on_value(6, 1, AnyValue::Integer(1), PLAIN).unwrap();
    assert_eq!(value.var_index, 1);
    assert_eq!(value.row, 6);
    assert_eq!(value.value, AnyValue::Integer(1));
    assert_eq!(value.label, "Male");
    assert_eq!(value.missing, Missing::NotMissing);

    let unlabelled = engine.on_value(7, 1, AnyValue::Integer(3), SYSTEM).unwrap();
    assert_eq!(unlabelled.label, "");
    assert_eq!(unlabelled.missing, Missing::SystemMissing);
}

#[test]
fn a_tagged_value_keeps_its_tag() {
    let mut engine = Engine::new(Config::new(), "survey.dta");
    engine.on_variable(variable(1, "pay", "", "")).unwrap();
    let tagged = MissingSignals {
        is_system_missing: true,
        is_tagged_missing: true,
        tag: 'b',
        is_defined_missing: true,
    };
    let value = engine.on_value(1, 1, AnyValue::Empty, tagged).unwrap();
    assert_eq!(value.missing, Missing::TaggedMissing('b'));
    let table = engine.context().frequency_table.sub_table(1).unwrap();
    assert_eq!(table.count_of("", Missing::TaggedMissing('b')), 1);
    assert_eq!(table.count_of("", Missing::TaggedMissing('a')), 0);
}

#[test]
fn each_value_raises_one_counter_by_one() {
    let mut engine = Engine::new(Config::new(), "survey.dta");
    engine.on_variable(variable(1, "a", "", "")).unwrap();
    engine.on_variable(variable(2, "b", "", "")).unwrap();
    engine.on_value(1, 1, AnyValue::Text("x".to_string()), PLAIN).unwrap();
    engine.on_value(1, 2, AnyValue::Text("x".to_string()), PLAIN).unwrap();
    engine.on_value(2, 1, AnyValue::Text("x".to_string()), PLAIN).unwrap();
    let first = engine.context().frequency_table.sub_table(1).unwrap();
    assert_eq!(first.count_of("x", Missing::NotMissing), 2);
    assert_eq!(first.row_count(), 2);
    let second = engine.context().frequency_table.sub_table(2).unwrap();
    assert_eq!(second.count_of("x", Missing::NotMissing), 1);
}

#[test]
fn metadata_keeps_the_file_name() {
    let mut engine = Engine::new(Config::new(), "kept.por");
    engine.on_metadata(10, 2, 5, 6, "label", 3, None, "rows").unwrap();
    let report = engine.report();
    assert_eq!(report.metadata.file_name, "kept.por");
    assert_eq!(report.metadata.raw_case_count, 10);
    assert_eq!(report.metadata.variable_count, 2);
    assert_eq!(report.metadata.creation_time, 5);
    assert_eq!(report.metadata.modified_time, 6);
    assert_eq!(report.metadata.file_label, "label");
    assert_eq!(report.metadata.file_format_version, 3);
    assert_eq!(report.metadata.file_encoding, None);
    assert_eq!(report.metadata.compression, "rows");
}

#[test]
fn variable_checks_run_as_variables_arrive() {
    let mut engine = Engine::new(full_config(), "survey.dta");
    engine.on_variable(variable(1, "born", "%td", "")).unwrap();
    {
        let status = engine.report().summary.get(PRECISE_DATE_FORMAT).unwrap();
        assert_eq!((status.pass, status.fail), (1, 0));
    }
    engine.on_variable(variable(2, "seen", "%tcHH:MM:SS", "")).unwrap();
    let status = engine.report().summary.get(PRECISE_DATE_FORMAT).unwrap();
    assert_eq!((status.pass, status.fail), (1, 1));
    assert!(engine.report().summary.get(SYSTEM_MISSING).is_none());
}

#[test]
fn value_labels_may_arrive_after_the_values() {
    let mut engine = Engine::new(Config::new(), "survey.dta");
    engine.on_variable(variable(1, "sex", "", "sexlbl")).unwrap();
    let early = engine.on_value(1, 1, AnyValue::Integer(2), PLAIN).unwrap();
    assert_eq!(early.label, "");
    engine.on_value_label("sexlbl", "2", "Female").unwrap();
    let late = engine.on_value(2, 1, AnyValue::Integer(2), PLAIN).unwrap();
    assert_eq!(late.label, "Female");
}
