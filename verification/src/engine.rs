//! The engine of a read: it takes the reader's events one by one, keeps
//! the frequency tables and the variable registry, runs the variable
//! checks as variables arrive and the post checks at the end, and hands
//! out the report.

use vstd::prelude::*;
use crate::check::post::{
    post_check_ready, post_checks_of, run_post_checks, SYSTEM_MISSING, UNIQUE_VALUES,
};
use crate::check::variable::{
    enter_variable_checks, lemma_variable_checks_count, lemma_variable_checks_entered,
    run_variable_checks, status_or_fresh, variable_check_ready, variable_checks_entered,
    variable_checks_of, PRECISE_DATE_FORMAT,
};
use crate::check::{Check, PostCheck, VariableCheck};
use crate::config::{Config, ConfigView};
use crate::context::{Context, ContextView};
use crate::error::{ReadError, Violation};
use crate::frequency::{observe_in, sub_table_of, total};
use crate::labels::label_in;
use crate::missing::MissingSignals;
use crate::report::{
    distinct_names, optional_text, status_of, MetadataView, Report, ReportView,
};
use crate::value::{AnyValue, AnyValueView, Value};
use crate::variable::{Variable, VariableView};

verus! {

/// The state of a read, as mathematical values.
pub struct EngineView {
    pub config: ConfigView,
    pub report: ReportView,
    pub variable_checks: Seq<VariableCheck>,
    pub post_checks: Seq<PostCheck>,
    pub context: ContextView,
    /// The first breach of the reader's contract, once there was one.
    pub failure: Option<Violation>,
}

impl EngineView {
    /// The state at the start of a read: nothing gathered, and in the
    /// report a line for each variable check that is configured.
    pub open spec fn start(config: ConfigView, file_name: Seq<char>) -> EngineView {
        EngineView {
            config,
            report: variable_checks_entered(
                crate::check::variable::registered(),
                config,
                ReportView { metadata: MetadataView::blank(file_name), summary: Seq::empty() },
            ),
            variable_checks: crate::check::variable::registered(),
            post_checks: crate::check::post::registered(),
            context: ContextView::blank(),
            failure: None,
        }
    }

    /// What an event handler answers in this state.
    pub open spec fn outcome(self) -> Result<(), Violation> {
        match self.failure {
            Some(violation) => Err(violation),
            None => Ok(()),
        }
    }

    /// The state after a breach: it is recorded, and nothing else changes.
    pub open spec fn failed(self, violation: Violation) -> EngineView {
        EngineView { failure: Some(violation), ..self }
    }

    /// The state after the metadata event: the file-level facts are taken
    /// over; the file's name and the aggregated case count stay.
    pub open spec fn on_metadata(
        self,
        raw_case_count: i32,
        variable_count: i32,
        creation_time: i64,
        modified_time: i64,
        file_label: Seq<char>,
        file_format_version: i64,
        file_encoding: Option<Seq<char>>,
        compression: Seq<char>,
    ) -> EngineView {
        if self.failure is Some {
            self
        } else {
            EngineView {
                report: ReportView {
                    metadata: MetadataView {
                        raw_case_count,
                        variable_count,
                        creation_time,
                        modified_time,
                        file_label,
                        file_format_version,
                        file_encoding,
                        compression,
                        ..self.report.metadata
                    },
                    ..self.report
                },
                ..self
            }
        }
    }

    /// The state after a variable event: the variable is registered and
    /// the variable checks have seen it. A variable whose index is not the
    /// next one is a breach.
    pub open spec fn on_variable(self, variable: VariableView) -> EngineView {
        if self.failure is Some {
            self
        } else if variable.index != self.context.variables.len() + 1 {
            self.failed(
                Violation::VariableOutOfOrder {
                    registered: self.context.variables.len() as usize,
                    found: variable.index,
                },
            )
        } else {
            EngineView {
                context: ContextView {
                    variables: self.context.variables.push(variable),
                    ..self.context
                },
                report: variable_checks_of(
                    self.variable_checks,
                    variable,
                    self.config,
                    self.report,
                ),
                ..self
            }
        }
    }

    /// The state after a value-label event: the dictionary holds the label.
    pub open spec fn on_value_label(
        self,
        dictionary_id: Seq<char>,
        key: Seq<char>,
        label: Seq<char>,
    ) -> EngineView {
        if self.failure is Some {
            self
        } else {
            EngineView {
                context: ContextView {
                    value_labels: self.context.value_labels.insert((dictionary_id, key), label),
                    ..self.context
                },
                ..self
            }
        }
    }

    /// The breach that a value event stands for, if it is one: a variable
    /// that is not defined yet, since a reader sends the definition of a
    /// variable before any of its values; else signals that contradict
    /// each other; else one observation too many for the counter.
    pub open spec fn value_breach(
        self,
        row_index: i32,
        variable_index: i32,
        signals: MissingSignals,
    ) -> Option<Violation> {
        if !(1 <= variable_index <= self.context.variables.len()) {
            Some(Violation::UnknownVariable { variable_index })
        } else if signals.conflicting() {
            Some(Violation::ConflictingSignals { variable_index, row_index })
        } else if total(sub_table_of(self.context.frequency_table, variable_index as int))
            >= u64::MAX {
            Some(Violation::TooManyObservations { variable_index })
        } else {
            None
        }
    }

    /// The state after a value event: the value is counted once, under its
    /// canonical text and its missingness, in the table of its variable.
    pub open spec fn on_value(
        self,
        row_index: i32,
        variable_index: i32,
        key: Seq<char>,
        signals: MissingSignals,
    ) -> EngineView {
        if self.failure is Some {
            self
        } else {
            match self.value_breach(row_index, variable_index, signals) {
                Some(violation) => self.failed(violation),
                None => EngineView {
                    context: ContextView {
                        frequency_table: observe_in(
                            self.context.frequency_table,
                            variable_index as int,
                            key,
                            signals.category(),
                        ),
                        ..self.context
                    },
                    ..self
                },
            }
        }
    }

    /// The label that the dictionaries give a value of a variable.
    pub open spec fn label_of(self, variable_index: i32, key: Seq<char>) -> Seq<char> {
        label_in(
            self.context.value_labels,
            self.context.variables[variable_index - 1].value_labels,
            key,
        )
    }

    /// The result of the read: no report after a breach, nor where some
    /// variable's observations differ from the reported case count, nor
    /// where a post check fails; else the report as the post checks leave
    /// it.
    pub open spec fn finish(self) -> Result<ReportView, Violation> {
        match self.failure {
            Some(violation) => Err(violation),
            None => match self.context.case_count_check(self.report.metadata.raw_case_count) {
                Err(violation) => Err(violation),
                Ok(_) => {
                    let (report, outcome) = post_checks_of(
                        self.post_checks,
                        self.context,
                        self.config,
                        self.report,
                    );
                    match outcome {
                        Ok(_) => Ok(report),
                        Err(violation) => Err(violation),
                    }
                },
            },
        }
    }

    /// What holds of every state that a read can be in: no check is listed
    /// twice or has two lines in the summary, the post checks have not
    /// reported yet, and the date-format check has a line exactly if it is
    /// listed and configured, and has counted no more variables than are
    /// registered.
    pub open spec fn steady(self) -> bool {
        &&& self.variable_checks.no_duplicates()
        &&& self.post_checks.no_duplicates()
        &&& distinct_names(self.report.summary)
        &&& status_of(self.report.summary, SYSTEM_MISSING@) is None
        &&& status_of(self.report.summary, UNIQUE_VALUES@) is None
        &&& status_of(self.report.summary, PRECISE_DATE_FORMAT@) is Some <==> (
        self.config.precise_date_format is Some && self.variable_checks.contains(
            VariableCheck::PreciseDateFormat,
        ))
        &&& 0 <= status_or_fresh(self.report, PRECISE_DATE_FORMAT@).pass
        &&& 0 <= status_or_fresh(self.report, PRECISE_DATE_FORMAT@).fail
        &&& status_or_fresh(self.report, PRECISE_DATE_FORMAT@).pass + status_or_fresh(
            self.report,
            PRECISE_DATE_FORMAT@,
        ).fail <= self.context.variables.len()
    }
}

/// One event of a reader.
#[derive(Debug)]
pub enum Event {
    /// The file-level facts; once, before anything else.
    Metadata {
        raw_case_count: i32,
        variable_count: i32,
        creation_time: i64,
        modified_time: i64,
        file_label: String,
        file_format_version: i64,
        file_encoding: Option<String>,
        compression: String,
    },
    /// The definition of a variable; in file order.
    Variable(Variable),
    /// The label of one value in one dictionary.
    ValueLabel { dictionary_id: String, key: String, label: String },
    /// One cell.
    Value { row_index: i32, variable_index: i32, value: AnyValue, signals: MissingSignals },
}

/// What an [`Event`] holds, as mathematical values.
pub enum EventView {
    Metadata {
        raw_case_count: i32,
        variable_count: i32,
        creation_time: i64,
        modified_time: i64,
        file_label: Seq<char>,
        file_format_version: i64,
        file_encoding: Option<Seq<char>>,
        compression: Seq<char>,
    },
    Variable(VariableView),
    ValueLabel { dictionary_id: Seq<char>, key: Seq<char>, label: Seq<char> },
    Value { row_index: i32, variable_index: i32, value: AnyValueView, signals: MissingSignals },
}

impl View for Event {
    type V = EventView;

    open spec fn view(&self) -> EventView {
        match self {
            Event::Metadata {
                raw_case_count,
                variable_count,
                creation_time,
                modified_time,
                file_label,
                file_format_version,
                file_encoding,
                compression,
            } => EventView::Metadata {
                raw_case_count: *raw_case_count,
                variable_count: *variable_count,
                creation_time: *creation_time,
                modified_time: *modified_time,
                file_label: file_label@,
                file_format_version: *file_format_version,
                file_encoding: optional_text(*file_encoding),
                compression: compression@,
            },
            Event::Variable(variable) => EventView::Variable(variable@),
            Event::ValueLabel { dictionary_id, key, label } => EventView::ValueLabel {
                dictionary_id: dictionary_id@,
                key: key@,
                label: label@,
            },
            Event::Value { row_index, variable_index, value, signals } => EventView::Value {
                row_index: *row_index,
                variable_index: *variable_index,
                value: value@,
                signals: *signals,
            },
        }
    }
}

/// The events of a list, as mathematical values.
pub open spec fn event_views(events: Seq<Event>) -> Seq<EventView> {
    Seq::new(events.len(), |i: int| events[i]@)
}

impl EngineView {
    /// The state after one event.
    pub open spec fn on_event(self, event: EventView) -> EngineView {
        match event {
            EventView::Metadata {
                raw_case_count,
                variable_count,
                creation_time,
                modified_time,
                file_label,
                file_format_version,
                file_encoding,
                compression,
            } => self.on_metadata(
                raw_case_count,
                variable_count,
                creation_time,
                modified_time,
                file_label,
                file_format_version,
                file_encoding,
                compression,
            ),
            EventView::Variable(variable) => self.on_variable(variable),
            EventView::ValueLabel { dictionary_id, key, label } => self.on_value_label(
                dictionary_id,
                key,
                label,
            ),
            EventView::Value { row_index, variable_index, value, signals } => self.on_value(
                row_index,
                variable_index,
                value.key(),
                signals,
            ),
        }
    }

    /// The state after a sequence of events, taken in order.
    pub open spec fn after(self, events: Seq<EventView>) -> EngineView
        decreases events.len(),
    {
        if events.len() == 0 {
            self
        } else {
            self.after(events.drop_last()).on_event(events.last())
        }
    }
}

/// The result of a whole read: of taking the events in order from the
/// start, and finishing.
pub open spec fn read_of(
    config: ConfigView,
    file_name: Seq<char>,
    events: Seq<EventView>,
) -> Result<ReportView, Violation> {
    EngineView::start(config, file_name).after(events).finish()
}

/// Two reads with the same configuration, of the same file and of the same
/// events, end alike: with the same report or the same breach. Nothing
/// else enters into a report.
pub proof fn lemma_read_is_repeatable(
    first_config: Config,
    second_config: Config,
    first_name: &str,
    second_name: &str,
    first_events: Seq<Event>,
    second_events: Seq<Event>,
)
    requires
        first_config@ == second_config@,
        first_name@ == second_name@,
        event_views(first_events) == event_views(second_events),
    ensures
        read_of(first_config@, first_name@, event_views(first_events)) == read_of(
            second_config@,
            second_name@,
            event_views(second_events),
        ),
{
}

/// A read that ends with a report has seen every variable exactly as often
/// as the report says the file has rows.
pub proof fn lemma_report_counts_agree(state: EngineView)
    requires
        state.finish() is Ok,
    ensures
        state.context.case_counts_agree(state.finish()->Ok_0.metadata.raw_case_count),
{
    crate::check::post::lemma_keeps_metadata(
        state.post_checks,
        state.context,
        state.config,
        state.report,
    );
}

/// A read starts in a state of which `steady` holds.
pub proof fn lemma_start_is_steady(config: ConfigView, file_name: Seq<char>)
    ensures
        EngineView::start(config, file_name).steady(),
{
    let checks = crate::check::variable::registered();
    let blank = ReportView { metadata: MetadataView::blank(file_name), summary: Seq::empty() };
    lemma_variable_name_differs();
    crate::check::post::lemma_names_differ();
    lemma_variable_checks_entered(checks, config, blank, SYSTEM_MISSING@);
    lemma_variable_checks_entered(checks, config, blank, UNIQUE_VALUES@);
    assert(checks[0] == VariableCheck::PreciseDateFormat);
    let post = crate::check::post::registered();
    assert(post[0] == PostCheck::PrimaryVariable);
    assert(post[1] == PostCheck::SystemMissingOverThreshold);
    assert(post[2] == PostCheck::VariablesWithUniqueValues);
}

/// No event leads out of the states of which `steady` holds, and none
/// changes the configuration or the lists of checks.
pub proof fn lemma_event_keeps_steady(state: EngineView, event: EventView)
    requires
        state.steady(),
    ensures
        state.on_event(event).steady(),
        state.on_event(event).config == state.config,
        state.on_event(event).variable_checks == state.variable_checks,
        state.on_event(event).post_checks == state.post_checks,
{
    if state.failure is None {
        match event {
            EventView::Variable(variable) => {
                lemma_variable_name_differs();
                lemma_variable_checks_count(
                    state.variable_checks,
                    variable,
                    state.config,
                    state.report,
                    SYSTEM_MISSING@,
                );
                lemma_variable_checks_count(
                    state.variable_checks,
                    variable,
                    state.config,
                    state.report,
                    UNIQUE_VALUES@,
                );
            },
            _ => {},
        }
    }
}

/// No sequence of events leads out of the states of which `steady` holds.
pub proof fn lemma_events_keep_steady(state: EngineView, events: Seq<EventView>)
    requires
        state.steady(),
    ensures
        state.after(events).steady(),
        state.after(events).config == state.config,
        state.after(events).variable_checks == state.variable_checks,
        state.after(events).post_checks == state.post_checks,
    decreases events.len(),
{
    if events.len() > 0 {
        lemma_events_keep_steady(state, events.drop_last());
        lemma_event_keeps_steady(state.after(events.drop_last()), events.last());
    }
}

/// The report of a read has a line for a check exactly if the check is
/// configured, whatever the events were: a check that found nothing to
/// count is in the report with its tallies at zero, and a check that is
/// not configured is not in it. No check has two lines.
pub proof fn lemma_report_lines(config: ConfigView, file_name: Seq<char>, events: Seq<EventView>)
    requires
        read_of(config, file_name, events) is Ok,
    ensures
        status_of(read_of(config, file_name, events)->Ok_0.summary, PRECISE_DATE_FORMAT@) is Some
            <==> config.precise_date_format is Some,
        status_of(read_of(config, file_name, events)->Ok_0.summary, SYSTEM_MISSING@) is Some
            <==> config.system_missing_value_threshold is Some,
        status_of(read_of(config, file_name, events)->Ok_0.summary, UNIQUE_VALUES@) is Some
            <==> config.variables_with_unique_values is Some,
        distinct_names(read_of(config, file_name, events)->Ok_0.summary),
{
    let start = EngineView::start(config, file_name);
    lemma_start_is_steady(config, file_name);
    lemma_events_keep_steady(start, events);
    let end = start.after(events);
    lemma_variable_name_differs();
    crate::check::post::lemma_post_checks_lines(
        end.post_checks,
        end.context,
        end.config,
        end.report,
        PRECISE_DATE_FORMAT@,
    );
    crate::check::post::lemma_keeps_metadata(end.post_checks, end.context, end.config, end.report);
    assert(end.variable_checks[0] == VariableCheck::PreciseDateFormat);
    assert(end.post_checks[1] == PostCheck::SystemMissingOverThreshold);
    assert(end.post_checks[2] == PostCheck::VariablesWithUniqueValues);
}

/// The date-format check reports under a name of its own.
pub proof fn lemma_variable_name_differs()
    ensures
        PRECISE_DATE_FORMAT@ != SYSTEM_MISSING@,
        PRECISE_DATE_FORMAT@ != UNIQUE_VALUES@,
{
    reveal_strlit("precise_date_format");
    reveal_strlit("system_missing_over_threshold");
    reveal_strlit("variables_with_unique_values");
    assert(PRECISE_DATE_FORMAT@.len() != SYSTEM_MISSING@.len());
    assert(PRECISE_DATE_FORMAT@.len() != UNIQUE_VALUES@.len());
}

/// The engine of one read.
#[derive(Debug)]
pub struct Engine {
    config: Config,
    report: Report,
    checks: Check,
    context: Context,
    failure: Option<Violation>,
}

impl View for Engine {
    type V = EngineView;

    closed spec fn view(&self) -> EngineView {
        EngineView {
            config: self.config@,
            report: self.report@,
            variable_checks: self.checks.variable@,
            post_checks: self.checks.post@,
            context: self.context@,
            failure: self.failure,
        }
    }
}

impl Engine {
    #[verifier::type_invariant]
    pub closed spec fn well_formed(self) -> bool {
        self@.steady()
    }

    /// What `well_formed` says, over the view.
    pub proof fn lemma_well_formed(self)
        requires
            self.well_formed(),
        ensures
            self@.steady(),
    {
    }

    /// Starts a read of the file of this name.
    pub fn new(config: Config, file_name: &str) -> (engine: Engine)
        ensures
            engine@ == EngineView::start(config@, file_name@),
    {
        let checks = Check::new();
        let mut report = Report::new(file_name);
        proof {
            assert(checks.variable@.no_duplicates());
            assert(checks.post@.no_duplicates());
            lemma_variable_name_differs();
            lemma_variable_checks_entered(checks.variable@, config@, report@, SYSTEM_MISSING@);
            lemma_variable_checks_entered(checks.variable@, config@, report@, UNIQUE_VALUES@);
        }
        enter_variable_checks(&checks.variable, &config, &mut report);
        Engine { config, report, checks, context: Context::new(), failure: None }
    }

    fn take(&mut self) -> (taken: Engine)
        ensures
            taken@ == old(self)@,
            taken@.steady(),
    {
        proof {
            use_type_invariant(&*self);
        }
        let mut taken = Engine {
            config: Config::new(),
            report: Report::new(""),
            checks: Check { variable: Vec::new(), post: Vec::new() },
            context: Context::new(),
            failure: None,
        };
        core::mem::swap(self, &mut taken);
        taken
    }

    /// The first breach of the reader's contract, if there was one.
    pub fn failure(&self) -> (failure: Option<Violation>)
        ensures
            failure == self@.failure,
    {
        self.failure
    }

    /// What the read has gathered so far.
    pub fn context(&self) -> (context: &Context)
        ensures
            context@ == self@.context,
    {
        &self.context
    }

    /// The report as it stands.
    pub fn report(&self) -> (report: &Report)
        ensures
            report@ == self@.report,
    {
        &self.report
    }

    /// Takes over the file-level facts.
    pub fn on_metadata(
        &mut self,
        raw_case_count: i32,
        variable_count: i32,
        creation_time: i64,
        modified_time: i64,
        file_label: &str,
        file_format_version: i64,
        file_encoding: Option<&str>,
        compression: &str,
    ) -> (outcome: Result<(), Violation>)
        ensures
            final(self)@ == old(self)@.on_metadata(
                raw_case_count,
                variable_count,
                creation_time,
                modified_time,
                file_label@,
                file_format_version,
                match file_encoding {
                    Some(encoding) => Some(encoding@),
                    None => None,
                },
                compression@,
            ),
            outcome == final(self)@.outcome(),
    {
        let Engine { config, mut report, checks, context, failure } = self.take();
        if failure.is_none() {
            report.metadata.raw_case_count = raw_case_count;
            report.metadata.variable_count = variable_count;
            report.metadata.creation_time = creation_time;
            report.metadata.modified_time = modified_time;
            report.metadata.file_label = file_label.to_owned();
            report.metadata.file_format_version = file_format_version;
            report.metadata.file_encoding = match file_encoding {
                Some(encoding) => Some(encoding.to_owned()),
                None => None,
            };
            report.metadata.compression = compression.to_owned();
        }
        *self = Engine { config, report, checks, context, failure };
        match failure {
            Some(violation) => Err(violation),
            None => Ok(()),
        }
    }

    /// Registers a variable and runs the variable checks on it.
    pub fn on_variable(&mut self, variable: Variable) -> (outcome: Result<(), Violation>)
        ensures
            final(self)@ == old(self)@.on_variable(variable@),
            outcome == final(self)@.outcome(),
    {
        let Engine { config, mut report, checks, mut context, mut failure } = self.take();
        let ghost before = report@;
        if failure.is_none() {
            let copy = variable.clone();
            match context.variables.register(variable) {
                Err(violation) => {
                    failure = Some(violation);
                },
                Ok(_) => {
                    proof {
                        lemma_variable_name_differs();
                        lemma_variable_checks_count(
                            checks.variable@,
                            copy@,
                            config@,
                            before,
                            SYSTEM_MISSING@,
                        );
                        lemma_variable_checks_count(
                            checks.variable@,
                            copy@,
                            config@,
                            before,
                            UNIQUE_VALUES@,
                        );
                        assert forall|k: int| 0 <= k < checks.variable.len() implies variable_check_ready(
                            #[trigger] checks.variable[k],
                            config@,
                            before,
                        ) by {}
                    }
                    run_variable_checks(&checks.variable, &copy, &config, &mut report);
                },
            }
        }
        *self = Engine { config, report, checks, context, failure };
        match failure {
            Some(violation) => Err(violation),
            None => Ok(()),
        }
    }

    /// Records the label of one value in one dictionary.
    pub fn on_value_label(&mut self, dictionary_id: &str, key: &str, label: &str) -> (outcome:
        Result<(), Violation>)
        ensures
            final(self)@ == old(self)@.on_value_label(dictionary_id@, key@, label@),
            outcome == final(self)@.outcome(),
    {
        let Engine { config, report, checks, mut context, failure } = self.take();
        if failure.is_none() {
            context.value_labels.define(dictionary_id, key, label);
        }
        *self = Engine { config, report, checks, context, failure };
        match failure {
            Some(violation) => Err(violation),
            None => Ok(()),
        }
    }

    /// Counts one cell, and hands it back with its missingness and the
    /// label that its variable's dictionary gives it. The cell's variable
    /// must have been defined by an earlier event: a value for any other
    /// index is a breach of the reader's contract and ends the read.
    pub fn on_value(
        &mut self,
        row_index: i32,
        variable_index: i32,
        raw_value: AnyValue,
        signals: MissingSignals,
    ) -> (outcome: Result<Value, Violation>)
        ensures
            final(self)@ == old(self)@.on_value(
                row_index,
                variable_index,
                raw_value.key(),
                signals,
            ),
            match final(self)@.failure {
                Some(violation) => outcome == Err::<Value, Violation>(violation),
                None => {
                    &&& outcome matches Ok(value)
                    &&& value.var_index == variable_index
                    &&& value.row == row_index
                    &&& value.value == raw_value
                    &&& value.missing == signals.category()
                    &&& value.label@ == old(self)@.label_of(variable_index, raw_value.key())
                },
            },
    {
        let Engine { config, report, checks, mut context, mut failure } = self.take();
        let outcome = match failure {
            Some(violation) => Err(violation),
            None => {
                let dictionary: Option<String> = match context.variables.get(variable_index) {
                    Some(variable) => Some(variable.value_labels.clone()),
                    None => None,
                };
                match dictionary {
                    None => {
                        let violation = Violation::UnknownVariable { variable_index };
                        failure = Some(violation);
                        Err(violation)
                    },
                    Some(dictionary_id) => {
                        if signals.conflict() {
                            let violation = Violation::ConflictingSignals {
                                variable_index,
                                row_index,
                            };
                            failure = Some(violation);
                            Err(violation)
                        } else if context.frequency_table.row_count(variable_index) == u64::MAX {
                            let violation = Violation::TooManyObservations { variable_index };
                            failure = Some(violation);
                            Err(violation)
                        } else {
                            let missing = signals.classify();
                            let key = raw_value.canonical();
                            let label = context.value_labels.label_of(
                                dictionary_id.as_str(),
                                key.as_str(),
                            );
                            context.frequency_table.observe(variable_index, key, missing);
                            Ok(
                                Value {
                                    var_index: variable_index,
                                    row: row_index,
                                    value: raw_value,
                                    label,
                                    missing,
                                },
                            )
                        }
                    },
                }
            },
        };
        *self = Engine { config, report, checks, context, failure };
        outcome
    }

    /// Takes one event, whichever it is.
    pub fn on_event(&mut self, event: &Event) -> (outcome: Result<(), Violation>)
        ensures
            final(self)@ == old(self)@.on_event(event@),
            outcome == final(self)@.outcome(),
    {
        match event {
            Event::Metadata {
                raw_case_count,
                variable_count,
                creation_time,
                modified_time,
                file_label,
                file_format_version,
                file_encoding,
                compression,
            } => {
                let encoding: Option<&str> = match file_encoding {
                    Some(text) => Some(text.as_str()),
                    None => None,
                };
                self.on_metadata(
                    *raw_case_count,
                    *variable_count,
                    *creation_time,
                    *modified_time,
                    file_label.as_str(),
                    *file_format_version,
                    encoding,
                    compression.as_str(),
                )
            },
            Event::Variable(variable) => self.on_variable(variable.clone()),
            Event::ValueLabel { dictionary_id, key, label } => self.on_value_label(
                dictionary_id.as_str(),
                key.as_str(),
                label.as_str(),
            ),
            Event::Value { row_index, variable_index, value, signals } => {
                match self.on_value(*row_index, *variable_index, value.clone(), *signals) {
                    Ok(_) => Ok(()),
                    Err(violation) => Err(violation),
                }
            },
        }
    }

    /// Ends the read. Where the reader failed, its message is the error.
    /// Where it broke its contract, the first breach is the error. Else
    /// every variable's observations are held against the reported case
    /// count, the post checks run, and the report is handed out.
    pub fn finish(self, reader_failure: Option<String>) -> (outcome: Result<Report, ReadError>)
        ensures
            reader_failure is Some ==> outcome == Err::<Report, ReadError>(
                ReadError::Reader(reader_failure->0),
            ),
            reader_failure is None ==> match self@.finish() {
                Ok(report) => outcome is Ok && outcome->Ok_0@ == report,
                Err(violation) => outcome == Err::<Report, ReadError>(ReadError::Breach(violation)),
            },
            outcome is Ok ==> self@.context.case_counts_agree(
                outcome->Ok_0@.metadata.raw_case_count,
            ),
            outcome is Ok ==> distinct_names(outcome->Ok_0@.summary),
    {
        proof {
            use_type_invariant(&self);
        }
        let Engine { config, mut report, checks, context, failure } = self;
        match reader_failure {
            Some(message) => Err(ReadError::Reader(message)),
            None => match failure {
                Some(violation) => Err(ReadError::Breach(violation)),
                None => match context.check_case_counts(report.metadata.raw_case_count) {
                    Err(violation) => Err(ReadError::Breach(violation)),
                    Ok(_) => {
                        proof {
                            assert forall|k: int| 0 <= k < checks.post.len() implies post_check_ready(
                                #[trigger] checks.post[k],
                                config@,
                                report@,
                            ) by {}
                            crate::check::post::lemma_keeps_metadata(
                                checks.post@,
                                context@,
                                config@,
                                report@,
                            );
                        }
                        match run_post_checks(&checks.post, &context, &config, &mut report) {
                            Err(violation) => Err(ReadError::Breach(violation)),
                            Ok(_) => Ok(report),
                        }
                    },
                },
            },
        }
    }
}

/// Reads a whole file from its events: takes them in order and finishes.
/// After a breach the remaining events change nothing.
pub fn read(config: Config, file_name: &str, events: &Vec<Event>, reader_failure: Option<String>) -> (outcome:
    Result<Report, ReadError>)
    ensures
        reader_failure is Some ==> outcome == Err::<Report, ReadError>(
            ReadError::Reader(reader_failure->0),
        ),
        reader_failure is None ==> match read_of(config@, file_name@, event_views(events@)) {
            Ok(report) => outcome is Ok && outcome->Ok_0@ == report,
            Err(violation) => outcome == Err::<Report, ReadError>(ReadError::Breach(violation)),
        },
{
    let mut engine = Engine::new(config, file_name);
    let mut i: usize = 0;
    while i < events.len()
        invariant
            i <= events.len(),
            engine@ == EngineView::start(config@, file_name@).after(
                event_views(events@).take(i as int),
            ),
        decreases events.len() - i,
    {
        proof {
            let views = event_views(events@);
            assert(views.take(i + 1).drop_last() =~= views.take(i as int));
            assert(views.take(i + 1).last() == events[i as int]@);
        }
        let _ = engine.on_event(&events[i]);
        i += 1;
    }
    assert(event_views(events@).take(i as int) =~= event_views(events@));
    engine.finish(reader_failure)
}

} // verus!
