//! What a read has gathered: the variables, their frequency tables and the
//! value labels.

use vstd::prelude::*;
use crate::error::Violation;
use crate::frequency::{sub_table_of, total, Frequency, FrequencyTable};
use crate::labels::LabelDictionaries;
use crate::variable::{indexed_in_order, VariableRegistry, VariableView};

verus! {

/// The state that the checks read.
#[derive(Debug)]
pub struct Context {
    pub variables: VariableRegistry,
    pub frequency_table: FrequencyTable,
    pub value_labels: LabelDictionaries,
}

/// What a [`Context`] holds, as mathematical values.
pub struct ContextView {
    pub variables: Seq<VariableView>,
    pub frequency_table: Seq<Seq<Frequency>>,
    pub value_labels: Map<(Seq<char>, Seq<char>), Seq<char>>,
}

impl View for Context {
    type V = ContextView;

    open spec fn view(&self) -> ContextView {
        ContextView {
            variables: self.variables@,
            frequency_table: self.frequency_table@,
            value_labels: self.value_labels@,
        }
    }
}

impl ContextView {
    /// The context of a read that has seen nothing yet.
    pub open spec fn blank() -> ContextView {
        ContextView {
            variables: Seq::empty(),
            frequency_table: Seq::empty(),
            value_labels: Map::empty(),
        }
    }

    /// The number of observations of the variable at `position`.
    pub open spec fn observations(self, position: int) -> nat {
        total(sub_table_of(self.frequency_table, self.variables[position].index as int))
    }

    /// Whether every variable was observed exactly `raw_case_count` times.
    pub open spec fn case_counts_agree(self, raw_case_count: i32) -> bool {
        forall|i: int| 0 <= i < self.variables.len() ==> #[trigger] self.observations(i) == raw_case_count
    }

    /// The first variable that was not observed `raw_case_count` times.
    pub open spec fn first_disagreement(self, raw_case_count: i32) -> int {
        choose|i: int|
            0 <= i < self.variables.len() && #[trigger] self.observations(i) != raw_case_count
                && forall|j: int| 0 <= j < i ==> #[trigger] self.observations(j) == raw_case_count
    }

    /// The breach that the first such variable stands for.
    pub open spec fn disagreement(self, raw_case_count: i32) -> Violation {
        let i = self.first_disagreement(raw_case_count);
        Violation::CaseCountMismatch {
            variable_index: self.variables[i].index,
            observed: self.observations(i) as u64,
            expected: raw_case_count,
        }
    }

    /// The outcome of holding every variable's observations against the
    /// reported case count.
    pub open spec fn case_count_check(self, raw_case_count: i32) -> Result<(), Violation> {
        if self.case_counts_agree(raw_case_count) {
            Ok(())
        } else {
            Err(self.disagreement(raw_case_count))
        }
    }
}

impl Context {
    pub fn new() -> (context: Context)
        ensures
            context@ == ContextView::blank(),
    {
        Context {
            variables: VariableRegistry::new(),
            frequency_table: FrequencyTable::new(),
            value_labels: LabelDictionaries::new(),
        }
    }

    /// Holds the observations of every variable against the case count
    /// that the file reports. Any difference is a breach by the reader;
    /// the first variable that differs is named.
    pub fn check_case_counts(&self, raw_case_count: i32) -> (outcome: Result<(), Violation>)
        ensures
            outcome == self@.case_count_check(raw_case_count),
    {
        let n = self.variables.len();
        let mut i: usize = 0;
        while i < n
            invariant
                i <= n,
                n == self@.variables.len(),
                indexed_in_order(self@.variables),
                forall|j: int| 0 <= j < i ==> #[trigger] self@.observations(j) == raw_case_count,
            decreases n - i,
        {
            let variable = self.variables.at(i);
            let observed = self.frequency_table.row_count(variable.index);
            if raw_case_count < 0 || observed != raw_case_count as u64 {
                assert(self@.observations(i as int) != raw_case_count);
                return Err(
                    Violation::CaseCountMismatch {
                        variable_index: variable.index,
                        observed,
                        expected: raw_case_count,
                    },
                );
            }
            assert(self@.observations(i as int) == raw_case_count);
            i += 1;
        }
        Ok(())
    }
}

} // verus!
