//! The checks, and the lists in which a read runs them.
//!
//! A variable check runs once for each variable, as soon as it is defined,
//! and sees only its definition. A post check runs once, after the last
//! value, and sees the finished frequency tables. A check whose setting is
//! absent from the configuration does nothing.

use vstd::prelude::*;
use crate::report::{status_of, LocatorView, Locator, StatusView, SummaryRow};
use crate::variable::{Variable, VariableView};

pub mod post;
pub mod variable;

verus! {

/// The checks that look at a variable's definition.
#[derive(Clone, Copy, Debug, PartialEq, Eq, Structural)]
pub enum VariableCheck {
    PreciseDateFormat,
}

/// The checks that look at the finished frequency tables.
#[derive(Clone, Copy, Debug, PartialEq, Eq, Structural)]
pub enum PostCheck {
    PrimaryVariable,
    SystemMissingOverThreshold,
    VariablesWithUniqueValues,
}

/// The checks of a read, in the order in which they run.
#[derive(Debug)]
pub struct Check {
    pub variable: Vec<VariableCheck>,
    pub post: Vec<PostCheck>,
}

impl Check {
    /// Every check there is, in the order of registration.
    pub fn new() -> (checks: Check)
        ensures
            checks.variable@ == variable::registered(),
            checks.post@ == post::registered(),
    {
        Check { variable: variable::register(), post: post::register() }
    }
}

/// The largest tally, either way, from which a check can still count every
/// variable of a dataset without leaving the range of its counters.
pub const TALLY_LIMIT: i64 = 0x4000_0000_0000_0000;

/// Whether both tallies are within `TALLY_LIMIT` of zero.
pub open spec fn in_range(status: StatusView) -> bool {
    &&& -TALLY_LIMIT <= status.pass <= TALLY_LIMIT
    &&& -TALLY_LIMIT <= status.fail <= TALLY_LIMIT
}

/// Whether the check of this name can run: it has no outcome yet, or one
/// whose tallies are in range.
pub open spec fn countable(rows: Seq<SummaryRow>, name: Seq<char>) -> bool {
    status_of(rows, name) matches Some(status) ==> in_range(status)
}

/// The locator of a variable as a whole, with the reason for it.
pub open spec fn locator_of(variable: VariableView, reason: Seq<char>) -> LocatorView {
    LocatorView {
        variable_name: variable.name,
        variable_index: variable.index,
        value_index: -1i32,
        reason: Some(reason),
    }
}

/// Builds the locator of a variable as a whole.
pub fn locate(variable: &Variable, reason: &str) -> (locator: Locator)
    ensures
        locator@ == locator_of(variable@, reason@),
{
    Locator {
        variable_name: variable.name.clone(),
        variable_index: variable.index,
        value_index: -1,
        reason: Some(reason.to_owned()),
    }
}

} // verus!
