//! What a renderer shows of a status's locators: the rows of its table,
//! as text, and no more of them than the table may hold.

use vstd::prelude::*;
use vstd::string::StringExecFns;
use crate::report::{Locator, LocatorSet, LocatorView};
use crate::text::{decimal, render_integer};

verus! {

/// The largest number of locators that a table shows.
pub const LOCATOR_LIMIT: usize = 1000;

/// What stands in a cell that has nothing to show.
pub const PLACEHOLDER: &'static str = "-";

/// The text of an optional value, or the default where there is none.
pub fn value_if_present(value: &Option<String>, default: String) -> (text: String)
    ensures
        text@ == match value {
            Some(v) => v@,
            None => default@,
        },
{
    match value {
        Some(v) => v.clone(),
        None => default,
    }
}

/// The decimal text of an index, or the default where the index is
/// negative and so stands for none.
pub fn value_if_positive(value: i32, default: &str) -> (text: String)
    ensures
        text@ == if value < 0 {
            default@
        } else {
            decimal(value as int)
        },
{
    if value < 0 {
        default.to_owned()
    } else {
        render_integer(value as i64)
    }
}

/// One row of a table of locators, as a renderer shows it.
#[derive(Debug, PartialEq, Eq)]
pub struct LocatorRow {
    /// The row's number in the table, counted from 1.
    pub number: usize,
    /// The variable's name, and its index in brackets.
    pub variable: String,
    /// The index of the row in the dataset, or a placeholder.
    pub row: String,
    /// The reason, or a placeholder.
    pub reason: String,
}

/// What a [`LocatorRow`] holds, as mathematical values.
pub struct LocatorRowView {
    pub number: usize,
    pub variable: Seq<char>,
    pub row: Seq<char>,
    pub reason: Seq<char>,
}

impl View for LocatorRow {
    type V = LocatorRowView;

    open spec fn view(&self) -> LocatorRowView {
        LocatorRowView {
            number: self.number,
            variable: self.variable@,
            row: self.row@,
            reason: self.reason@,
        }
    }
}

/// The row that shows the locator at `position` of a table.
pub open spec fn row_of(locator: LocatorView, position: int) -> LocatorRowView {
    LocatorRowView {
        number: (position + 1) as usize,
        variable: locator.variable_name + " ("@ + decimal(locator.variable_index as int) + ")"@,
        row: if locator.value_index < 0 {
            PLACEHOLDER@
        } else {
            decimal(locator.value_index as int)
        },
        reason: match locator.reason {
            Some(reason) => reason,
            None => PLACEHOLDER@,
        },
    }
}

/// The rows that show a set of locators: one for each of the first
/// `LOCATOR_LIMIT`, in the order of the set.
pub open spec fn rows_of(locators: Seq<LocatorView>) -> Seq<LocatorRowView> {
    Seq::new(
        if locators.len() <= LOCATOR_LIMIT {
            locators.len()
        } else {
            LOCATOR_LIMIT as nat
        },
        |i: int| row_of(locators[i], i),
    )
}

/// The views of a list of rows.
pub open spec fn row_views(rows: Seq<LocatorRow>) -> Seq<LocatorRowView> {
    Seq::new(rows.len(), |i: int| rows[i]@)
}

/// Builds the row that shows a locator.
pub fn locator_row(locator: &Locator, position: usize) -> (row: LocatorRow)
    requires
        position < usize::MAX,
    ensures
        row@ == row_of(locator@, position as int),
{
    let variable = locator.variable_name.clone().concat(" (").concat(
        render_integer(locator.variable_index as i64).as_str(),
    ).concat(")");
    LocatorRow {
        number: position + 1,
        variable,
        row: value_if_positive(locator.value_index, PLACEHOLDER),
        reason: value_if_present(&locator.reason, PLACEHOLDER.to_owned()),
    }
}

/// Builds the rows of a table of locators. A set larger than the table is
/// cut after the first `LOCATOR_LIMIT`, in order of insertion, so that the
/// same set always shows the same rows.
pub fn locator_rows(locators: &LocatorSet) -> (rows: Vec<LocatorRow>)
    ensures
        row_views(rows@) == rows_of(locators@),
{
    let shown: usize = if locators.len() <= LOCATOR_LIMIT {
        locators.len()
    } else {
        LOCATOR_LIMIT
    };
    let mut rows: Vec<LocatorRow> = Vec::new();
    let mut i: usize = 0;
    while i < shown
        invariant
            i <= shown,
            shown <= LOCATOR_LIMIT,
            shown <= locators@.len(),
            rows.len() == i,
            forall|j: int| 0 <= j < i ==> (#[trigger] rows[j])@ == row_of(locators@[j], j),
        decreases shown - i,
    {
        rows.push(locator_row(locators.get(i), i));
        i += 1;
    }
    assert(row_views(rows@) =~= rows_of(locators@));
    rows
}

} // verus!
