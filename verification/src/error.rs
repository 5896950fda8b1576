//! Why a read ends without a report.

use vstd::prelude::*;
use vstd::string::StringExecFns;
use crate::text::{decimal, decimal_digits, render_integer, render_unsigned};

verus! {

/// A breach of the contract between the reader and the engine. Each one
/// ends the read: no report is produced.
#[derive(Clone, Copy, Debug, PartialEq, Eq, Structural)]
pub enum Violation {
    /// A variable arrived whose index is not the next one in file order.
    VariableOutOfOrder { registered: usize, found: i32 },
    /// A value arrived for a variable that was not defined before it. A
    /// reader defines every variable before it sends the first of its
    /// values, so that the variable checks see a variable before its
    /// values are counted; a value that names no defined variable breaks
    /// that order and cannot be counted against any variable.
    UnknownVariable { variable_index: i32 },
    /// The system and the defined missing signals fired together, untagged.
    ConflictingSignals { variable_index: i32, row_index: i32 },
    /// More observations of one variable than a counter can hold.
    TooManyObservations { variable_index: i32 },
    /// A variable's observations do not add up to the reported case count.
    CaseCountMismatch { variable_index: i32, observed: u64, expected: i32 },
}

impl Violation {
    /// What the breach is, in words.
    pub open spec fn text(self) -> Seq<char> {
        match self {
            Violation::VariableOutOfOrder { registered, found } => "variable index "@ + decimal(
                found as int,
            ) + " arrived after "@ + decimal_digits(registered as nat) + " variables"@,
            Violation::UnknownVariable { variable_index } => "value for undefined variable "@
                + decimal(variable_index as int),
            Violation::ConflictingSignals { variable_index, row_index } =>
                "system missing and defined missing at once in variable "@ + decimal(
                variable_index as int,
            ) + ", row "@ + decimal(row_index as int),
            Violation::TooManyObservations { variable_index } =>
                "too many observations of variable "@ + decimal(variable_index as int),
            Violation::CaseCountMismatch { variable_index, observed, expected } => "variable "@
                + decimal(variable_index as int) + " has "@ + decimal_digits(observed as nat)
                + " observations, the file reports "@ + decimal(expected as int),
        }
    }

    /// Describes the breach.
    pub fn message(&self) -> (text: String)
        ensures
            text@ == self.text(),
    {
        match self {
            Violation::VariableOutOfOrder { registered, found } => String::from_str(
                "variable index ",
            ).concat(render_integer(*found as i64).as_str()).concat(" arrived after ").concat(
                render_unsigned(*registered as u64).as_str(),
            ).concat(" variables"),
            Violation::UnknownVariable { variable_index } => String::from_str(
                "value for undefined variable ",
            ).concat(render_integer(*variable_index as i64).as_str()),
            Violation::ConflictingSignals { variable_index, row_index } => String::from_str(
                "system missing and defined missing at once in variable ",
            ).concat(render_integer(*variable_index as i64).as_str()).concat(", row ").concat(
                render_integer(*row_index as i64).as_str(),
            ),
            Violation::TooManyObservations { variable_index } => String::from_str(
                "too many observations of variable ",
            ).concat(render_integer(*variable_index as i64).as_str()),
            Violation::CaseCountMismatch { variable_index, observed, expected } =>
                String::from_str("variable ").concat(
                render_integer(*variable_index as i64).as_str(),
            ).concat(" has ").concat(render_unsigned(*observed).as_str()).concat(
                " observations, the file reports ",
            ).concat(render_integer(*expected as i64).as_str()),
        }
    }
}

/// Why a read produced no report.
#[derive(Debug, PartialEq, Eq)]
pub enum ReadError {
    /// The reader could not read the file; the message is its own.
    Reader(String),
    /// The reader broke its contract with the engine.
    Breach(Violation),
}

impl ReadError {
    /// What went wrong, in words.
    pub open spec fn text(self) -> Seq<char> {
        match self {
            ReadError::Reader(message) => message@,
            ReadError::Breach(violation) => violation.text(),
        }
    }

    /// Describes what went wrong.
    pub fn message(&self) -> (text: String)
        ensures
            text@ == self.text(),
    {
        match self {
            ReadError::Reader(message) => message.clone(),
            ReadError::Breach(violation) => violation.message(),
        }
    }
}

} // verus!
