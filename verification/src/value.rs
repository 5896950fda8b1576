//! Cell values and their canonical text.

use vstd::prelude::*;
use crate::missing::{Missing, MissingSignals};
use crate::text::{decimal, render_integer};

verus! {

/// The decoded content of one cell.
///
/// Dates and times are numeric cells; it is the variable's format that
/// marks them as such. A floating-point cell arrives as the decimal text
/// that the reader rendered for it, and that text is its identity here.
#[derive(Debug, PartialEq, Eq)]
pub enum AnyValue {
    /// The cell holds no value.
    Empty,
    /// An integer cell of any width.
    Integer(i64),
    /// A floating-point cell, as rendered by the reader.
    Real(String),
    /// A string cell.
    Text(String),
}

/// What an [`AnyValue`] holds, as mathematical values.
pub enum AnyValueView {
    Empty,
    Integer(i64),
    Real(Seq<char>),
    Text(Seq<char>),
}

impl AnyValueView {
    /// The canonical text of the value: the key under which it is counted
    /// and under which its label is looked up. An integer is written in
    /// decimal, a string and a rendered number stand for themselves, and
    /// no value at all is the empty text.
    pub open spec fn key(self) -> Seq<char> {
        match self {
            AnyValueView::Empty => Seq::empty(),
            AnyValueView::Integer(i) => decimal(i as int),
            AnyValueView::Real(text) => text,
            AnyValueView::Text(text) => text,
        }
    }
}

impl View for AnyValue {
    type V = AnyValueView;

    open spec fn view(&self) -> AnyValueView {
        match self {
            AnyValue::Empty => AnyValueView::Empty,
            AnyValue::Integer(i) => AnyValueView::Integer(*i),
            AnyValue::Real(text) => AnyValueView::Real(text@),
            AnyValue::Text(text) => AnyValueView::Text(text@),
        }
    }
}

impl AnyValue {
    /// The canonical text of the value.
    pub open spec fn key(self) -> Seq<char> {
        self@.key()
    }

    /// Renders the canonical text of the value.
    pub fn canonical(&self) -> (text: String)
        ensures
            text@ == self.key(),
    {
        match self {
            AnyValue::Empty => String::new(),
            AnyValue::Integer(i) => render_integer(*i),
            AnyValue::Real(text) => text.clone(),
            AnyValue::Text(text) => text.clone(),
        }
    }
}

/// The value under which a cell is counted: a cell that the file marks as
/// system missing holds no data, whatever its bytes decode to, and counts
/// as no value; every other cell counts as what it holds.
pub fn counted_value(raw: AnyValue, signals: &MissingSignals) -> (value: AnyValue)
    ensures
        value@ == if signals.is_system_missing {
            AnyValueView::Empty
        } else {
            raw@
        },
{
    if signals.is_system_missing {
        AnyValue::Empty
    } else {
        raw
    }
}

impl Clone for AnyValue {
    fn clone(&self) -> (copy: AnyValue)
        ensures
            copy@ == self@,
    {
        match self {
            AnyValue::Empty => AnyValue::Empty,
            AnyValue::Integer(i) => AnyValue::Integer(*i),
            AnyValue::Real(text) => AnyValue::Real(text.clone()),
            AnyValue::Text(text) => AnyValue::Text(text.clone()),
        }
    }
}

/// One observed cell.
#[derive(Debug, PartialEq, Eq)]
pub struct Value {
    /// Index of the variable, counted from 1.
    pub var_index: i32,
    /// Index of the row, counted from 1.
    pub row: i32,
    pub value: AnyValue,
    /// The label that the variable's dictionary gives the value; empty if
    /// it gives none.
    pub label: String,
    pub missing: Missing,
}

} // verus!
