//! Missingness of a cell, derived from the three signals a reader supplies.

use vstd::prelude::*;

verus! {

/// Why a cell holds no usable value, if it does not.
#[derive(Clone, Copy, Debug, PartialEq, Eq, Structural, Hash)]
pub enum Missing {
    /// The cell holds an ordinary value.
    NotMissing,
    /// The format's own "no data recorded" sentinel.
    SystemMissing,
    /// A value that the variable's definition declares to be missing.
    DefinedMissing,
    /// An extended missing value, with its tag.
    TaggedMissing(char),
}

/// The three signals of a reader for one cell, and the tag that goes with
/// the second.
#[derive(Clone, Copy, Debug, PartialEq, Eq, Structural)]
pub struct MissingSignals {
    pub is_system_missing: bool,
    pub is_tagged_missing: bool,
    pub tag: char,
    pub is_defined_missing: bool,
}

/// The category of a cell: a tag wins over a defined missing value, that
/// over the system sentinel, and that over an ordinary value.
pub open spec fn classification(
    is_system_missing: bool,
    is_tagged_missing: bool,
    tag: char,
    is_defined_missing: bool,
) -> Missing {
    if is_tagged_missing {
        Missing::TaggedMissing(tag)
    } else if is_defined_missing {
        Missing::DefinedMissing
    } else if is_system_missing {
        Missing::SystemMissing
    } else {
        Missing::NotMissing
    }
}

/// Whether the signals contradict each other: the system sentinel and a
/// defined missing value at once, with no tag to settle it.
pub open spec fn signals_conflict(
    is_system_missing: bool,
    is_tagged_missing: bool,
    is_defined_missing: bool,
) -> bool {
    is_system_missing && is_defined_missing && !is_tagged_missing
}

/// Classifies one cell from its signals. Total: every combination of the
/// three signals has exactly one category.
pub fn classify(
    is_system_missing: bool,
    is_tagged_missing: bool,
    tag: char,
    is_defined_missing: bool,
) -> (missing: Missing)
    ensures
        missing == classification(is_system_missing, is_tagged_missing, tag, is_defined_missing),
        is_tagged_missing ==> missing == Missing::TaggedMissing(tag),
        !is_tagged_missing && is_defined_missing ==> missing == Missing::DefinedMissing,
        !is_tagged_missing && !is_defined_missing && is_system_missing ==> missing
            == Missing::SystemMissing,
        !is_tagged_missing && !is_defined_missing && !is_system_missing ==> missing
            == Missing::NotMissing,
{
    if is_tagged_missing {
        Missing::TaggedMissing(tag)
    } else if is_defined_missing {
        Missing::DefinedMissing
    } else if is_system_missing {
        Missing::SystemMissing
    } else {
        Missing::NotMissing
    }
}

impl MissingSignals {
    /// The category these signals give.
    pub open spec fn category(self) -> Missing {
        classification(
            self.is_system_missing,
            self.is_tagged_missing,
            self.tag,
            self.is_defined_missing,
        )
    }

    /// Whether these signals contradict each other.
    pub open spec fn conflicting(self) -> bool {
        signals_conflict(self.is_system_missing, self.is_tagged_missing, self.is_defined_missing)
    }

    /// Whether the system sentinel and a defined missing value fired
    /// together without a tag.
    pub fn conflict(&self) -> (conflict: bool)
        ensures
            conflict == self.conflicting(),
    {
        self.is_system_missing && self.is_defined_missing && !self.is_tagged_missing
    }

    /// Classifies the cell these signals belong to.
    pub fn classify(&self) -> (missing: Missing)
        ensures
            missing == self.category(),
    {
        classify(
            self.is_system_missing,
            self.is_tagged_missing,
            self.tag,
            self.is_defined_missing,
        )
    }
}

} // verus!
