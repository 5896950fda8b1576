//! Variable definitions and the registry that keeps them in file order.

use vstd::prelude::*;
use crate::error::Violation;

verus! {

/// One variable (column) of a dataset.
#[derive(Debug, PartialEq, Eq, Hash)]
pub struct Variable {
    /// Position in the dataset, counted from 1.
    pub index: i32,
    pub name: String,
    pub label: String,
    /// Display format, such as a date format; empty if the file gives none.
    pub value_format: String,
    /// Name of the value-label dictionary; empty if the variable has none.
    pub value_labels: String,
}

/// What a [`Variable`] holds, as mathematical values.
pub struct VariableView {
    pub index: i32,
    pub name: Seq<char>,
    pub label: Seq<char>,
    pub value_format: Seq<char>,
    pub value_labels: Seq<char>,
}

impl View for Variable {
    type V = VariableView;

    open spec fn view(&self) -> VariableView {
        VariableView {
            index: self.index,
            name: self.name@,
            label: self.label@,
            value_format: self.value_format@,
            value_labels: self.value_labels@,
        }
    }
}

/// The text of an optional string, empty where there is none.
pub open spec fn text_or_empty(text: Option<String>) -> Seq<char> {
    match text {
        Some(t) => t@,
        None => Seq::empty(),
    }
}

fn unwrap_or_empty(text: Option<String>) -> (out: String)
    ensures
        out@ == text_or_empty(text),
{
    match text {
        Some(t) => t,
        None => String::new(),
    }
}

/// The index, counted from 1, of what a reader counts from 0. The last
/// position that an `i32` can hold has none.
pub open spec fn index_of_position(position: i32) -> Option<i32> {
    if position < i32::MAX {
        Some((position + 1) as i32)
    } else {
        None
    }
}

/// Turns a position that a reader counts from 0, of a variable or of a
/// row, into the index counted from 1 that the engine works with.
pub fn one_based(position: i32) -> (index: Option<i32>)
    ensures
        index == index_of_position(position),
        position < i32::MAX ==> index == Some((position + 1) as i32),
        position == i32::MAX ==> index is None,
{
    if position < i32::MAX {
        Some(position + 1)
    } else {
        None
    }
}

impl Variable {
    /// Builds a variable from what a reader hands over. The reader counts
    /// variables from 0; the variable's index is one more than its
    /// position. The label, the format and the dictionary name may each be
    /// absent, and are then empty.
    pub fn from_raw_parts(
        position: i32,
        name: String,
        label: Option<String>,
        value_format: Option<String>,
        value_labels: Option<String>,
    ) -> (variable: Variable)
        requires
            position < i32::MAX,
        ensures
            variable@ == (VariableView {
                index: (position + 1) as i32,
                name: name@,
                label: text_or_empty(label),
                value_format: text_or_empty(value_format),
                value_labels: text_or_empty(value_labels),
            }),
            Some(variable.index) == index_of_position(position),
    {
        Variable {
            index: position + 1,
            name,
            label: unwrap_or_empty(label),
            value_format: unwrap_or_empty(value_format),
            value_labels: unwrap_or_empty(value_labels),
        }
    }
}

impl Clone for Variable {
    fn clone(&self) -> (copy: Variable)
        ensures
            copy@ == self@,
    {
        Variable {
            index: self.index,
            name: self.name.clone(),
            label: self.label.clone(),
            value_format: self.value_format.clone(),
            value_labels: self.value_labels.clone(),
        }
    }
}

impl<'a> From<&'a str> for Variable {
    /// A variable known by name only: index 0 and everything else empty.
    fn from(name: &'a str) -> (variable: Variable)
        ensures
            variable@ == (VariableView {
                index: 0,
                name: name@,
                label: Seq::empty(),
                value_format: Seq::empty(),
                value_labels: Seq::empty(),
            }),
    {
        Variable {
            index: 0i32,
            name: name.to_owned(),
            label: String::new(),
            value_format: String::new(),
            value_labels: String::new(),
        }
    }
}

impl<'a> vstd::std_specs::convert::FromSpecImpl<&'a str> for Variable {
    open spec fn obeys_from_spec() -> bool {
        false
    }

    open spec fn from_spec(name: &'a str) -> Variable {
        arbitrary()
    }
}

/// Whether the variables carry the indices 1, 2, 3, ... in this order.
pub open spec fn indexed_in_order(variables: Seq<VariableView>) -> bool {
    forall|i: int| 0 <= i < variables.len() ==> (#[trigger] variables[i]).index == i + 1
}

/// The position of the first variable with the given name, if any has it.
pub open spec fn position_of_name(variables: Seq<VariableView>, name: Seq<char>) -> Option<int> {
    if exists|i: int| 0 <= i < variables.len() && (#[trigger] variables[i]).name == name {
        Some(
            choose|i: int|
                0 <= i < variables.len() && (#[trigger] variables[i]).name == name && forall|j: int|
                    0 <= j < i ==> (#[trigger] variables[j]).name != name,
        )
    } else {
        None
    }
}

/// The variables of a dataset in the order of their definition.
#[derive(Debug)]
pub struct VariableRegistry {
    variables: Vec<Variable>,
}

impl View for VariableRegistry {
    type V = Seq<VariableView>;

    closed spec fn view(&self) -> Seq<VariableView> {
        Seq::new(self.variables.len() as nat, |i: int| self.variables[i]@)
    }
}

impl VariableRegistry {
    /// Indices are contiguous from 1 and match the order of registration.
    #[verifier::type_invariant]
    pub closed spec fn well_formed(self) -> bool {
        &&& self.variables.len() <= i32::MAX
        &&& indexed_in_order(self@)
    }

    /// What `well_formed` says, over the view.
    pub proof fn lemma_well_formed(self)
        requires
            self.well_formed(),
        ensures
            self@.len() <= i32::MAX,
            indexed_in_order(self@),
    {
    }

    pub fn new() -> (registry: VariableRegistry)
        ensures
            registry@ == Seq::<VariableView>::empty(),
    {
        let registry = VariableRegistry { variables: Vec::new() };
        assert(registry@ =~= Seq::<VariableView>::empty());
        registry
    }

    /// The number of registered variables.
    pub fn len(&self) -> (n: usize)
        ensures
            n == self@.len(),
            n <= i32::MAX,
            indexed_in_order(self@),
    {
        proof {
            use_type_invariant(self);
        }
        self.variables.len()
    }

    /// Appends a variable. Its index must be the next one in file order;
    /// any other index is refused and leaves the registry as it was.
    pub fn register(&mut self, variable: Variable) -> (outcome: Result<(), Violation>)
        ensures
            variable.index == old(self)@.len() + 1 ==> outcome is Ok && final(self)@ == old(
                self,
            )@.push(variable@),
            variable.index != old(self)@.len() + 1 ==> final(self)@ == old(self)@ && outcome == Err::<
                (),
                Violation,
            >(
                Violation::VariableOutOfOrder {
                    registered: old(self)@.len() as usize,
                    found: variable.index,
                },
            ),
    {
        proof {
            use_type_invariant(&*self);
        }
        let registered = self.variables.len();
        if variable.index >= 1 && (variable.index - 1) as usize == registered {
            let mut variables: Vec<Variable> = Vec::new();
            core::mem::swap(&mut self.variables, &mut variables);
            variables.push(variable);
            proof {
                let grown = Seq::new(variables.len() as nat, |i: int| variables[i]@);
                assert(grown =~= old(self)@.push(variable@));
                assert forall|i: int| 0 <= i < grown.len() implies (#[trigger] grown[i]).index == i
                    + 1 by {
                    if i < registered {
                        assert(old(self)@[i].index == i + 1);
                    }
                }
            }
            self.variables = variables;
            assert(final(self)@ =~= old(self)@.push(variable@));
            Ok(())
        } else {
            Err(Violation::VariableOutOfOrder { registered, found: variable.index })
        }
    }

    /// The variable at `position`, counted from 0.
    pub fn at(&self, position: usize) -> (variable: &Variable)
        requires
            position < self@.len(),
        ensures
            variable@ == self@[position as int],
            variable.index == position + 1,
    {
        proof {
            use_type_invariant(self);
        }
        &self.variables[position]
    }

    /// The variable with the given index, counted from 1.
    pub fn get(&self, index: i32) -> (found: Option<&Variable>)
        ensures
            1 <= index <= self@.len() ==> found is Some && found->0@ == self@[index - 1],
            !(1 <= index <= self@.len()) ==> found is None,
    {
        if index >= 1 && ((index - 1) as usize) < self.variables.len() {
            Some(&self.variables[(index - 1) as usize])
        } else {
            None
        }
    }

    /// The first variable with the given name.
    pub fn find_by_name(&self, name: &str) -> (found: Option<&Variable>)
        ensures
            match position_of_name(self@, name@) {
                Some(i) => found is Some && found->0@ == self@[i],
                None => found is None,
            },
            found is Some ==> found->0@.name == name@ && 1 <= found->0.index <= self@.len()
                && self@[found->0.index - 1] == found->0@,
            found is None ==> forall|i: int|
                0 <= i < self@.len() ==> (#[trigger] self@[i]).name != name@,
    {
        proof {
            use_type_invariant(self);
        }
        let wanted = name.to_owned();
        let mut i: usize = 0;
        while i < self.variables.len()
            invariant
                i <= self.variables.len(),
                wanted@ == name@,
                self@.len() == self.variables.len(),
                indexed_in_order(self@),
                forall|j: int| 0 <= j < i ==> (#[trigger] self@[j]).name != name@,
            decreases self.variables.len() - i,
        {
            if self.variables[i].name == wanted {
                assert(self@[i as int].name == name@);
                return Some(&self.variables[i]);
            }
            i += 1;
        }
        None
    }
}

} // verus!
