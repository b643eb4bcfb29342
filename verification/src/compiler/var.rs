//! What the symbol table knows of a variable.

use vstd::prelude::*;
use super::types::FlycatcherType;

verus! {

/// The state of a variable.
#[derive(Clone, Copy, Debug, PartialEq, Eq, Structural)]
pub enum VariableType {
    /// The variable is known with its type, and has no value yet.
    Declared(FlycatcherType),
    /// The variable has a value. The first number counts the references to the variable
    /// since it got that value; the second is the index, among the statements of the lowered
    /// program, of the statement that gave it the value.
    Defined(FlycatcherType, usize, usize),
}

impl VariableType {
    /// The type of the variable.
    pub open spec fn ty(self) -> FlycatcherType {
        match self {
            VariableType::Declared(t) => t,
            VariableType::Defined(t, _, _) => t,
        }
    }

    /// The type of the variable.
    pub fn get_type(&self) -> (r: FlycatcherType)
        ensures
            r == self.ty(),
    {
        match self {
            VariableType::Declared(t) => *t,
            VariableType::Defined(t, _, _) => *t,
        }
    }
}

} // verus!
