//! The diagnostics the semantic analyser can emit. Errors fail the analysis;
//! warnings do not.

use vstd::prelude::*;

verus! {

#[derive(Debug, Copy, Clone, PartialEq, Eq, Structural)]
pub enum Error {
    AlreadyDeclared,
    Undeclared,
    VectorWithoutIndice,
    ScalarWithIndice,
    TypeConversion,
    InvalidFunctionArguments,
    MainUndeclared,
}

#[derive(Debug, Copy, Clone, PartialEq, Eq, Structural)]
pub enum Warning {
    VariableShadowing,
}

#[derive(Debug, Copy, Clone, PartialEq, Eq, Structural)]
pub enum Diagnostic {
    Error(Error),
    Warning(Warning),
}

impl Diagnostic {
    /// Whether the diagnostic fails the analysis.
    pub open spec fn spec_is_error(self) -> bool {
        self is Error
    }

    /// Whether the diagnostic fails the analysis.
    pub fn is_error(&self) -> (r: bool)
        ensures
            r == self.spec_is_error(),
    {
        match self {
            Diagnostic::Error(_) => true,
            Diagnostic::Warning(_) => false,
        }
    }
}

} // verus!
