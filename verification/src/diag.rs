//! Diagnostics that abort the generation for one type definition.

use vstd::prelude::*;

verus! {

/// How severe a diagnostic is.
#[derive(Clone, Copy, Debug, PartialEq, Eq, Structural)]
pub enum DiagLevel {
    Error,
    Warning,
    Note,
    Help,
}

/// A message about one definition, named by its identifier.
#[derive(Debug, PartialEq, Eq)]
pub struct Diagnostic {
    pub level: DiagLevel,
    /// Identifier of the definition that the message points at.
    pub subject: String,
    pub message: String,
}

impl Diagnostic {
    /// A diagnostic of `level` that points at the definition `subject`.
    pub fn spanned(subject: &str, level: DiagLevel, message: &str) -> (diag: Diagnostic)
        ensures
            diag.level == level,
            diag.subject@ == subject@,
            diag.message@ == message@,
    {
        Diagnostic { level, subject: subject.to_owned(), message: message.to_owned() }
    }

    /// A copy of this diagnostic.
    pub fn duplicate(&self) -> (copy: Diagnostic)
        ensures
            copy == *self,
    {
        Diagnostic {
            level: self.level,
            subject: self.subject.clone(),
            message: self.message.clone(),
        }
    }
}

} // verus!
