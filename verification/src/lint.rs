//! Linting: of the schema in the database, and of SQL embedded in code.
pub mod schema;
pub mod sql;

use vstd::prelude::*;

verus! {

/// How serious a diagnostic is; ordered from `Note` to `Error`.
#[derive(Copy, Clone, Debug, PartialEq, Eq, PartialOrd, Ord, Hash)]
pub enum DiagnosticClassification {
    Note,
    Warning,
    Error,
}

impl DiagnosticClassification {
    /// The name a classification is shown and parsed by.
    pub open spec fn spec_name(self) -> Seq<char> {
        match self {
            DiagnosticClassification::Note => "note"@,
            DiagnosticClassification::Warning => "warning"@,
            DiagnosticClassification::Error => "error"@,
        }
    }

    /// The displayed name, in snake case.
    pub fn name(self) -> (s: &'static str)
        ensures
            s@ == self.spec_name(),
    {
        match self {
            DiagnosticClassification::Note => "note",
            DiagnosticClassification::Warning => "warning",
            DiagnosticClassification::Error => "error",
        }
    }

    /// The classification with the name `s`, if any.
    pub fn from_name(s: &str) -> (r: Option<DiagnosticClassification>)
        ensures
            match r {
                Some(c) => c.spec_name() == s@,
                None => forall|c: DiagnosticClassification| c.spec_name() != s@,
            },
    {
        if crate::text::str_eq(s, "note") {
            Some(DiagnosticClassification::Note)
        } else if crate::text::str_eq(s, "warning") {
            Some(DiagnosticClassification::Warning)
        } else if crate::text::str_eq(s, "error") {
            Some(DiagnosticClassification::Error)
        } else {
            proof {
                assert forall|c: DiagnosticClassification| c.spec_name() != s@ by {
                    match c {
                        DiagnosticClassification::Note => {},
                        DiagnosticClassification::Warning => {},
                        DiagnosticClassification::Error => {},
                    }
                }
            }
            None
        }
    }
}

/// Classifications are told apart by their names, so that parsing a
/// classification's name (`from_name`) gives it back.
pub proof fn lemma_classification_names_distinct(a: DiagnosticClassification, b: DiagnosticClassification)
    ensures
        a.spec_name() == b.spec_name() ==> a == b,
{
    reveal_strlit("note");
    reveal_strlit("warning");
    reveal_strlit("error");
    if a != b {
        assert(a.spec_name().len() != b.spec_name().len() || a.spec_name()[0] != b.spec_name()[0]);
    }
}

} // verus!
