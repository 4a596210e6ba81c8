//! Execution failures, disjoint from parse failures and surfaced verbatim
//! to the caller.

use vstd::prelude::*;
use vstd::string::StringExecFns;

verus! {

/// An error raised while executing a parsed statement.
#[derive(Debug, Clone)]
pub enum ExecutionError {
    TableNotFound(String),
    TableAlreadyExists(String),
    ColumnDoesNotExists(String),
}

impl ExecutionError {
    /// The name the error carries (of the table or column concerned).
    pub open spec fn spec_arg(self) -> Seq<char> {
        match self {
            ExecutionError::TableNotFound(n) => n@,
            ExecutionError::TableAlreadyExists(n) => n@,
            ExecutionError::ColumnDoesNotExists(n) => n@,
        }
    }

    /// A human-readable message, in place of a `Display` implementation.
    pub fn message(&self) -> (r: String)
        ensures
            r@.len() > 0,
    {
        let (prefix, name, suffix): (&str, &String, &str) = match self {
            ExecutionError::TableNotFound(n) => ("Table ", n, " was not found"),
            ExecutionError::TableAlreadyExists(n) => ("Table ", n, " already exists"),
            ExecutionError::ColumnDoesNotExists(n) => ("Column ", n, " does not exists"),
        };
        let mut out = prefix.to_owned();
        out.append(name.as_str());
        out.append(suffix);
        proof {
            reveal_strlit("Table ");
            reveal_strlit("Column ");
        }
        out
    }
}

impl PartialEq for ExecutionError {
    fn eq(&self, other: &Self) -> (r: bool) {
        match (self, other) {
            (ExecutionError::TableNotFound(a), ExecutionError::TableNotFound(b)) => *a == *b,
            (ExecutionError::TableAlreadyExists(a), ExecutionError::TableAlreadyExists(b)) => *a
                == *b,
            (ExecutionError::ColumnDoesNotExists(a), ExecutionError::ColumnDoesNotExists(b)) => *a
                == *b,
            _ => false,
        }
    }
}

impl Eq for ExecutionError {

}

impl vstd::std_specs::cmp::PartialEqSpecImpl for ExecutionError {
    open spec fn obeys_eq_spec() -> bool {
        true
    }

    open spec fn eq_spec(&self, other: &Self) -> bool {
        match (self, other) {
            (ExecutionError::TableNotFound(a), ExecutionError::TableNotFound(b)) => a@ == b@,
            (ExecutionError::TableAlreadyExists(a), ExecutionError::TableAlreadyExists(b)) => a@
                == b@,
            (ExecutionError::ColumnDoesNotExists(a), ExecutionError::ColumnDoesNotExists(b)) => a@
                == b@,
            _ => false,
        }
    }
}

} // verus!
