//! The library's closed error taxonomy.

use vstd::prelude::*;
use vstd::string::StringExecFns;

verus! {

/// Every failure the library reports. `NotFound` carries text identifying the
/// missing entity, `InvalidInput` carries an explanation of the violated
/// precondition, and `DatabaseError` is reserved: no operation raises it.
#[derive(Debug)]
pub enum AppError {
    NotFound(String),
    InvalidInput(String),
    DatabaseError(String),
}

impl AppError {
    /// The full display text of the error: a variant prefix followed by the
    /// carried message.
    pub open spec fn spec_message(&self) -> Seq<char> {
        match self {
            AppError::NotFound(m) => "Not found: "@ + m@,
            AppError::InvalidInput(m) => "Invalid input: "@ + m@,
            AppError::DatabaseError(m) => "Database error: "@ + m@,
        }
    }

    /// Renders the error as its display text.
    pub fn message(&self) -> (r: String)
        ensures
            r@ == self.spec_message(),
    {
        match self {
            AppError::NotFound(m) => String::from_str("Not found: ").concat(m.as_str()),
            AppError::InvalidInput(m) => String::from_str("Invalid input: ").concat(m.as_str()),
            AppError::DatabaseError(m) => String::from_str("Database error: ").concat(m.as_str()),
        }
    }
}

} // verus!
