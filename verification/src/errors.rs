//! The closed error taxonomy of the service, with the total mapping from
//! error kind to HTTP status code and the classification of store outcomes.

use vstd::prelude::*;
use vstd::string::StringExecFns;

verus! {

/// Every failure the service can report. The taxonomy is closed: a store-layer
/// failure is `DatabaseError`, a pre-store validation failure is
/// `InvalidInput`, and a point lookup, update, or delete that matched no row
/// is `NotFound`. Each variant carries an opaque detail message.
#[derive(Debug)]
pub enum AppError {
    DatabaseError(String),
    InvalidInput(String),
    NotFound(String),
}

impl AppError {
    /// The HTTP status code a transport layer must answer with: this mapping
    /// is total over the taxonomy, so handlers never pick codes ad hoc.
    pub fn status_code(&self) -> (code: u16)
        ensures
            self is DatabaseError ==> code == 500,
            self is InvalidInput ==> code == 400,
            self is NotFound ==> code == 404,
    {
        match self {
            AppError::DatabaseError(_) => 500,
            AppError::InvalidInput(_) => 400,
            AppError::NotFound(_) => 404,
        }
    }

    /// The detail message carried by the error, whatever its kind.
    pub fn detail(&self) -> (msg: &String)
        ensures
            self matches AppError::DatabaseError(m) ==> msg@ == m@,
            self matches AppError::InvalidInput(m) ==> msg@ == m@,
            self matches AppError::NotFound(m) ==> msg@ == m@,
    {
        match self {
            AppError::DatabaseError(m) => m,
            AppError::InvalidInput(m) => m,
            AppError::NotFound(m) => m,
        }
    }

    /// Renders the error as a single line: a fixed prefix naming the kind,
    /// then the detail message. Only this opaque text is safe to expose.
    pub fn message(&self) -> (msg: String)
        ensures
            self matches AppError::DatabaseError(m) ==> msg@ == "Database error: "@ + m@,
            self matches AppError::InvalidInput(m) ==> msg@ == "Invalid input: "@ + m@,
            self matches AppError::NotFound(m) ==> msg@ == "Not found: "@ + m@,
    {
        match self {
            AppError::DatabaseError(m) => String::from_str("Database error: ").concat(m.as_str()),
            AppError::InvalidInput(m) => String::from_str("Invalid input: ").concat(m.as_str()),
            AppError::NotFound(m) => String::from_str("Not found: ").concat(m.as_str()),
        }
    }
}

/// Classifies the outcome of a targeted mutation by its affected-row count:
/// zero rows means the targeted row was absent, which is `NotFound` rather
/// than silent success, so callers can tell "already gone" from "gone now".
pub fn classify_rows_affected(rows: u64) -> (r: Result<u64, AppError>)
    ensures
        rows == 0 ==> (r matches Err(e) && e is NotFound),
        rows > 0 ==> (r matches Ok(n) && n == rows),
{
    if rows == 0 {
        Err(AppError::NotFound(String::from_str("Task not found")))
    } else {
        Ok(rows)
    }
}

/// Classifies a failed store operation: a zero-row outcome on a point lookup
/// or update is `NotFound`; every other store-layer failure is
/// `DatabaseError`. Either way the given detail is carried as the message.
pub fn classify_store_failure(row_not_found: bool, detail: String) -> (e: AppError)
    ensures
        row_not_found ==> (e matches AppError::NotFound(m) && m@ == detail@),
        !row_not_found ==> (e matches AppError::DatabaseError(m) && m@ == detail@),
{
    if row_not_found {
        AppError::NotFound(detail)
    } else {
        AppError::DatabaseError(detail)
    }
}

} // verus!
