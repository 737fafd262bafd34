//! The error taxonomy shared by every fallible operation.

use vstd::prelude::*;

verus! {

/// Why an operation on a container was refused.
#[derive(Debug, Clone, Copy, PartialEq, Eq, Structural)]
pub enum DBERROR {
    /// A duplicate name or pair, or a row that does not fit the schema.
    InsertError,
    /// No row matches the key of an update.
    UpdateError,
    /// No row matches the key of a removal.
    DeleteError,
    /// The named child or column does not exist.
    SelectError,
    /// Reserved for a persistence layer; nothing here raises it.
    ConnectionError,
    /// Reserved for a query layer; nothing here raises it.
    QueryError,
    /// A search found no matching row.
    NoDataError,
    /// Reserved; nothing here raises it.
    TestError,
}

pub type DBResult<T> = Result<T, DBERROR>;

} // verus!
