//! An in-memory, hierarchically organised typed data container.
//!
//! A [`Database`] owns named [`DBtypes`] groups, each of which owns named
//! [`Table`]s, each of which owns named [`ColumnGroup`]s.  A column group holds
//! an ordered schema and the rows that were checked against it.  Every change
//! is reached from the top by name, one level at a time; a change that is
//! refused leaves everything as it was.
//!
//! Each container has a view, its mathematical content, and the contracts of
//! its methods say how the view after a call relates to the view before it.
//! The module [`laws`] holds what follows for all contents.
//!
//! * [`value`]: values, with type-only and full equality.
//! * [`column_group`]: schema, row validation and the row operations.
//! * [`table`], [`dbtypes`], [`database`]: the three levels of containers.
//! * [`registry`]: the name-keyed collection that the containers keep their
//!   children in.
//! * [`bulk`]: registering one child per name.
//! * [`text`]: decimal notation and lists of text pairs.
//! * [`error`]: the error taxonomy.

pub mod bulk;
pub mod column_group;
pub mod database;
pub mod dbtypes;
pub mod error;
pub mod laws;
pub mod registry;
pub mod table;
pub mod text;
pub mod value;

pub use bulk::{create_columngroup_set, create_dbtype_set, create_table_set};
pub use column_group::{ColumnGroup, ColumnGroupView};
pub use database::{Database, DatabaseView};
pub use dbtypes::{DBtypes, TypeGroupView};
pub use error::{DBResult, DBERROR};
pub use registry::NameMap;
pub use table::{Table, TableView};
pub use value::{Datatypes, Value};
