//! The contract boundary between the catalog and value retrieval: a
//! resolved metric row names the file and the column that hold its actual
//! measurement data.

use vstd::prelude::*;

verus! {

/// Where a metric's values are stored: a file under the configured base
/// path, and the column within it.
#[derive(Debug)]
pub struct MetricRequest {
    pub column: String,
    pub file: String,
}

impl Clone for MetricRequest {
    fn clone(&self) -> (r: Self)
        ensures
            r == *self,
    {
        MetricRequest { column: self.column.clone(), file: self.file.clone() }
    }
}

} // verus!
