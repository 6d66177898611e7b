//! How a caller describes the data it wants.

use vstd::prelude::*;

verus! {

/// The geometry part of a data request: the geometry level to use, or
/// `None` to let the selection planner pick the best-covered one.
#[derive(Debug)]
pub struct GeometrySpec {
    pub geometry_level: Option<String>,
}

impl Default for GeometrySpec {
    /// No geometry level: the planner falls back to the best-covered one.
    fn default() -> (r: Self)
        ensures
            r.geometry_level is None,
    {
        GeometrySpec { geometry_level: None }
    }
}

} // verus!
