//! Place names extracted from free text by an external natural-language
//! companion.  The extraction itself is an outside collaborator; the
//! catalog only carries the extracted names.

use vstd::prelude::*;
use vstd::string::StringExecFns;

verus! {

/// A geographic entity (a place or area) named in free text.
#[derive(Debug, PartialEq, Eq, PartialOrd, Ord)]
pub struct GeographicEntity {
    pub place: String,
}

impl GeographicEntity {
    /// Wraps a place name.
    pub fn new(place: &str) -> (r: GeographicEntity)
        ensures
            r.place@ == place@,
    {
        GeographicEntity { place: String::from_str(place) }
    }
}

} // verus!
