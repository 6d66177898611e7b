//! A federated catalog of population-statistics metadata.
//!
//! Per-country relational tables (metrics, geometries, source data releases,
//! data publishers, countries) are merged and joined into a single combined
//! view.  Possibly partial or pattern-based metric identifiers are resolved
//! against that view, multi-dimensional boolean search filters are composed
//! and applied to it, and a selection plan is derived that fills in
//! unspecified dimensions (geometry level, time period) with deterministic,
//! frequency-ranked fallbacks.

pub mod columns;
pub mod config;
pub mod data_request_spec;
pub mod entities;
pub mod metadata;
pub mod parquet;
pub mod pattern;
pub mod ranking;
pub mod records;
pub mod search;

use vstd::prelude::*;

use crate::config::Config;
use crate::metadata::Metadata;
use crate::search::{SearchRequest, SearchResults};

verus! {

/// The catalog as a whole: the loaded metadata tables together with the
/// configuration that locates the backing storage.
pub struct Popgetter {
    pub metadata: Metadata,
    pub config: Config,
}

impl Popgetter {
    /// Runs a search request against the combined view of the catalog.
    pub fn search(&self, search_request: &SearchRequest) -> (results: SearchResults)
        ensures
            results@ == crate::search::spec_search(
                *search_request,
                self.metadata.spec_combined(),
            ),
    {
        search_request.search_results(&self.metadata)
    }
}

} // verus!
