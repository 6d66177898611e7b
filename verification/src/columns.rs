//! The addressable columns of the combined catalog view.
//!
//! Column-name collisions between the four joined tables are resolved with
//! table-scoped prefixes: the metric table keeps its natural column names,
//! while columns coming from the source data release, geometry and data
//! publisher tables are prefixed `release_`, `geometry_` and
//! `data_publisher_` respectively.

use vstd::prelude::*;

verus! {

/// A column of the combined catalog view that predicates can address.
#[derive(Clone, Copy, Debug, PartialEq, Eq, Structural)]
pub enum Column {
    /// The metric's opaque identifier (`id`).
    Id,
    /// The metric's HXL (Humanitarian Exchange Language) tag (`hxl_tag`).
    HxlTag,
    /// The metric's human readable name (`human_readable_name`).
    HumanReadableName,
    /// The metric's description (`description`).
    Description,
    /// The identifier of the census table the metric came from
    /// (`source_metric_id`).
    SourceMetricId,
    /// The country whose tables the metric row came from (`country`).
    Country,
    /// The geometry level of the joined geometry row (`geometry_level`).
    GeometryLevel,
    /// The name of the joined source data release row (`release_name`).
    ReleaseName,
    /// The start of the release's reference period, used as the row's year
    /// (`release_reference_period_start`).
    ReleaseReferencePeriodStart,
    /// The name of the joined data publisher row (`data_publisher_name`).
    DataPublisherName,
}

impl Column {
    /// The column's name in the combined view's renaming scheme.
    pub fn name(&self) -> (name: &'static str)
        ensures
            name@ == self.spec_name(),
    {
        match self {
            Column::Id => "id",
            Column::HxlTag => "hxl_tag",
            Column::HumanReadableName => "human_readable_name",
            Column::Description => "description",
            Column::SourceMetricId => "source_metric_id",
            Column::Country => "country",
            Column::GeometryLevel => "geometry_level",
            Column::ReleaseName => "release_name",
            Column::ReleaseReferencePeriodStart => "release_reference_period_start",
            Column::DataPublisherName => "data_publisher_name",
        }
    }

    /// The column's name, as a sequence of characters.
    pub open spec fn spec_name(&self) -> Seq<char> {
        match self {
            Column::Id => "id"@,
            Column::HxlTag => "hxl_tag"@,
            Column::HumanReadableName => "human_readable_name"@,
            Column::Description => "description"@,
            Column::SourceMetricId => "source_metric_id"@,
            Column::Country => "country"@,
            Column::GeometryLevel => "geometry_level"@,
            Column::ReleaseName => "release_name"@,
            Column::ReleaseReferencePeriodStart => "release_reference_period_start"@,
            Column::DataPublisherName => "data_publisher_name"@,
        }
    }
}

} // verus!
