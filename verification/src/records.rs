//! The row types of the catalog: one record type per raw table, plus the
//! combined row produced by joining metrics, source data releases,
//! geometries and data publishers.

use vstd::prelude::*;

use crate::columns::Column;

verus! {

/// Clones an optional string, preserving the value exactly.
pub fn clone_opt_string(o: &Option<String>) -> (r: Option<String>)
    ensures
        r == *o,
{
    match o {
        Some(s) => Some(s.clone()),
        None => None,
    }
}

/// One row of a per-country metric table.
///
/// `country` names the country whose table set the row came from; the
/// loader fills it in, and it is carried through the join so that searches
/// can filter by country.
#[derive(Debug)]
pub struct MetricRecord {
    pub id: String,
    pub hxl_tag: String,
    pub human_readable_name: String,
    pub description: String,
    pub source_metric_id: String,
    pub country: String,
    pub source_data_release_id: String,
    pub metric_parquet_path: String,
    pub parquet_column_name: String,
    pub parquet_margin_of_error_column: Option<String>,
    pub parent_metric_id: Option<String>,
}

impl Clone for MetricRecord {
    fn clone(&self) -> (r: Self)
        ensures
            r == *self,
    {
        MetricRecord {
            id: self.id.clone(),
            hxl_tag: self.hxl_tag.clone(),
            human_readable_name: self.human_readable_name.clone(),
            description: self.description.clone(),
            source_metric_id: self.source_metric_id.clone(),
            country: self.country.clone(),
            source_data_release_id: self.source_data_release_id.clone(),
            metric_parquet_path: self.metric_parquet_path.clone(),
            parquet_column_name: self.parquet_column_name.clone(),
            parquet_margin_of_error_column: clone_opt_string(&self.parquet_margin_of_error_column),
            parent_metric_id: clone_opt_string(&self.parent_metric_id),
        }
    }
}

/// One row of a per-country geometry table.
#[derive(Debug)]
pub struct GeometryRecord {
    pub id: String,
    pub level: String,
    pub hxl_tag: String,
    pub filename_stem: String,
    pub validity_period_start: String,
    pub validity_period_end: String,
}

impl Clone for GeometryRecord {
    fn clone(&self) -> (r: Self)
        ensures
            r == *self,
    {
        GeometryRecord {
            id: self.id.clone(),
            level: self.level.clone(),
            hxl_tag: self.hxl_tag.clone(),
            filename_stem: self.filename_stem.clone(),
            validity_period_start: self.validity_period_start.clone(),
            validity_period_end: self.validity_period_end.clone(),
        }
    }
}

/// One row of a per-country source data release table.
#[derive(Debug)]
pub struct SourceDataReleaseRecord {
    pub id: String,
    pub name: String,
    pub url: String,
    pub description: String,
    pub geometry_metadata_id: String,
    pub data_publisher_id: String,
    pub date_published: String,
    pub reference_period_start: String,
    pub reference_period_end: String,
    pub collection_period_start: String,
    pub collection_period_end: String,
    pub expect_next_update: String,
}

impl Clone for SourceDataReleaseRecord {
    fn clone(&self) -> (r: Self)
        ensures
            r == *self,
    {
        SourceDataReleaseRecord {
            id: self.id.clone(),
            name: self.name.clone(),
            url: self.url.clone(),
            description: self.description.clone(),
            geometry_metadata_id: self.geometry_metadata_id.clone(),
            data_publisher_id: self.data_publisher_id.clone(),
            date_published: self.date_published.clone(),
            reference_period_start: self.reference_period_start.clone(),
            reference_period_end: self.reference_period_end.clone(),
            collection_period_start: self.collection_period_start.clone(),
            collection_period_end: self.collection_period_end.clone(),
            expect_next_update: self.expect_next_update.clone(),
        }
    }
}

/// One row of a per-country data publisher table.
#[derive(Debug)]
pub struct DataPublisherRecord {
    pub id: String,
    pub name: String,
    pub url: String,
    pub description: String,
}

impl Clone for DataPublisherRecord {
    fn clone(&self) -> (r: Self)
        ensures
            r == *self,
    {
        DataPublisherRecord {
            id: self.id.clone(),
            name: self.name.clone(),
            url: self.url.clone(),
            description: self.description.clone(),
        }
    }
}

/// One row of a per-country country table.  Country rows are loaded and
/// merged but not joined into the combined view; the combined view's
/// `country` column instead records each metric row's country of origin.
#[derive(Debug)]
pub struct CountryRecord {
    pub id: String,
    pub name: String,
}

impl Clone for CountryRecord {
    fn clone(&self) -> (r: Self)
        ensures
            r == *self,
    {
        CountryRecord { id: self.id.clone(), name: self.name.clone() }
    }
}

/// One row of the combined catalog view: the inner join of a metric row
/// with its source data release, the release's geometry, and the release's
/// data publisher.  Colliding column names are renamed with the
/// table-scoped prefixes `release_`, `geometry_` and `data_publisher_`;
/// the metric table's own columns keep their natural names.
#[derive(Debug)]
pub struct CombinedCatalogRow {
    pub id: String,
    pub hxl_tag: String,
    pub human_readable_name: String,
    pub description: String,
    pub source_metric_id: String,
    pub country: String,
    pub metric_parquet_path: String,
    pub parquet_column_name: String,
    pub parquet_margin_of_error_column: Option<String>,
    pub parent_metric_id: Option<String>,
    pub release_id: String,
    pub release_name: String,
    pub release_url: String,
    pub release_description: String,
    pub release_date_published: String,
    pub release_reference_period_start: String,
    pub release_reference_period_end: String,
    pub geometry_id: String,
    pub geometry_level: String,
    pub geometry_hxl_tag: String,
    pub geometry_filename_stem: String,
    pub data_publisher_id: String,
    pub data_publisher_name: String,
    pub data_publisher_url: String,
    pub data_publisher_description: String,
}

impl Clone for CombinedCatalogRow {
    fn clone(&self) -> (r: Self)
        ensures
            r == *self,
    {
        CombinedCatalogRow {
            id: self.id.clone(),
            hxl_tag: self.hxl_tag.clone(),
            human_readable_name: self.human_readable_name.clone(),
            description: self.description.clone(),
            source_metric_id: self.source_metric_id.clone(),
            country: self.country.clone(),
            metric_parquet_path: self.metric_parquet_path.clone(),
            parquet_column_name: self.parquet_column_name.clone(),
            parquet_margin_of_error_column: clone_opt_string(&self.parquet_margin_of_error_column),
            parent_metric_id: clone_opt_string(&self.parent_metric_id),
            release_id: self.release_id.clone(),
            release_name: self.release_name.clone(),
            release_url: self.release_url.clone(),
            release_description: self.release_description.clone(),
            release_date_published: self.release_date_published.clone(),
            release_reference_period_start: self.release_reference_period_start.clone(),
            release_reference_period_end: self.release_reference_period_end.clone(),
            geometry_id: self.geometry_id.clone(),
            geometry_level: self.geometry_level.clone(),
            geometry_hxl_tag: self.geometry_hxl_tag.clone(),
            geometry_filename_stem: self.geometry_filename_stem.clone(),
            data_publisher_id: self.data_publisher_id.clone(),
            data_publisher_name: self.data_publisher_name.clone(),
            data_publisher_url: self.data_publisher_url.clone(),
            data_publisher_description: self.data_publisher_description.clone(),
        }
    }
}

impl CombinedCatalogRow {
    /// The value this row holds in the given column.
    pub open spec fn spec_column_value(self, c: Column) -> String {
        match c {
            Column::Id => self.id,
            Column::HxlTag => self.hxl_tag,
            Column::HumanReadableName => self.human_readable_name,
            Column::Description => self.description,
            Column::SourceMetricId => self.source_metric_id,
            Column::Country => self.country,
            Column::GeometryLevel => self.geometry_level,
            Column::ReleaseName => self.release_name,
            Column::ReleaseReferencePeriodStart => self.release_reference_period_start,
            Column::DataPublisherName => self.data_publisher_name,
        }
    }

    /// Reads the value of the given column from this row.
    pub fn column_value(&self, c: Column) -> (v: &String)
        ensures
            *v == self.spec_column_value(c),
    {
        match c {
            Column::Id => &self.id,
            Column::HxlTag => &self.hxl_tag,
            Column::HumanReadableName => &self.human_readable_name,
            Column::Description => &self.description,
            Column::SourceMetricId => &self.source_metric_id,
            Column::Country => &self.country,
            Column::GeometryLevel => &self.geometry_level,
            Column::ReleaseName => &self.release_name,
            Column::ReleaseReferencePeriodStart => &self.release_reference_period_start,
            Column::DataPublisherName => &self.data_publisher_name,
        }
    }
}

} // verus!
