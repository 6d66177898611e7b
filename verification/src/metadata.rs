//! The catalog: per-country metadata tables, their union across
//! countries, the combined joined view, identifier resolution and the
//! selection planner.

use vstd::prelude::*;
use vstd::string::StringExecFns;

use crate::columns::Column;
use crate::config::Config;
use crate::parquet::MetricRequest;
use crate::pattern::{pattern_matches, regex_compiles, regex_is_match};
use crate::records::{
    clone_opt_string, CombinedCatalogRow, CountryRecord, DataPublisherRecord, GeometryRecord,
    MetricRecord, SourceDataReleaseRecord,
};
use crate::search::Expr;

verus! {

/// Represents a way of referring to a metric; each variant binds to one
/// column of the combined view.
#[derive(Debug, PartialEq, Eq)]
pub enum MetricId {
    /// Hxl (Humanitarian Exchange Language) tag
    Hxl(String),
    /// Internal UUID
    Id(String),
    /// Human readable name
    CommonName(String),
}

impl Clone for MetricId {
    fn clone(&self) -> (r: Self)
        ensures
            r == *self,
    {
        match self {
            MetricId::Hxl(s) => MetricId::Hxl(s.clone()),
            MetricId::Id(s) => MetricId::Id(s.clone()),
            MetricId::CommonName(s) => MetricId::CommonName(s.clone()),
        }
    }
}

impl MetricId {
    /// The identifier's text.
    pub open spec fn spec_value_string(&self) -> String {
        match *self {
            MetricId::Hxl(s) => s,
            MetricId::Id(s) => s,
            MetricId::CommonName(s) => s,
        }
    }

    /// The identifier's text, as a sequence of characters.
    pub open spec fn spec_value(&self) -> Seq<char> {
        self.spec_value_string()@
    }

    /// The combined-view column this kind of identifier binds to.
    pub open spec fn spec_column(&self) -> Column {
        match *self {
            MetricId::Hxl(_) => Column::HxlTag,
            MetricId::Id(_) => Column::Id,
            MetricId::CommonName(_) => Column::HumanReadableName,
        }
    }

    /// Whether two identifiers are of the same kind.
    pub open spec fn spec_same_variant(&self, other: &MetricId) -> bool {
        match (*self, *other) {
            (MetricId::Hxl(_), MetricId::Hxl(_)) => true,
            (MetricId::Id(_), MetricId::Id(_)) => true,
            (MetricId::CommonName(_), MetricId::CommonName(_)) => true,
            _ => false,
        }
    }

    /// An identifier of the same kind as this one, holding the given text.
    pub open spec fn spec_with_value(&self, value: String) -> MetricId {
        match *self {
            MetricId::Hxl(_) => MetricId::Hxl(value),
            MetricId::Id(_) => MetricId::Id(value),
            MetricId::CommonName(_) => MetricId::CommonName(value),
        }
    }

    /// Returns the name of the combined-view column this identifier binds
    /// to.
    pub fn to_col_name(&self) -> (r: String)
        ensures
            r@ == self.spec_column().spec_name(),
    {
        let c = match self {
            MetricId::Hxl(_) => Column::HxlTag,
            MetricId::Id(_) => Column::Id,
            MetricId::CommonName(_) => Column::HumanReadableName,
        };
        String::from_str(c.name())
    }

    /// Return a string representing the textual content of the identifier.
    pub fn to_query_string(&self) -> (r: &str)
        ensures
            r@ == self.spec_value(),
    {
        match self {
            MetricId::Hxl(s) => s.as_str(),
            MetricId::Id(s) => s.as_str(),
            MetricId::CommonName(s) => s.as_str(),
        }
    }

    /// The predicate that matches rows holding exactly this identifier.
    pub fn to_exact_expr(&self) -> (e: Expr)
        ensures
            e == Expr::Eq(self.spec_column(), self.spec_value_string()),
    {
        let c = match self {
            MetricId::Hxl(_) => Column::HxlTag,
            MetricId::Id(_) => Column::Id,
            MetricId::CommonName(_) => Column::HumanReadableName,
        };
        let v = match self {
            MetricId::Hxl(s) => s.clone(),
            MetricId::Id(s) => s.clone(),
            MetricId::CommonName(s) => s.clone(),
        };
        Expr::Eq(c, v)
    }

    /// The predicate that matches rows whose column contains a match of
    /// this identifier's text read as a pattern.
    pub fn to_fuzzy_expr(&self) -> (e: Expr)
        ensures
            e == Expr::Contains(self.spec_column(), self.spec_value_string()),
    {
        let c = match self {
            MetricId::Hxl(_) => Column::HxlTag,
            MetricId::Id(_) => Column::Id,
            MetricId::CommonName(_) => Column::HumanReadableName,
        };
        let v = match self {
            MetricId::Hxl(s) => s.clone(),
            MetricId::Id(s) => s.clone(),
            MetricId::CommonName(s) => s.clone(),
        };
        Expr::Contains(c, v)
    }
}

/// The error of identifier resolution: the identifier's text could not be
/// read as a containment pattern.
#[derive(Clone, Copy, Debug, PartialEq, Eq, Structural)]
pub enum ResolutionError {
    InvalidPattern,
}

/// The error of catalog construction: a join step dropped rows although
/// the caller expected every metric row's references to resolve.
#[derive(Clone, Copy, Debug, PartialEq, Eq, Structural)]
pub enum CatalogError {
    MissingJoinTarget,
}

/// The errors of selection planning.
#[derive(Clone, Copy, Debug, PartialEq, Eq, Structural)]
pub enum SelectionError {
    /// A requested identifier's text could not be read as a pattern.
    InvalidPattern,
    /// No geometry level was given and the candidate rows offer none.
    NoGeometryAvailable,
    /// No candidate row is left at the selected geometry level.
    NoRowsAfterGeometryFilter,
}

/// This struct contains the base url and names of the files that contain
/// the metadata.  It has a default impl which gives the version normally
/// used, and allows the names to be customised where needed.
#[derive(Debug)]
pub struct CountryMetadataPaths {
    pub geometry: String,
    pub metrics: String,
    pub country: String,
    pub source_data: String,
    pub data_publishers: String,
}

impl Default for CountryMetadataPaths {
    /// The file names normally used for the five metadata tables.
    fn default() -> (r: Self)
        ensures
            r.geometry@ == "geometry_metadata.parquet"@,
            r.metrics@ == "metric_metadata.parquet"@,
            r.country@ == "country_metadata.parquet"@,
            r.source_data@ == "source_data_releases.parquet"@,
            r.data_publishers@ == "data_publishers.parquet"@,
    {
        Self {
            geometry: String::from_str("geometry_metadata.parquet"),
            metrics: String::from_str("metric_metadata.parquet"),
            country: String::from_str("country_metadata.parquet"),
            source_data: String::from_str("source_data_releases.parquet"),
            data_publishers: String::from_str("data_publishers.parquet"),
        }
    }
}

/// `CountryMetadataLoader` takes a country iso string along with a
/// `CountryMetadataPaths` and names the files from which a `Metadata`
/// catalog for that country is fetched and constructed.
#[derive(Debug)]
pub struct CountryMetadataLoader {
    pub country: String,
    pub paths: CountryMetadataPaths,
}

impl CountryMetadataLoader {
    /// Create a metadata loader for a specific country, with the default
    /// file names.
    pub fn new(country: &str) -> (r: Self)
        ensures
            r.country@ == country@,
            r.paths.geometry@ == "geometry_metadata.parquet"@,
            r.paths.metrics@ == "metric_metadata.parquet"@,
            r.paths.country@ == "country_metadata.parquet"@,
            r.paths.source_data@ == "source_data_releases.parquet"@,
            r.paths.data_publishers@ == "data_publishers.parquet"@,
    {
        let paths = CountryMetadataPaths::default();
        Self { country: String::from_str(country), paths }
    }

    /// Overwrite the paths object to specify custom metadata file names
    /// and base url.
    pub fn with_paths(self, paths: CountryMetadataPaths) -> (r: Self)
        ensures
            r.country == self.country,
            r.paths == paths,
    {
        Self { paths, ..self }
    }
}

/// The metadata tables of one or more countries: the five raw tables,
/// merged across countries.  Built once, then read-only.
#[derive(Debug)]
pub struct Metadata {
    pub metrics: Vec<MetricRecord>,
    pub geometries: Vec<GeometryRecord>,
    pub source_data_releases: Vec<SourceDataReleaseRecord>,
    pub data_publishers: Vec<DataPublisherRecord>,
    pub countries: Vec<CountryRecord>,
}

/// The first source data release with the given identifier.
pub open spec fn spec_find_release(
    rs: Seq<SourceDataReleaseRecord>,
    id: Seq<char>,
) -> Option<SourceDataReleaseRecord>
    decreases rs.len(),
{
    if rs.len() == 0 {
        None
    } else if rs[0].id@ == id {
        Some(rs[0])
    } else {
        spec_find_release(rs.drop_first(), id)
    }
}

/// The first geometry with the given identifier.
pub open spec fn spec_find_geometry(gs: Seq<GeometryRecord>, id: Seq<char>) -> Option<
    GeometryRecord,
>
    decreases gs.len(),
{
    if gs.len() == 0 {
        None
    } else if gs[0].id@ == id {
        Some(gs[0])
    } else {
        spec_find_geometry(gs.drop_first(), id)
    }
}

/// The first data publisher with the given identifier.
pub open spec fn spec_find_publisher(ps: Seq<DataPublisherRecord>, id: Seq<char>) -> Option<
    DataPublisherRecord,
>
    decreases ps.len(),
{
    if ps.len() == 0 {
        None
    } else if ps[0].id@ == id {
        Some(ps[0])
    } else {
        spec_find_publisher(ps.drop_first(), id)
    }
}

/// The combined row a metric joins into, given its release, the release's
/// geometry and the release's publisher.
pub open spec fn spec_combine_row(
    m: MetricRecord,
    rel: SourceDataReleaseRecord,
    g: GeometryRecord,
    p: DataPublisherRecord,
) -> CombinedCatalogRow {
    CombinedCatalogRow {
        id: m.id,
        hxl_tag: m.hxl_tag,
        human_readable_name: m.human_readable_name,
        description: m.description,
        source_metric_id: m.source_metric_id,
        country: m.country,
        metric_parquet_path: m.metric_parquet_path,
        parquet_column_name: m.parquet_column_name,
        parquet_margin_of_error_column: m.parquet_margin_of_error_column,
        parent_metric_id: m.parent_metric_id,
        release_id: rel.id,
        release_name: rel.name,
        release_url: rel.url,
        release_description: rel.description,
        release_date_published: rel.date_published,
        release_reference_period_start: rel.reference_period_start,
        release_reference_period_end: rel.reference_period_end,
        geometry_id: g.id,
        geometry_level: g.level,
        geometry_hxl_tag: g.hxl_tag,
        geometry_filename_stem: g.filename_stem,
        data_publisher_id: p.id,
        data_publisher_name: p.name,
        data_publisher_url: p.url,
        data_publisher_description: p.description,
    }
}

/// What one metric row contributes to the combined view: its joined row,
/// or nothing when any of its references has no match (inner-join
/// semantics).
pub open spec fn spec_join_row(
    m: MetricRecord,
    rels: Seq<SourceDataReleaseRecord>,
    geoms: Seq<GeometryRecord>,
    pubs: Seq<DataPublisherRecord>,
) -> Option<CombinedCatalogRow> {
    match spec_find_release(rels, m.source_data_release_id@) {
        None => None,
        Some(rel) => match spec_find_geometry(geoms, rel.geometry_metadata_id@) {
            None => None,
            Some(g) => match spec_find_publisher(pubs, rel.data_publisher_id@) {
                None => None,
                Some(p) => Some(spec_combine_row(m, rel, g, p)),
            },
        },
    }
}

/// The combined view: each metric row's joined row, in metric row order,
/// with metric rows whose references do not resolve dropped.
pub open spec fn spec_combined_rows(
    ms: Seq<MetricRecord>,
    rels: Seq<SourceDataReleaseRecord>,
    geoms: Seq<GeometryRecord>,
    pubs: Seq<DataPublisherRecord>,
) -> Seq<CombinedCatalogRow> {
    ms.filter_map(|m: MetricRecord| spec_join_row(m, rels, geoms, pubs))
}

/// Finds the first source data release with the given identifier.
fn find_release<'a>(rs: &'a Vec<SourceDataReleaseRecord>, id: &String) -> (r: Option<
    &'a SourceDataReleaseRecord,
>)
    ensures
        match r {
            Some(rel) => spec_find_release(rs@, id@) == Some(*rel),
            None => spec_find_release(rs@, id@) is None,
        },
{
    let mut j: usize = 0;
    proof {
        assert(rs@.skip(0) =~= rs@);
    }
    while j < rs.len()
        invariant
            0 <= j <= rs@.len(),
            spec_find_release(rs@, id@) == spec_find_release(rs@.skip(j as int), id@),
        decreases rs@.len() - j,
    {
        proof {
            assert(rs@.skip(j as int)[0] == rs@[j as int]);
            assert(rs@.skip(j as int).drop_first() =~= rs@.skip(j as int + 1));
        }
        if rs[j].id == *id {
            return Some(&rs[j]);
        }
        j += 1;
    }
    proof {
        assert(rs@.skip(rs@.len() as int).len() == 0);
    }
    None
}

/// Finds the first geometry with the given identifier.
fn find_geometry<'a>(gs: &'a Vec<GeometryRecord>, id: &String) -> (r: Option<&'a GeometryRecord>)
    ensures
        match r {
            Some(g) => spec_find_geometry(gs@, id@) == Some(*g),
            None => spec_find_geometry(gs@, id@) is None,
        },
{
    let mut j: usize = 0;
    proof {
        assert(gs@.skip(0) =~= gs@);
    }
    while j < gs.len()
        invariant
            0 <= j <= gs@.len(),
            spec_find_geometry(gs@, id@) == spec_find_geometry(gs@.skip(j as int), id@),
        decreases gs@.len() - j,
    {
        proof {
            assert(gs@.skip(j as int)[0] == gs@[j as int]);
            assert(gs@.skip(j as int).drop_first() =~= gs@.skip(j as int + 1));
        }
        if gs[j].id == *id {
            return Some(&gs[j]);
        }
        j += 1;
    }
    proof {
        assert(gs@.skip(gs@.len() as int).len() == 0);
    }
    None
}

/// Finds the first data publisher with the given identifier.
fn find_publisher<'a>(ps: &'a Vec<DataPublisherRecord>, id: &String) -> (r: Option<
    &'a DataPublisherRecord,
>)
    ensures
        match r {
            Some(p) => spec_find_publisher(ps@, id@) == Some(*p),
            None => spec_find_publisher(ps@, id@) is None,
        },
{
    let mut j: usize = 0;
    proof {
        assert(ps@.skip(0) =~= ps@);
    }
    while j < ps.len()
        invariant
            0 <= j <= ps@.len(),
            spec_find_publisher(ps@, id@) == spec_find_publisher(ps@.skip(j as int), id@),
        decreases ps@.len() - j,
    {
        proof {
            assert(ps@.skip(j as int)[0] == ps@[j as int]);
            assert(ps@.skip(j as int).drop_first() =~= ps@.skip(j as int + 1));
        }
        if ps[j].id == *id {
            return Some(&ps[j]);
        }
        j += 1;
    }
    proof {
        assert(ps@.skip(ps@.len() as int).len() == 0);
    }
    None
}

/// Builds the combined row of a metric and its resolved references.
fn combine_row(
    m: &MetricRecord,
    rel: &SourceDataReleaseRecord,
    g: &GeometryRecord,
    p: &DataPublisherRecord,
) -> (row: CombinedCatalogRow)
    ensures
        row == spec_combine_row(*m, *rel, *g, *p),
{
    CombinedCatalogRow {
        id: m.id.clone(),
        hxl_tag: m.hxl_tag.clone(),
        human_readable_name: m.human_readable_name.clone(),
        description: m.description.clone(),
        source_metric_id: m.source_metric_id.clone(),
        country: m.country.clone(),
        metric_parquet_path: m.metric_parquet_path.clone(),
        parquet_column_name: m.parquet_column_name.clone(),
        parquet_margin_of_error_column: clone_opt_string(&m.parquet_margin_of_error_column),
        parent_metric_id: clone_opt_string(&m.parent_metric_id),
        release_id: rel.id.clone(),
        release_name: rel.name.clone(),
        release_url: rel.url.clone(),
        release_description: rel.description.clone(),
        release_date_published: rel.date_published.clone(),
        release_reference_period_start: rel.reference_period_start.clone(),
        release_reference_period_end: rel.reference_period_end.clone(),
        geometry_id: g.id.clone(),
        geometry_level: g.level.clone(),
        geometry_hxl_tag: g.hxl_tag.clone(),
        geometry_filename_stem: g.filename_stem.clone(),
        data_publisher_id: p.id.clone(),
        data_publisher_name: p.name.clone(),
        data_publisher_url: p.url.clone(),
        data_publisher_description: p.description.clone(),
    }
}

impl Metadata {
    /// The combined view this metadata stands for.
    pub open spec fn spec_combined(self) -> Seq<CombinedCatalogRow> {
        spec_combined_rows(
            self.metrics@,
            self.source_data_releases@,
            self.geometries@,
            self.data_publishers@,
        )
    }

    /// Generate the combined view which joins the metrics, source data
    /// releases, geometries and data publishers: in this order, each an
    /// inner join, with metric rows whose references do not resolve
    /// dropped.
    pub fn combined_metric_source_geometry(&self) -> (t: ExpandedMetadataTable)
        ensures
            t@ == self.spec_combined(),
    {
        let ghost f = |m: MetricRecord| spec_join_row(
            m,
            self.source_data_releases@,
            self.geometries@,
            self.data_publishers@,
        );
        let mut rows: Vec<CombinedCatalogRow> = Vec::new();
        let mut i: usize = 0;
        proof {
            assert(rows@ =~= self.metrics@.take(0).filter_map(f));
        }
        while i < self.metrics.len()
            invariant
                0 <= i <= self.metrics@.len(),
                f == (|m: MetricRecord| spec_join_row(
                    m,
                    self.source_data_releases@,
                    self.geometries@,
                    self.data_publishers@,
                )),
                rows@ == self.metrics@.take(i as int).filter_map(f),
            decreases self.metrics@.len() - i,
        {
            let m = &self.metrics[i];
            proof {
                self.metrics@.lemma_filter_map_take_succ(f, i as int);
            }
            match find_release(&self.source_data_releases, &m.source_data_release_id) {
                None => {
                    proof {
                        assert(f(self.metrics@[i as int]) is None);
                        assert(rows@ =~= self.metrics@.take(i as int + 1).filter_map(f));
                    }
                }
                Some(rel) => {
                    match find_geometry(&self.geometries, &rel.geometry_metadata_id) {
                        None => {
                            proof {
                                assert(f(self.metrics@[i as int]) is None);
                                assert(rows@ =~= self.metrics@.take(i as int + 1).filter_map(f));
                            }
                        }
                        Some(g) => {
                            match find_publisher(&self.data_publishers, &rel.data_publisher_id) {
                                None => {
                                    proof {
                                        assert(f(self.metrics@[i as int]) is None);
                                        assert(rows@ =~= self.metrics@.take(i as int + 1).filter_map(
                                            f,
                                        ));
                                    }
                                }
                                Some(p) => {
                                    let row = combine_row(m, rel, g, p);
                                    rows.push(row);
                                    proof {
                                        assert(f(self.metrics@[i as int]) == Some(row));
                                        assert(rows@ =~= self.metrics@.take(i as int + 1).filter_map(
                                            f,
                                        ));
                                    }
                                }
                            }
                        }
                    }
                }
            }
            i += 1;
        }
        proof {
            assert(self.metrics@.take(self.metrics@.len() as int) =~= self.metrics@);
        }
        ExpandedMetadataTable(rows)
    }

    /// The combined view, with the join checked against the expectation
    /// that every metric row's references resolve: when
    /// `expect_all_matched` is set and any join step dropped a row, the
    /// catalog is refused instead of silently shrunk.
    pub fn combined_checked(&self, expect_all_matched: bool) -> (r: Result<
        ExpandedMetadataTable,
        CatalogError,
    >)
        ensures
            r is Ok <==> (!expect_all_matched || self.spec_combined().len() == self.metrics@.len()),
            r is Ok ==> r->Ok_0@ == self.spec_combined(),
            r is Err ==> r->Err_0 == CatalogError::MissingJoinTarget,
    {
        let t = self.combined_metric_source_geometry();
        proof {
            lemma_join_drops_unmatched(
                self.metrics@,
                self.source_data_releases@,
                self.geometries@,
                self.data_publishers@,
            );
        }
        if expect_all_matched && t.0.len() < self.metrics.len() {
            Err(CatalogError::MissingJoinTarget)
        } else {
            Ok(t)
        }
    }
}

/// The per-table unions of a list of per-country metadata sets, in order.
pub open spec fn spec_merged_metrics(parts: Seq<Metadata>) -> Seq<MetricRecord>
    decreases parts.len(),
{
    if parts.len() == 0 {
        Seq::empty()
    } else {
        spec_merged_metrics(parts.drop_last()) + parts.last().metrics@
    }
}

/// The union of the geometry tables, in order.
pub open spec fn spec_merged_geometries(parts: Seq<Metadata>) -> Seq<GeometryRecord>
    decreases parts.len(),
{
    if parts.len() == 0 {
        Seq::empty()
    } else {
        spec_merged_geometries(parts.drop_last()) + parts.last().geometries@
    }
}

/// The union of the source data release tables, in order.
pub open spec fn spec_merged_releases(parts: Seq<Metadata>) -> Seq<SourceDataReleaseRecord>
    decreases parts.len(),
{
    if parts.len() == 0 {
        Seq::empty()
    } else {
        spec_merged_releases(parts.drop_last()) + parts.last().source_data_releases@
    }
}

/// The union of the data publisher tables, in order.
pub open spec fn spec_merged_publishers(parts: Seq<Metadata>) -> Seq<DataPublisherRecord>
    decreases parts.len(),
{
    if parts.len() == 0 {
        Seq::empty()
    } else {
        spec_merged_publishers(parts.drop_last()) + parts.last().data_publishers@
    }
}

/// The union of the country tables, in order.
pub open spec fn spec_merged_countries(parts: Seq<Metadata>) -> Seq<CountryRecord>
    decreases parts.len(),
{
    if parts.len() == 0 {
        Seq::empty()
    } else {
        spec_merged_countries(parts.drop_last()) + parts.last().countries@
    }
}

/// Merge the metadata of a list of countries into a single catalog: each
/// of the five tables is the concatenation of the parts' tables, in the
/// order given.
pub fn merge_all(parts: Vec<Metadata>) -> (r: Metadata)
    ensures
        r.metrics@ == spec_merged_metrics(parts@),
        r.geometries@ == spec_merged_geometries(parts@),
        r.source_data_releases@ == spec_merged_releases(parts@),
        r.data_publishers@ == spec_merged_publishers(parts@),
        r.countries@ == spec_merged_countries(parts@),
{
    let ghost orig = parts@;
    let mut parts = parts;
    let mut metrics: Vec<MetricRecord> = Vec::new();
    let mut geometries: Vec<GeometryRecord> = Vec::new();
    let mut source_data_releases: Vec<SourceDataReleaseRecord> = Vec::new();
    let mut data_publishers: Vec<DataPublisherRecord> = Vec::new();
    let mut countries: Vec<CountryRecord> = Vec::new();
    let mut i: usize = 0;
    proof {
        assert(metrics@ =~= spec_merged_metrics(orig.take(0)));
        assert(geometries@ =~= spec_merged_geometries(orig.take(0)));
        assert(source_data_releases@ =~= spec_merged_releases(orig.take(0)));
        assert(data_publishers@ =~= spec_merged_publishers(orig.take(0)));
        assert(countries@ =~= spec_merged_countries(orig.take(0)));
    }
    while i < parts.len()
        invariant
            0 <= i <= orig.len(),
            parts@ == orig,
            metrics@ == spec_merged_metrics(orig.take(i as int)),
            geometries@ == spec_merged_geometries(orig.take(i as int)),
            source_data_releases@ == spec_merged_releases(orig.take(i as int)),
            data_publishers@ == spec_merged_publishers(orig.take(i as int)),
            countries@ == spec_merged_countries(orig.take(i as int)),
        decreases orig.len() - i,
    {
        let part = &parts[i];
        let mut m = part.metrics.clone();
        let mut g = part.geometries.clone();
        let mut s = part.source_data_releases.clone();
        let mut d = part.data_publishers.clone();
        let mut c = part.countries.clone();
        proof {
            assert(m@ =~= part.metrics@);
            assert(g@ =~= part.geometries@);
            assert(s@ =~= part.source_data_releases@);
            assert(d@ =~= part.data_publishers@);
            assert(c@ =~= part.countries@);
        }
        metrics.append(&mut m);
        geometries.append(&mut g);
        source_data_releases.append(&mut s);
        data_publishers.append(&mut d);
        countries.append(&mut c);
        proof {
            assert(orig.take(i as int + 1).drop_last() =~= orig.take(i as int));
            assert(orig.take(i as int + 1).last() == orig[i as int]);
        }
        i += 1;
    }
    proof {
        assert(orig.take(orig.len() as int) =~= orig);
    }
    Metadata { metrics, geometries, source_data_releases, data_publishers, countries }
}

/// LAW (join invariant): a metric row whose references do not all resolve
/// is absent from the combined view, and the view shrinks by exactly the
/// count of such rows: the view's length plus the count of unmatched
/// metric rows is the metric table's length.
pub proof fn lemma_join_drops_unmatched(
    ms: Seq<MetricRecord>,
    rels: Seq<SourceDataReleaseRecord>,
    geoms: Seq<GeometryRecord>,
    pubs: Seq<DataPublisherRecord>,
)
    ensures
        spec_combined_rows(ms, rels, geoms, pubs).len() + ms.filter(
            |m: MetricRecord| spec_join_row(m, rels, geoms, pubs) is None,
        ).len() == ms.len(),
    decreases ms.len(),
{
    reveal(Seq::filter);
    reveal_with_fuel(Seq::filter_map, 2);
    let f = |m: MetricRecord| spec_join_row(m, rels, geoms, pubs);
    let p = |m: MetricRecord| spec_join_row(m, rels, geoms, pubs) is None;
    if ms.len() > 0 {
        lemma_join_drops_unmatched(ms.drop_last(), rels, geoms, pubs);
        assert(ms.filter_map(f) == if f(ms.last()) is Some {
            ms.drop_last().filter_map(f) + seq![f(ms.last())->0]
        } else {
            ms.drop_last().filter_map(f)
        });
        assert(ms.filter(p) == if p(ms.last()) {
            ms.drop_last().filter(p).push(ms.last())
        } else {
            ms.drop_last().filter(p)
        });
    }
}

/// A structure that represents the full joined table containing all of
/// the metadata.  Row order follows the metric table's row order.
#[derive(Debug)]
pub struct ExpandedMetadataTable(pub Vec<CombinedCatalogRow>);

impl View for ExpandedMetadataTable {
    type V = Seq<CombinedCatalogRow>;

    open spec fn view(&self) -> Seq<CombinedCatalogRow> {
        self.0@
    }
}

/// Whether the identifier's text, read as a containment pattern, matches
/// the row's value in the identifier's column.
pub open spec fn spec_id_matches(id: MetricId, row: CombinedCatalogRow) -> bool {
    pattern_matches(id.spec_value(), row.spec_column_value(id.spec_column())@)
}

/// Whether any of the identifiers matches the row.
pub open spec fn spec_matches_any(ids: Seq<MetricId>, row: CombinedCatalogRow) -> bool {
    exists|i: int| 0 <= i < ids.len() && #[trigger] spec_id_matches(ids[i], row)
}

/// Whether every identifier's text compiles as a pattern.
pub open spec fn spec_ids_valid(ids: Seq<MetricId>) -> bool {
    forall|i: int| 0 <= i < ids.len() ==> regex_compiles((#[trigger] ids[i]).spec_value())
}

/// The rows any of the identifiers matches, in row order.
pub open spec fn spec_candidate_rows(
    rows: Seq<CombinedCatalogRow>,
    ids: Seq<MetricId>,
) -> Seq<CombinedCatalogRow> {
    rows.filter(|r: CombinedCatalogRow| spec_matches_any(ids, r))
}

/// The rows that sit at the given geometry level, in row order.
pub open spec fn spec_rows_at(
    rows: Seq<CombinedCatalogRow>,
    level: Seq<char>,
) -> Seq<CombinedCatalogRow> {
    rows.filter(|r: CombinedCatalogRow| r.geometry_level@ == level)
}

/// The rows whose year is one of the given years, in row order.
pub open spec fn spec_rows_in_years(
    rows: Seq<CombinedCatalogRow>,
    years: Seq<Seq<char>>,
) -> Seq<CombinedCatalogRow> {
    rows.filter(|r: CombinedCatalogRow| years.contains(r.release_reference_period_start@))
}

/// The geometry levels of the rows, in row order.
pub open spec fn spec_geometry_views(rows: Seq<CombinedCatalogRow>) -> Seq<Seq<char>> {
    rows.map_values(|r: CombinedCatalogRow| r.geometry_level@)
}

/// The years of the rows (each row's release reference period start), in
/// row order.
pub open spec fn spec_year_views(rows: Seq<CombinedCatalogRow>) -> Seq<Seq<char>> {
    rows.map_values(|r: CombinedCatalogRow| r.release_reference_period_start@)
}

impl MetricId {
    /// Picks the combined-view column this kind of identifier binds to.
    pub fn column(&self) -> (c: Column)
        ensures
            c == self.spec_column(),
    {
        match self {
            MetricId::Hxl(_) => Column::HxlTag,
            MetricId::Id(_) => Column::Id,
            MetricId::CommonName(_) => Column::HumanReadableName,
        }
    }
}

/// Checks that every identifier's text compiles as a pattern.
fn validate_ids(ids: &Vec<MetricId>) -> (b: bool)
    ensures
        b == spec_ids_valid(ids@),
{
    let mut j: usize = 0;
    while j < ids.len()
        invariant
            0 <= j <= ids@.len(),
            forall|k: int| 0 <= k < j ==> regex_compiles((#[trigger] ids@[k]).spec_value()),
        decreases ids@.len() - j,
    {
        if regex_is_match(ids[j].to_query_string(), "").is_none() {
            return false;
        }
        j += 1;
    }
    true
}

/// Whether any of the identifiers matches the row.
fn row_matches_any(ids: &Vec<MetricId>, row: &CombinedCatalogRow) -> (b: bool)
    requires
        spec_ids_valid(ids@),
    ensures
        b == spec_matches_any(ids@, *row),
{
    let mut j: usize = 0;
    while j < ids.len()
        invariant
            0 <= j <= ids@.len(),
            spec_ids_valid(ids@),
            forall|k: int| 0 <= k < j ==> !#[trigger] spec_id_matches(ids@[k], *row),
        decreases ids@.len() - j,
    {
        let id = &ids[j];
        let m = regex_is_match(id.to_query_string(), row.column_value(id.column()).as_str());
        proof {
            assert(regex_compiles(ids@[j as int].spec_value()));
        }
        if m.unwrap() {
            proof {
                assert(spec_id_matches(ids@[j as int], *row));
            }
            return true;
        }
        j += 1;
    }
    false
}

impl ExpandedMetadataTable {
    /// An independent copy of the table's rows.
    pub fn as_df(&self) -> (r: Vec<CombinedCatalogRow>)
        ensures
            r@ == self@,
    {
        let mut rows: Vec<CombinedCatalogRow> = Vec::new();
        let mut i: usize = 0;
        while i < self.0.len()
            invariant
                0 <= i <= self.0@.len(),
                rows@ == self.0@.take(i as int),
            decreases self.0@.len() - i,
        {
            rows.push(self.0[i].clone());
            proof {
                assert(self.0@.take(i as int + 1) =~= self.0@.take(i as int).push(
                    self.0@[i as int],
                ));
            }
            i += 1;
        }
        proof {
            assert(self.0@.take(self.0@.len() as int) =~= self.0@);
        }
        rows
    }

    /// Filter the table down to the rows matched by any of the given
    /// identifiers, each read as a containment pattern; an exact
    /// identifier behaves as a degenerate pattern matching at least
    /// itself.  Fails exactly when some identifier's text does not
    /// compile as a pattern.
    pub fn select_metrics(&self, metrics: &Vec<MetricId>) -> (r: Result<Self, ResolutionError>)
        ensures
            r is Ok <==> spec_ids_valid(metrics@),
            r is Ok ==> r->Ok_0@ == spec_candidate_rows(self@, metrics@),
            r is Err ==> r->Err_0 == ResolutionError::InvalidPattern,
    {
        if !validate_ids(metrics) {
            return Err(ResolutionError::InvalidPattern);
        }
        let ghost p = |r: CombinedCatalogRow| spec_matches_any(metrics@, r);
        let mut rows: Vec<CombinedCatalogRow> = Vec::new();
        let mut i: usize = 0;
        proof {
            reveal(Seq::filter);
            assert(rows@ =~= self.0@.take(0).filter(p));
        }
        while i < self.0.len()
            invariant
                0 <= i <= self.0@.len(),
                spec_ids_valid(metrics@),
                p == (|r: CombinedCatalogRow| spec_matches_any(metrics@, r)),
                rows@ == self.0@.take(i as int).filter(p),
            decreases self.0@.len() - i,
        {
            let row = &self.0[i];
            if row_matches_any(metrics, row) {
                rows.push(row.clone());
            }
            proof {
                broadcast use Seq::lemma_filter_push;

                assert(self.0@.take(i as int + 1) =~= self.0@.take(i as int).push(
                    self.0@[i as int],
                ));
            }
            i += 1;
        }
        proof {
            assert(self.0@.take(self.0@.len() as int) =~= self.0@);
        }
        Ok(ExpandedMetadataTable(rows))
    }

    /// Select a specific geometry level, filtering out all others.
    pub fn select_geometry(&self, geometry: &str) -> (t: Self)
        ensures
            t@ == spec_rows_at(self@, geometry@),
    {
        let g = String::from_str(geometry);
        let ghost p = |r: CombinedCatalogRow| r.geometry_level@ == geometry@;
        let mut rows: Vec<CombinedCatalogRow> = Vec::new();
        let mut i: usize = 0;
        proof {
            reveal(Seq::filter);
            assert(rows@ =~= self.0@.take(0).filter(p));
        }
        while i < self.0.len()
            invariant
                0 <= i <= self.0@.len(),
                g@ == geometry@,
                p == (|r: CombinedCatalogRow| r.geometry_level@ == geometry@),
                rows@ == self.0@.take(i as int).filter(p),
            decreases self.0@.len() - i,
        {
            let row = &self.0[i];
            if row.geometry_level == g {
                rows.push(row.clone());
            }
            proof {
                broadcast use Seq::lemma_filter_push;

                assert(self.0@.take(i as int + 1) =~= self.0@.take(i as int).push(
                    self.0@[i as int],
                ));
            }
            i += 1;
        }
        proof {
            assert(self.0@.take(self.0@.len() as int) =~= self.0@);
        }
        ExpandedMetadataTable(rows)
    }

    /// Select a specific set of years, filtering out all others.  A row's
    /// year is its release's reference period start.
    pub fn select_years(&self, years: &Vec<String>) -> (t: Self)
        ensures
            t@ == spec_rows_in_years(self@, crate::ranking::spec_views(years@)),
    {
        let ghost p = |r: CombinedCatalogRow| crate::ranking::spec_views(years@).contains(
            r.release_reference_period_start@,
        );
        let mut rows: Vec<CombinedCatalogRow> = Vec::new();
        let mut i: usize = 0;
        proof {
            reveal(Seq::filter);
            assert(rows@ =~= self.0@.take(0).filter(p));
        }
        while i < self.0.len()
            invariant
                0 <= i <= self.0@.len(),
                p == (|r: CombinedCatalogRow| crate::ranking::spec_views(years@).contains(
                    r.release_reference_period_start@,
                )),
                rows@ == self.0@.take(i as int).filter(p),
            decreases self.0@.len() - i,
        {
            let row = &self.0[i];
            if contains_string(years, &row.release_reference_period_start) {
                rows.push(row.clone());
            }
            proof {
                broadcast use Seq::lemma_filter_push;

                assert(self.0@.take(i as int + 1) =~= self.0@.take(i as int).push(
                    self.0@[i as int],
                ));
            }
            i += 1;
        }
        proof {
            assert(self.0@.take(self.0@.len() as int) =~= self.0@);
        }
        ExpandedMetadataTable(rows)
    }

    /// Return a ranked list of the geometry levels available in the
    /// table: most frequent first, levels with equal row counts in
    /// first-occurrence order.
    pub fn avaliable_geometries(&self) -> (r: Vec<String>)
        ensures
            crate::ranking::spec_views(r@).no_duplicates(),
            r@.len() == crate::ranking::spec_distinct(spec_geometry_views(self@)).len(),
            forall|v: Seq<char>|
                crate::ranking::spec_views(r@).contains(v) <==> spec_geometry_views(
                    self@,
                ).contains(v),
            forall|a: int, b: int|
                0 <= a < b < r@.len() ==> crate::ranking::spec_count(
                    spec_geometry_views(self@),
                    (#[trigger] r@[a])@,
                ) >= crate::ranking::spec_count(spec_geometry_views(self@), (#[trigger] r@[b])@),
            forall|a: int, b: int|
                0 <= a < b < r@.len() && crate::ranking::spec_count(
                    spec_geometry_views(self@),
                    (#[trigger] r@[a])@,
                ) == crate::ranking::spec_count(spec_geometry_views(self@), (#[trigger] r@[b])@)
                    ==> crate::ranking::spec_index_of(
                    crate::ranking::spec_distinct(spec_geometry_views(self@)),
                    r@[a]@,
                ) < crate::ranking::spec_index_of(
                    crate::ranking::spec_distinct(spec_geometry_views(self@)),
                    r@[b]@,
                ),
    {
        let mut levels: Vec<String> = Vec::new();
        let mut i: usize = 0;
        while i < self.0.len()
            invariant
                0 <= i <= self.0@.len(),
                levels@.len() == i,
                forall|q: int| 0 <= q < i ==> (#[trigger] levels@[q])@ == self.0@[q].geometry_level@,
            decreases self.0@.len() - i,
        {
            levels.push(self.0[i].geometry_level.clone());
            i += 1;
        }
        proof {
            assert(crate::ranking::spec_views(levels@) =~= spec_geometry_views(self.0@));
        }
        crate::ranking::ranked_by_frequency(&levels)
    }

    /// Return a ranked list of the years available in the table: most
    /// frequent first, years with equal row counts in first-occurrence
    /// order.  A row's year is its release's reference period start.
    pub fn avaliable_years(&self) -> (r: Vec<String>)
        ensures
            crate::ranking::spec_views(r@).no_duplicates(),
            r@.len() == crate::ranking::spec_distinct(spec_year_views(self@)).len(),
            forall|v: Seq<char>|
                crate::ranking::spec_views(r@).contains(v) <==> spec_year_views(self@).contains(v),
            forall|a: int, b: int|
                0 <= a < b < r@.len() ==> crate::ranking::spec_count(
                    spec_year_views(self@),
                    (#[trigger] r@[a])@,
                ) >= crate::ranking::spec_count(spec_year_views(self@), (#[trigger] r@[b])@),
            forall|a: int, b: int|
                0 <= a < b < r@.len() && crate::ranking::spec_count(
                    spec_year_views(self@),
                    (#[trigger] r@[a])@,
                ) == crate::ranking::spec_count(spec_year_views(self@), (#[trigger] r@[b])@)
                    ==> crate::ranking::spec_index_of(
                    crate::ranking::spec_distinct(spec_year_views(self@)),
                    r@[a]@,
                ) < crate::ranking::spec_index_of(
                    crate::ranking::spec_distinct(spec_year_views(self@)),
                    r@[b]@,
                ),
    {
        let mut years: Vec<String> = Vec::new();
        let mut i: usize = 0;
        while i < self.0.len()
            invariant
                0 <= i <= self.0@.len(),
                years@.len() == i,
                forall|q: int|
                    0 <= q < i ==> (#[trigger] years@[q])@
                        == self.0@[q].release_reference_period_start@,
            decreases self.0@.len() - i,
        {
            years.push(self.0[i].release_reference_period_start.clone());
            i += 1;
        }
        proof {
            assert(crate::ranking::spec_views(years@) =~= spec_year_views(self.0@));
        }
        crate::ranking::ranked_by_frequency(&years)
    }

    /// Get the fully specified metric identifier (the opaque-id variant)
    /// of every row, in row order.
    pub fn get_explicit_metric_ids(&self) -> (r: Vec<MetricId>)
        ensures
            r@ == self@.map_values(|row: CombinedCatalogRow| MetricId::Id(row.id)),
    {
        let ghost f = |row: CombinedCatalogRow| MetricId::Id(row.id);
        let mut ids: Vec<MetricId> = Vec::new();
        let mut i: usize = 0;
        proof {
            assert(ids@ =~= self.0@.take(0).map_values(f));
        }
        while i < self.0.len()
            invariant
                0 <= i <= self.0@.len(),
                f == (|row: CombinedCatalogRow| MetricId::Id(row.id)),
                ids@ == self.0@.take(i as int).map_values(f),
            decreases self.0@.len() - i,
        {
            ids.push(MetricId::Id(self.0[i].id.clone()));
            proof {
                assert(self.0@.take(i as int + 1).map_values(f) =~= self.0@.take(
                    i as int,
                ).map_values(f).push(f(self.0@[i as int])));
            }
            i += 1;
        }
        proof {
            assert(self.0@.take(self.0@.len() as int) =~= self.0@);
        }
        ids
    }

    /// Convert the rows to metric requests: each row names the storage
    /// file (under the configured base path) and the storage column that
    /// hold its metric's values.
    pub fn to_metric_requests(&self, config: &Config) -> (r: Vec<MetricRequest>)
        ensures
            r@.len() == self@.len(),
            forall|q: int|
                0 <= q < self@.len() ==> (#[trigger] r@[q]).column@
                    == self@[q].parquet_column_name@,
            forall|q: int|
                0 <= q < self@.len() ==> (#[trigger] r@[q]).file@ == config.base_path@ + "/"@
                    + self@[q].metric_parquet_path@,
    {
        let mut reqs: Vec<MetricRequest> = Vec::new();
        let mut i: usize = 0;
        while i < self.0.len()
            invariant
                0 <= i <= self.0@.len(),
                reqs@.len() == i,
                forall|q: int|
                    0 <= q < i ==> (#[trigger] reqs@[q]).column@
                        == self.0@[q].parquet_column_name@,
                forall|q: int|
                    0 <= q < i ==> (#[trigger] reqs@[q]).file@ == config.base_path@ + "/"@
                        + self.0@[q].metric_parquet_path@,
            decreases self.0@.len() - i,
        {
            let row = &self.0[i];
            let mut file = config.base_path.clone();
            file.append("/");
            file.append(row.metric_parquet_path.as_str());
            reqs.push(MetricRequest { column: row.parquet_column_name.clone(), file });
            i += 1;
        }
        reqs
    }
}

/// The expansion of a possibly partial identifier against a view: for
/// every row whose target column contains a match of the identifier's
/// text, one concrete identifier of the same kind holding that row's
/// column value, in the view's row order, without deduplication.
pub open spec fn spec_expansion(rows: Seq<CombinedCatalogRow>, id: MetricId) -> Seq<MetricId> {
    rows.filter(|r: CombinedCatalogRow| spec_id_matches(id, r)).map_values(
        |r: CombinedCatalogRow| id.spec_with_value(r.spec_column_value(id.spec_column())),
    )
}

impl MetricId {
    /// An identifier of the same kind as this one, holding the given
    /// text.
    pub fn with_value(&self, value: String) -> (r: MetricId)
        ensures
            r == self.spec_with_value(value),
    {
        match self {
            MetricId::Hxl(_) => MetricId::Hxl(value),
            MetricId::Id(_) => MetricId::Id(value),
            MetricId::CommonName(_) => MetricId::CommonName(value),
        }
    }
}

impl Metadata {
    /// If the identifier's text is a pattern, expand it into the list of
    /// explicit identifiers it matches in the combined view.  Fails
    /// exactly when the text does not compile as a pattern; matching
    /// nothing is not an error and yields an empty list.
    pub fn expand_regex_metric(&self, metric_id: &MetricId) -> (r: Result<
        Vec<MetricId>,
        ResolutionError,
    >)
        ensures
            r is Ok <==> regex_compiles(metric_id.spec_value()),
            r is Ok ==> r->Ok_0@ == spec_expansion(self.spec_combined(), *metric_id),
            r is Err ==> r->Err_0 == ResolutionError::InvalidPattern,
    {
        if regex_is_match(metric_id.to_query_string(), "").is_none() {
            return Err(ResolutionError::InvalidPattern);
        }
        let table = self.combined_metric_source_geometry();
        let ghost p = |r: CombinedCatalogRow| spec_id_matches(*metric_id, r);
        let ghost g = |r: CombinedCatalogRow| metric_id.spec_with_value(
            r.spec_column_value(metric_id.spec_column()),
        );
        let mut out: Vec<MetricId> = Vec::new();
        let mut i: usize = 0;
        proof {
            reveal(Seq::filter);
            assert(out@ =~= table.0@.take(0).filter(p).map_values(g));
        }
        while i < table.0.len()
            invariant
                0 <= i <= table.0@.len(),
                regex_compiles(metric_id.spec_value()),
                p == (|r: CombinedCatalogRow| spec_id_matches(*metric_id, r)),
                g == (|r: CombinedCatalogRow| metric_id.spec_with_value(
                    r.spec_column_value(metric_id.spec_column()),
                )),
                out@ == table.0@.take(i as int).filter(p).map_values(g),
            decreases table.0@.len() - i,
        {
            let row = &table.0[i];
            let m = regex_is_match(
                metric_id.to_query_string(),
                row.column_value(metric_id.column()).as_str(),
            );
            if m.unwrap() {
                out.push(metric_id.with_value(row.column_value(metric_id.column()).clone()));
            }
            proof {
                broadcast use Seq::lemma_filter_push;

                let prefix = table.0@.take(i as int);
                let r0 = table.0@[i as int];
                assert(table.0@.take(i as int + 1) =~= prefix.push(r0));
                if p(r0) {
                    assert(prefix.push(r0).filter(p).map_values(g) =~= prefix.filter(p).map_values(
                        g,
                    ).push(g(r0)));
                } else {
                    assert(prefix.push(r0).filter(p) == prefix.filter(p));
                }
            }
            i += 1;
        }
        proof {
            assert(table.0@.take(table.0@.len() as int) =~= table.0@);
        }
        Ok(out)
    }
}

/// A predicate no row satisfies filters a view down to nothing.
proof fn lemma_filter_rows_none(rows: Seq<CombinedCatalogRow>, p: spec_fn(CombinedCatalogRow) -> bool)
    requires
        forall|k: int| 0 <= k < rows.len() ==> !p(#[trigger] rows[k]),
    ensures
        rows.filter(p).len() == 0,
    decreases rows.len(),
{
    reveal(Seq::filter);
    if rows.len() > 0 {
        assert forall|k: int| 0 <= k < rows.drop_last().len() implies !p(
            #[trigger] rows.drop_last()[k],
        ) by {
            assert(rows.drop_last()[k] == rows[k]);
        }
        lemma_filter_rows_none(rows.drop_last(), p);
        assert(!p(rows[rows.len() - 1]));
    }
}

/// A predicate exactly one row satisfies filters a view down to that row.
proof fn lemma_filter_rows_single(
    rows: Seq<CombinedCatalogRow>,
    p: spec_fn(CombinedCatalogRow) -> bool,
    j: int,
)
    requires
        0 <= j < rows.len(),
        p(rows[j]),
        forall|k: int| 0 <= k < rows.len() && p(#[trigger] rows[k]) ==> k == j,
    ensures
        rows.filter(p) == seq![rows[j]],
    decreases rows.len(),
{
    reveal(Seq::filter);
    if j == rows.len() - 1 {
        assert forall|k: int| 0 <= k < rows.drop_last().len() implies !p(
            #[trigger] rows.drop_last()[k],
        ) by {
            assert(rows.drop_last()[k] == rows[k]);
        }
        lemma_filter_rows_none(rows.drop_last(), p);
        assert(rows.filter(p) =~= seq![rows[j]]);
    } else {
        assert(rows.drop_last()[j] == rows[j]);
        assert forall|k: int|
            0 <= k < rows.drop_last().len() && p(#[trigger] rows.drop_last()[k]) implies k == j by {
            assert(rows.drop_last()[k] == rows[k]);
        }
        lemma_filter_rows_single(rows.drop_last(), p, j);
        assert(!p(rows[rows.len() - 1]));
    }
}

/// LAW (order preservation): expansion follows the view's row order.
/// Extending the view by one row leaves the expansion of the earlier rows
/// unchanged in front and appends the new row's identifier after them
/// exactly when the new row matches; so matching rows expand in view
/// order, without deduplication.
pub proof fn lemma_expansion_preserves_order(
    rows: Seq<CombinedCatalogRow>,
    row: CombinedCatalogRow,
    id: MetricId,
)
    ensures
        spec_id_matches(id, row) ==> spec_expansion(rows.push(row), id) == spec_expansion(
            rows,
            id,
        ).push(id.spec_with_value(row.spec_column_value(id.spec_column()))),
        !spec_id_matches(id, row) ==> spec_expansion(rows.push(row), id) == spec_expansion(
            rows,
            id,
        ),
{
    broadcast use Seq::lemma_filter_push;

    let p = |r: CombinedCatalogRow| spec_id_matches(id, r);
    let g = |r: CombinedCatalogRow| id.spec_with_value(r.spec_column_value(id.spec_column()));
    if p(row) {
        assert(rows.push(row).filter(p).map_values(g) =~= rows.filter(p).map_values(g).push(
            g(row),
        ));
    } else {
        assert(rows.push(row).filter(p) == rows.filter(p));
    }
}

/// LAW (idempotence): expanding a fully qualified identifier — one whose
/// text holds no pattern metacharacter, stands as the exact column value
/// of exactly one row, and is contained in no other row's value — yields
/// a single identifier of the same kind holding the same text.
pub proof fn lemma_expansion_idempotent(rows: Seq<CombinedCatalogRow>, id: MetricId)
    requires
        crate::pattern::is_literal_pattern(id.spec_value()),
        exists|j: int|
            0 <= j < rows.len() && (#[trigger] rows[j]).spec_column_value(id.spec_column())@
                == id.spec_value(),
        forall|j1: int, j2: int|
            (0 <= j1 < rows.len() && 0 <= j2 < rows.len() && (#[trigger] rows[j1]).spec_column_value(
                id.spec_column(),
            )@ == id.spec_value() && (#[trigger] rows[j2]).spec_column_value(id.spec_column())@
                == id.spec_value()) ==> j1 == j2,
        forall|j: int|
            0 <= j < rows.len() && crate::pattern::is_substring(
                id.spec_value(),
                (#[trigger] rows[j]).spec_column_value(id.spec_column())@,
            ) ==> rows[j].spec_column_value(id.spec_column())@ == id.spec_value(),
    ensures
        spec_expansion(rows, id).len() == 1,
        spec_expansion(rows, id)[0].spec_value() == id.spec_value(),
        spec_expansion(rows, id)[0].spec_same_variant(&id),
{
    let p = |r: CombinedCatalogRow| spec_id_matches(id, r);
    let g = |r: CombinedCatalogRow| id.spec_with_value(r.spec_column_value(id.spec_column()));
    let j = choose|j: int|
        0 <= j < rows.len() && (#[trigger] rows[j]).spec_column_value(id.spec_column())@
            == id.spec_value();
    crate::pattern::lemma_substring_self(id.spec_value());
    assert(p(rows[j]));
    assert forall|k: int| 0 <= k < rows.len() && p(#[trigger] rows[k]) implies k == j by {
        assert(crate::pattern::is_substring(
            id.spec_value(),
            rows[k].spec_column_value(id.spec_column())@,
        ));
        assert(rows[k].spec_column_value(id.spec_column())@ == id.spec_value());
    }
    lemma_filter_rows_single(rows, p, j);
    assert(spec_expansion(rows, id) =~= seq![g(rows[j])]);
}

/// The first geometry with the given level.
pub open spec fn spec_find_geometry_by_level(gs: Seq<GeometryRecord>, level: Seq<char>) -> Option<
    GeometryRecord,
>
    decreases gs.len(),
{
    if gs.len() == 0 {
        None
    } else if gs[0].level@ == level {
        Some(gs[0])
    } else {
        spec_find_geometry_by_level(gs.drop_first(), level)
    }
}

impl Metadata {
    /// Return a list of metric requests for the given identifiers: the
    /// storage file and column of every combined-view row any identifier
    /// matches.  Fails exactly when some identifier's text does not
    /// compile as a pattern.
    pub fn get_metric_requests(&self, metric_ids: Vec<MetricId>, config: &Config) -> (r: Result<
        Vec<MetricRequest>,
        ResolutionError,
    >)
        ensures
            r is Ok <==> spec_ids_valid(metric_ids@),
            r is Err ==> r->Err_0 == ResolutionError::InvalidPattern,
            r is Ok ==> r->Ok_0@.len() == spec_candidate_rows(
                self.spec_combined(),
                metric_ids@,
            ).len(),
            r is Ok ==> forall|q: int|
                0 <= q < r->Ok_0@.len() ==> (#[trigger] r->Ok_0@[q]).column@
                    == spec_candidate_rows(self.spec_combined(), metric_ids@)[q].parquet_column_name@,
            r is Ok ==> forall|q: int|
                0 <= q < r->Ok_0@.len() ==> (#[trigger] r->Ok_0@[q]).file@ == config.base_path@
                    + "/"@ + spec_candidate_rows(
                    self.spec_combined(),
                    metric_ids@,
                )[q].metric_parquet_path@,
    {
        let table = self.combined_metric_source_geometry();
        match table.select_metrics(&metric_ids) {
            Err(e) => Err(e),
            Ok(selected) => Ok(selected.to_metric_requests(config)),
        }
    }

    /// Given a geometry level, return the path of the geometry file it
    /// corresponds to: the first matching geometry's filename stem under
    /// the configured base path.
    pub fn get_geom_details(&self, geom_level: &str, config: &Config) -> (r: String)
        requires
            exists|j: int|
                0 <= j < self.geometries@.len() && (#[trigger] self.geometries@[j]).level@
                    == geom_level@,
        ensures
            spec_find_geometry_by_level(self.geometries@, geom_level@) is Some,
            r@ == config.base_path@ + "/"@ + spec_find_geometry_by_level(
                self.geometries@,
                geom_level@,
            )->0.filename_stem@ + ".fgb"@,
    {
        let level = String::from_str(geom_level);
        let mut j: usize = 0;
        proof {
            assert(self.geometries@.skip(0) =~= self.geometries@);
        }
        while j < self.geometries.len()
            invariant
                0 <= j <= self.geometries@.len(),
                level@ == geom_level@,
                spec_find_geometry_by_level(self.geometries@, geom_level@)
                    == spec_find_geometry_by_level(self.geometries@.skip(j as int), geom_level@),
            decreases self.geometries@.len() - j,
        {
            proof {
                assert(self.geometries@.skip(j as int)[0] == self.geometries@[j as int]);
                assert(self.geometries@.skip(j as int).drop_first() =~= self.geometries@.skip(
                    j as int + 1,
                ));
            }
            if self.geometries[j].level == level {
                let mut file = config.base_path.clone();
                file.append("/");
                file.append(self.geometries[j].filename_stem.as_str());
                file.append(".fgb");
                return file;
            }
            j += 1;
        }
        proof {
            assert(self.geometries@.skip(self.geometries@.len() as int).len() == 0);
            lemma_find_level_some(self.geometries@, geom_level@);
            assert(false);
        }
        String::new()
    }
}

/// A level that some geometry carries is found.
proof fn lemma_find_level_some(gs: Seq<GeometryRecord>, level: Seq<char>)
    requires
        exists|j: int| 0 <= j < gs.len() && (#[trigger] gs[j]).level@ == level,
    ensures
        spec_find_geometry_by_level(gs, level) is Some,
    decreases gs.len(),
{
    let j = choose|j: int| 0 <= j < gs.len() && (#[trigger] gs[j]).level@ == level;
    if gs[0].level@ != level {
        assert(gs.drop_first()[j - 1] == gs[j]);
        lemma_find_level_some(gs.drop_first(), level);
    }
}

/// Whether the list holds the given string.
fn contains_string(vals: &Vec<String>, v: &String) -> (b: bool)
    ensures
        b == crate::ranking::spec_views(vals@).contains(v@),
{
    let mut j: usize = 0;
    while j < vals.len()
        invariant
            0 <= j <= vals@.len(),
            forall|k: int| 0 <= k < j ==> (#[trigger] vals@[k])@ != v@,
        decreases vals@.len() - j,
    {
        if vals[j] == *v {
            proof {
                assert(crate::ranking::spec_views(vals@)[j as int] == v@);
            }
            return true;
        }
        j += 1;
    }
    proof {
        if crate::ranking::spec_views(vals@).contains(v@) {
            let k = choose|k: int|
                0 <= k < crate::ranking::spec_views(vals@).len() && crate::ranking::spec_views(
                    vals@,
                )[k] == v@;
            assert(vals@[k]@ == v@);
        }
    }
    false
}

/// The members of `parts`, joined by commas.
pub open spec fn spec_join_comma(parts: Seq<Seq<char>>) -> Seq<char>
    decreases parts.len(),
{
    if parts.len() == 0 {
        Seq::empty()
    } else if parts.len() == 1 {
        parts[0]
    } else {
        spec_join_comma(parts.drop_last()) + ","@ + parts.last()
    }
}

/// Joins the members of `vals` from `start` on with commas.
fn join_comma(vals: &Vec<String>, start: usize) -> (r: String)
    requires
        start <= vals@.len(),
    ensures
        r@ == spec_join_comma(crate::ranking::spec_views(vals@).skip(start as int)),
{
    let ghost views = crate::ranking::spec_views(vals@).skip(start as int);
    let mut acc = String::new();
    let mut j: usize = start;
    proof {
        assert(views.take(0) =~= Seq::<Seq<char>>::empty());
    }
    while j < vals.len()
        invariant
            start <= j <= vals@.len(),
            views == crate::ranking::spec_views(vals@).skip(start as int),
            acc@ == spec_join_comma(views.take(j as int - start as int)),
        decreases vals@.len() - j,
    {
        if j > start {
            acc.append(",");
        }
        acc.append(vals[j].as_str());
        proof {
            let t = views.take(j as int - start as int + 1);
            assert(t.drop_last() =~= views.take(j as int - start as int));
            assert(t.last() == vals@[j as int]@);
        }
        j += 1;
    }
    proof {
        assert(views.take(views.len() as int) =~= views);
    }
    acc
}

/// The advisory note naming the chosen geometry level and the remaining
/// ranked levels.
pub open spec fn spec_geometry_note(chosen: Seq<char>, rest: Seq<Seq<char>>) -> Seq<char> {
    "Selecting geometry level "@ + chosen
        + ". The requested metrics are also available at the following levels: "@
        + spec_join_comma(rest)
}

/// The advisory note naming the chosen year and the remaining ranked
/// years.
pub open spec fn spec_year_note(chosen: Seq<char>, rest: Seq<Seq<char>>) -> Seq<char> {
    "Selecting year "@ + chosen
        + ". The requested metrics are also available for the following years: "@
        + spec_join_comma(rest)
}

/// The geometry note a ranking gives rise to: none unless the ranking
/// offers an alternative beyond the chosen top one.
pub open spec fn spec_geometry_note_opt(ranked: Seq<Seq<char>>) -> Option<Seq<char>> {
    if ranked.len() > 1 {
        Some(spec_geometry_note(ranked[0], ranked.skip(1)))
    } else {
        None
    }
}

/// The year note a ranking gives rise to: none unless the ranking offers
/// an alternative beyond the chosen top one.
pub open spec fn spec_year_note_opt(ranked: Seq<Seq<char>>) -> Option<Seq<char>> {
    if ranked.len() > 1 {
        Some(spec_year_note(ranked[0], ranked.skip(1)))
    } else {
        None
    }
}

/// The advisory text of a plan: the notes that were generated, joined by
/// line breaks; empty when none was.
pub open spec fn spec_advice(g: Option<Seq<char>>, y: Option<Seq<char>>) -> Seq<char> {
    match (g, y) {
        (None, None) => Seq::empty(),
        (Some(gn), None) => gn,
        (None, Some(yn)) => yn,
        (Some(gn), Some(yn)) => gn + "\n"@ + yn,
    }
}

/// Whether `top` is the top-ranked member of `views`: it occurs, nothing
/// occurs more often, and among the most frequent it is the first
/// encountered.
pub open spec fn spec_top_ranked(views: Seq<Seq<char>>, top: Seq<char>) -> bool {
    &&& views.contains(top)
    &&& forall|v: Seq<char>|
        views.contains(v) ==> #[trigger] crate::ranking::spec_count(views, v)
            <= crate::ranking::spec_count(views, top)
    &&& forall|v: Seq<char>|
        views.contains(v) && #[trigger] crate::ranking::spec_count(views, v)
            == crate::ranking::spec_count(views, top) ==> crate::ranking::spec_index_of(
            crate::ranking::spec_distinct(views),
            top,
        ) <= crate::ranking::spec_index_of(crate::ranking::spec_distinct(views), v)
}

/// Whether `ranked` is the frequency ranking of `views`: the distinct
/// members, ordered by descending count, members with equal counts in
/// first-occurrence order.
pub open spec fn spec_ranking_of(views: Seq<Seq<char>>, ranked: Seq<Seq<char>>) -> bool {
    &&& ranked.no_duplicates()
    &&& ranked.len() == crate::ranking::spec_distinct(views).len()
    &&& forall|v: Seq<char>| #[trigger] ranked.contains(v) <==> views.contains(v)
    &&& forall|a: int, b: int|
        0 <= a < b < ranked.len() ==> crate::ranking::spec_count(views, #[trigger] ranked[a])
            >= crate::ranking::spec_count(views, #[trigger] ranked[b])
    &&& forall|a: int, b: int|
        0 <= a < b < ranked.len() && crate::ranking::spec_count(views, #[trigger] ranked[a])
            == crate::ranking::spec_count(views, #[trigger] ranked[b])
            ==> crate::ranking::spec_index_of(crate::ranking::spec_distinct(views), ranked[a])
            < crate::ranking::spec_index_of(crate::ranking::spec_distinct(views), ranked[b])
}

/// Describes a fully specified selection plan.  The metric identifiers
/// are all of the opaque-id variant; geometry and years are resolved.
/// The advice names alternative options the caller should be aware of.
#[derive(Debug)]
pub struct FullSelectionPlan {
    pub explicit_metric_ids: Vec<MetricId>,
    pub geometry: String,
    pub year: Vec<String>,
    pub advice: String,
}

/// The top member of a frequency ranking is top-ranked among the views.
proof fn lemma_ranking_top(views: Seq<Seq<char>>, ranked: Seq<Seq<char>>)
    requires
        spec_ranking_of(views, ranked),
        ranked.len() > 0,
    ensures
        spec_top_ranked(views, ranked[0]),
{
    assert(ranked.contains(ranked[0]));
    assert forall|v: Seq<char>| views.contains(v) implies #[trigger] crate::ranking::spec_count(
        views,
        v,
    ) <= crate::ranking::spec_count(views, ranked[0]) by {
        assert(ranked.contains(v));
        let q = choose|q: int| 0 <= q < ranked.len() && ranked[q] == v;
        if q > 0 {
            assert(crate::ranking::spec_count(views, ranked[0]) >= crate::ranking::spec_count(
                views,
                ranked[q],
            ));
        }
    }
    assert forall|v: Seq<char>|
        views.contains(v) && #[trigger] crate::ranking::spec_count(views, v)
            == crate::ranking::spec_count(views, ranked[0]) implies crate::ranking::spec_index_of(
        crate::ranking::spec_distinct(views),
        ranked[0],
    ) <= crate::ranking::spec_index_of(crate::ranking::spec_distinct(views), v) by {
        assert(ranked.contains(v));
        let q = choose|q: int| 0 <= q < ranked.len() && ranked[q] == v;
        if q > 0 {
            assert(crate::ranking::spec_index_of(crate::ranking::spec_distinct(views), ranked[0])
                < crate::ranking::spec_index_of(crate::ranking::spec_distinct(views), ranked[q]));
        }
    }
}

impl Metadata {
    /// Generates a fully specified selection plan from a partially
    /// specified request, with deterministic fallbacks where geometry or
    /// years were not given: the unspecified dimension takes the value
    /// carried by the most candidate rows, ties broken by first
    /// encounter, and the advice names the alternatives not chosen.
    #[verifier::rlimit(100)]
    pub fn generate_selection_plan(
        &self,
        metrics: &Vec<MetricId>,
        geometry: &crate::data_request_spec::GeometrySpec,
        years: &Option<Vec<String>>,
    ) -> (r: Result<FullSelectionPlan, SelectionError>)
        ensures
            (r is Err && r->Err_0 == SelectionError::InvalidPattern) <==> !spec_ids_valid(
                metrics@,
            ),
            (r is Err && r->Err_0 == SelectionError::NoGeometryAvailable) <==> (spec_ids_valid(
                metrics@,
            ) && geometry.geometry_level is None && spec_candidate_rows(
                self.spec_combined(),
                metrics@,
            ).len() == 0),
            (r is Err && r->Err_0 == SelectionError::NoRowsAfterGeometryFilter) <==> (
            spec_ids_valid(metrics@) && (geometry.geometry_level matches Some(gl) && spec_rows_at(
                spec_candidate_rows(self.spec_combined(), metrics@),
                gl@,
            ).len() == 0)),
            r matches Ok(plan) ==> {
                let cands = spec_candidate_rows(self.spec_combined(), metrics@);
                let at = spec_rows_at(cands, plan.geometry@);
                &&& spec_ids_valid(metrics@)
                &&& (match geometry.geometry_level {
                    Some(gl) => plan.geometry@ == gl@,
                    None => spec_top_ranked(spec_geometry_views(cands), plan.geometry@),
                })
                &&& at.len() > 0
                &&& plan.explicit_metric_ids@ == at.map_values(
                    |row: CombinedCatalogRow| MetricId::Id(row.id),
                )
                &&& (match *years {
                    Some(ys) => plan.year@ == ys@,
                    None => plan.year@.len() == 1 && spec_top_ranked(
                        spec_year_views(at),
                        plan.year@[0]@,
                    ),
                })
            },
            r matches Ok(plan) ==> (geometry.geometry_level is Some && *years is Some
                ==> plan.advice@ == Seq::<char>::empty()),
            r matches Ok(plan) ==> (geometry.geometry_level is Some && *years is None ==> exists|
                yr: Seq<Seq<char>>,
            |
                #![trigger spec_year_note_opt(yr)]
                spec_ranking_of(
                    spec_year_views(
                        spec_rows_at(
                            spec_candidate_rows(self.spec_combined(), metrics@),
                            plan.geometry@,
                        ),
                    ),
                    yr,
                ) && plan.advice@ == spec_advice(None, spec_year_note_opt(yr))),
            r matches Ok(plan) ==> (geometry.geometry_level is None && *years is Some ==> exists|
                gr: Seq<Seq<char>>,
            |
                #![trigger spec_geometry_note_opt(gr)]
                spec_ranking_of(
                    spec_geometry_views(spec_candidate_rows(self.spec_combined(), metrics@)),
                    gr,
                ) && plan.geometry@ == gr[0] && plan.advice@ == spec_advice(
                    spec_geometry_note_opt(gr),
                    None,
                )),
            r matches Ok(plan) ==> (geometry.geometry_level is None && *years is None ==> exists|
                gr: Seq<Seq<char>>,
                yr: Seq<Seq<char>>,
            |
                #![trigger spec_geometry_note_opt(gr), spec_year_note_opt(yr)]
                spec_ranking_of(
                    spec_geometry_views(spec_candidate_rows(self.spec_combined(), metrics@)),
                    gr,
                ) && spec_ranking_of(
                    spec_year_views(
                        spec_rows_at(
                            spec_candidate_rows(self.spec_combined(), metrics@),
                            plan.geometry@,
                        ),
                    ),
                    yr,
                ) && plan.geometry@ == gr[0] && plan.year@[0]@ == yr[0] && plan.advice@
                    == spec_advice(spec_geometry_note_opt(gr), spec_year_note_opt(yr))),
    {
        let table = self.combined_metric_source_geometry();
        let possible = match table.select_metrics(metrics) {
            Ok(t) => t,
            Err(_) => {
                return Err(SelectionError::InvalidPattern);
            },
        };
        let ghost cands = spec_candidate_rows(self.spec_combined(), metrics@);
        let ghost mut g_ranked: Seq<Seq<char>> = Seq::empty();
        let (selected_geometry, geom_note): (String, Option<String>) = match &geometry
            .geometry_level {
            Some(g) => (g.clone(), None),
            None => {
                let ranked = possible.avaliable_geometries();
                proof {
                    g_ranked = crate::ranking::spec_views(ranked@);
                    assert(spec_ranking_of(spec_geometry_views(cands), g_ranked)) by {
                        assert forall|a: int| 0 <= a < ranked@.len() implies g_ranked[a]
                            == (#[trigger] ranked@[a])@ by {}
                    }
                }
                if ranked.len() == 0 {
                    proof {
                        // No level is available exactly when there is no
                        // candidate row at all.
                        if cands.len() > 0 {
                            let gv = spec_geometry_views(cands);
                            assert(gv.contains(gv[0]));
                            assert(g_ranked.contains(gv[0]));
                        }
                    }
                    return Err(SelectionError::NoGeometryAvailable);
                }
                let chosen = ranked[0].clone();
                proof {
                    lemma_ranking_top(spec_geometry_views(cands), g_ranked);
                    assert(chosen@ == g_ranked[0]);
                }
                let note: Option<String> = if ranked.len() > 1 {
                    let mut n = String::from_str("Selecting geometry level ");
                    n.append(chosen.as_str());
                    n.append(
                        ". The requested metrics are also available at the following levels: ",
                    );
                    let rest = join_comma(&ranked, 1);
                    n.append(rest.as_str());
                    proof {
                        assert(g_ranked.skip(1) =~= crate::ranking::spec_views(ranked@).skip(1));
                        assert(n@ == spec_geometry_note(g_ranked[0], g_ranked.skip(1)));
                    }
                    Some(n)
                } else {
                    None
                };
                (chosen, note)
            },
        };
        let at_level = possible.select_geometry(selected_geometry.as_str());
        if at_level.0.len() == 0 {
            proof {
                if geometry.geometry_level is None {
                    // The chosen level came from the candidate rows, so at
                    // least one candidate row carries it.
                    broadcast use Seq::lemma_filter_contains;

                    let gv = spec_geometry_views(cands);
                    assert(gv.contains(selected_geometry@));
                    let q = choose|q: int| 0 <= q < gv.len() && gv[q] == selected_geometry@;
                    assert(cands[q].geometry_level@ == selected_geometry@);
                    let p = |row: CombinedCatalogRow| row.geometry_level@ == selected_geometry@;
                    assert(p(cands[q]));
                    assert(cands.filter(p).contains(cands[q]));
                    assert(false);
                }
            }
            return Err(SelectionError::NoRowsAfterGeometryFilter);
        }
        let ghost at = spec_rows_at(cands, selected_geometry@);
        let ghost mut y_ranked: Seq<Seq<char>> = Seq::empty();
        let (selected_years, year_note): (Vec<String>, Option<String>) = match years {
            Some(ys) => {
                let c = ys.clone();
                proof {
                    assert(c@ =~= ys@);
                }
                (c, None)
            },
            None => {
                let yranked = at_level.avaliable_years();
                proof {
                    y_ranked = crate::ranking::spec_views(yranked@);
                    assert(spec_ranking_of(spec_year_views(at), y_ranked)) by {
                        assert forall|a: int| 0 <= a < yranked@.len() implies y_ranked[a]
                            == (#[trigger] yranked@[a])@ by {}
                    }
                    // At least one row is left, so at least one year is
                    // available.
                    let yv = spec_year_views(at);
                    assert(yv.contains(yv[0]));
                    assert(y_ranked.contains(yv[0]));
                    assert(yranked@.len() > 0);
                }
                let chosen_y = yranked[0].clone();
                proof {
                    lemma_ranking_top(spec_year_views(at), y_ranked);
                    assert(chosen_y@ == y_ranked[0]);
                }
                let note: Option<String> = if yranked.len() > 1 {
                    let mut n = String::from_str("Selecting year ");
                    n.append(chosen_y.as_str());
                    n.append(
                        ". The requested metrics are also available for the following years: ",
                    );
                    let rest = join_comma(&yranked, 1);
                    n.append(rest.as_str());
                    proof {
                        assert(y_ranked.skip(1) =~= crate::ranking::spec_views(yranked@).skip(1));
                        assert(n@ == spec_year_note(y_ranked[0], y_ranked.skip(1)));
                    }
                    Some(n)
                } else {
                    None
                };
                let mut ys_v: Vec<String> = Vec::new();
                ys_v.push(chosen_y);
                (ys_v, note)
            },
        };
        let ids = at_level.get_explicit_metric_ids();
        let advice: String = match (&geom_note, &year_note) {
            (None, None) => String::new(),
            (Some(g), None) => g.clone(),
            (None, Some(y)) => y.clone(),
            (Some(g), Some(y)) => {
                let mut a = g.clone();
                a.append("\n");
                a.append(y.as_str());
                a
            },
        };
        proof {
            assert(at_level@ == spec_rows_at(cands, selected_geometry@));
            if geometry.geometry_level is Some && *years is None {
                assert(spec_ranking_of(
                    spec_year_views(spec_rows_at(cands, selected_geometry@)),
                    y_ranked,
                ));
                assert(advice@ == spec_advice(None, spec_year_note_opt(y_ranked)));
            }
            if geometry.geometry_level is None && *years is Some {
                assert(spec_ranking_of(spec_geometry_views(cands), g_ranked));
                assert(selected_geometry@ == g_ranked[0]);
                assert(advice@ == spec_advice(spec_geometry_note_opt(g_ranked), None));
            }
            if geometry.geometry_level is None && *years is None {
                assert(spec_ranking_of(spec_geometry_views(cands), g_ranked));
                assert(spec_ranking_of(
                    spec_year_views(spec_rows_at(cands, selected_geometry@)),
                    y_ranked,
                ));
                assert(selected_geometry@ == g_ranked[0]);
                assert(selected_years@[0]@ == y_ranked[0]);
                assert(advice@ == spec_advice(
                    spec_geometry_note_opt(g_ranked),
                    spec_year_note_opt(y_ranked),
                ));
            }
        }
        Ok(
            FullSelectionPlan {
                explicit_metric_ids: ids,
                geometry: selected_geometry,
                year: selected_years,
                advice,
            },
        )
    }
}

} // verus!
