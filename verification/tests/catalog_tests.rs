use popgetter::metadata::{merge_all, CatalogError, Metadata, MetricId, ResolutionError};
use popgetter::records::{
    CountryRecord, DataPublisherRecord, GeometryRecord, MetricRecord, SourceDataReleaseRecord,
};

fn metric(id: &str, hxl: &str, name: &str, release: &str) -> MetricRecord {
    MetricRecord {
        id: id.to_string(),
        hxl_tag: hxl.to_string(),
        human_readable_name: name.to_string(),
        description: format!("description of {name}"),
        source_metric_id: format!("table_of_{id}"),
        country: "bel".to_string(),
        source_data_release_id: release.to_string(),
        metric_parquet_path: format!("{id}.parquet"),
        parquet_column_name: format!("col_{id}"),
        parquet_margin_of_error_column: None,
        parent_metric_id: None,
    }
}

fn geometry(id: &str, level: &str) -> GeometryRecord {
    GeometryRecord {
        id: id.to_string(),
        level: level.to_string(),
        hxl_tag: format!("#geo+{level}"),
        filename_stem: format!("{level}_geoms"),
        validity_period_start: "2020-01-01".to_string(),
        validity_period_end: "2030-01-01".to_string(),
    }
}

fn release(id: &str, name: &str, geometry_id: &str, publisher_id: &str, year: &str) -> SourceDataReleaseRecord {
    SourceDataReleaseRecord {
        id: id.to_string(),
        name: name.to_string(),
        url: format!("https://example.org/{id}"),
        description: format!("release {name}"),
        geometry_metadata_id: geometry_id.to_string(),
        data_publisher_id: publisher_id.to_string(),
        date_published: format!("{year}-06-01"),
        reference_period_start: year.to_string(),
        reference_period_end: year.to_string(),
        collection_period_start: year.to_string(),
        collection_period_end: year.to_string(),
        expect_next_update: "".to_string(),
    }
}

fn publisher(id: &str, name: &str) -> DataPublisherRecord {
    DataPublisherRecord {
        id: id.to_string(),
        name: name.to_string(),
        url: format!("https://example.org/publisher/{id}"),
        description: format!("publisher {name}"),
    }
}

fn bel_catalog() -> Metadata {
    Metadata {
        metrics: vec![
            metric("m1", "#population+adm5+total+2023", "Population, total, 2023", "r1"),
            metric("m2", "#households+adm4+total+2023", "Households, total, 2023", "r1"),
        ],
        geometries: vec![geometry("g1", "adm5")],
        source_data_releases: vec![release("r1", "census2023", "g1", "p1", "2023")],
        data_publishers: vec![publisher("p1", "StatBel")],
        countries: vec![CountryRecord { id: "bel".to_string(), name: "Belgium".to_string() }],
    }
}

#[test]
fn combined_view_joins_and_renames_columns() {
    let metadata = bel_catalog();
    let table = metadata.combined_metric_source_geometry();
    let rows = table.as_df();
    assert_eq!(rows.len(), 2);
    let row = &rows[0];
    assert_eq!(row.id, "m1");
    assert_eq!(row.hxl_tag, "#population+adm5+total+2023");
    assert_eq!(row.human_readable_name, "Population, total, 2023");
    assert_eq!(row.country, "bel");
    assert_eq!(row.release_id, "r1");
    assert_eq!(row.release_name, "census2023");
    assert_eq!(row.release_reference_period_start, "2023");
    assert_eq!(row.geometry_id, "g1");
    assert_eq!(row.geometry_level, "adm5");
    assert_eq!(row.geometry_filename_stem, "adm5_geoms");
    assert_eq!(row.data_publisher_id, "p1");
    assert_eq!(row.data_publisher_name, "StatBel");
}

#[test]
fn join_drops_metric_rows_with_unmatched_references() {
    let mut metadata = bel_catalog();
    metadata.metrics.push(metric("m3", "#pop+m3", "Dangling release", "no_such_release"));
    let table = metadata.combined_metric_source_geometry();
    // One metric row's reference has no match: the view shrinks by
    // exactly that one row, and the dangling row is absent.
    assert_eq!(metadata.metrics.len(), 3);
    assert_eq!(table.0.len(), 2);
    assert!(table.0.iter().all(|r| r.id != "m3"));
}

#[test]
fn join_drops_rows_with_unmatched_geometry_or_publisher() {
    let mut metadata = bel_catalog();
    metadata
        .source_data_releases
        .push(release("r2", "broken_geom", "no_such_geometry", "p1", "2023"));
    metadata
        .source_data_releases
        .push(release("r3", "broken_pub", "g1", "no_such_publisher", "2023"));
    metadata.metrics.push(metric("m3", "#pop+m3", "Via broken geometry", "r2"));
    metadata.metrics.push(metric("m4", "#pop+m4", "Via broken publisher", "r3"));
    let table = metadata.combined_metric_source_geometry();
    assert_eq!(table.0.len(), 2);
}

#[test]
fn combined_checked_reports_missing_join_target() {
    let mut metadata = bel_catalog();
    metadata.metrics.push(metric("m3", "#pop+m3", "Dangling release", "no_such_release"));
    match metadata.combined_checked(true) {
        Err(e) => assert_eq!(e, CatalogError::MissingJoinTarget),
        Ok(_) => panic!("a dropped row must be refused under the expectation"),
    }
    // Without the expectation the shrunk view is returned.
    let table = metadata.combined_checked(false).unwrap();
    assert_eq!(table.0.len(), 2);
    // With the expectation and clean data the full view is returned.
    let clean = bel_catalog();
    let table = clean.combined_checked(true).unwrap();
    assert_eq!(table.0.len(), 2);
}

#[test]
fn merge_all_concatenates_tables_in_order() {
    let bel = bel_catalog();
    let mut npl = bel_catalog();
    npl.metrics = vec![metric("n1", "#population+adm1", "Population adm1", "r9")];
    npl.geometries = vec![geometry("g9", "adm1")];
    npl.source_data_releases = vec![release("r9", "npl2021", "g9", "p9", "2021")];
    npl.data_publishers = vec![publisher("p9", "CBS")];
    npl.countries = vec![CountryRecord { id: "npl".to_string(), name: "Nepal".to_string() }];
    let merged = merge_all(vec![bel, npl]);
    assert_eq!(merged.metrics.len(), 3);
    assert_eq!(merged.metrics[0].id, "m1");
    assert_eq!(merged.metrics[1].id, "m2");
    assert_eq!(merged.metrics[2].id, "n1");
    assert_eq!(merged.geometries.len(), 2);
    assert_eq!(merged.source_data_releases.len(), 2);
    assert_eq!(merged.data_publishers.len(), 2);
    assert_eq!(merged.countries.len(), 2);
    assert_eq!(merged.countries[1].name, "Nepal");
}

#[test]
fn metric_ids_expand_from_partial_patterns() {
    let metadata = bel_catalog();
    let expanded = metadata
        .expand_regex_metric(&MetricId::Hxl(r"population\+adm5".to_string()))
        .expect("Should successfully expand metrics");
    assert_eq!(expanded.len(), 1, "should return the correct number of metrics");
    assert_eq!(
        expanded[0],
        MetricId::Hxl("#population+adm5+total+2023".to_string()),
        "should get the correct metrics"
    );
}

#[test]
fn human_readable_metric_ids_expand_from_partial_text() {
    let metadata = bel_catalog();
    let expanded = metadata
        .expand_regex_metric(&MetricId::CommonName("Population, total".to_string()))
        .expect("Should successfully expand metrics");
    assert_eq!(expanded.len(), 1, "should return the correct number of metrics");
    assert_eq!(
        expanded[0],
        MetricId::CommonName("Population, total, 2023".to_string()),
        "should get the correct metrics"
    );
}

#[test]
fn fully_defined_metric_ids_expand_to_themselves() {
    let metadata = bel_catalog();
    let expanded = metadata
        .expand_regex_metric(&MetricId::Hxl(r"#population\+adm5\+total\+2023".to_string()))
        .expect("Should successfully expand metrics");
    assert_eq!(expanded.len(), 1, "should return the correct number of metrics");
    assert_eq!(
        expanded[0],
        MetricId::Hxl("#population+adm5+total+2023".to_string()),
        "should get the correct metrics"
    );
}

#[test]
fn fully_qualified_plain_id_expands_to_itself() {
    // An exact identifier without metacharacters is a degenerate pattern
    // matching only itself.
    let metadata = bel_catalog();
    let expanded = metadata.expand_regex_metric(&MetricId::Id("m1".to_string())).unwrap();
    assert_eq!(expanded, vec![MetricId::Id("m1".to_string())]);
}

#[test]
fn expansion_preserves_view_row_order() {
    let mut metadata = bel_catalog();
    metadata.metrics = vec![
        metric("m1", "#pop+f", "Population, female", "r1"),
        metric("m2", "#pop+m", "Population, male", "r1"),
        metric("m3", "#households", "Households", "r1"),
    ];
    let expanded = metadata.expand_regex_metric(&MetricId::Hxl("#pop.*".to_string())).unwrap();
    assert_eq!(
        expanded,
        vec![MetricId::Hxl("#pop+f".to_string()), MetricId::Hxl("#pop+m".to_string())]
    );
}

#[test]
fn expansion_matching_nothing_is_empty_not_an_error() {
    let metadata = bel_catalog();
    let expanded = metadata.expand_regex_metric(&MetricId::Hxl("#nothing".to_string())).unwrap();
    assert!(expanded.is_empty());
}

#[test]
fn expansion_rejects_invalid_patterns() {
    let metadata = bel_catalog();
    let err = metadata
        .expand_regex_metric(&MetricId::Hxl("([".to_string()))
        .expect_err("an unclosed group is not a pattern");
    assert_eq!(err, ResolutionError::InvalidPattern);
}

#[test]
fn metric_id_column_names_and_query_strings() {
    let hxl = MetricId::Hxl("#pop".to_string());
    let id = MetricId::Id("m1".to_string());
    let name = MetricId::CommonName("Population".to_string());
    assert_eq!(hxl.to_col_name(), "hxl_tag");
    assert_eq!(id.to_col_name(), "id");
    assert_eq!(name.to_col_name(), "human_readable_name");
    assert_eq!(hxl.to_query_string(), "#pop");
    assert_eq!(id.to_query_string(), "m1");
    assert_eq!(name.to_query_string(), "Population");
}
