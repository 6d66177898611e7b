use popgetter::config::Config;
use popgetter::data_request_spec::GeometrySpec;
use popgetter::entities::GeographicEntity;
use popgetter::metadata::{
    CountryMetadataLoader, CountryMetadataPaths, Metadata, MetricId, SelectionError,
};
use popgetter::records::{
    CountryRecord, DataPublisherRecord, GeometryRecord, MetricRecord, SourceDataReleaseRecord,
};

fn metric(id: &str, hxl: &str, name: &str, release: &str) -> MetricRecord {
    MetricRecord {
        id: id.to_string(),
        hxl_tag: hxl.to_string(),
        human_readable_name: name.to_string(),
        description: format!("all about {name}"),
        source_metric_id: format!("table_of_{id}"),
        country: "bel".to_string(),
        source_data_release_id: release.to_string(),
        metric_parquet_path: format!("{id}.parquet"),
        parquet_column_name: format!("col_{id}"),
        parquet_margin_of_error_column: None,
        parent_metric_id: None,
    }
}

fn geometry(id: &str, level: &str) -> GeometryRecord {
    GeometryRecord {
        id: id.to_string(),
        level: level.to_string(),
        hxl_tag: format!("#geo+{level}"),
        filename_stem: format!("{level}_geoms"),
        validity_period_start: "2020-01-01".to_string(),
        validity_period_end: "2030-01-01".to_string(),
    }
}

fn release(id: &str, geometry_id: &str, year: &str) -> SourceDataReleaseRecord {
    SourceDataReleaseRecord {
        id: id.to_string(),
        name: format!("release {id}"),
        url: format!("https://example.org/{id}"),
        description: format!("release {id}"),
        geometry_metadata_id: geometry_id.to_string(),
        data_publisher_id: "p1".to_string(),
        date_published: format!("{year}-06-01"),
        reference_period_start: year.to_string(),
        reference_period_end: year.to_string(),
        collection_period_start: year.to_string(),
        collection_period_end: year.to_string(),
        expect_next_update: "".to_string(),
    }
}

fn base_tables() -> (Vec<GeometryRecord>, Vec<DataPublisherRecord>, Vec<CountryRecord>) {
    (
        vec![geometry("gA", "A"), geometry("gB", "B"), geometry("gC", "C")],
        vec![DataPublisherRecord {
            id: "p1".to_string(),
            name: "StatOffice".to_string(),
            url: "https://example.org/p1".to_string(),
            description: "the statistics office".to_string(),
        }],
        vec![CountryRecord { id: "bel".to_string(), name: "Belgium".to_string() }],
    )
}

/// Eleven metrics: five at geometry level A, three at B, three at C, all
/// in year 2021.
fn three_level_catalog() -> Metadata {
    let (geometries, data_publishers, countries) = base_tables();
    let mut metrics = Vec::new();
    for i in 0..5 {
        metrics.push(metric(&format!("a{i}"), &format!("#pop+a{i}"), "Population", "rA"));
    }
    for i in 0..3 {
        metrics.push(metric(&format!("b{i}"), &format!("#pop+b{i}"), "Population", "rB"));
    }
    for i in 0..3 {
        metrics.push(metric(&format!("c{i}"), &format!("#pop+c{i}"), "Population", "rC"));
    }
    Metadata {
        metrics,
        geometries,
        source_data_releases: vec![
            release("rA", "gA", "2021"),
            release("rB", "gB", "2021"),
            release("rC", "gC", "2021"),
        ],
        data_publishers,
        countries,
    }
}

#[test]
fn planner_chooses_best_covered_geometry_and_reports_the_rest() {
    let metadata = three_level_catalog();
    let plan = metadata
        .generate_selection_plan(
            &vec![MetricId::Hxl("#pop".to_string())],
            &GeometrySpec { geometry_level: None },
            &None,
        )
        .unwrap();
    // Levels rank A (5 rows), then B and C (3 rows each) in
    // first-encountered order; the advice lists the alternatives in that
    // order.
    assert_eq!(plan.geometry, "A");
    assert_eq!(
        plan.advice,
        "Selecting geometry level A. The requested metrics are also available at the following levels: B,C"
    );
    assert_eq!(plan.explicit_metric_ids.len(), 5);
    assert_eq!(plan.year, vec!["2021".to_string()]);
}

#[test]
fn planner_end_to_end_example() {
    let (geometries, data_publishers, countries) = base_tables();
    let metadata = Metadata {
        metrics: vec![
            metric("m1", "#pop+f", "Population, female", "r1"),
            metric("m2", "#pop+m", "Population, male", "r1"),
        ],
        geometries: {
            let mut g = geometries;
            g.push(geometry("g2", "admin2"));
            g
        },
        source_data_releases: vec![release("r1", "g2", "2021")],
        data_publishers,
        countries,
    };
    let expanded = metadata.expand_regex_metric(&MetricId::Hxl("#pop.*".to_string())).unwrap();
    assert_eq!(
        expanded,
        vec![MetricId::Hxl("#pop+f".to_string()), MetricId::Hxl("#pop+m".to_string())]
    );
    let plan = metadata
        .generate_selection_plan(
            &vec![MetricId::Id("m1".to_string()), MetricId::Id("m2".to_string())],
            &GeometrySpec { geometry_level: None },
            &None,
        )
        .unwrap();
    assert_eq!(
        plan.explicit_metric_ids,
        vec![MetricId::Id("m1".to_string()), MetricId::Id("m2".to_string())]
    );
    assert_eq!(plan.geometry, "admin2");
    assert_eq!(plan.advice, "");
}

#[test]
fn planner_uses_an_explicit_geometry_verbatim() {
    let metadata = three_level_catalog();
    let plan = metadata
        .generate_selection_plan(
            &vec![MetricId::Hxl("#pop".to_string())],
            &GeometrySpec { geometry_level: Some("B".to_string()) },
            &Some(vec!["2021".to_string()]),
        )
        .unwrap();
    assert_eq!(plan.geometry, "B");
    assert_eq!(plan.year, vec!["2021".to_string()]);
    assert_eq!(plan.advice, "");
    assert_eq!(plan.explicit_metric_ids.len(), 3);
}

#[test]
fn planner_derives_the_year_from_the_candidate_rows() {
    let mut metadata = three_level_catalog();
    // Level A rows split over two years, 2019 carried by more rows.
    metadata.source_data_releases[0] = release("rA", "gA", "2019");
    metadata.source_data_releases.push(release("rA2", "gA", "2023"));
    metadata.metrics.push(metric("a9", "#pop+a9", "Population", "rA2"));
    let plan = metadata
        .generate_selection_plan(
            &vec![MetricId::Hxl("#pop".to_string())],
            &GeometrySpec { geometry_level: Some("A".to_string()) },
            &None,
        )
        .unwrap();
    assert_eq!(plan.year, vec!["2019".to_string()]);
    assert_eq!(
        plan.advice,
        "Selecting year 2019. The requested metrics are also available for the following years: 2023"
    );
}

#[test]
fn planner_fails_without_any_geometry() {
    let metadata = three_level_catalog();
    let err = metadata
        .generate_selection_plan(
            &vec![MetricId::Hxl("#nothing".to_string())],
            &GeometrySpec { geometry_level: None },
            &None,
        )
        .expect_err("no candidate rows leave no geometry to choose");
    assert_eq!(err, SelectionError::NoGeometryAvailable);
}

#[test]
fn planner_fails_when_the_geometry_filter_empties_the_candidates() {
    let metadata = three_level_catalog();
    let err = metadata
        .generate_selection_plan(
            &vec![MetricId::Hxl("#pop".to_string())],
            &GeometrySpec { geometry_level: Some("no_such_level".to_string()) },
            &None,
        )
        .expect_err("no row sits at the requested level");
    assert_eq!(err, SelectionError::NoRowsAfterGeometryFilter);
}

#[test]
fn planner_rejects_invalid_patterns() {
    let metadata = three_level_catalog();
    let err = metadata
        .generate_selection_plan(
            &vec![MetricId::Hxl("([".to_string())],
            &GeometrySpec { geometry_level: None },
            &None,
        )
        .expect_err("an unclosed group is not a pattern");
    assert_eq!(err, SelectionError::InvalidPattern);
}

#[test]
fn available_geometries_rank_by_count_with_stable_ties() {
    let metadata = three_level_catalog();
    let table = metadata.combined_metric_source_geometry();
    assert_eq!(table.avaliable_geometries(), vec!["A", "B", "C"]);
    // The candidate filter changes the counts: only B and C rows match.
    let selected = table
        .select_metrics(&vec![
            MetricId::Hxl("#pop\\+b".to_string()),
            MetricId::Hxl("#pop\\+c".to_string()),
        ])
        .unwrap();
    assert_eq!(selected.avaliable_geometries(), vec!["B", "C"]);
}

#[test]
fn available_years_rank_by_count() {
    let mut metadata = three_level_catalog();
    metadata.source_data_releases[1] = release("rB", "gB", "1999");
    metadata.source_data_releases[2] = release("rC", "gC", "1999");
    let table = metadata.combined_metric_source_geometry();
    // 2021 is carried by five rows, 1999 by six.
    assert_eq!(table.avaliable_years(), vec!["1999", "2021"]);
}

#[test]
fn select_years_keeps_only_matching_rows() {
    let mut metadata = three_level_catalog();
    metadata.source_data_releases[0] = release("rA", "gA", "2019");
    let table = metadata.combined_metric_source_geometry();
    let selected = table.select_years(&vec!["2019".to_string()]);
    assert_eq!(selected.0.len(), 5);
    assert!(selected.0.iter().all(|r| r.release_reference_period_start == "2019"));
    let none = table.select_years(&vec!["1900".to_string()]);
    assert!(none.0.is_empty());
}

#[test]
fn metric_requests_name_the_storage_file_and_column() {
    let metadata = three_level_catalog();
    let config = Config::new("https://example.org/data".to_string());
    let requests = metadata
        .get_metric_requests(vec![MetricId::Id("a0".to_string())], &config)
        .unwrap();
    assert_eq!(requests.len(), 1);
    assert_eq!(requests[0].column, "col_a0");
    assert_eq!(requests[0].file, "https://example.org/data/a0.parquet");
}

#[test]
fn geometry_details_name_the_geometry_file() {
    let metadata = three_level_catalog();
    let config = Config::new("https://example.org/data".to_string());
    let path = metadata.get_geom_details("B", &config);
    assert_eq!(path, "https://example.org/data/B_geoms.fgb");
}

#[test]
fn country_metadata_paths_default_names() {
    let paths = CountryMetadataPaths::default();
    assert_eq!(paths.geometry, "geometry_metadata.parquet");
    assert_eq!(paths.metrics, "metric_metadata.parquet");
    assert_eq!(paths.country, "country_metadata.parquet");
    assert_eq!(paths.source_data, "source_data_releases.parquet");
    assert_eq!(paths.data_publishers, "data_publishers.parquet");
}

#[test]
fn country_metadata_loader_carries_country_and_paths() {
    let loader = CountryMetadataLoader::new("bel");
    assert_eq!(loader.country, "bel");
    assert_eq!(loader.paths.metrics, "metric_metadata.parquet");
    let custom = CountryMetadataPaths {
        geometry: "geo.parquet".to_string(),
        metrics: "metrics.parquet".to_string(),
        country: "country.parquet".to_string(),
        source_data: "releases.parquet".to_string(),
        data_publishers: "publishers.parquet".to_string(),
    };
    let loader = loader.with_paths(custom);
    assert_eq!(loader.country, "bel");
    assert_eq!(loader.paths.metrics, "metrics.parquet");
}

#[test]
fn geographic_entities_wrap_place_names() {
    let entity = GeographicEntity::new("Glasgow");
    assert_eq!(entity.place, "Glasgow");
    assert_eq!(entity, GeographicEntity::new("Glasgow"));
    assert!(GeographicEntity::new("Edinburgh") < entity);
}

#[test]
fn select_metrics_keeps_rows_any_identifier_matches() {
    let metadata = three_level_catalog();
    let table = metadata.combined_metric_source_geometry();
    let selected = table
        .select_metrics(&vec![
            MetricId::Id("a0".to_string()),
            MetricId::Hxl("#pop\\+b0".to_string()),
        ])
        .unwrap();
    let ids: Vec<String> = selected.0.iter().map(|r| r.id.clone()).collect();
    assert_eq!(ids, vec!["a0", "b0"]);
}

#[test]
fn explicit_metric_ids_are_the_opaque_id_variant() {
    let metadata = three_level_catalog();
    let table = metadata.combined_metric_source_geometry();
    let selected = table.select_geometry("C");
    let ids = selected.get_explicit_metric_ids();
    assert_eq!(
        ids,
        vec![
            MetricId::Id("c0".to_string()),
            MetricId::Id("c1".to_string()),
            MetricId::Id("c2".to_string()),
        ]
    );
}
