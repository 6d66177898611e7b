use popgetter::config::Config;
use popgetter::metadata::Metadata;
use popgetter::records::{
    CountryRecord, DataPublisherRecord, GeometryRecord, MetricRecord, SourceDataReleaseRecord,
};
use popgetter::metadata::MetricId;
use popgetter::search::{combine_exprs_with_or, SearchContext, SearchRequest, SearchText};
use popgetter::Popgetter;

fn metric(id: &str, hxl: &str, name: &str, country: &str, release: &str) -> MetricRecord {
    MetricRecord {
        id: id.to_string(),
        hxl_tag: hxl.to_string(),
        human_readable_name: name.to_string(),
        description: format!("all about {name}"),
        source_metric_id: format!("table_of_{id}"),
        country: country.to_string(),
        source_data_release_id: release.to_string(),
        metric_parquet_path: format!("{id}.parquet"),
        parquet_column_name: format!("col_{id}"),
        parquet_margin_of_error_column: None,
        parent_metric_id: None,
    }
}

fn geometry(id: &str, level: &str) -> GeometryRecord {
    GeometryRecord {
        id: id.to_string(),
        level: level.to_string(),
        hxl_tag: format!("#geo+{level}"),
        filename_stem: format!("{level}_geoms"),
        validity_period_start: "2020-01-01".to_string(),
        validity_period_end: "2030-01-01".to_string(),
    }
}

fn release(id: &str, name: &str, geometry_id: &str, publisher_id: &str, year: &str) -> SourceDataReleaseRecord {
    SourceDataReleaseRecord {
        id: id.to_string(),
        name: name.to_string(),
        url: format!("https://example.org/{id}"),
        description: format!("release {name}"),
        geometry_metadata_id: geometry_id.to_string(),
        data_publisher_id: publisher_id.to_string(),
        date_published: format!("{year}-06-01"),
        reference_period_start: year.to_string(),
        reference_period_end: year.to_string(),
        collection_period_start: year.to_string(),
        collection_period_end: year.to_string(),
        expect_next_update: "".to_string(),
    }
}

fn publisher(id: &str, name: &str) -> DataPublisherRecord {
    DataPublisherRecord {
        id: id.to_string(),
        name: name.to_string(),
        url: format!("https://example.org/publisher/{id}"),
        description: format!("publisher {name}"),
    }
}

/// Six metrics over two countries, two geometry levels, two years and two
/// publishers.
fn two_country_catalog() -> Metadata {
    Metadata {
        metrics: vec![
            metric("m1", "#pop+f", "Population, female", "bel", "r_bel_2021"),
            metric("m2", "#pop+m", "Population, male", "bel", "r_bel_2021"),
            metric("m3", "#pop+f", "Population, female", "bel", "r_bel_2023"),
            metric("m4", "#pop+f", "Population, female", "npl", "r_npl_2021"),
            metric("m5", "#pop+m", "Population, male", "npl", "r_npl_2021"),
            metric("m6", "#households", "Households", "npl", "r_npl_2021"),
        ],
        geometries: vec![geometry("g_adm2", "adm2"), geometry("g_adm5", "adm5")],
        source_data_releases: vec![
            release("r_bel_2021", "bel census 2021", "g_adm5", "p_bel", "2021"),
            release("r_bel_2023", "bel census 2023", "g_adm5", "p_bel", "2023"),
            release("r_npl_2021", "npl census 2021", "g_adm2", "p_npl", "2021"),
        ],
        data_publishers: vec![publisher("p_bel", "StatBel"), publisher("p_npl", "CBS Nepal")],
        countries: vec![
            CountryRecord { id: "bel".to_string(), name: "Belgium".to_string() },
            CountryRecord { id: "npl".to_string(), name: "Nepal".to_string() },
        ],
    }
}

fn ids(results: &popgetter::search::SearchResults) -> Vec<String> {
    results.0.iter().map(|r| r.id.clone()).collect()
}

#[test]
fn empty_request_returns_every_row_in_order() {
    let metadata = two_country_catalog();
    let results = SearchRequest::new().search_results(&metadata);
    assert_eq!(ids(&results), vec!["m1", "m2", "m3", "m4", "m5", "m6"]);
}

#[test]
fn default_request_is_the_empty_request() {
    let metadata = two_country_catalog();
    let results = SearchRequest::default().search_results(&metadata);
    assert_eq!(results.0.len(), 6);
}

#[test]
fn one_literal_dimension_filters_by_equality() {
    let metadata = two_country_catalog();
    let results = SearchRequest::new().with_country("npl").search_results(&metadata);
    assert_eq!(ids(&results), vec!["m4", "m5", "m6"]);
}

#[test]
fn two_literals_in_one_dimension_return_the_union() {
    let metadata = two_country_catalog();
    let y2021 = SearchRequest::new().with_year("2021").search_results(&metadata);
    let y2023 = SearchRequest::new().with_year("2023").search_results(&metadata);
    let mut both = SearchRequest::new();
    both.year = Some(popgetter::search::Year(vec!["2021".to_string(), "2023".to_string()]));
    let both = both.search_results(&metadata);
    let mut expected = ids(&y2021);
    for id in ids(&y2023) {
        if !expected.contains(&id) {
            expected.push(id);
        }
    }
    let mut got = ids(&both);
    expected.sort();
    got.sort();
    assert_eq!(got, expected);
    assert_eq!(both.0.len(), 6);
}

#[test]
fn two_dimensions_set_together_return_the_intersection() {
    let metadata = two_country_catalog();
    let country_only = SearchRequest::new().with_country("bel").search_results(&metadata);
    let year_only = SearchRequest::new().with_year("2021").search_results(&metadata);
    let both = SearchRequest::new()
        .with_country("bel")
        .with_year("2021")
        .search_results(&metadata);
    let country_ids = ids(&country_only);
    let year_ids = ids(&year_only);
    let expected: Vec<String> =
        country_ids.iter().filter(|id| year_ids.contains(id)).cloned().collect();
    assert_eq!(ids(&both), expected);
    assert_eq!(ids(&both), vec!["m1", "m2"]);
}

#[test]
fn text_entry_matches_only_its_context_columns() {
    let metadata = two_country_catalog();
    let mut req = SearchRequest::new();
    req.text = vec![SearchText {
        text: "#households".to_string(),
        context: vec![SearchContext::Hxl],
    }];
    let results = req.search_results(&metadata);
    assert_eq!(ids(&results), vec!["m6"]);

    // The same text against the human readable name matches nothing.
    let mut req = SearchRequest::new();
    req.text = vec![SearchText {
        text: "#households".to_string(),
        context: vec![SearchContext::HumanReadableName],
    }];
    let results = req.search_results(&metadata);
    assert!(results.0.is_empty());
}

#[test]
fn multiple_text_entries_match_any_of_them() {
    let metadata = two_country_catalog();
    let mut req = SearchRequest::new();
    req.text = vec![
        SearchText { text: "#households".to_string(), context: vec![SearchContext::Hxl] },
        SearchText {
            text: "Population, male".to_string(),
            context: vec![SearchContext::HumanReadableName],
        },
    ];
    let results = req.search_results(&metadata);
    assert_eq!(ids(&results), vec!["m2", "m5", "m6"]);
}

#[test]
fn text_and_dimension_are_conjoined() {
    let metadata = two_country_catalog();
    let mut req = SearchRequest::new().with_country("npl");
    req.text = vec![SearchText {
        text: "Population, male".to_string(),
        context: vec![SearchContext::HumanReadableName],
    }];
    let results = req.search_results(&metadata);
    assert_eq!(ids(&results), vec!["m5"]);
}

#[test]
fn geometry_level_and_publisher_and_release_dimensions() {
    let metadata = two_country_catalog();
    let by_level = SearchRequest::new().with_geometry_level("adm2").search_results(&metadata);
    assert_eq!(ids(&by_level), vec!["m4", "m5", "m6"]);
    let by_publisher = SearchRequest::new().with_data_publisher("StatBel").search_results(&metadata);
    assert_eq!(ids(&by_publisher), vec!["m1", "m2", "m3"]);
    let by_release =
        SearchRequest::new().with_source_data_release("bel census 2023").search_results(&metadata);
    assert_eq!(ids(&by_release), vec!["m3"]);
    let by_table = SearchRequest::new().with_census_table("table_of_m6").search_results(&metadata);
    assert_eq!(ids(&by_table), vec!["m6"]);
}

#[test]
fn search_context_all_lists_every_context() {
    let all = SearchContext::all();
    assert_eq!(
        all,
        vec![SearchContext::Hxl, SearchContext::HumanReadableName, SearchContext::Description]
    );
}

#[test]
fn default_search_text_applies_to_every_context() {
    let t = SearchText::default();
    assert_eq!(t.text, "");
    assert_eq!(t.context.len(), 3);
}

#[test]
fn popgetter_search_runs_requests_against_its_catalog() {
    let popgetter = Popgetter {
        metadata: two_country_catalog(),
        config: Config::new("https://example.org/data".to_string()),
    };
    let results = popgetter.search(&SearchRequest::new().with_country("bel"));
    assert_eq!(ids(&results), vec!["m1", "m2", "m3"]);
}

#[test]
fn metric_id_expressions_evaluate_against_rows() {
    let metadata = two_country_catalog();
    let row = &metadata.combined_metric_source_geometry().0[0];
    // row: id m1, hxl #pop+f, name "Population, female"
    let exact = MetricId::Id("m1".to_string()).to_exact_expr();
    assert_eq!(exact.eval(row), Some(true));
    let exact_other = MetricId::Id("m2".to_string()).to_exact_expr();
    assert_eq!(exact_other.eval(row), Some(false));
    // Containment: a partial pattern matches, a non-occurring one does
    // not, and an invalid one does not evaluate.
    let fuzzy = MetricId::Hxl("#pop\\+f".to_string()).to_fuzzy_expr();
    assert_eq!(fuzzy.eval(row), Some(true));
    let fuzzy_miss = MetricId::Hxl("#households".to_string()).to_fuzzy_expr();
    assert_eq!(fuzzy_miss.eval(row), Some(false));
    let invalid = MetricId::Hxl("([".to_string()).to_fuzzy_expr();
    assert_eq!(invalid.eval(row), None);
    // An OR of two predicates holds when either does.
    let combined = combine_exprs_with_or(vec![exact_other, fuzzy]).unwrap();
    assert_eq!(combined.eval(row), Some(true));
    // An empty list combines to no predicate at all.
    assert!(combine_exprs_with_or(vec![]).is_none());
}
