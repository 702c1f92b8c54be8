use rusty_mvt::db::Table;
use rusty_mvt::routing::collect_circuit_paths;
use rusty_mvt::routing::utils::get_edge_to_vertex_pair_mapper;
use rusty_mvt::routing::utils::make_path_geometries_query;
use rusty_mvt::routing::utils::make_proximal_features_query;
use rusty_mvt::routing::utils::process_routing_result_as_edge_list;
use rusty_mvt::routing::utils::try_convert_to_edge_json;
use rusty_mvt::routing::utils::TopoEdgeRepresentation;
use rusty_mvt::routing::resolve_desired_distance;
use rusty_mvt::routing::validate_routing_options;
use rusty_mvt::routing::RoutingOptions;
use rusty_mvt::routing::StartingGeom;

fn edge(edge_id: u32, start_node: u32, end_node: u32, weight: u64) -> TopoEdgeRepresentation {
    TopoEdgeRepresentation { edge_id, start_node, end_node, weight }
}

fn edges_table(use_geog: bool) -> Table {
    let mut t = Table::new(
        "edges".to_string(),
        "public".to_string(),
        vec!["id".to_string()],
        "geom".to_string(),
        "LINESTRING".to_string(),
        if use_geog { 4326 } else { 3857 },
        None,
        if use_geog { "deg".to_string() } else { "m".to_string() },
    );
    t.attr_columns = None;
    t.use_geog = use_geog;
    t
}

#[test]
fn index_is_symmetric_for_a_fresh_pair() {
    let edges = vec![edge(1, 2, 3, 5)];
    let index = get_edge_to_vertex_pair_mapper(&edges);
    assert_eq!(index.get(2, 3), Some(1));
    assert_eq!(index.get(3, 2), Some(1));
    assert_eq!(index.get(2, 4), None);
}

#[test]
fn index_keeps_the_first_edge_on_collision() {
    let edges = vec![edge(1, 7, 9, 5), edge(2, 7, 9, 5)];
    let index = get_edge_to_vertex_pair_mapper(&edges);
    assert_eq!(index.get(7, 9), Some(1));
    assert_eq!(index.get(9, 7), Some(1));
}

#[test]
fn routing_options_are_validated_before_any_database_work() {
    let zero = RoutingOptions { dist: 0, units: "miles".to_string() };
    let negative = RoutingOptions { dist: -5000, units: "miles".to_string() };
    let hours = RoutingOptions { dist: 5000, units: "hours".to_string() };
    for options in [&zero, &negative, &hours] {
        let r = validate_routing_options(options);
        assert_eq!(r.err().unwrap().message(), "Missing or invalid distance units");
        let r = resolve_desired_distance(options, &edges_table(false));
        assert_eq!(r.err().unwrap().message(), "Missing or invalid distance units");
    }
    let ok = RoutingOptions { dist: 5000, units: "mins".to_string() };
    assert!(validate_routing_options(&ok).is_ok());
}

#[test]
fn distance_conversion_is_exact_per_unit() {
    // two miles into metres: 2 * 1609.344 m, carried at 10^-7
    let miles = RoutingOptions { dist: 2000, units: "miles".to_string() };
    let table = edges_table(false);
    assert_eq!(resolve_desired_distance(&miles, &table).unwrap(), 32_186_880_000);
    // a minutes budget scales the converted figure by 0.05
    let mins = RoutingOptions { dist: 2000, units: "mins".to_string() };
    assert_eq!(resolve_desired_distance(&mins, &table).unwrap(), 1_609_344_000);
    // feet
    let mut ft_table = edges_table(false);
    ft_table.dist_unit = Some("us-ft".to_string());
    assert_eq!(resolve_desired_distance(&miles, &ft_table).unwrap(), 105_600_000_000);
    // degrees convert as metres, by design
    let deg_table = edges_table(true);
    assert_eq!(resolve_desired_distance(&miles, &deg_table).unwrap(), 32_186_880_000);
    // an unrecognised unit passes the figure through unchanged
    let mut km_table = edges_table(false);
    km_table.dist_unit = Some("km".to_string());
    assert_eq!(resolve_desired_distance(&miles, &km_table).unwrap(), 20_000_000);
}

#[test]
fn distance_resolution_requires_distance_data() {
    let miles = RoutingOptions { dist: 2000, units: "miles".to_string() };
    let mut table = edges_table(false);
    table.dist_unit = None;
    let r = resolve_desired_distance(&miles, &table);
    assert_eq!(
        r.err().unwrap().message(),
        "Specified table does not contain valid distance data"
    );
}

#[test]
fn node_sequences_reconstruct_into_edge_identifiers() {
    let edges = vec![edge(10, 1, 2, 0), edge(20, 2, 3, 0), edge(30, 3, 4, 0)];
    let index = get_edge_to_vertex_pair_mapper(&edges);
    let out = process_routing_result_as_edge_list(&vec![1, 2, 3, 4], &index);
    assert_eq!(
        out,
        vec![Some("10".to_string()), Some("20".to_string()), Some("30".to_string())]
    );
    let empty_index = get_edge_to_vertex_pair_mapper(&vec![]);
    let gaps = process_routing_result_as_edge_list(&vec![1, 5], &empty_index);
    assert_eq!(gaps, vec![None]);
}

#[test]
fn reconstruction_leaves_gaps_rather_than_failing() {
    let edges = vec![edge(10, 1, 2, 0), edge(30, 3, 4, 0)];
    let index = get_edge_to_vertex_pair_mapper(&edges);
    let out = process_routing_result_as_edge_list(&vec![1, 2, 3, 4], &index);
    assert_eq!(out, vec![Some("10".to_string()), None, Some("30".to_string())]);
}

#[test]
fn edge_set_serialises_to_the_solver_exchange_form() {
    let edges = vec![edge(1, 2, 3, 5), edge(2, 3, 4, 5)];
    let json = try_convert_to_edge_json(&edges).unwrap();
    assert_eq!(
        json,
        "[{\"edge_id\":1,\"start_node\":2,\"end_node\":3,\"weight\":5.0},{\"edge_id\":2,\"start_node\":3,\"end_node\":4,\"weight\":5.0}]"
    );
    assert_eq!(try_convert_to_edge_json(&vec![]).unwrap(), "[]");
}

#[test]
fn circuit_pipeline_returns_one_geometry_for_one_resolvable_path() {
    // the extracted edge set
    let edges = vec![edge(1, 2, 3, 5), edge(2, 3, 4, 5), edge(3, 4, 5, 5)];
    let index = get_edge_to_vertex_pair_mapper(&edges);
    // the solver's two options around the loop
    let upper: Vec<u32> = vec![2, 3, 4];
    let lower: Vec<u32> = vec![];
    let upper_edges = process_routing_result_as_edge_list(&upper, &index);
    let lower_edges = process_routing_result_as_edge_list(&lower, &index);
    assert_eq!(upper_edges, vec![Some("1".to_string()), Some("2".to_string())]);
    assert_eq!(lower_edges, Vec::<Option<String>>::new());
    // the upper path resolves into a geometry query over its edges
    let table = edges_table(false);
    let upper_query = make_path_geometries_query(&upper_edges, &table).unwrap();
    assert!(upper_query.contains("in (1, 2)"));
    // the lower path has no edges; its query selects nothing and the
    // fetch fails downstream, so the path is dropped
    let lower_query = make_path_geometries_query(&lower_edges, &table).unwrap();
    assert!(lower_query.contains("in ()"));
    let collected = collect_circuit_paths(Some("{\"geoms\":{}}".to_string()), None);
    assert_eq!(collected.len(), 1);
}

#[test]
fn proximal_query_matches_expected_text_in_geodesic_mode() {
    let table = edges_table(true);
    let start = StartingGeom { x_e7: -82_376_425_000_000, y_e7: 49_702_412_500_000, node_id: 17 };
    let q = make_proximal_features_query(&table, &start, 3_218_688_000).unwrap();
    let expected = format!(
        "select {}, trunc(ST_Length(t.{})) as weight
        from {}.{} t
        WHERE ST_DWithin(t.{},
        ST_Transform(ST_SetSRID(ST_MakePoint({},{}), 3857), {}){}, {})
        ",
        "id, start_node, end_node",
        "geom::geography",
        "public",
        "edges",
        "geom::geography",
        "-8237642.5",
        "4970241.25",
        4326,
        "::geography",
        "321.8688"
    );
    assert_eq!(q, expected);
}

#[test]
fn proximal_query_uses_planar_mode_and_declared_attributes() {
    let mut table = edges_table(false);
    table.attr_columns = Some(vec!["from_node".to_string(), "to_node".to_string()]);
    let start = StartingGeom { x_e7: 10_000_000, y_e7: -25_000_000, node_id: 1 };
    let q = make_proximal_features_query(&table, &start, 5_000_000_000).unwrap();
    assert!(q.starts_with("select id, from_node, to_node, trunc(ST_Length(t.geom)) as weight"));
    assert!(q.contains("ST_MakePoint(1,-2.5)"));
    assert!(q.contains("), 3857), 3857), 500)"));
    assert!(!q.contains("::geography"));
}

#[test]
fn proximal_query_requires_geometry_metadata() {
    let start = StartingGeom { x_e7: 0, y_e7: 0, node_id: 1 };
    let mut no_geom = edges_table(false);
    no_geom.geom_column = None;
    let r = make_proximal_features_query(&no_geom, &start, 1);
    assert_eq!(r.err().unwrap().message(), "Table does not contain valid geometry data");
    let mut no_srid = edges_table(false);
    no_srid.srid = None;
    let r = make_proximal_features_query(&no_srid, &start, 1);
    assert_eq!(r.err().unwrap().message(), "Table does not contain valid geometry data");
}

#[test]
fn path_geometries_query_matches_expected_text() {
    let table = edges_table(false);
    let path = vec![Some("1".to_string()), None, Some("3".to_string())];
    let q = make_path_geometries_query(&path, &table).unwrap();
    let expected = format!(
        "select st_asgeojson(c.*)::json as geoms
                from
                    (
                    select
                        ST_Collect(
                    array(
                        select
                            ST_Transform(t.{},
                            3857) as geom
                        from
                            {}.{} t
                        where
                            t.{} in ({})
                        )
                    )
                    ) c;",
        "geom", "public", "edges", "id", "1, 3"
    );
    assert_eq!(q, expected);
}

#[test]
fn path_geometries_query_requires_geometry_and_a_key() {
    let path = vec![Some("1".to_string())];
    let mut no_geom = edges_table(false);
    no_geom.geom_column = None;
    let r = make_path_geometries_query(&path, &no_geom);
    assert_eq!(r.err().unwrap().message(), "Failed to fetch geometries as GeoJSON");
    let mut no_pk = edges_table(false);
    no_pk.primary_key_columns = vec![];
    let r = make_path_geometries_query(&path, &no_pk);
    assert_eq!(
        r.err().unwrap().message(),
        "Table does not contain valid primary key columns"
    );
}

#[test]
fn circuit_paths_keep_upper_before_lower_and_drop_failures() {
    let both = collect_circuit_paths(Some("u".to_string()), Some("l".to_string()));
    assert_eq!(both, vec!["u".to_string(), "l".to_string()]);
    let lower_only = collect_circuit_paths(None, Some("l".to_string()));
    assert_eq!(lower_only, vec!["l".to_string()]);
    let none: Vec<String> = collect_circuit_paths(None, None);
    assert!(none.is_empty());
}
