use rusty_mvt::db::check_registry_for_table;
use rusty_mvt::db::get_table;
use rusty_mvt::db::locate_table;
use rusty_mvt::db::resolve_distance_metadata;
use rusty_mvt::db::Schema;
use rusty_mvt::db::StringMap;
use rusty_mvt::db::Table;
use rusty_mvt::db::TableRegistry;
use rusty_mvt::get_srid_unit;
use rusty_mvt::layers::parse_usize;
use rusty_mvt::layers::split_y_ext;
use rusty_mvt::layers::supported_layer_extension;
use rusty_mvt::AppError;

fn sample_table(name: &str, schema: &str, srid: i32) -> Table {
    Table::new(
        name.to_string(),
        schema.to_string(),
        vec!["gid".to_string()],
        "geom".to_string(),
        "LINESTRING".to_string(),
        srid,
        None,
        "m".to_string(),
    )
}

#[test]
fn table_new_fills_every_field() {
    let t = Table::new(
        "roads".to_string(),
        "public".to_string(),
        vec!["a".to_string(), "b".to_string()],
        "geom".to_string(),
        "LINESTRING".to_string(),
        4326,
        None,
        "deg".to_string(),
    );
    assert_eq!(t.name, "roads");
    assert_eq!(t.schema_name, "public");
    assert_eq!(t.primary_key_columns, vec!["a".to_string(), "b".to_string()]);
    assert_eq!(t.geom_column, Some("geom".to_string()));
    assert_eq!(t.geom_type, Some("LINESTRING".to_string()));
    assert_eq!(t.srid, Some(4326));
    assert_eq!(t.attr_columns, Some(vec![]));
    assert_eq!(t.dist_unit, Some("deg".to_string()));
    assert!(t.use_geog);
    let with_attrs = Table::new(
        "roads".to_string(),
        "public".to_string(),
        vec!["a".to_string()],
        "geom".to_string(),
        "LINESTRING".to_string(),
        3857,
        Some(vec!["kind".to_string()]),
        "m".to_string(),
    );
    assert_eq!(with_attrs.attr_columns, Some(vec!["kind".to_string()]));
    assert!(!with_attrs.use_geog);
}

#[test]
fn registry_lookup_finds_registered_tables() {
    let mut registry = TableRegistry::new("default".to_string());
    assert_eq!(registry.name, "default");
    registry.insert_table(
        "public".to_string(),
        "roads".to_string(),
        sample_table("roads", "public", 3857),
    );
    registry.insert_table(
        "public".to_string(),
        "rivers".to_string(),
        sample_table("rivers", "public", 3857),
    );
    registry.insert_table(
        "private".to_string(),
        "roads".to_string(),
        sample_table("roads", "private", 4326),
    );
    let t = get_table(&registry, "public".to_string(), "roads".to_string()).unwrap();
    assert_eq!(t.schema_name, "public");
    let t = get_table(&registry, "private".to_string(), "roads".to_string()).unwrap();
    assert_eq!(t.srid, Some(4326));
    assert!(check_registry_for_table(&registry, "public".to_string(), "rivers".to_string()).is_ok());
    let miss = get_table(&registry, "public".to_string(), "houses".to_string());
    assert_eq!(miss.err().unwrap().message(), "Specified table not found in schema");
    let miss = check_registry_for_table(&registry, "nowhere".to_string(), "roads".to_string());
    assert_eq!(miss.err().unwrap().message(), "Table not found.");
}

#[test]
fn handler_lookup_tells_the_two_misses_apart() {
    let mut registry = TableRegistry::new("default".to_string());
    registry.insert_table(
        "public".to_string(),
        "roads".to_string(),
        sample_table("roads", "public", 3857),
    );
    let t = locate_table(&registry, "public".to_string(), "roads".to_string()).unwrap();
    assert_eq!(t.name, "roads");
    let miss = locate_table(&registry, "nowhere".to_string(), "roads".to_string());
    assert_eq!(miss.err().unwrap().message(), "Failed to locate specified schema");
    let miss = locate_table(&registry, "public".to_string(), "houses".to_string());
    assert_eq!(miss.err().unwrap().message(), "Failed to locate specified table");
}

#[test]
fn registry_replaces_a_reregistered_table() {
    let mut registry = TableRegistry::new("default".to_string());
    registry.insert_table(
        "public".to_string(),
        "roads".to_string(),
        sample_table("roads", "public", 3857),
    );
    registry.insert_table(
        "public".to_string(),
        "roads".to_string(),
        sample_table("roads", "public", 4326),
    );
    let t = get_table(&registry, "public".to_string(), "roads".to_string()).unwrap();
    assert_eq!(t.srid, Some(4326));
}

#[test]
fn string_map_shadows_and_misses() {
    let mut m: StringMap<u32> = StringMap::new();
    assert!(m.get(&"k".to_string()).is_none());
    m.insert("k".to_string(), 1);
    m.insert("k".to_string(), 2);
    assert_eq!(m.get(&"k".to_string()), Some(&2));
    assert!(m.contains_key(&"k".to_string()));
    assert!(!m.contains_key(&"other".to_string()));
}

#[test]
fn schema_starts_empty() {
    let s = Schema::new("public".to_string());
    assert_eq!(s.name, "public");
    assert!(!s.tables.contains_key(&"roads".to_string()));
}

#[test]
fn srid_units_cover_the_served_systems() {
    assert_eq!(get_srid_unit(4326), Some("deg"));
    assert_eq!(get_srid_unit(3857), Some("m"));
    assert_eq!(get_srid_unit(2249), Some("us-ft"));
    assert_eq!(get_srid_unit(999999), None);
}

#[test]
fn distance_metadata_follows_the_spatial_reference() {
    let mut geographic = sample_table("roads", "public", 4326);
    geographic.dist_unit = None;
    geographic.use_geog = false;
    resolve_distance_metadata(&mut geographic);
    assert_eq!(geographic.dist_unit, Some("deg".to_string()));
    assert!(geographic.use_geog);

    let mut projected = sample_table("roads", "public", 3857);
    resolve_distance_metadata(&mut projected);
    assert_eq!(projected.dist_unit, Some("m".to_string()));
    assert!(!projected.use_geog);

    let mut unknown = sample_table("roads", "public", 999999);
    resolve_distance_metadata(&mut unknown);
    assert_eq!(unknown.dist_unit, None);
    assert!(!unknown.use_geog);

    let mut no_srid = sample_table("roads", "public", 3857);
    no_srid.srid = None;
    resolve_distance_metadata(&mut no_srid);
    assert_eq!(no_srid.dist_unit, Some("m".to_string()));
}

#[test]
fn y_ext_segment_splits_on_its_sole_dot() {
    let (y, ext) = split_y_ext("456.mvt").unwrap();
    assert_eq!(y, 456);
    assert_eq!(ext, "mvt");
    let r = split_y_ext("4.5.mvt");
    assert_eq!(r.err().unwrap().message(), "Invalid y_ext format: 4.5.mvt");
    let r = split_y_ext("456");
    assert_eq!(r.err().unwrap().message(), "Invalid y_ext format: 456");
    let r = split_y_ext("abc.mvt");
    assert_eq!(r.err().unwrap().message(), "Failed to parse y_str as usize");
    let r = split_y_ext(".mvt");
    assert_eq!(r.err().unwrap().message(), "Failed to parse y_str as usize");
}

#[test]
fn decimal_parse_accepts_exactly_machine_integers() {
    assert_eq!(parse_usize("0"), Some(0));
    assert_eq!(parse_usize("456"), Some(456));
    assert_eq!(parse_usize("+42"), Some(42));
    assert_eq!(parse_usize("007"), Some(7));
    assert_eq!(parse_usize(""), None);
    assert_eq!(parse_usize("+"), None);
    assert_eq!(parse_usize("1x"), None);
    assert_eq!(parse_usize("-1"), None);
    assert_eq!(parse_usize("18446744073709551615"), Some(usize::MAX));
    assert_eq!(parse_usize("18446744073709551616"), None);
}

#[test]
fn only_the_vector_tile_extension_is_supported() {
    assert!(supported_layer_extension(&"mvt".to_string()));
    assert!(!supported_layer_extension(&"png".to_string()));
}

#[test]
fn errors_carry_their_message() {
    let e = AppError::new("Something went wrong");
    assert_eq!(e.message(), "Something went wrong");
    assert_eq!(e.0, "Something went wrong");
}
