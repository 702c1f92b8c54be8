//! Tile-pyramid coordinates and the SQL that serves one tile as encoded
//! vector geometry.
//!
//! A tile at zoom `z` is addressed by `(x, y)` with `0 <= x < 2^z` and
//! `0 <= y < 2^z`.  Its envelope is expressed over the fixed world-Mercator
//! extent; the extraction query clips geometry to the envelope and encodes
//! it, selecting rows against a second envelope widened by a margin so that
//! geometry that only partially enters the tile is still included.
use vstd::prelude::*;
use vstd::arithmetic::power2::pow2;
use vstd::string::StringExecFns;

use crate::AppError;
use crate::db::Table;
use crate::text::contains_seq;
use crate::text::dec_digits;
use crate::text::decimal_e7;
use crate::text::i64_e7_to_string;
use crate::text::join_strings;
use crate::text::joined;
use crate::text::lemma_contains_seq_append_left;
use crate::text::lemma_contains_seq_append_right;
use crate::text::u64_to_string;

verus! {

/// The world-Mercator extent bound, `20037508.3427892`, in units of
/// `10^-7`.
pub const WORLD_MERC_MAX_E7: i64 = 200375083427892;

/// The negated world-Mercator extent bound.
pub const WORLD_MERC_MIN_E7: i64 = -200375083427892;

/// Spatial reference system of incoming tile requests: web Mercator.
pub const INCOMING_SRID: u64 = 3857;

/// Device units across one encoded tile.
pub const EXTENT: u64 = 4096;

/// Device units of clip padding around one encoded tile.
pub const BUFFER: u64 = 64;

/// The row-selection margin, `BUFFER / EXTENT` of the tile extent, in
/// units of `10^-7`: `64 / 4096` is `156250 * 10^-7` exactly.
pub const TILE_QUERY_MARGIN_E7: i64 = 156250;

/// One tile-pyramid address.
#[derive(Debug)]
pub struct Tile {
    pub z: usize,
    pub x: usize,
    pub y: usize,
}

impl Tile {
    pub fn new(x: usize, y: usize, z: usize) -> (t: Tile)
        ensures
            t.x == x,
            t.y == y,
            t.z == z,
    {
        Tile { x, y, z }
    }
}

/// One encoded vector tile, an opaque byte buffer.
pub struct MVTBuffer(pub Vec<u8>);

/// A tile address is valid when both coordinates lie inside the `2^z` by
/// `2^z` grid of its zoom level.
pub open spec fn tile_valid(t: Tile) -> bool {
    t.x < pow2(t.z as nat) && t.y < pow2(t.z as nat)
}

/// Decides [`tile_valid`].
pub fn check_tile_coords(t: &Tile) -> (r: bool)
    ensures
        r == tile_valid(*t),
{
    if t.z >= 64 {
        proof {
            vstd::arithmetic::power2::lemma2_to64_rest();
            if t.z > 64 {
                vstd::arithmetic::power2::lemma_pow2_strictly_increases(64, t.z as nat);
            }
            assert((t.x as u64) < 0x10000000000000000);
        }
        true
    } else {
        let z = t.z as u64;
        proof {
            vstd::bits::lemma_u64_pow2_no_overflow(z as nat);
            vstd::bits::lemma_u64_shl_is_mul(1u64, z);
        }
        let limit: u64 = 1u64 << z;
        ((t.x as u64) < limit) && ((t.y as u64) < limit)
    }
}

/// The text of the two-part envelope expression for a tile: the tile
/// envelope over the fixed world-Mercator bounds, optionally widened by a
/// margin fraction given in units of `10^-7`.
pub open spec fn envelope_statement(t: Tile, margin: Option<i64>) -> Seq<char> {
    let head = "ST_TileEnvelope("@ + dec_digits(t.z as nat) + ", "@ + dec_digits(t.x as nat)
        + ", "@ + dec_digits(t.y as nat);
    let bounds = head + ", ST_MakeEnvelope("@ + decimal_e7(WORLD_MERC_MIN_E7 as int) + ", "@
        + decimal_e7(WORLD_MERC_MIN_E7 as int) + ", "@ + decimal_e7(WORLD_MERC_MAX_E7 as int)
        + ", "@ + decimal_e7(WORLD_MERC_MAX_E7 as int) + ", "@ + dec_digits(INCOMING_SRID as nat);
    match margin {
        Some(m) => bounds + ", "@ + decimal_e7(m as int) + "))"@,
        None => bounds + "))"@,
    }
}

/// Renders the envelope expression for the tile, with the optional margin
/// fraction in units of `10^-7`.
pub fn make_envelope_statement(t: &Tile, m: Option<i64>) -> (s: String)
    ensures
        s@ == envelope_statement(*t, m),
{
    let mut s = "ST_TileEnvelope(".to_owned();
    s.append(u64_to_string(t.z as u64).as_str());
    s.append(", ");
    s.append(u64_to_string(t.x as u64).as_str());
    s.append(", ");
    s.append(u64_to_string(t.y as u64).as_str());
    s.append(", ST_MakeEnvelope(");
    s.append(i64_e7_to_string(WORLD_MERC_MIN_E7).as_str());
    s.append(", ");
    s.append(i64_e7_to_string(WORLD_MERC_MIN_E7).as_str());
    s.append(", ");
    s.append(i64_e7_to_string(WORLD_MERC_MAX_E7).as_str());
    s.append(", ");
    s.append(i64_e7_to_string(WORLD_MERC_MAX_E7).as_str());
    s.append(", ");
    s.append(u64_to_string(INCOMING_SRID).as_str());
    match m {
        Some(margin) => {
            s.append(", ");
            s.append(i64_e7_to_string(margin).as_str());
            s.append("))");
        },
        None => {
            s.append("))");
        },
    }
    proof {
        assert(s@ =~= envelope_statement(*t, m));
    }
    s
}

/// Validates the tile address and renders its plain envelope expression;
/// an invalid address fails without producing any query text.
pub fn parse_coordinates_to_envelope_statement(t: &Tile) -> (r: Result<String, AppError>)
    ensures
        r is Ok <==> tile_valid(*t),
        r matches Ok(s) ==> s@ == envelope_statement(*t, None),
        r matches Err(e) ==> e@ == "Invalid tile coordinates"@,
{
    if check_tile_coords(t) {
        Ok(make_envelope_statement(t, None))
    } else {
        Err(AppError::new("Invalid tile coordinates"))
    }
}

/// The columns selected by a tile-data query: the full ordered primary-key
/// list, then the declared attribute columns, if any.
pub open spec fn id_column_views(tab: Table) -> Seq<Seq<char>> {
    let attrs = match tab.attr_columns {
        Some(a) => a@,
        None => Seq::<String>::empty(),
    };
    (tab.primary_key_columns@ + attrs).map_values(|c: String| c@)
}

/// Everything of the tile-data query before the row-selection envelope.
pub open spec fn tile_data_query_prefix(t: Tile, tab: Table) -> Seq<char> {
    let geom_col = tab.geom_column->0@;
    "with mvtgeom as (\n              select\n                  ST_AsMVTGeom(\n                          ST_Transform(t."@
        + geom_col + ",\n                  "@ + dec_digits(INCOMING_SRID as nat)
        + "),\n                  "@ + envelope_statement(t, None) + ",\n                  "@
        + dec_digits(EXTENT as nat) + ",\n                  "@ + dec_digits(BUFFER as nat)
        + "\n                      ) as geom,\n                  "@ + joined(
        id_column_views(tab),
        ", "@,
    ) + "\n              from\n                  "@ + tab.schema_name@ + "."@ + tab.name@
        + " t\n              where\n                  ST_Transform(t."@ + geom_col
        + ",\n                  "@ + dec_digits(INCOMING_SRID as nat) + ") && "@
}

/// The full tile-data query: clip-and-encode against the plain envelope,
/// select rows against the envelope widened by `BUFFER / EXTENT`.
pub open spec fn tile_data_query(t: Tile, tab: Table) -> Seq<char> {
    tile_data_query_prefix(t, tab) + envelope_statement(t, Some(TILE_QUERY_MARGIN_E7))
        + ")\n                  select\n                  ST_AsMVT(mvtgeom.*)\n              from\n                  mvtgeom;"@
}

/// Builds the SQL that yields one encoded tile for the table, validating
/// the tile address first and requiring a geometry column.
pub fn make_tile_data_query(t: &Tile, tab: &Table) -> (r: Result<String, AppError>)
    ensures
        r is Ok <==> tile_valid(*t) && tab.geom_column is Some,
        r matches Ok(q) ==> q@ == tile_data_query(*t, *tab),
        r matches Err(e) ==> e@ == (if !tile_valid(*t) {
            "Invalid tile coordinates"@
        } else {
            "No geometry column found in table. Unable to retrieve data."@
        }),
{
    if !check_tile_coords(t) {
        return Err(AppError::new("Invalid tile coordinates"));
    }
    match &tab.geom_column {
        Some(geom_col) => {
            let envelope = make_envelope_statement(t, None);
            let envelope_with_margin = make_envelope_statement(t, Some(TILE_QUERY_MARGIN_E7));
            let mut id_columns: Vec<String> = Vec::new();
            let mut i: usize = 0;
            while i < tab.primary_key_columns.len()
                invariant
                    i <= tab.primary_key_columns@.len(),
                    id_columns@ =~= tab.primary_key_columns@.take(i as int),
                decreases tab.primary_key_columns@.len() - i,
            {
                id_columns.push(tab.primary_key_columns[i].clone());
                proof {
                    assert(id_columns@ =~= tab.primary_key_columns@.take(i as int + 1));
                }
                i = i + 1;
            }
            proof {
                assert(tab.primary_key_columns@.take(tab.primary_key_columns@.len() as int)
                    =~= tab.primary_key_columns@);
            }
            match &tab.attr_columns {
                Some(attrs) => {
                    let mut j: usize = 0;
                    while j < attrs.len()
                        invariant
                            j <= attrs@.len(),
                            id_columns@ =~= tab.primary_key_columns@ + attrs@.take(j as int),
                        decreases attrs@.len() - j,
                    {
                        id_columns.push(attrs[j].clone());
                        proof {
                            assert(id_columns@ =~= tab.primary_key_columns@ + attrs@.take(
                                j as int + 1,
                            ));
                        }
                        j = j + 1;
                    }
                    proof {
                        assert(attrs@.take(attrs@.len() as int) =~= attrs@);
                    }
                },
                None => {
                    proof {
                        assert(id_columns@ =~= tab.primary_key_columns@ + Seq::<String>::empty());
                    }
                },
            }
            let cols = join_strings(&id_columns, ", ");
            proof {
                assert(id_columns@.map_values(|c: String| c@) =~= id_column_views(*tab));
            }
            let mut q =
                "with mvtgeom as (\n              select\n                  ST_AsMVTGeom(\n                          ST_Transform(t.".to_owned();
            q.append(geom_col.as_str());
            q.append(",\n                  ");
            q.append(u64_to_string(INCOMING_SRID).as_str());
            q.append("),\n                  ");
            q.append(envelope.as_str());
            q.append(",\n                  ");
            q.append(u64_to_string(EXTENT).as_str());
            q.append(",\n                  ");
            q.append(u64_to_string(BUFFER).as_str());
            q.append("\n                      ) as geom,\n                  ");
            q.append(cols.as_str());
            q.append("\n              from\n                  ");
            q.append(tab.schema_name.as_str());
            q.append(".");
            q.append(tab.name.as_str());
            q.append(" t\n              where\n                  ST_Transform(t.");
            q.append(geom_col.as_str());
            q.append(",\n                  ");
            q.append(u64_to_string(INCOMING_SRID).as_str());
            q.append(") && ");
            q.append(envelope_with_margin.as_str());
            q.append(")\n                  select\n                  ST_AsMVT(mvtgeom.*)\n              from\n                  mvtgeom;");
            proof {
                assert(q@ =~= tile_data_query(*t, *tab));
            }
            Ok(q)
        },
        None => Err(AppError::new("No geometry column found in table. Unable to retrieve data.")),
    }
}

/// The served tile content for what the tile query returned: the encoded
/// buffer, or empty content when the query yielded no buffer — an empty
/// tile is not an error.
pub fn mvt_from_query_result(buffer: Option<Vec<u8>>) -> (r: MVTBuffer)
    ensures
        r.0@ == (match buffer {
            Some(b) => b@,
            None => Seq::<u8>::empty(),
        }),
{
    match buffer {
        Some(b) => MVTBuffer(b),
        None => MVTBuffer(Vec::new()),
    }
}

/// Law: every tile-data query holds both a tile-envelope and a
/// make-envelope call.
pub proof fn lemma_tile_data_query_contains_envelope(t: Tile, tab: Table)
    ensures
        contains_seq(tile_data_query(t, tab), "ST_TileEnvelope"@),
        contains_seq(tile_data_query(t, tab), "ST_MakeEnvelope"@),
{
    broadcast use lemma_contains_seq_append_left, lemma_contains_seq_append_right;

    reveal_strlit("ST_TileEnvelope");
    reveal_strlit("ST_TileEnvelope(");
    reveal_strlit("ST_MakeEnvelope");
    reveal_strlit(", ST_MakeEnvelope(");
    let env = envelope_statement(t, Some(TILE_QUERY_MARGIN_E7));
    let tile_env = "ST_TileEnvelope"@;
    let make_env = "ST_MakeEnvelope"@;
    assert("ST_TileEnvelope("@.subrange(0, 0 + tile_env.len() as int) =~= tile_env);
    assert(contains_seq("ST_TileEnvelope("@, tile_env));
    assert(", ST_MakeEnvelope("@.subrange(2, 2 + make_env.len() as int) =~= make_env);
    assert(contains_seq(", ST_MakeEnvelope("@, make_env));
    assert(contains_seq(env, "ST_TileEnvelope"@));
    assert(contains_seq(env, "ST_MakeEnvelope"@));
}

} // verus!
