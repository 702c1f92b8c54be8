//! The per-request route pipeline: the extracted edge set, its node-pair
//! index, the solver exchange encoding, node-sequence reconstruction, and
//! the proximity and geometry queries.
use vstd::prelude::*;
use vstd::string::StringExecFns;
use std::collections::HashMap;

use crate::AppError;
use crate::db::Table;
use crate::routing::StartingGeom;
use crate::text::dec_digits;
use crate::text::decimal_e7;
use crate::text::i64_e7_to_string;
use crate::text::i64_to_string;
use crate::text::int_digits;
use crate::text::join_strings;
use crate::text::joined;
use crate::text::u64_to_string;

verus! {

/// One topology edge extracted for a request: its identifier, its two
/// node identifiers, and its weight, a truncated (hence integral) length.
#[derive(Debug, Clone, Copy, PartialEq, Eq, Structural)]
pub struct TopoEdgeRepresentation {
    pub edge_id: u32,
    pub start_node: u32,
    pub end_node: u32,
    pub weight: u64,
}

/// The packed key an ordered node pair is stored under.
pub open spec fn pair_key(u: u32, v: u32) -> u64 {
    (u as u64 * 0x100000000 + v as u64) as u64
}

proof fn lemma_pair_key_injective(a: u32, b: u32, u: u32, v: u32)
    requires
        pair_key(a, b) == pair_key(u, v),
    ensures
        a == u && b == v,
{
    assert(a as int * 0x100000000 + b as int == u as int * 0x100000000 + v as int);
    assert(a == u && b == v) by (nonlinear_arith)
        requires
            a as int * 0x100000000 + b as int == u as int * 0x100000000 + v as int,
            b < 0x100000000,
            v < 0x100000000,
    ;
}

/// Indexes a node pair to an edge unless the pair is already taken: the
/// first write wins.
pub open spec fn index_insert_pair(m: Map<(u32, u32), u32>, u: u32, v: u32, id: u32) -> Map<
    (u32, u32),
    u32,
> {
    if m.contains_key((u, v)) {
        m
    } else {
        m.insert((u, v), id)
    }
}

/// One edge enters the index under both orders of its node pair.
pub open spec fn index_add_edge(m: Map<(u32, u32), u32>, e: TopoEdgeRepresentation) -> Map<
    (u32, u32),
    u32,
> {
    index_insert_pair(
        index_insert_pair(m, e.start_node, e.end_node, e.edge_id),
        e.end_node,
        e.start_node,
        e.edge_id,
    )
}

/// The node-pair index of an edge sequence, built left to right with
/// first-write-wins semantics.
pub open spec fn edge_pair_index(edges: Seq<TopoEdgeRepresentation>) -> Map<(u32, u32), u32>
    decreases edges.len(),
{
    if edges.len() == 0 {
        Map::empty()
    } else {
        index_add_edge(edge_pair_index(edges.drop_last()), edges.last())
    }
}

/// The deterministic mapping from unordered node pairs to the identifier
/// of the first extracted edge joining them.  Parallel edges over the
/// same pair collapse to the first one seen; that limitation is kept by
/// design.
pub struct EdgeVertexIndex {
    map: HashMap<u64, u32>,
}

impl EdgeVertexIndex {
    pub closed spec fn view(&self) -> Map<(u32, u32), u32> {
        Map::new(
            |p: (u32, u32)| self.map@.contains_key(pair_key(p.0, p.1)),
            |p: (u32, u32)| self.map@[pair_key(p.0, p.1)],
        )
    }

    pub fn new() -> (idx: EdgeVertexIndex)
        ensures
            idx@ == Map::<(u32, u32), u32>::empty(),
    {
        let idx = EdgeVertexIndex { map: HashMap::new() };
        proof {
            assert(idx@ =~= Map::<(u32, u32), u32>::empty());
        }
        idx
    }

    fn insert_pair(&mut self, u: u32, v: u32, id: u32)
        ensures
            final(self)@ == index_insert_pair(old(self)@, u, v, id),
    {
        let key: u64 = (u as u64) * 0x100000000u64 + (v as u64);
        proof {
            assert(key == pair_key(u, v));
        }
        if !self.map.contains_key(&key) {
            self.map.insert(key, id);
            proof {
                assert forall|a: u32, b: u32| (a, b) != ((u, v)) implies pair_key(a, b)
                    != pair_key(u, v) by {
                    if pair_key(a, b) == pair_key(u, v) {
                        lemma_pair_key_injective(a, b, u, v);
                    }
                }
                assert(self@ =~= old(self)@.insert((u, v), id));
            }
        }
    }

    /// The edge indexed under the ordered pair `(u, v)`, if any.
    pub fn get(&self, u: u32, v: u32) -> (r: Option<u32>)
        ensures
            r == (if self@.contains_key((u, v)) {
                Some(self@[(u, v)])
            } else {
                None::<u32>
            }),
    {
        let key: u64 = (u as u64) * 0x100000000u64 + (v as u64);
        proof {
            assert(key == pair_key(u, v));
        }
        match self.map.get(&key) {
            Some(id) => Some(*id),
            None => None,
        }
    }
}

/// Builds the node-pair index of an extracted edge set: each edge is
/// indexed under both orders of its node pair, and the first edge seen
/// for a pair wins.
pub fn get_edge_to_vertex_pair_mapper(edges: &Vec<TopoEdgeRepresentation>) -> (idx:
    EdgeVertexIndex)
    ensures
        idx@ == edge_pair_index(edges@),
{
    let mut idx = EdgeVertexIndex::new();
    let mut i: usize = 0;
    while i < edges.len()
        invariant
            i <= edges@.len(),
            idx@ == edge_pair_index(edges@.take(i as int)),
        decreases edges@.len() - i,
    {
        let e = &edges[i];
        idx.insert_pair(e.start_node, e.end_node, e.edge_id);
        idx.insert_pair(e.end_node, e.start_node, e.edge_id);
        proof {
            let t = edges@.take(i as int + 1);
            assert(t.drop_last() =~= edges@.take(i as int));
            assert(t.last() == edges@[i as int]);
        }
        i = i + 1;
    }
    proof {
        assert(edges@.take(edges@.len() as int) =~= edges@);
    }
    idx
}

/// Law: the node-pair index is symmetric: a pair `(u, v)` is indexed
/// exactly when `(v, u)` is, and to the same edge.
pub proof fn lemma_edge_pair_index_symmetric(edges: Seq<TopoEdgeRepresentation>, u: u32, v: u32)
    ensures
        edge_pair_index(edges).contains_key((u, v)) == edge_pair_index(edges).contains_key(
            (v, u),
        ),
        edge_pair_index(edges).contains_key((u, v)) ==> edge_pair_index(edges)[(u, v)]
            == edge_pair_index(edges)[(v, u)],
    decreases edges.len(),
{
    if edges.len() > 0 {
        lemma_edge_pair_index_symmetric(edges.drop_last(), u, v);
        let e = edges.last();
        lemma_edge_pair_index_symmetric(edges.drop_last(), e.start_node, e.end_node);
    }
}

/// Law: a later edge over an already indexed node pair leaves the index
/// unchanged at that pair: the first write wins.
pub proof fn lemma_edge_pair_index_first_write_wins(
    edges: Seq<TopoEdgeRepresentation>,
    e: TopoEdgeRepresentation,
    u: u32,
    v: u32,
)
    requires
        edge_pair_index(edges).contains_key((u, v)),
    ensures
        edge_pair_index(edges.push(e)).contains_key((u, v)),
        edge_pair_index(edges.push(e))[(u, v)] == edge_pair_index(edges)[(u, v)],
{
    assert(edges.push(e).drop_last() =~= edges);
    assert(edges.push(e).last() == e);
}

/// Law: once a node pair is indexed, extending the edge sequence never
/// changes what the pair is indexed to: the first write wins over the
/// whole build.
pub proof fn lemma_edge_pair_index_persists(
    edges: Seq<TopoEdgeRepresentation>,
    k: int,
    u: u32,
    v: u32,
)
    requires
        0 <= k <= edges.len(),
        edge_pair_index(edges.take(k)).contains_key((u, v)),
    ensures
        edge_pair_index(edges).contains_key((u, v)),
        edge_pair_index(edges)[(u, v)] == edge_pair_index(edges.take(k))[(u, v)],
    decreases edges.len() - k,
{
    if k < edges.len() {
        assert(edges.take(k + 1) =~= edges.take(k).push(edges[k]));
        lemma_edge_pair_index_first_write_wins(edges.take(k), edges[k], u, v);
        lemma_edge_pair_index_persists(edges, k + 1, u, v);
    } else {
        assert(edges.take(k) =~= edges);
    }
}

/// Law: an edge whose node pair is not yet indexed binds the pair, in
/// both orders, to that edge.
pub proof fn lemma_edge_pair_index_fresh_insert(
    edges: Seq<TopoEdgeRepresentation>,
    e: TopoEdgeRepresentation,
)
    requires
        !edge_pair_index(edges).contains_key((e.start_node, e.end_node)),
    ensures
        edge_pair_index(edges.push(e)).contains_key((e.start_node, e.end_node)),
        edge_pair_index(edges.push(e)).contains_key((e.end_node, e.start_node)),
        edge_pair_index(edges.push(e))[(e.start_node, e.end_node)] == e.edge_id,
        edge_pair_index(edges.push(e))[(e.end_node, e.start_node)] == e.edge_id,
{
    lemma_edge_pair_index_symmetric(edges, e.start_node, e.end_node);
    assert(edges.push(e).drop_last() =~= edges);
    assert(edges.push(e).last() == e);
}

/// Maps a solver's node sequence to the edges joining its consecutive
/// pairs: an indexed pair yields the edge identifier rendered in decimal,
/// a pair absent from the index yields a gap rather than a failure.
pub fn process_routing_result_as_edge_list(
    results: &Vec<u32>,
    nodes_to_edge_mapper: &EdgeVertexIndex,
) -> (r: Vec<Option<String>>)
    ensures
        r@.len() == (if results@.len() == 0 {
            0int
        } else {
            results@.len() - 1
        }),
        forall|i: int|
            0 <= i < r@.len() ==> ((#[trigger] r@[i]) is Some
                <==> nodes_to_edge_mapper@.contains_key((results@[i], results@[i + 1]))),
        forall|i: int|
            0 <= i < r@.len() && (#[trigger] r@[i]) is Some ==> r@[i]->0@ == dec_digits(
                nodes_to_edge_mapper@[(results@[i], results@[i + 1])] as nat,
            ),
{
    let mut r: Vec<Option<String>> = Vec::new();
    if results.len() == 0 {
        return r;
    }
    let n = results.len();
    let mut i: usize = 0;
    while i < n - 1
        invariant
            n == results@.len(),
            n >= 1,
            i + 1 <= results@.len(),
            r@.len() == i as int,
            forall|j: int|
                0 <= j < i ==> ((#[trigger] r@[j]) is Some <==> nodes_to_edge_mapper@.contains_key(
                    (results@[j], results@[j + 1]),
                )),
            forall|j: int|
                0 <= j < i && (#[trigger] r@[j]) is Some ==> r@[j]->0@ == dec_digits(
                    nodes_to_edge_mapper@[(results@[j], results@[j + 1])] as nat,
                ),
        decreases results@.len() - i,
    {
        match nodes_to_edge_mapper.get(results[i], results[i + 1]) {
            Some(eid) => {
                r.push(Some(u64_to_string(eid as u64)));
            },
            None => {
                r.push(None);
            },
        }
        i = i + 1;
    }
    r
}

/// The solver exchange form of one edge.
pub open spec fn edge_json(e: TopoEdgeRepresentation) -> Seq<char> {
    "{\"edge_id\":"@ + dec_digits(e.edge_id as nat) + ",\"start_node\":"@ + dec_digits(
        e.start_node as nat,
    ) + ",\"end_node\":"@ + dec_digits(e.end_node as nat) + ",\"weight\":"@ + dec_digits(
        e.weight as nat,
    ) + ".0}"@
}

/// The solver exchange form of an edge set: a JSON array of edge records.
pub open spec fn edges_json(rows: Seq<TopoEdgeRepresentation>) -> Seq<char> {
    "["@ + joined(rows.map_values(|e: TopoEdgeRepresentation| edge_json(e)), ","@) + "]"@
}

fn edge_to_json(e: &TopoEdgeRepresentation) -> (s: String)
    ensures
        s@ == edge_json(*e),
{
    let mut s = "{\"edge_id\":".to_owned();
    s.append(u64_to_string(e.edge_id as u64).as_str());
    s.append(",\"start_node\":");
    s.append(u64_to_string(e.start_node as u64).as_str());
    s.append(",\"end_node\":");
    s.append(u64_to_string(e.end_node as u64).as_str());
    s.append(",\"weight\":");
    s.append(u64_to_string(e.weight).as_str());
    s.append(".0}");
    proof {
        assert(s@ =~= edge_json(*e));
    }
    s
}

/// Serialises an edge set to the exchange form the external solver
/// consumes.  Weights are integral lengths and are written with a
/// trailing `.0`.
pub fn try_convert_to_edge_json(rows: &Vec<TopoEdgeRepresentation>) -> (r: Result<String, AppError>)
    ensures
        r is Ok,
        r matches Ok(s) ==> s@ == edges_json(rows@),
{
    let mut objs: Vec<String> = Vec::new();
    let mut i: usize = 0;
    while i < rows.len()
        invariant
            i <= rows@.len(),
            objs@.map_values(|s: String| s@) == rows@.take(i as int).map_values(
                |e: TopoEdgeRepresentation| edge_json(e),
            ),
        decreases rows@.len() - i,
    {
        let oj = edge_to_json(&rows[i]);
        let ghost oj_snapshot = oj;
        let ghost objs_prev = objs@;
        objs.push(oj);
        proof {
            objs_prev.lemma_push_map_commute(|s: String| s@, oj_snapshot);
            rows@.lemma_map_take_succ(|e: TopoEdgeRepresentation| edge_json(e), i as int);
            assert(objs@.map_values(|s: String| s@) =~= rows@.take(i as int + 1).map_values(
                |e: TopoEdgeRepresentation| edge_json(e),
            ));
        }
        i = i + 1;
    }
    proof {
        assert(rows@.take(rows@.len() as int) =~= rows@);
    }
    let mut s = "[".to_owned();
    s.append(join_strings(&objs, ",").as_str());
    s.append("]");
    proof {
        assert(s@ =~= edges_json(rows@));
    }
    Ok(s)
}

/// The `::geography` cast suffix applied when the table compares
/// geodesically.
pub open spec fn geog_suffix(tab: Table) -> Seq<char> {
    if tab.use_geog {
        "::geography"@
    } else {
        Seq::<char>::empty()
    }
}

/// The columns a proximity query selects: the primary keys, then either
/// the declared attribute columns or the start/end node fallback pair.
pub open spec fn proximal_columns(tab: Table) -> Seq<char> {
    joined(tab.primary_key_columns@.map_values(|c: String| c@), ", "@) + (
    match tab.attr_columns {
        Some(a) => ", "@ + joined(a@.map_values(|c: String| c@), ", "@),
        None => ", start_node, end_node"@,
    })
}

/// The row restriction of a proximity query: within the desired distance
/// of the starting point, which is tagged web-Mercator and reprojected to
/// the table's system.
pub open spec fn proximal_restrictor(tab: Table, start: StartingGeom, distance_e7: int) -> Seq<
    char,
> {
    "WHERE ST_DWithin(t."@ + tab.geom_column->0@ + geog_suffix(tab)
        + ",\n        ST_Transform(ST_SetSRID(ST_MakePoint("@ + decimal_e7(start.x_e7 as int)
        + ","@ + decimal_e7(start.y_e7 as int) + "), 3857), "@ + int_digits(tab.srid->0 as int)
        + ")"@ + geog_suffix(tab) + ", "@ + decimal_e7(distance_e7) + ")"@
}

/// The full proximity query, weights computed as truncated lengths in
/// the same geodesic or planar mode as the distance test.
pub open spec fn proximal_features_query(tab: Table, start: StartingGeom, distance_e7: int) -> Seq<
    char,
> {
    "select "@ + proximal_columns(tab) + ", trunc(ST_Length(t."@ + tab.geom_column->0@
        + geog_suffix(tab) + ")) as weight\n        from "@ + tab.schema_name@ + "."@ + tab.name@
        + " t\n        "@ + proximal_restrictor(tab, start, distance_e7) + "\n        "@
}

/// Builds the query retrieving every topology edge whose geometry lies
/// within the desired distance (in `10^-7` of the table's native unit)
/// of the starting point.  Requires the table to carry both a geometry
/// column and a spatial reference.
#[verifier::rlimit(100)]
pub fn make_proximal_features_query(
    table: &Table,
    starting_geom: &StartingGeom,
    desired_distance_e7: u64,
) -> (r: Result<String, AppError>)
    requires
        desired_distance_e7 <= i64::MAX,
    ensures
        r is Ok <==> table.geom_column is Some && table.srid is Some,
        r matches Ok(q) ==> q@ == proximal_features_query(
            *table,
            *starting_geom,
            desired_distance_e7 as int,
        ),
        r matches Err(e) ==> e@ == "Table does not contain valid geometry data"@,
{
    let geom_col = match &table.geom_column {
        Some(g) => g,
        None => {
            return Err(AppError::new("Table does not contain valid geometry data"));
        },
    };
    let srid: i32 = match &table.srid {
        Some(s) => *s,
        None => {
            return Err(AppError::new("Table does not contain valid geometry data"));
        },
    };
    let use_geog: &str = if table.use_geog {
        "::geography"
    } else {
        ""
    };
    proof {
        reveal_strlit("");
        assert(use_geog@ =~= geog_suffix(*table));
    }
    let mut q = "select ".to_owned();
    q.append(join_strings(&table.primary_key_columns, ", ").as_str());
    match &table.attr_columns {
        Some(attrs) => {
            q.append(", ");
            q.append(join_strings(attrs, ", ").as_str());
        },
        None => {
            q.append(", start_node, end_node");
        },
    }
    q.append(", trunc(ST_Length(t.");
    q.append(geom_col.as_str());
    q.append(use_geog);
    q.append(")) as weight\n        from ");
    q.append(table.schema_name.as_str());
    q.append(".");
    q.append(table.name.as_str());
    q.append(" t\n        ");
    q.append("WHERE ST_DWithin(t.");
    q.append(geom_col.as_str());
    q.append(use_geog);
    q.append(",\n        ST_Transform(ST_SetSRID(ST_MakePoint(");
    q.append(i64_e7_to_string(starting_geom.x_e7).as_str());
    q.append(",");
    q.append(i64_e7_to_string(starting_geom.y_e7).as_str());
    q.append("), 3857), ");
    q.append(i64_to_string(srid as i64).as_str());
    q.append(")");
    q.append(use_geog);
    q.append(", ");
    q.append(i64_e7_to_string(desired_distance_e7 as i64).as_str());
    q.append(")");
    q.append("\n        ");
    proof {
        assert(q@ =~= proximal_features_query(
            *table,
            *starting_geom,
            desired_distance_e7 as int,
        ));
    }
    Ok(q)
}

/// The identifiers of a reconstructed path that are present: gaps are
/// dropped, order is kept.
pub open spec fn present_ids(path: Seq<Option<String>>) -> Seq<Seq<char>>
    decreases path.len(),
{
    if path.len() == 0 {
        Seq::empty()
    } else {
        present_ids(path.drop_last()) + (match path.last() {
            Some(s) => seq![s@],
            None => Seq::<Seq<char>>::empty(),
        })
    }
}

/// The query resolving a list of edge identifiers into one merged,
/// reprojected geometry document.
pub open spec fn path_geometries_query(path: Seq<Option<String>>, tab: Table) -> Seq<char> {
    "select st_asgeojson(c.*)::json as geoms\n                from\n                    (\n                    select\n                        ST_Collect(\n                    array(\n                        select\n                            ST_Transform(t."@
        + tab.geom_column->0@
        + ",\n                            3857) as geom\n                        from\n                            "@
        + tab.schema_name@ + "."@ + tab.name@
        + " t\n                        where\n                            t."@
        + tab.primary_key_columns@[0]@ + " in ("@ + joined(present_ids(path), ", "@)
        + ")\n                        )\n                    )\n                    ) c;"@
}

/// Builds the query that collects, reprojects and aggregates the
/// geometries of the rows whose first primary-key value is among the
/// given identifiers, serialised as one GeoJSON document.  Only the first
/// primary-key column filters rows; composite keys are deliberately not
/// fully supported here.
pub fn make_path_geometries_query(path: &Vec<Option<String>>, table: &Table) -> (r: Result<
    String,
    AppError,
>)
    ensures
        r is Ok <==> table.geom_column is Some && table.primary_key_columns@.len() > 0,
        r matches Ok(q) ==> q@ == path_geometries_query(path@, *table),
        r matches Err(e) ==> e@ == (if table.geom_column is None {
            "Failed to fetch geometries as GeoJSON"@
        } else {
            "Table does not contain valid primary key columns"@
        }),
{
    let geom_col = match &table.geom_column {
        Some(g) => g,
        None => {
            return Err(AppError::new("Failed to fetch geometries as GeoJSON"));
        },
    };
    if table.primary_key_columns.len() == 0 {
        return Err(AppError::new("Table does not contain valid primary key columns"));
    }
    let primary_key_column = &table.primary_key_columns[0];
    let mut ids: Vec<String> = Vec::new();
    let mut i: usize = 0;
    while i < path.len()
        invariant
            i <= path@.len(),
            ids@.map_values(|s: String| s@) == present_ids(path@.take(i as int)),
        decreases path@.len() - i,
    {
        match &path[i] {
            Some(id) => {
                ids.push(id.clone());
            },
            None => {},
        }
        proof {
            assert(path@.take(i as int + 1).drop_last() =~= path@.take(i as int));
            assert(ids@.map_values(|s: String| s@) =~= present_ids(path@.take(i as int + 1)));
        }
        i = i + 1;
    }
    proof {
        assert(path@.take(path@.len() as int) =~= path@);
    }
    let id_list = join_strings(&ids, ", ");
    let mut q =
        "select st_asgeojson(c.*)::json as geoms\n                from\n                    (\n                    select\n                        ST_Collect(\n                    array(\n                        select\n                            ST_Transform(t.".to_owned();
    q.append(geom_col.as_str());
    q.append(
        ",\n                            3857) as geom\n                        from\n                            ",
    );
    q.append(table.schema_name.as_str());
    q.append(".");
    q.append(table.name.as_str());
    q.append(" t\n                        where\n                            t.");
    q.append(primary_key_column.as_str());
    q.append(" in (");
    q.append(id_list.as_str());
    q.append(")\n                        )\n                    )\n                    ) c;");
    proof {
        assert(q@ =~= path_geometries_query(path@, *table));
    }
    Ok(q)
}

} // verus!
