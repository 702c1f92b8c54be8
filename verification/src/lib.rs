//! Core of a map-tile and loop-route server for a spatial database.
//!
//! The library builds the spatial SQL that extracts tile-clipped vector
//! geometry and proximity subgraphs, indexes extracted edges by their node
//! pairs, and reconstructs a solver's node sequences into edge identifiers
//! and geometry queries.  Everything here is pure computation over plain
//! values; the surrounding process performs the actual database and network
//! traffic and hands the results back in.
use vstd::prelude::*;

pub mod db;
pub mod layers;
pub mod routing;
pub mod text;

verus! {

/// Request-level error: a single descriptive message, as every failure of
/// the pipeline collapses to one generic failure signal at the boundary.
#[derive(Debug)]
pub struct AppError(pub String);

impl View for AppError {
    type V = Seq<char>;

    open spec fn view(&self) -> Seq<char> {
        self.0@
    }
}

impl AppError {
    pub fn new(msg: &str) -> (e: AppError)
        ensures
            e@ == msg@,
    {
        AppError(msg.to_owned())
    }

    pub fn message(&self) -> (m: &str)
        ensures
            m@ == self@,
    {
        self.0.as_str()
    }
}

/// Distance unit of a spatial reference system, for the commonly served
/// systems: geographic systems measure in degrees, projected systems in
/// metres or US survey feet.
pub open spec fn srid_unit(srid: i32) -> Option<Seq<char>> {
    if srid == 4326 || srid == 4269 {
        Some("deg"@)
    } else if srid == 3857 || srid == 2154 || srid == 25832 || srid == 26986 || srid == 27700
        || srid == 32610 || srid == 32633 {
        Some("m"@)
    } else if srid == 2230 || srid == 2249 || srid == 3435 {
        Some("us-ft"@)
    } else {
        None
    }
}

/// Looks up the distance unit used by a spatial reference system.
pub fn get_srid_unit(srid: i32) -> (r: Option<&'static str>)
    ensures
        match r {
            Some(u) => srid_unit(srid) == Some(u@),
            None => srid_unit(srid) is None,
        },
{
    if srid == 4326 || srid == 4269 {
        Some("deg")
    } else if srid == 3857 || srid == 2154 || srid == 25832 || srid == 26986 || srid == 27700
        || srid == 32610 || srid == 32633 {
        Some("m")
    } else if srid == 2230 || srid == 2249 || srid == 3435 {
        Some("us-ft")
    } else {
        None
    }
}

} // verus!
