//! The route-finding side of the library: request validation, distance
//! conversion into a table's native unit, and the per-request pipeline
//! pieces under [`utils`].
//!
//! Distances avoid machine floats by carrying fixed-point integers: a
//! requested distance arrives in thousandths of a mile, and a converted
//! distance is expressed in units of `10^-7` of the table's native
//! distance unit.  At those scales every conversion below is exact.
use vstd::prelude::*;

use crate::AppError;
use crate::db::Table;

pub mod utils;

verus! {

/// The routing request parameters: the distance budget in thousandths of
/// a mile, and its units, which must be `"miles"` or `"mins"`.
#[derive(Debug)]
pub struct RoutingOptions {
    pub dist: i64,
    pub units: String,
}

/// The starting point of a circuit request: web-Mercator coordinates in
/// units of `10^-7`, and the graph vertex anchoring the circuit.  Supplied
/// by the caller and not validated against the graph.
#[derive(Debug)]
pub struct StartingGeom {
    pub x_e7: i64,
    pub y_e7: i64,
    pub node_id: u32,
}

/// Options are valid when the units are recognised and the distance is
/// positive.
pub open spec fn routing_options_valid(o: RoutingOptions) -> bool {
    (o.units@ == "mins"@ || o.units@ == "miles"@) && o.dist > 0
}

/// Rejects unrecognised units and non-positive distances, before any
/// database work is attempted.
pub fn validate_routing_options(options: &RoutingOptions) -> (r: Result<(), AppError>)
    ensures
        r is Ok <==> routing_options_valid(*options),
        r matches Err(e) ==> e@ == "Missing or invalid distance units"@,
{
    let mins = "mins".to_owned();
    let miles = "miles".to_owned();
    if !options.units.eq(&mins) && !options.units.eq(&miles) {
        Err(AppError::new("Missing or invalid distance units"))
    } else if options.dist <= 0 {
        Err(AppError::new("Missing or invalid distance units"))
    } else {
        Ok(())
    }
}

/// Collects the per-path geometry documents that resolved, the upper
/// path first, then the lower; a path that failed is dropped rather than
/// failing the request, and no path at all is a valid empty result.
pub fn collect_circuit_paths(upper: Option<String>, lower: Option<String>) -> (r: Vec<String>)
    ensures
        r@ == (match upper {
            Some(u) => seq![u],
            None => Seq::<String>::empty(),
        }) + (match lower {
            Some(l) => seq![l],
            None => Seq::<String>::empty(),
        }),
{
    let mut r: Vec<String> = Vec::new();
    match upper {
        Some(u) => {
            r.push(u);
        },
        None => {},
    }
    match lower {
        Some(l) => {
            r.push(l);
        },
        None => {},
    }
    proof {
        assert(r@ =~= (match upper {
            Some(u) => seq![u],
            None => Seq::<String>::empty(),
        }) + (match lower {
            Some(l) => seq![l],
            None => Seq::<String>::empty(),
        }));
    }
    r
}

/// One mile is 5280 feet: converts thousandths of a mile into feet in
/// units of `10^-7`.
pub fn milli_miles_to_feet_e7(d: u64) -> (r: u64)
    requires
        d * 52800000 <= u64::MAX,
    ensures
        r == d * 52800000,
{
    d * 52800000
}

/// One mile is 1609.344 metres: converts thousandths of a mile into
/// metres in units of `10^-7`.
pub fn milli_miles_to_metres_e7(d: u64) -> (r: u64)
    requires
        d * 16093440 <= u64::MAX,
    ensures
        r == d * 16093440,
{
    d * 16093440
}

/// A minutes budget is scaled down to one twentieth (a factor of `0.05`)
/// of the converted figure.
pub fn apply_minutes_factor(d: u64) -> (r: u64)
    ensures
        r == d / 20,
{
    d / 20
}

/// The exact factor taking a distance in thousandths of a mile to the
/// table's native unit in units of `10^-7`: metres for `"m"` (and, as a
/// documented approximation, for `"deg"`), feet for `"us-ft"`, and the
/// figure passed through unchanged (still in miles) for anything else;
/// a minutes budget carries the additional factor of `0.05`.
pub open spec fn distance_factor_e7(unit: Seq<char>, is_mins: bool) -> int {
    if unit == "m"@ || unit == "deg"@ {
        if is_mins {
            804672
        } else {
            16093440
        }
    } else if unit == "us-ft"@ {
        if is_mins {
            2640000
        } else {
            52800000
        }
    } else {
        if is_mins {
            500
        } else {
            10000
        }
    }
}

/// Validates the request options, requires the table to declare a
/// distance unit, and converts the requested distance into the table's
/// native unit, in units of `10^-7`.  Fails, without any database work,
/// on invalid options or a table without distance data.
pub fn resolve_desired_distance(options: &RoutingOptions, table: &Table) -> (r: Result<
    u64,
    AppError,
>)
    requires
        options.dist <= 170_000_000_000i64,
    ensures
        r is Ok <==> routing_options_valid(*options) && table.dist_unit is Some,
        r matches Ok(d) ==> d == options.dist * distance_factor_e7(
            table.dist_unit->0@,
            options.units@ == "mins"@,
        ),
        r matches Err(e) ==> e@ == (if !routing_options_valid(*options) {
            "Missing or invalid distance units"@
        } else {
            "Specified table does not contain valid distance data"@
        }),
{
    proof {
        reveal_strlit("m");
        reveal_strlit("deg");
        reveal_strlit("us-ft");
        assert("m"@.len() == 1);
        assert("deg"@.len() == 3);
        assert("us-ft"@.len() == 5);
        assert("us-ft"@ != "m"@);
        assert("us-ft"@ != "deg"@);
        assert("deg"@ != "m"@);
    }
    if let Err(e) = validate_routing_options(options) {
        return Err(e);
    }
    let unit = match &table.dist_unit {
        Some(u) => u,
        None => {
            return Err(AppError::new("Specified table does not contain valid distance data"));
        },
    };
    let d = options.dist as u64;
    let ghost base: int = if unit@ == "m"@ || unit@ == "deg"@ {
        16093440
    } else if unit@ == "us-ft"@ {
        52800000
    } else {
        10000
    };
    let m_unit = "m".to_owned();
    let deg_unit = "deg".to_owned();
    let ft_unit = "us-ft".to_owned();
    let mut desired: u64 = if (*unit).eq(&m_unit) {
        milli_miles_to_metres_e7(d)
    } else if (*unit).eq(&ft_unit) {
        milli_miles_to_feet_e7(d)
    } else if (*unit).eq(&deg_unit) {
        milli_miles_to_metres_e7(d)
    } else {
        d * 10000
    };
    proof {
        assert(desired == d * base);
    }
    let mins = "mins".to_owned();
    if options.units.eq(&mins) {
        proof {
            assert(d * 16093440 / 20 == d * 804672) by (nonlinear_arith);
            assert(d * 52800000 / 20 == d * 2640000) by (nonlinear_arith);
            assert(d * 10000 / 20 == d * 500) by (nonlinear_arith);
        }
        desired = apply_minutes_factor(desired);
        proof {
            assert(desired == d * distance_factor_e7(unit@, true));
        }
    } else {
        proof {
            assert(desired == d * distance_factor_e7(unit@, false));
        }
    }
    Ok(desired)
}

} // verus!
