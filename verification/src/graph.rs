//! Read-only road-network records handed to the core by the graph store:
//! vertices with coordinates, and edges with their domain attributes.

use vstd::prelude::*;

verus! {

/// A geographic position in microdegrees of latitude and longitude.
#[derive(Clone, Copy, Debug, PartialEq, Eq, Structural)]
pub struct Coordinate {
    pub lat_microdeg: i64,
    pub lon_microdeg: i64,
}

/// Meters per degree of latitude, rounded down, so that a meridian distance
/// computed with it never overestimates the true great-circle distance.
pub open spec fn meters_per_degree_latitude_floor() -> int {
    111194
}

impl Coordinate {
    /// A coordinate on the globe: latitude within ninety degrees of the
    /// equator, longitude within one hundred eighty degrees of the prime
    /// meridian.
    pub open spec fn is_valid(&self) -> bool {
        &&& -90000000 <= self.lat_microdeg <= 90000000
        &&& -180000000 <= self.lon_microdeg <= 180000000
    }
}

/// The meridian distance between the latitudes of two coordinates, in whole
/// meters rounded down: a cheap lower bound of the great-circle distance
/// between them, zero for two identical coordinates.
pub open spec fn latitude_distance_meters(a: Coordinate, b: Coordinate) -> int {
    let delta = if a.lat_microdeg >= b.lat_microdeg {
        a.lat_microdeg - b.lat_microdeg
    } else {
        b.lat_microdeg - a.lat_microdeg
    };
    delta * meters_per_degree_latitude_floor() / 1000000
}

/// A vertex of the road network, identified by id, with its coordinate.
#[derive(Clone, Copy, Debug, PartialEq, Eq, Structural)]
pub struct Vertex {
    pub vertex_id: usize,
    pub coordinate: Coordinate,
}

/// A directed edge of the road network with its domain attributes. The
/// distance is stored in the base unit, whole meters; the grade in
/// thousandths of rise over run.
#[derive(Clone, Copy, Debug, PartialEq, Eq, Structural)]
pub struct Edge {
    pub edge_id: usize,
    pub src_vertex_id: usize,
    pub dst_vertex_id: usize,
    pub distance_meters: u64,
    pub grade_millis: i64,
    pub road_class: u8,
}

/// Computes the meridian-distance lower bound between two coordinates, in
/// whole meters.
pub fn lower_bound_distance_meters(a: &Coordinate, b: &Coordinate) -> (r: u64)
    requires
        a.is_valid(),
        b.is_valid(),
    ensures
        r == latitude_distance_meters(*a, *b),
{
    let delta: i64 = if a.lat_microdeg >= b.lat_microdeg {
        a.lat_microdeg - b.lat_microdeg
    } else {
        b.lat_microdeg - a.lat_microdeg
    };
    let scaled: u64 = (delta as u64) * 111194 / 1000000;
    proof {
        assert(scaled == latitude_distance_meters(*a, *b)) by (nonlinear_arith)
            requires
                0 <= delta <= 180000000,
                scaled == (delta as int) * 111194 / 1000000,
                latitude_distance_meters(*a, *b) == (delta as int)
                    * meters_per_degree_latitude_floor() / 1000000,
                meters_per_degree_latitude_floor() == 111194,
        ;
    }
    scaled
}

} // verus!
