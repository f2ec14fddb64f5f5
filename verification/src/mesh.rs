//! The mesh hierarchy over the wide domain: latitude 20 to 48 degrees,
//! longitude 118 to 150 degrees, in six levels.
//!
//! The types here follow the same rules as those at the crate root; only
//! the bounding box differs, and the hierarchy is carried down two further
//! levels, to cells an eighth of a kilometre on a side.

use vstd::prelude::*;
use crate::grid;

pub mod mesh1;
pub mod mesh2;
pub mod mesh3;
pub mod mesh4;
pub mod mesh5;
pub mod mesh6;

pub use mesh1::Mesh1;
pub use mesh2::Mesh2;
pub use mesh3::Mesh3;
pub use mesh4::Mesh4;
pub use mesh5::Mesh5;
pub use mesh6::Mesh6;

verus! {

/// The northern edge of the wide grid, in angle units (48 degrees).
pub const NORTHERNMOST: i64 = 48 * crate::UNITS_PER_DEGREE;

/// The southern edge of the wide grid, in angle units (20 degrees).
pub const SOUTHERNMOST: i64 = 20 * crate::UNITS_PER_DEGREE;

/// The eastern edge of the wide grid, in angle units (150 degrees).
pub const EASTERNMOST: i64 = 150 * crate::UNITS_PER_DEGREE;

/// The western edge of the wide grid, in angle units (118 degrees).
pub const WESTERNMOST: i64 = 118 * crate::UNITS_PER_DEGREE;

/// The wide domain: latitude 20 to 48 degrees, longitude 118 to 150
/// degrees.  The fields are those bounds in level-one code units:
/// 20 × 1.5, 48 × 1.5 − 1, 118 − 100 and 150 − 101.
pub open spec fn domain_spec() -> grid::Domain {
    grid::Domain { lat_field_min: 30, lat_field_max: 71, lon_field_min: 18, lon_field_max: 49 }
}

/// The wide domain, as a value.
pub fn domain_value() -> (r: grid::Domain)
    ensures
        r == domain_spec(),
{
    grid::Domain { lat_field_min: 30, lat_field_max: 71, lon_field_min: 18, lon_field_max: 49 }
}

} // verus!
