//! Conversion between geographic coordinates and the codes of Japan's
//! standard hierarchical area-mesh grid.
//!
//! The grid nests six levels of rectangular cells.  A cell is identified by
//! a fixed-width decimal code; the code of a cell at one level extends the
//! code of the cell that contains it at the level above.  This crate
//! validates codes, bins coordinates into cells, computes a cell's extent,
//! and derives the adjacent cell in each compass direction, carrying into
//! the parent cell at a boundary.
//!
//! Angles are measured in units of 1/7,200,000 of a degree, so that every
//! cell boundary and every cell centre at every level is an exact integer.
//!
//! The grid is offered over two bounding boxes.  The types at the crate
//! root cover latitude 20 to 46 degrees and longitude 122 to 155 degrees,
//! in four levels; those under [`mesh`] cover latitude 20 to 48 degrees
//! and longitude 118 to 150 degrees, in six.  Both families share one
//! arithmetic core, the [`grid`] module, which states the code rules once
//! over an explicit domain value.

use vstd::prelude::*;

pub mod grid;
pub mod laws;
pub mod mesh;
pub mod mesh1;
pub mod mesh2;
pub mod mesh3;
pub mod mesh4;

pub use mesh1::Mesh1;
pub use mesh2::Mesh2;
pub use mesh3::Mesh3;
pub use mesh4::Mesh4;

verus! {

/// Angle units per degree: all latitudes and longitudes are integers in
/// units of 1/7,200,000 of a degree (half a milliarcsecond).
pub const UNITS_PER_DEGREE: i64 = 7_200_000;

/// The northern edge of the grid at the crate root, in angle units
/// (46 degrees).
pub const NORTHERNMOST: i64 = 46 * UNITS_PER_DEGREE;

/// The southern edge of the grid at the crate root, in angle units
/// (20 degrees).
pub const SOUTHERNMOST: i64 = 20 * UNITS_PER_DEGREE;

/// The eastern edge of the grid at the crate root, in angle units
/// (155 degrees).
pub const EASTERNMOST: i64 = 155 * UNITS_PER_DEGREE;

/// The western edge of the grid at the crate root, in angle units
/// (122 degrees).
pub const WESTERNMOST: i64 = 122 * UNITS_PER_DEGREE;

/// The domain of the mesh family at the crate root: latitude 20 to 46
/// degrees, longitude 122 to 155 degrees.  The fields are those bounds in
/// level-one code units: 20 × 1.5, 46 × 1.5 − 1, 122 − 100 and 155 − 101.
pub open spec fn domain_spec() -> grid::Domain {
    grid::Domain { lat_field_min: 30, lat_field_max: 68, lon_field_min: 22, lon_field_max: 54 }
}

/// The domain of the mesh family at the crate root, as a value.
pub fn domain_value() -> (r: grid::Domain)
    ensures
        r == domain_spec(),
{
    grid::Domain { lat_field_min: 30, lat_field_max: 68, lon_field_min: 22, lon_field_max: 54 }
}

/// The coordinate axis that a range check rejected.
#[derive(Debug, Clone, Copy, PartialEq, Eq, Structural)]
pub enum Axis {
    /// The latitude was out of range.
    Latitude,
    /// The longitude was out of range.
    Longitude,
}

/// The two ways an operation of this crate can fail.
#[derive(Debug, Clone, Copy, PartialEq, Eq, Structural)]
pub enum GSJPError {
    /// A coordinate lies outside the covered domain; names the axis at fault.
    OutOfRange(Axis),
    /// A mesh code fails the length, prefix or digit-range rules of its level.
    InvalidMeshCode,
}

/// The direction in which a second mesh adjoins a first, if it does.
#[derive(Debug, Clone, Copy, PartialEq, Eq, Structural)]
pub enum NeighborDirection {
    /// The meshes are not immediate four-directional neighbours.
    NotAdjacent,
    /// The second mesh adjoins on the north side.
    North,
    /// The second mesh adjoins on the east side.
    East,
    /// The second mesh adjoins on the south side.
    South,
    /// The second mesh adjoins on the west side.
    West,
}

/// A validated latitude/longitude pair, in angle units.
#[derive(Debug, Clone, Copy, PartialEq, Eq, Structural, Default)]
pub struct Coordinate {
    lat: i64,
    lon: i64,
}

impl Coordinate {
    /// The latitude is acceptable when it lies between the poles.
    pub open spec fn lat_ok(lat: int) -> bool {
        -90 * (UNITS_PER_DEGREE as int) <= lat <= 90 * (UNITS_PER_DEGREE as int)
    }

    /// The longitude is acceptable when it lies within a half turn of the
    /// prime meridian.
    pub open spec fn lon_ok(lon: int) -> bool {
        -180 * (UNITS_PER_DEGREE as int) <= lon <= 180 * (UNITS_PER_DEGREE as int)
    }

    /// Every constructed coordinate satisfies both range rules.
    pub open spec fn inv(self) -> bool {
        Self::lat_ok(self.lat_spec()) && Self::lon_ok(self.lon_spec())
    }

    /// The latitude, for specifications.
    pub closed spec fn lat_spec(self) -> int {
        self.lat as int
    }

    /// The longitude, for specifications.
    pub closed spec fn lon_spec(self) -> int {
        self.lon as int
    }

    /// Builds a coordinate from a latitude and a longitude in angle units,
    /// rejecting each axis independently.
    pub fn new(lat: i64, lon: i64) -> (r: Result<Coordinate, GSJPError>)
        ensures
            match r {
                Ok(c) => Self::lat_ok(lat as int) && Self::lon_ok(lon as int)
                    && c.lat_spec() == lat && c.lon_spec() == lon && c.inv(),
                Err(e) => {
                    ||| !Self::lat_ok(lat as int) && e == GSJPError::OutOfRange(Axis::Latitude)
                    ||| Self::lat_ok(lat as int) && !Self::lon_ok(lon as int)
                        && e == GSJPError::OutOfRange(Axis::Longitude)
                },
            },
    {
        if lat < -90 * UNITS_PER_DEGREE || lat > 90 * UNITS_PER_DEGREE {
            return Err(GSJPError::OutOfRange(Axis::Latitude));
        }
        if lon < -180 * UNITS_PER_DEGREE || lon > 180 * UNITS_PER_DEGREE {
            return Err(GSJPError::OutOfRange(Axis::Longitude));
        }
        Ok(Coordinate { lat, lon })
    }

    /// The latitude in angle units.
    pub fn lat(self) -> (r: i64)
        ensures
            r == self.lat_spec(),
    {
        self.lat
    }

    /// The longitude in angle units.
    pub fn lon(self) -> (r: i64)
        ensures
            r == self.lon_spec(),
    {
        self.lon
    }
}

/// One level of the mesh hierarchy: a family of cells of one size tiling
/// one domain, each named by a code.
///
/// A type implementing this trait fixes a domain and a level; the trait
/// then provides construction from a code string or a coordinate, the four
/// boundary accessors, the corner and centre coordinates, and the
/// derivation of neighbouring cells in the four compass directions, with
/// their diagonal compositions and the adjacency test.
pub trait Mesh: Sized {
    /// The domain that this mesh family tiles.
    spec fn domain() -> grid::Domain;

    /// The level of this mesh type, 1 through 6.
    spec fn level() -> int;

    /// The code of this mesh, as a sequence of characters.
    spec fn code_spec(&self) -> Seq<char>;

    /// Whether this mesh value is well formed.  Every value that can be
    /// constructed is; the predicate ties the contracts below together.
    spec fn wf(&self) -> bool;

    /// The domain of every mesh type is well formed, and its level is one
    /// of the six.
    proof fn properties()
        ensures
            Self::domain().wf(),
            1 <= Self::level() <= 6,
    ;

    /// A well-formed mesh holds a valid code.
    proof fn wf_code(&self)
        requires
            self.wf(),
        ensures
            grid::valid_code(Self::domain(), Self::level(), self.code_spec()),
    ;

    /// The domain, as a value.
    fn domain_of() -> (r: grid::Domain)
        ensures
            r == Self::domain(),
    ;

    /// The level, as a number.
    fn level_num() -> (r: u8)
        ensures
            r as int == Self::level(),
    ;

    /// Wraps a code that is already known to be valid.
    fn from_valid_code(code: String) -> (m: Self)
        requires
            grid::valid_code(Self::domain(), Self::level(), code@),
        ensures
            m.wf(),
            m.code_spec() == code@,
    ;

    /// The mesh code.
    fn code(&self) -> (r: &str)
        requires
            self.wf(),
        ensures
            r@ == self.code_spec(),
    ;

    /// Validates a code string and wraps it as a mesh.  Succeeds exactly on
    /// the valid codes of this level, and stores the code unchanged, so that
    /// `code` returns it as given.
    fn new(code: String) -> (r: Result<Self, GSJPError>)
        ensures
            match r {
                Ok(m) => grid::valid_code(Self::domain(), Self::level(), code@) && m.wf()
                    && m.code_spec() == code@,
                Err(e) => !grid::valid_code(Self::domain(), Self::level(), code@)
                    && e == GSJPError::InvalidMeshCode,
            },
    {
        proof {
            Self::properties();
        }
        let dm = Self::domain_of();
        if grid::validate(&dm, Self::level_num(), code.as_str()) {
            Ok(Self::from_valid_code(code))
        } else {
            Err(GSJPError::InvalidMeshCode)
        }
    }

    /// Bins a coordinate into the cell of this level that contains it.
    /// Succeeds exactly on the coordinates inside the domain, rejecting the
    /// latitude before the longitude, and the resulting cell contains the
    /// coordinate: cells are half open, owning their southern and western
    /// edges.
    fn from_coordinate(coord: Coordinate) -> (r: Result<Self, GSJPError>)
        ensures
            match r {
                Ok(m) => m.wf()
                    && grid::lat_in_domain(Self::domain(), coord.lat_spec())
                    && grid::lon_in_domain(Self::domain(), coord.lon_spec())
                    && grid::south_units(Self::level(), m.code_spec()) <= coord.lat_spec() < grid::south_units(Self::level(), m.code_spec()) + grid::cell_height(Self::level())
                    && grid::west_units(Self::level(), m.code_spec()) <= coord.lon_spec() < grid::west_units(Self::level(), m.code_spec()) + grid::cell_width(Self::level()),
                Err(e) => {
                    ||| !grid::lat_in_domain(Self::domain(), coord.lat_spec())
                        && e == GSJPError::OutOfRange(Axis::Latitude)
                    ||| grid::lat_in_domain(Self::domain(), coord.lat_spec())
                        && !grid::lon_in_domain(Self::domain(), coord.lon_spec())
                        && e == GSJPError::OutOfRange(Axis::Longitude)
                },
            },
    {
        proof {
            Self::properties();
        }
        let dm = Self::domain_of();
        match grid::bin_code(&dm, Self::level_num(), coord.lat(), coord.lon()) {
            Ok(t) => Ok(Self::from_valid_code(t)),
            Err(e) => Err(e),
        }
    }

    /// The southern edge, in angle units.
    fn south(&self) -> (r: i64)
        requires
            self.wf(),
        ensures
            r == grid::south_units(Self::level(), self.code_spec()),
    {
        proof {
            Self::properties();
            self.wf_code();
        }
        let dm = Self::domain_of();
        grid::south_of(&dm, Self::level_num(), self.code())
    }

    /// The western edge, in angle units.
    fn west(&self) -> (r: i64)
        requires
            self.wf(),
        ensures
            r == grid::west_units(Self::level(), self.code_spec()),
    {
        proof {
            Self::properties();
            self.wf_code();
        }
        let dm = Self::domain_of();
        grid::west_of(&dm, Self::level_num(), self.code())
    }

    /// The northern edge, in angle units: always the southern edge plus the
    /// level's fixed cell height.
    fn north(&self) -> (r: i64)
        requires
            self.wf(),
        ensures
            r == grid::south_units(Self::level(), self.code_spec()) + grid::cell_height(Self::level()),
    {
        proof {
            Self::properties();
            self.wf_code();
            grid::lemma_extent_bounds(Self::domain(), Self::level(), self.code_spec());
        }
        self.south() + grid::cell_height_of(Self::level_num())
    }

    /// The eastern edge, in angle units: always the western edge plus the
    /// level's fixed cell width.
    fn east(&self) -> (r: i64)
        requires
            self.wf(),
        ensures
            r == grid::west_units(Self::level(), self.code_spec()) + grid::cell_width(Self::level()),
    {
        proof {
            Self::properties();
            self.wf_code();
            grid::lemma_extent_bounds(Self::domain(), Self::level(), self.code_spec());
        }
        self.west() + grid::cell_width_of(Self::level_num())
    }

    /// The centre of the cell.
    fn center(&self) -> (c: Coordinate)
        requires
            self.wf(),
        ensures
            c.lat_spec() == grid::south_units(Self::level(), self.code_spec()) + grid::cell_height(Self::level()) / 2,
            c.lon_spec() == grid::west_units(Self::level(), self.code_spec()) + grid::cell_width(Self::level()) / 2,
    {
        proof {
            Self::properties();
            self.wf_code();
            grid::lemma_extent_bounds(Self::domain(), Self::level(), self.code_spec());
        }
        let lat = self.south() + grid::cell_height_of(Self::level_num()) / 2;
        let lon = self.west() + grid::cell_width_of(Self::level_num()) / 2;
        Coordinate::new(lat, lon).unwrap()
    }

    /// The north-east corner of the cell.
    fn north_east(&self) -> (c: Coordinate)
        requires
            self.wf(),
        ensures
            c.lat_spec() == grid::south_units(Self::level(), self.code_spec()) + grid::cell_height(Self::level()),
            c.lon_spec() == grid::west_units(Self::level(), self.code_spec()) + grid::cell_width(Self::level()),
    {
        proof {
            Self::properties();
            self.wf_code();
            grid::lemma_extent_bounds(Self::domain(), Self::level(), self.code_spec());
        }
        Coordinate::new(self.north(), self.east()).unwrap()
    }

    /// The south-east corner of the cell.
    fn south_east(&self) -> (c: Coordinate)
        requires
            self.wf(),
        ensures
            c.lat_spec() == grid::south_units(Self::level(), self.code_spec()),
            c.lon_spec() == grid::west_units(Self::level(), self.code_spec()) + grid::cell_width(Self::level()),
    {
        proof {
            Self::properties();
            self.wf_code();
            grid::lemma_extent_bounds(Self::domain(), Self::level(), self.code_spec());
        }
        Coordinate::new(self.south(), self.east()).unwrap()
    }

    /// The south-west corner of the cell: its anchor.
    fn south_west(&self) -> (c: Coordinate)
        requires
            self.wf(),
        ensures
            c.lat_spec() == grid::south_units(Self::level(), self.code_spec()),
            c.lon_spec() == grid::west_units(Self::level(), self.code_spec()),
    {
        proof {
            Self::properties();
            self.wf_code();
            grid::lemma_extent_bounds(Self::domain(), Self::level(), self.code_spec());
        }
        Coordinate::new(self.south(), self.west()).unwrap()
    }

    /// The north-west corner of the cell.
    fn north_west(&self) -> (c: Coordinate)
        requires
            self.wf(),
        ensures
            c.lat_spec() == grid::south_units(Self::level(), self.code_spec()) + grid::cell_height(Self::level()),
            c.lon_spec() == grid::west_units(Self::level(), self.code_spec()),
    {
        proof {
            Self::properties();
            self.wf_code();
            grid::lemma_extent_bounds(Self::domain(), Self::level(), self.code_spec());
        }
        Coordinate::new(self.north(), self.west()).unwrap()
    }

    /// The mesh one cell to the north.  Fails exactly when this cell
    /// touches the northern edge of the domain.
    fn north_mesh(&self) -> (r: Result<Self, GSJPError>)
        requires
            self.wf(),
        ensures
            match r {
                Ok(m) => m.wf()
                    && !grid::at_north_edge(Self::domain(), Self::level(), self.code_spec())
                    && grid::south_units(Self::level(), m.code_spec()) == grid::south_units(Self::level(), self.code_spec()) + grid::cell_height(Self::level())
                    && grid::west_units(Self::level(), m.code_spec()) == grid::west_units(Self::level(), self.code_spec()),
                Err(e) => grid::at_north_edge(Self::domain(), Self::level(), self.code_spec())
                    && e == GSJPError::InvalidMeshCode,
            },
    {
        proof {
            Self::properties();
            self.wf_code();
        }
        let dm = Self::domain_of();
        match grid::shift_north(&dm, Self::level_num(), self.code()) {
            Ok(t) => Ok(Self::from_valid_code(t)),
            Err(e) => Err(e),
        }
    }

    /// The mesh one cell to the east.  Fails exactly when this cell touches
    /// the eastern edge of the domain.
    fn east_mesh(&self) -> (r: Result<Self, GSJPError>)
        requires
            self.wf(),
        ensures
            match r {
                Ok(m) => m.wf()
                    && !grid::at_east_edge(Self::domain(), Self::level(), self.code_spec())
                    && grid::west_units(Self::level(), m.code_spec()) == grid::west_units(Self::level(), self.code_spec()) + grid::cell_width(Self::level())
                    && grid::south_units(Self::level(), m.code_spec()) == grid::south_units(Self::level(), self.code_spec()),
                Err(e) => grid::at_east_edge(Self::domain(), Self::level(), self.code_spec())
                    && e == GSJPError::InvalidMeshCode,
            },
    {
        proof {
            Self::properties();
            self.wf_code();
        }
        let dm = Self::domain_of();
        match grid::shift_east(&dm, Self::level_num(), self.code()) {
            Ok(t) => Ok(Self::from_valid_code(t)),
            Err(e) => Err(e),
        }
    }

    /// The mesh one cell to the south.  Fails exactly when this cell
    /// touches the southern edge of the domain.
    fn south_mesh(&self) -> (r: Result<Self, GSJPError>)
        requires
            self.wf(),
        ensures
            match r {
                Ok(m) => m.wf()
                    && !grid::at_south_edge(Self::domain(), Self::level(), self.code_spec())
                    && grid::south_units(Self::level(), m.code_spec()) == grid::south_units(Self::level(), self.code_spec()) - grid::cell_height(Self::level())
                    && grid::west_units(Self::level(), m.code_spec()) == grid::west_units(Self::level(), self.code_spec()),
                Err(e) => grid::at_south_edge(Self::domain(), Self::level(), self.code_spec())
                    && e == GSJPError::InvalidMeshCode,
            },
    {
        proof {
            Self::properties();
            self.wf_code();
        }
        let dm = Self::domain_of();
        match grid::shift_south(&dm, Self::level_num(), self.code()) {
            Ok(t) => Ok(Self::from_valid_code(t)),
            Err(e) => Err(e),
        }
    }

    /// The mesh one cell to the west.  Fails exactly when this cell touches
    /// the western edge of the domain.
    fn west_mesh(&self) -> (r: Result<Self, GSJPError>)
        requires
            self.wf(),
        ensures
            match r {
                Ok(m) => m.wf()
                    && !grid::at_west_edge(Self::domain(), Self::level(), self.code_spec())
                    && grid::west_units(Self::level(), m.code_spec()) == grid::west_units(Self::level(), self.code_spec()) - grid::cell_width(Self::level())
                    && grid::south_units(Self::level(), m.code_spec()) == grid::south_units(Self::level(), self.code_spec()),
                Err(e) => grid::at_west_edge(Self::domain(), Self::level(), self.code_spec())
                    && e == GSJPError::InvalidMeshCode,
            },
    {
        proof {
            Self::properties();
            self.wf_code();
        }
        let dm = Self::domain_of();
        match grid::shift_west(&dm, Self::level_num(), self.code()) {
            Ok(t) => Ok(Self::from_valid_code(t)),
            Err(e) => Err(e),
        }
    }

    /// The mesh one cell to the north and one to the east, as the
    /// composition of the two orthogonal moves, north first.
    fn north_east_mesh(&self) -> (r: Result<Self, GSJPError>)
        requires
            self.wf(),
        ensures
            match r {
                Ok(m) => m.wf()
                    && grid::south_units(Self::level(), m.code_spec()) == grid::south_units(Self::level(), self.code_spec()) + grid::cell_height(Self::level())
                    && grid::west_units(Self::level(), m.code_spec()) == grid::west_units(Self::level(), self.code_spec()) + grid::cell_width(Self::level()),
                Err(e) => e == GSJPError::InvalidMeshCode
                    && (grid::at_north_edge(Self::domain(), Self::level(), self.code_spec())
                        || grid::at_east_edge(Self::domain(), Self::level(), self.code_spec())),
            },
    {
        proof {
            Self::properties();
            self.wf_code();
        }
        let n = match self.north_mesh() {
            Ok(m) => m,
            Err(e) => {
                return Err(e);
            },
        };
        proof {
            n.wf_code();
            grid::lemma_east_edge_iff(Self::domain(), Self::level(), self.code_spec());
            grid::lemma_east_edge_iff(Self::domain(), Self::level(), n.code_spec());
        }
        n.east_mesh()
    }

    /// The mesh one cell to the south and one to the east, south first.
    fn south_east_mesh(&self) -> (r: Result<Self, GSJPError>)
        requires
            self.wf(),
        ensures
            match r {
                Ok(m) => m.wf()
                    && grid::south_units(Self::level(), m.code_spec()) == grid::south_units(Self::level(), self.code_spec()) - grid::cell_height(Self::level())
                    && grid::west_units(Self::level(), m.code_spec()) == grid::west_units(Self::level(), self.code_spec()) + grid::cell_width(Self::level()),
                Err(e) => e == GSJPError::InvalidMeshCode
                    && (grid::at_south_edge(Self::domain(), Self::level(), self.code_spec())
                        || grid::at_east_edge(Self::domain(), Self::level(), self.code_spec())),
            },
    {
        proof {
            Self::properties();
            self.wf_code();
        }
        let n = match self.south_mesh() {
            Ok(m) => m,
            Err(e) => {
                return Err(e);
            },
        };
        proof {
            n.wf_code();
            grid::lemma_east_edge_iff(Self::domain(), Self::level(), self.code_spec());
            grid::lemma_east_edge_iff(Self::domain(), Self::level(), n.code_spec());
        }
        n.east_mesh()
    }

    /// The mesh one cell to the south and one to the west, south first.
    fn south_west_mesh(&self) -> (r: Result<Self, GSJPError>)
        requires
            self.wf(),
        ensures
            match r {
                Ok(m) => m.wf()
                    && grid::south_units(Self::level(), m.code_spec()) == grid::south_units(Self::level(), self.code_spec()) - grid::cell_height(Self::level())
                    && grid::west_units(Self::level(), m.code_spec()) == grid::west_units(Self::level(), self.code_spec()) - grid::cell_width(Self::level()),
                Err(e) => e == GSJPError::InvalidMeshCode
                    && (grid::at_south_edge(Self::domain(), Self::level(), self.code_spec())
                        || grid::at_west_edge(Self::domain(), Self::level(), self.code_spec())),
            },
    {
        proof {
            Self::properties();
            self.wf_code();
        }
        let n = match self.south_mesh() {
            Ok(m) => m,
            Err(e) => {
                return Err(e);
            },
        };
        proof {
            n.wf_code();
            grid::lemma_west_edge_iff(Self::domain(), Self::level(), self.code_spec());
            grid::lemma_west_edge_iff(Self::domain(), Self::level(), n.code_spec());
        }
        n.west_mesh()
    }

    /// The mesh one cell to the north and one to the west, north first.
    fn north_west_mesh(&self) -> (r: Result<Self, GSJPError>)
        requires
            self.wf(),
        ensures
            match r {
                Ok(m) => m.wf()
                    && grid::south_units(Self::level(), m.code_spec()) == grid::south_units(Self::level(), self.code_spec()) + grid::cell_height(Self::level())
                    && grid::west_units(Self::level(), m.code_spec()) == grid::west_units(Self::level(), self.code_spec()) - grid::cell_width(Self::level()),
                Err(e) => e == GSJPError::InvalidMeshCode
                    && (grid::at_north_edge(Self::domain(), Self::level(), self.code_spec())
                        || grid::at_west_edge(Self::domain(), Self::level(), self.code_spec())),
            },
    {
        proof {
            Self::properties();
            self.wf_code();
        }
        let n = match self.north_mesh() {
            Ok(m) => m,
            Err(e) => {
                return Err(e);
            },
        };
        proof {
            n.wf_code();
            grid::lemma_west_edge_iff(Self::domain(), Self::level(), self.code_spec());
            grid::lemma_west_edge_iff(Self::domain(), Self::level(), n.code_spec());
        }
        n.west_mesh()
    }

    /// Tests whether another mesh is the immediate neighbour of this one in
    /// one of the four compass directions, by deriving each neighbour in
    /// turn — north, east, south, west — and comparing codes.  A diagonal
    /// neighbour, or any cell further away, is reported as not adjacent.
    /// Fails when a neighbour that has to be derived for the comparison does
    /// not exist because this cell touches the domain's edge.
    fn is_neighboring(&self, mesh: &Self) -> (r: Result<NeighborDirection, GSJPError>)
        requires
            self.wf(),
            mesh.wf(),
        ensures
            ({
                let dm = Self::domain();
                let lv = Self::level();
                let s = self.code_spec();
                let t = mesh.code_spec();
                let n_is = grid::south_units(Self::level(), mesh.code_spec()) == grid::south_units(Self::level(), self.code_spec()) + grid::cell_height(Self::level())
                    && grid::west_units(Self::level(), mesh.code_spec()) == grid::west_units(Self::level(), self.code_spec());
                let e_is = grid::west_units(Self::level(), mesh.code_spec()) == grid::west_units(Self::level(), self.code_spec()) + grid::cell_width(Self::level())
                    && grid::south_units(Self::level(), mesh.code_spec()) == grid::south_units(Self::level(), self.code_spec());
                let s_is = grid::south_units(Self::level(), mesh.code_spec()) == grid::south_units(Self::level(), self.code_spec()) - grid::cell_height(Self::level())
                    && grid::west_units(Self::level(), mesh.code_spec()) == grid::west_units(Self::level(), self.code_spec());
                let w_is = grid::west_units(Self::level(), mesh.code_spec()) == grid::west_units(Self::level(), self.code_spec()) - grid::cell_width(Self::level())
                    && grid::south_units(Self::level(), mesh.code_spec()) == grid::south_units(Self::level(), self.code_spec());
                match r {
                    Ok(d) => {
                        &&& !grid::at_north_edge(dm, lv, s)
                        &&& (d == NeighborDirection::North <==> n_is)
                        &&& (!n_is ==> !grid::at_east_edge(dm, lv, s)
                            && (d == NeighborDirection::East <==> e_is))
                        &&& (!n_is && !e_is ==> !grid::at_south_edge(dm, lv, s)
                            && (d == NeighborDirection::South <==> s_is))
                        &&& (!n_is && !e_is && !s_is ==> !grid::at_west_edge(dm, lv, s)
                            && (d == NeighborDirection::West <==> w_is))
                        &&& (!n_is && !e_is && !s_is && !w_is
                            ==> d == NeighborDirection::NotAdjacent)
                    },
                    Err(e) => {
                        &&& e == GSJPError::InvalidMeshCode
                        &&& {
                            ||| grid::at_north_edge(dm, lv, s)
                            ||| !n_is && grid::at_east_edge(dm, lv, s)
                            ||| !n_is && !e_is && grid::at_south_edge(dm, lv, s)
                            ||| !n_is && !e_is && !s_is && grid::at_west_edge(dm, lv, s)
                        }
                    },
                }
            }),
    {
        proof {
            Self::properties();
            self.wf_code();
            mesh.wf_code();
        }
        let n = match self.north_mesh() {
            Ok(m) => m,
            Err(e) => {
                return Err(e);
            },
        };
        proof {
            n.wf_code();
        }
        if grid::codes_equal(n.code(), mesh.code()) {
            return Ok(NeighborDirection::North);
        }
        proof {
            if grid::south_units(Self::level(), mesh.code_spec()) == grid::south_units(Self::level(), n.code_spec()) && grid::west_units(Self::level(), mesh.code_spec()) == grid::west_units(Self::level(), n.code_spec()) {
                grid::lemma_code_determined(Self::domain(), Self::level(), n.code_spec(),
                    mesh.code_spec());
            }
        }
        let n = match self.east_mesh() {
            Ok(m) => m,
            Err(e) => {
                return Err(e);
            },
        };
        proof {
            n.wf_code();
        }
        if grid::codes_equal(n.code(), mesh.code()) {
            return Ok(NeighborDirection::East);
        }
        proof {
            if grid::south_units(Self::level(), mesh.code_spec()) == grid::south_units(Self::level(), n.code_spec()) && grid::west_units(Self::level(), mesh.code_spec()) == grid::west_units(Self::level(), n.code_spec()) {
                grid::lemma_code_determined(Self::domain(), Self::level(), n.code_spec(),
                    mesh.code_spec());
            }
        }
        let n = match self.south_mesh() {
            Ok(m) => m,
            Err(e) => {
                return Err(e);
            },
        };
        proof {
            n.wf_code();
        }
        if grid::codes_equal(n.code(), mesh.code()) {
            return Ok(NeighborDirection::South);
        }
        proof {
            if grid::south_units(Self::level(), mesh.code_spec()) == grid::south_units(Self::level(), n.code_spec()) && grid::west_units(Self::level(), mesh.code_spec()) == grid::west_units(Self::level(), n.code_spec()) {
                grid::lemma_code_determined(Self::domain(), Self::level(), n.code_spec(),
                    mesh.code_spec());
            }
        }
        let n = match self.west_mesh() {
            Ok(m) => m,
            Err(e) => {
                return Err(e);
            },
        };
        proof {
            n.wf_code();
        }
        if grid::codes_equal(n.code(), mesh.code()) {
            return Ok(NeighborDirection::West);
        }
        proof {
            if grid::south_units(Self::level(), mesh.code_spec()) == grid::south_units(Self::level(), n.code_spec()) && grid::west_units(Self::level(), mesh.code_spec()) == grid::west_units(Self::level(), n.code_spec()) {
                grid::lemma_code_determined(Self::domain(), Self::level(), n.code_spec(),
                    mesh.code_spec());
            }
        }
        Ok(NeighborDirection::NotAdjacent)
    }
}

} // verus!
