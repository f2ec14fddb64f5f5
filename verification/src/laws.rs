//! The structural laws of the grid, stated over whole mesh values.
//!
//! The navigation contracts describe each derived cell by its extent; the
//! laws here turn those descriptions into statements about codes: a cell's
//! extent determines its code, a parent's extent contains its child's, a
//! move and its opposite return to the starting cell, and cells that are
//! near without being four-directional neighbours are never reported as
//! adjacent.

use vstd::prelude::*;
use crate::grid;
use crate::Mesh;

verus! {

/// Parent consistency: the leading characters of the code of any mesh of
/// level two or deeper form a valid code of the level above, and the cell
/// lies inside the extent of the parent cell so named.
pub proof fn lemma_parent_consistency<M: Mesh>(m: &M)
    requires
        m.wf(),
        M::level() >= 2,
    ensures
        grid::valid_code(M::domain(), M::level() - 1,
            m.code_spec().subrange(0, grid::code_len(M::level() - 1))),
        grid::south_units(M::level() - 1,
            m.code_spec().subrange(0, grid::code_len(M::level() - 1)))
            <= grid::south_units(M::level(), m.code_spec()),
        grid::south_units(M::level(), m.code_spec()) + grid::cell_height(M::level())
            <= grid::south_units(M::level() - 1,
                m.code_spec().subrange(0, grid::code_len(M::level() - 1)))
                + grid::cell_height(M::level() - 1),
        grid::west_units(M::level() - 1,
            m.code_spec().subrange(0, grid::code_len(M::level() - 1)))
            <= grid::west_units(M::level(), m.code_spec()),
        grid::west_units(M::level(), m.code_spec()) + grid::cell_width(M::level())
            <= grid::west_units(M::level() - 1,
                m.code_spec().subrange(0, grid::code_len(M::level() - 1)))
                + grid::cell_width(M::level() - 1),
{
    M::properties();
    m.wf_code();
    grid::lemma_prefix_valid(M::domain(), M::level(), m.code_spec());
}

/// Neighbour symmetry: for a mesh `m` whose northern neighbour `n` exists,
/// the southern neighbour of `n` exists and is `m` itself.  The two
/// neighbours are given by their extents, exactly as the navigation
/// contracts describe them; the conclusion is that the code of the second
/// is the code of `m`.
pub proof fn lemma_neighbor_symmetry<M: Mesh>(m: &M, n: &M, back: &M)
    requires
        m.wf(),
        n.wf(),
        back.wf(),
        grid::south_units(M::level(), n.code_spec())
            == grid::south_units(M::level(), m.code_spec()) + grid::cell_height(M::level()),
        grid::west_units(M::level(), n.code_spec())
            == grid::west_units(M::level(), m.code_spec()),
        grid::south_units(M::level(), back.code_spec())
            == grid::south_units(M::level(), n.code_spec()) - grid::cell_height(M::level()),
        grid::west_units(M::level(), back.code_spec())
            == grid::west_units(M::level(), n.code_spec()),
    ensures
        !grid::at_north_edge(M::domain(), M::level(), m.code_spec()),
        !grid::at_south_edge(M::domain(), M::level(), n.code_spec()),
        back.code_spec() == m.code_spec(),
{
    M::properties();
    m.wf_code();
    n.wf_code();
    back.wf_code();
    grid::lemma_extent_bounds(M::domain(), M::level(), m.code_spec());
    grid::lemma_extent_bounds(M::domain(), M::level(), n.code_spec());
    grid::lemma_north_edge_iff(M::domain(), M::level(), m.code_spec());
    grid::lemma_south_edge_iff(M::domain(), M::level(), n.code_spec());
    grid::lemma_code_determined(M::domain(), M::level(), back.code_spec(), m.code_spec());
}

/// Adjacency narrowing: a diagonal neighbour of a mesh, and a cell two
/// cells away in any one compass direction, fits none of the four extents
/// that the adjacency test recognises, so the test reports such a cell as
/// not adjacent even though the two are geometrically near.
pub proof fn lemma_adjacency_narrowing<M: Mesh>(m: &M, other: &M)
    requires
        m.wf(),
        other.wf(),
        ({
            let ds = grid::south_units(M::level(), other.code_spec())
                - grid::south_units(M::level(), m.code_spec());
            let dw = grid::west_units(M::level(), other.code_spec())
                - grid::west_units(M::level(), m.code_spec());
            let h = grid::cell_height(M::level());
            let w = grid::cell_width(M::level());
            ||| (ds == h || ds == -h) && (dw == w || dw == -w)
            ||| (ds == 2 * h || ds == -2 * h) && dw == 0
            ||| ds == 0 && (dw == 2 * w || dw == -2 * w)
        }),
    ensures
        !(grid::south_units(M::level(), other.code_spec())
            == grid::south_units(M::level(), m.code_spec()) + grid::cell_height(M::level())
            && grid::west_units(M::level(), other.code_spec())
                == grid::west_units(M::level(), m.code_spec())),
        !(grid::west_units(M::level(), other.code_spec())
            == grid::west_units(M::level(), m.code_spec()) + grid::cell_width(M::level())
            && grid::south_units(M::level(), other.code_spec())
                == grid::south_units(M::level(), m.code_spec())),
        !(grid::south_units(M::level(), other.code_spec())
            == grid::south_units(M::level(), m.code_spec()) - grid::cell_height(M::level())
            && grid::west_units(M::level(), other.code_spec())
                == grid::west_units(M::level(), m.code_spec())),
        !(grid::west_units(M::level(), other.code_spec())
            == grid::west_units(M::level(), m.code_spec()) - grid::cell_width(M::level())
            && grid::south_units(M::level(), other.code_spec())
                == grid::south_units(M::level(), m.code_spec())),
{
    M::properties();
}

} // verus!
