//! The fifth-level mesh of the wide domain: a fourth-level cell split in
//! four quadrants (roughly two hundred and fifty metres on a side).

use vstd::prelude::*;
use crate::grid;
use crate::mesh::mesh1::Mesh1;
use crate::mesh::mesh2::Mesh2;
use crate::mesh::mesh3::Mesh3;
use crate::mesh::mesh4::Mesh4;
use crate::Mesh;

verus! {

/// A fifth-level cell: one quadrant of a fourth-level cell.
#[derive(Debug, Clone, PartialEq)]
pub struct Mesh5 {
    code: String,
}

impl Mesh for Mesh5 {
    open spec fn domain() -> grid::Domain {
        crate::mesh::domain_spec()
    }

    open spec fn level() -> int {
        5
    }

    closed spec fn code_spec(&self) -> Seq<char> {
        self.code@
    }

    open spec fn wf(&self) -> bool {
        grid::valid_code(Self::domain(), Self::level(), self.code_spec())
    }

    proof fn properties() {
    }

    proof fn wf_code(&self) {
    }

    fn domain_of() -> grid::Domain {
        crate::mesh::domain_value()
    }

    fn level_num() -> u8 {
        5
    }

    fn from_valid_code(code: String) -> Self {
        Mesh5 { code }
    }

    fn code(&self) -> &str {
        self.code.as_str()
    }
}

impl Mesh5 {
    /// The first-level cell whose code this one extends.
    pub fn mesh1(&self) -> (r: Mesh1)
        requires
            self.wf(),
        ensures
            r.wf(),
            r.code_spec() == self.code_spec().subrange(0, 4),
    {
        proof {
            grid::lemma_ancestor_valid(Self::domain(), 5, 1, self.code_spec());
        }
        Mesh1::from_valid_code(grid::prefix_str(self.code.as_str(), 4))
    }

    /// The second-level cell whose code this one extends.
    pub fn mesh2(&self) -> (r: Mesh2)
        requires
            self.wf(),
        ensures
            r.wf(),
            r.code_spec() == self.code_spec().subrange(0, 6),
    {
        proof {
            grid::lemma_ancestor_valid(Self::domain(), 5, 2, self.code_spec());
        }
        Mesh2::from_valid_code(grid::prefix_str(self.code.as_str(), 6))
    }

    /// The third-level cell whose code this one extends.
    pub fn mesh3(&self) -> (r: Mesh3)
        requires
            self.wf(),
        ensures
            r.wf(),
            r.code_spec() == self.code_spec().subrange(0, 8),
    {
        proof {
            grid::lemma_ancestor_valid(Self::domain(), 5, 3, self.code_spec());
        }
        Mesh3::from_valid_code(grid::prefix_str(self.code.as_str(), 8))
    }

    /// The fourth-level cell whose code this one extends.
    pub fn mesh4(&self) -> (r: Mesh4)
        requires
            self.wf(),
        ensures
            r.wf(),
            r.code_spec() == self.code_spec().subrange(0, 9),
    {
        proof {
            grid::lemma_ancestor_valid(Self::domain(), 5, 4, self.code_spec());
        }
        Mesh4::from_valid_code(grid::prefix_str(self.code.as_str(), 9))
    }
}

} // verus!
