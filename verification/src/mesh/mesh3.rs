//! The third-level mesh of the wide domain: a second-level cell split ten
//! by ten (roughly one kilometre on a side), the standard unit of the grid.

use vstd::prelude::*;
use crate::grid;
use crate::mesh::mesh1::Mesh1;
use crate::mesh::mesh2::Mesh2;
use crate::Mesh;

verus! {

/// A third-level cell.
#[derive(Debug, Clone, PartialEq)]
pub struct Mesh3 {
    code: String,
}

impl Mesh for Mesh3 {
    open spec fn domain() -> grid::Domain {
        crate::mesh::domain_spec()
    }

    open spec fn level() -> int {
        3
    }

    closed spec fn code_spec(&self) -> Seq<char> {
        self.code@
    }

    open spec fn wf(&self) -> bool {
        grid::valid_code(Self::domain(), Self::level(), self.code_spec())
    }

    proof fn properties() {
    }

    proof fn wf_code(&self) {
    }

    fn domain_of() -> grid::Domain {
        crate::mesh::domain_value()
    }

    fn level_num() -> u8 {
        3
    }

    fn from_valid_code(code: String) -> Self {
        Mesh3 { code }
    }

    fn code(&self) -> &str {
        self.code.as_str()
    }
}

impl Mesh3 {
    /// The first-level cell whose code this one extends.
    pub fn mesh1(&self) -> (r: Mesh1)
        requires
            self.wf(),
        ensures
            r.wf(),
            r.code_spec() == self.code_spec().subrange(0, 4),
    {
        proof {
            grid::lemma_ancestor_valid(Self::domain(), 3, 1, self.code_spec());
        }
        Mesh1::from_valid_code(grid::prefix_str(self.code.as_str(), 4))
    }

    /// The second-level cell whose code this one extends.
    pub fn mesh2(&self) -> (r: Mesh2)
        requires
            self.wf(),
        ensures
            r.wf(),
            r.code_spec() == self.code_spec().subrange(0, 6),
    {
        proof {
            grid::lemma_ancestor_valid(Self::domain(), 3, 2, self.code_spec());
        }
        Mesh2::from_valid_code(grid::prefix_str(self.code.as_str(), 6))
    }
}

} // verus!
