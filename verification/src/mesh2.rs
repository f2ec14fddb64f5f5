//! The second-level mesh: a first-level cell split eight by eight (roughly
//! ten kilometres on a side).
//!
//! Its six-character code appends a latitude digit and a longitude digit,
//! each in 0..=7, to the code of the first-level cell that contains it.

use vstd::prelude::*;
use crate::grid;
use crate::mesh1::Mesh1;
use crate::Mesh;

verus! {

/// A second-level cell.
#[derive(Debug, Clone, PartialEq)]
pub struct Mesh2 {
    code: String,
}

impl Mesh for Mesh2 {
    open spec fn domain() -> grid::Domain {
        crate::domain_spec()
    }

    open spec fn level() -> int {
        2
    }

    closed spec fn code_spec(&self) -> Seq<char> {
        self.code@
    }

    open spec fn wf(&self) -> bool {
        grid::valid_code(Self::domain(), Self::level(), self.code_spec())
    }

    proof fn properties() {
    }

    proof fn wf_code(&self) {
    }

    fn domain_of() -> grid::Domain {
        crate::domain_value()
    }

    fn level_num() -> u8 {
        2
    }

    fn from_valid_code(code: String) -> Self {
        Mesh2 { code }
    }

    fn code(&self) -> &str {
        self.code.as_str()
    }
}

impl Mesh2 {
    /// The first-level cell whose code this one extends.
    pub fn mesh1(&self) -> (r: Mesh1)
        requires
            self.wf(),
        ensures
            r.wf(),
            r.code_spec() == self.code_spec().subrange(0, 4),
    {
        proof {
            grid::lemma_ancestor_valid(Self::domain(), 2, 1, self.code_spec());
        }
        Mesh1::from_valid_code(grid::prefix_str(self.code.as_str(), 4))
    }
}

} // verus!
