//! The first-level mesh: a cell 40 minutes of latitude by one degree of
//! longitude (roughly eighty kilometres on a side).
//!
//! Its four-character code holds two two-digit fields: the cell's southern
//! edge times 1.5, and its western edge minus 100 degrees.

use vstd::prelude::*;
use crate::grid;
use crate::Mesh;

verus! {

/// A first-level cell, the root of the hierarchy.
#[derive(Debug, Clone, PartialEq)]
pub struct Mesh1 {
    code: String,
}

impl Mesh for Mesh1 {
    open spec fn domain() -> grid::Domain {
        crate::domain_spec()
    }

    open spec fn level() -> int {
        1
    }

    closed spec fn code_spec(&self) -> Seq<char> {
        self.code@
    }

    open spec fn wf(&self) -> bool {
        grid::valid_code(Self::domain(), Self::level(), self.code_spec())
    }

    proof fn properties() {
    }

    proof fn wf_code(&self) {
    }

    fn domain_of() -> grid::Domain {
        crate::domain_value()
    }

    fn level_num() -> u8 {
        1
    }

    fn from_valid_code(code: String) -> Self {
        Mesh1 { code }
    }

    fn code(&self) -> &str {
        self.code.as_str()
    }
}

} // verus!
