//! The layouts of a matrix of byte samples.

use vstd::prelude::*;

verus! {

/// A layout of byte samples.
#[derive(Clone, Copy, Debug, PartialEq, Eq, Structural)]
pub enum MatKind {
    Gray,
    U8C1,
    U8C2,
    U8C3,
    U8C4,
}

impl Default for MatKind {
    /// Three byte channels.
    fn default() -> (kind: MatKind)
        ensures
            kind == MatKind::U8C3,
    {
        MatKind::U8C3
    }
}

} // verus!
