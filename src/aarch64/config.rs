use vstd::prelude::*;

verus! {

/// Pages of shared state mapped below the vDSO image.
pub const VVAR_PAGES: usize = 4;

} // verus!
