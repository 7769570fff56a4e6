use vstd::prelude::*;

verus! {

/// Pages of shared state mapped below the vDSO image.
pub const VVAR_PAGES: usize = 4;

/// Offset of the signal-return trampoline within the vDSO image.
pub const SIGRETURN_SYM_OFFSET: usize = 0x5e0;

/// How user space reads the clock.
#[derive(Clone, Copy, PartialEq, Eq, Structural, Debug)]
pub enum ClockMode {
    Unsupported,
    Csr,
}

impl ClockMode {
    /// The tag stored in a clock record.
    pub open spec fn spec_raw(self) -> i32 {
        match self {
            ClockMode::Unsupported => 0,
            ClockMode::Csr => 1,
        }
    }

    pub fn raw(self) -> (r: i32)
        ensures
            r == self.spec_raw(),
    {
        match self {
            ClockMode::Unsupported => 0,
            ClockMode::Csr => 1,
        }
    }
}

} // verus!
