use vstd::prelude::*;

verus! {

/// Pages of shared state mapped below the vDSO image.
pub const VVAR_PAGES: usize = 6;

/// Number of per-CPU paravirtualized clock records in the shared page.
pub const PVCLOCK_MAX_CPUS: usize = 128;

/// How user space reads the clock.
#[derive(Clone, Copy, PartialEq, Eq, Structural, Debug)]
pub enum ClockMode {
    Unsupported,
    Tsc,
    Pvclock,
}

impl ClockMode {
    /// The tag stored in a clock record.
    pub open spec fn spec_raw(self) -> i32 {
        match self {
            ClockMode::Unsupported => 0,
            ClockMode::Tsc => 1,
            ClockMode::Pvclock => 2,
        }
    }

    pub fn raw(self) -> (r: i32)
        ensures
            r == self.spec_raw(),
    {
        match self {
            ClockMode::Unsupported => 0,
            ClockMode::Tsc => 1,
            ClockMode::Pvclock => 2,
        }
    }
}

} // verus!
