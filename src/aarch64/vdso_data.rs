use vstd::prelude::*;

use crate::vdso_time_data::{refreshed_from_platform, VdsoTimeData, CS_BASES};

verus! {

/// The shared page on aarch64: the clock records, then three zeroed pages
/// for time-namespace, random-number and architecture data.
pub struct VdsoData {
    pub time_data: VdsoTimeData,
    pub timen_data: [u8; 4096],
    pub rng_data: [u8; 4096],
    pub arch_data: [u8; 4096],
}

impl VdsoData {
    pub open spec fn wf(&self) -> bool {
        self.time_data.wf()
    }

    /// The zero state of the page.
    pub fn new() -> (r: Self)
        ensures
            r.wf(),
            forall|i: int|
                0 <= i < CS_BASES ==> crate::vdso_time_data::zero_clock(
                    #[trigger] r.time_data.clock_data@[i],
                ),
            forall|i: int|
                0 <= i < 4096 ==> #[trigger] r.timen_data@[i] == 0 && r.rng_data@[i] == 0
                    && r.arch_data@[i] == 0,
    {
        VdsoData {
            time_data: VdsoTimeData::new(),
            timen_data: [0u8; 4096],
            rng_data: [0u8; 4096],
            arch_data: [0u8; 4096],
        }
    }

    /// Refreshes the clock records from the platform clocks.
    pub fn time_update(&mut self)
        requires
            old(self).wf(),
        ensures
            final(self).wf(),
            refreshed_from_platform(
                old(self).time_data.clock_data@,
                final(self).time_data.clock_data@,
            ),
            final(self).timen_data@ == old(self).timen_data@,
            final(self).rng_data@ == old(self).rng_data@,
            final(self).arch_data@ == old(self).arch_data@,
            forall|i: int|
                0 <= i < CS_BASES ==> (#[trigger] final(self).time_data.stores(i)).len() == old(
                    self,
                ).time_data.stores(i).len() + 3 && final(self).time_data.stores(i).subrange(
                    0,
                    old(self).time_data.stores(i).len() as int,
                ) == old(self).time_data.stores(i),
    {
        self.time_data.update();
    }
}

impl Default for VdsoData {
    /// The zero state of the page, as [`VdsoData::new`] builds it.
    fn default() -> (r: Self)
        ensures
            r.wf(),
            forall|i: int|
                0 <= i < CS_BASES ==> crate::vdso_time_data::zero_clock(
                    #[trigger] r.time_data.clock_data@[i],
                ),
    {
        Self::new()
    }
}

} // verus!
