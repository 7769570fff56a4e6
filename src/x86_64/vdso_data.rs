use vstd::prelude::*;

use crate::vdso_time_data::{refreshed_from_platform, seq_next, VdsoTimeData, CS_BASES};
use crate::x86_64::config::ClockMode;
use crate::x86_64::pvclock_data::PvClockTimeInfo;

verus! {

/// The shared page on x86_64: the clock records, then one paravirtualized
/// clock slot per CPU.
pub struct VdsoData {
    pub time_data: VdsoTimeData,
    pub pvclock: [PvClockTimeInfo; 128],
}

impl VdsoData {
    pub open spec fn wf(&self) -> bool {
        self.time_data.wf()
    }

    /// The zero state of the page.
    pub fn new() -> (r: Self)
        ensures
            r.wf(),
            forall|i: int|
                0 <= i < CS_BASES ==> crate::vdso_time_data::zero_clock(
                    #[trigger] r.time_data.clock_data@[i],
                ),
            forall|i: int| 0 <= i < 128 ==> (#[trigger] r.pvclock@[i]).pvti.is_zero(),
    {
        let slot = PvClockTimeInfo::new();
        VdsoData { time_data: VdsoTimeData::new(), pvclock: [slot; 128] }
    }

    /// Refreshes the clock records from the platform clocks.
    pub fn time_update(&mut self)
        requires
            old(self).wf(),
        ensures
            final(self).wf(),
            refreshed_from_platform(
                old(self).time_data.clock_data@,
                final(self).time_data.clock_data@,
            ),
            final(self).pvclock@ == old(self).pvclock@,
            forall|i: int|
                0 <= i < CS_BASES ==> (#[trigger] final(self).time_data.stores(i)).len() == old(
                    self,
                ).time_data.stores(i).len() + 3 && final(self).time_data.stores(i).subrange(
                    0,
                    old(self).time_data.stores(i).len() as int,
                ) == old(self).time_data.stores(i),
    {
        self.time_data.update();
    }

    /// Switches the clock records to the paravirtualized clock when the
    /// hypervisor offers one; returns whether it did.
    pub fn enable_pvclock(&mut self, kvm_clock_detected: bool) -> (r: bool)
        requires
            old(self).wf(),
        ensures
            final(self).wf(),
            r == kvm_clock_detected,
            final(self).pvclock@ == old(self).pvclock@,
            !r ==> final(self).time_data.clock_data@ == old(self).time_data.clock_data@,
            r ==> forall|i: int|
                0 <= i < CS_BASES ==> {
                    let o = old(self).time_data.clock_data@[i];
                    let n = #[trigger] final(self).time_data.clock_data@[i];
                    &&& n.seq == seq_next(seq_next(o.seq))
                    &&& n.clock_mode == ClockMode::Pvclock.spec_raw()
                    &&& n.cycle_last == o.cycle_last
                    &&& n.mask == o.mask
                    &&& n.mult == o.mult
                    &&& n.shift == o.shift
                    &&& n.basetime@ == o.basetime@
                },
    {
        if !kvm_clock_detected {
            return false;
        }
        self.time_data.set_pvclock_mode();
        true
    }
}

impl VdsoTimeData {
    /// Tags every record as read through the paravirtualized clock.
    pub fn set_pvclock_mode(&mut self)
        requires
            old(self).wf(),
        ensures
            final(self).wf(),
            forall|i: int|
                0 <= i < CS_BASES ==> {
                    let o = old(self).clock_data@[i];
                    let n = #[trigger] final(self).clock_data@[i];
                    &&& n.seq == seq_next(seq_next(o.seq))
                    &&& n.clock_mode == ClockMode::Pvclock.spec_raw()
                    &&& n.cycle_last == o.cycle_last
                    &&& n.mask == o.mask
                    &&& n.mult == o.mult
                    &&& n.shift == o.shift
                    &&& n.basetime@ == o.basetime@
                },
    {
        self.set_clock_mode(ClockMode::Pvclock.raw());
    }
}

/// Whether the hypervisor's CPUID leaves offer the KVM clock: the feature
/// leaf must exist and announce either clock source.
pub fn kvm_clock_supported(max_leaf: u32, features: u32) -> (r: bool)
    ensures
        r == (max_leaf >= 0x4000_0001 && (features & 0x9) != 0),
{
    if max_leaf < 0x4000_0001 {
        return false;
    }
    // bit 3: the current clock source MSRs; bit 0: the older ones
    let has_clocksource2 = (features & 0x8u32) != 0;
    let has_clocksource = (features & 0x1u32) != 0;
    assert((features & 0x9u32) != 0u32 <==> ((features & 0x8u32) != 0u32 || (features & 0x1u32)
        != 0u32)) by (bit_vector);
    has_clocksource2 || has_clocksource
}

impl Default for VdsoData {
    /// The zero state of the page, as [`VdsoData::new`] builds it.
    fn default() -> (r: Self)
        ensures
            r.wf(),
            forall|i: int|
                0 <= i < CS_BASES ==> crate::vdso_time_data::zero_clock(
                    #[trigger] r.time_data.clock_data@[i],
                ),
    {
        Self::new()
    }
}

} // verus!
