use vstd::prelude::*;

verus! {

/// The per-vCPU time record that a KVM host fills in.
#[derive(Debug, Clone, Copy, Default)]
pub struct PvClockVcpuTimeInfo {
    pub version: u32,
    pub pad0: u32,
    pub tsc_timestamp: u64,
    pub system_time: u64,
    pub tsc_to_system_mul: u32,
    pub tsc_shift: i8,
    pub flags: u8,
    pub pad: [u8; 2],
}

/// One CPU's paravirtualized clock slot of the shared page.
#[derive(Debug, Clone, Copy, Default)]
pub struct PvClockTimeInfo {
    pub pvti: PvClockVcpuTimeInfo,
}

pub const PVCLOCK_TSC_STABLE_BIT: u8 = 0x1;
pub const PVCLOCK_GUEST_STOPPED: u8 = 0x2;

/// Bytes of one [`PvClockTimeInfo`] slot in the shared page.
pub const PVCLOCK_RECORD_SIZE: usize = 32;

pub const MSR_KVM_SYSTEM_TIME_NEW: u32 = 0x4b564d01;
pub const MSR_KVM_SYSTEM_TIME: u32 = 0x12;

impl PvClockVcpuTimeInfo {
    pub open spec fn is_zero(&self) -> bool {
        &&& self.version == 0
        &&& self.pad0 == 0
        &&& self.tsc_timestamp == 0
        &&& self.system_time == 0
        &&& self.tsc_to_system_mul == 0
        &&& self.tsc_shift == 0
        &&& self.flags == 0
        &&& self.pad@ == seq![0u8, 0u8]
    }

    pub fn new() -> (r: Self)
        ensures
            r.is_zero(),
    {
        let r = PvClockVcpuTimeInfo {
            version: 0,
            pad0: 0,
            tsc_timestamp: 0,
            system_time: 0,
            tsc_to_system_mul: 0,
            tsc_shift: 0,
            flags: 0,
            pad: [0, 0],
        };
        assert(r.pad@ =~= seq![0u8, 0u8]);
        r
    }
}

impl PvClockTimeInfo {
    pub fn new() -> (r: Self)
        ensures
            r.pvti.is_zero(),
    {
        PvClockTimeInfo { pvti: PvClockVcpuTimeInfo::new() }
    }
}

/// The value written to the KVM system-time MSR to register the record at
/// `paddr`: the address with its enable bit set.
pub open spec fn kvm_clock_msr_value(paddr: u64) -> u64 {
    paddr | 1
}

/// The MSR value of [`kvm_clock_msr_value`] split into its low and high
/// 32-bit halves, as `wrmsr` takes it.
pub fn kvm_clock_msr_words(paddr: u64) -> (r: (u32, u32))
    ensures
        r.0 as u64 == kvm_clock_msr_value(paddr) & 0xffff_ffff,
        r.1 as u64 == kvm_clock_msr_value(paddr) >> 32,
{
    let val = paddr | 1;
    assert(val & 0xffff_ffff <= 0xffff_ffff) by (bit_vector);
    assert(val >> 32 <= 0xffff_ffff) by (bit_vector);
    let low = (val & 0xffff_ffff) as u32;
    let high = (val >> 32) as u32;
    (low, high)
}

/// Physical address of CPU `cpu_id`'s clock slot, given the physical address
/// of the shared page: the slots follow the page of time data.
pub fn pvclock_record_paddr(vdso_paddr: usize, cpu_id: usize) -> (r: u64)
    requires
        vdso_paddr + 4096 + cpu_id * PVCLOCK_RECORD_SIZE <= u64::MAX,
    ensures
        r == vdso_paddr + 4096 + cpu_id * PVCLOCK_RECORD_SIZE,
{
    let base = vdso_paddr as u64 + 4096;
    let offset = cpu_id as u64 * PVCLOCK_RECORD_SIZE as u64;
    base + offset
}

} // verus!
