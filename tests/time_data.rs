use vdso_core::aarch64::vdso_data::VdsoData as Aarch64VdsoData;
use vdso_core::loongarch64::config::ClockMode as LoongClockMode;
use vdso_core::riscv64::config::ClockMode as RiscvClockMode;
use vdso_core::vdso_time_data::{
    clock_sample, ClockSample, VdsoClock, VdsoTimeData, VdsoTimestamp, CLOCK_BOOTTIME, CLOCK_MONOTONIC,
    CLOCK_REALTIME,
};
use vdso_core::x86_64::config::ClockMode;
use vdso_core::x86_64::getcpu::{gdt_entry_count, gdt_needs_extension, getcpu_gdt_entry};
use vdso_core::x86_64::pvclock_data::{
    kvm_clock_msr_words, pvclock_record_paddr, PvClockTimeInfo, PvClockVcpuTimeInfo,
};
use vdso_core::x86_64::vdso_data::{kvm_clock_supported, VdsoData};

fn sample(k: u64) -> ClockSample {
    ClockSample {
        cycles: 1000 * k,
        mono_ns: 5_000_000_123 + k,
        real_ns: 1_700_000_000_000_000_000 + k,
        mult: 0x0100_0000,
        shift: 24,
    }
}

/// A reader's copy of the fields a snapshot is made of.
fn payload(c: &VdsoClock) -> (i32, u64, u64, u32, u32, [VdsoTimestamp; 16]) {
    (c.clock_mode, c.cycle_last, c.mask, c.mult, c.shift, c.basetime)
}

#[test]
fn new_time_data_is_zero_and_stable() {
    let d = VdsoTimeData::new();
    for c in d.clock_data.iter() {
        assert_eq!(c.seq, 0);
        assert_eq!(c.clock_mode, ClockMode::Unsupported.raw());
        assert_eq!((c.cycle_last, c.mask, c.mult, c.shift), (0, 0, 0, 0));
        assert!(c.basetime.iter().all(|t| *t == VdsoTimestamp { sec: 0, nsec: 0 }));
    }
}

#[test]
fn update_publishes_sample_and_keeps_counter_even() {
    let mut d = VdsoTimeData::new();
    d.update_with(sample(1));
    for c in d.clock_data.iter() {
        assert_eq!(c.seq, 2);
        assert_eq!(c.cycle_last, 1000);
        assert_eq!(c.mask, u64::MAX);
        assert_eq!((c.mult, c.shift), (0x0100_0000, 24));
        assert_eq!(c.basetime[CLOCK_REALTIME], VdsoTimestamp { sec: 1_700_000_000, nsec: 1 });
        assert_eq!(c.basetime[CLOCK_MONOTONIC], VdsoTimestamp { sec: 5, nsec: 124 });
        assert_eq!(c.basetime[CLOCK_BOOTTIME], VdsoTimestamp { sec: 5, nsec: 124 });
        assert_eq!(c.basetime[2], VdsoTimestamp { sec: 0, nsec: 0 });
    }
    d.update_with(sample(2));
    assert_eq!(d.clock_data[0].seq, 4);
}

#[test]
fn counter_wraps_around() {
    let mut c = VdsoClock::new();
    c.seq = u32::MAX - 1;
    c.update(sample(3));
    assert_eq!(c.seq, 0);
}

#[test]
fn write_window_flips_parity() {
    let mut c = VdsoClock::new();
    c.write_seqcount_begin();
    assert_eq!(c.seq % 2, 1);
    c.write_sample(sample(1));
    assert_eq!(c.seq, 1);
    c.write_seqcount_end();
    assert_eq!(c.seq, 2);
}

/// Drives writer stores and reader steps in every interleaving of one
/// reader attempt with two writer ticks, and checks that an accepted copy
/// always equals one published state.
#[test]
fn reader_never_accepts_torn_copy() {
    // writer stores for two ticks: begin, payload, end, each as one step
    let mut states: Vec<VdsoClock> = Vec::new();
    let mut c = VdsoClock::new();
    states.push(c);
    for k in 1..3u64 {
        c.write_seqcount_begin();
        states.push(c);
        c.write_sample(sample(k));
        states.push(c);
        c.write_seqcount_end();
        states.push(c);
    }
    let published: Vec<_> = states.iter().filter(|s| s.seq % 2 == 0).map(payload).collect();
    let n = states.len();
    let mut accepted = 0;
    for i in 0..n {
        for m in i..n {
            for j in m..n {
                // sequence read at i, fields copied at m, sequence read at j
                let (s1, s2) = (states[i].seq, states[j].seq);
                let copy = payload(&states[m]);
                if s1 == s2 && s1 % 2 == 0 {
                    accepted += 1;
                    assert_eq!(copy, payload(&states[i]));
                    assert!(published.contains(&copy));
                }
            }
        }
    }
    assert!(accepted > 0);
}

#[test]
fn set_pvclock_mode_tags_every_record() {
    let mut d = VdsoTimeData::new();
    d.update_with(sample(1));
    d.set_pvclock_mode();
    for c in d.clock_data.iter() {
        assert_eq!(c.clock_mode, 2);
        assert_eq!(c.seq, 4);
        assert_eq!(c.cycle_last, 1000);
    }
}

#[test]
fn x86_data_is_zero_and_pvclock_follows_detection() {
    let mut d = VdsoData::new();
    assert_eq!(d.pvclock.len(), 128);
    assert_eq!(d.pvclock[127].pvti.version, 0);
    assert!(!d.enable_pvclock(false));
    assert_eq!(d.time_data.clock_data[0].clock_mode, 0);
    assert_eq!(d.time_data.clock_data[0].seq, 0);
    assert!(d.enable_pvclock(true));
    assert!(d.time_data.clock_data.iter().all(|c| c.clock_mode == ClockMode::Pvclock.raw()));
}

#[test]
fn aarch64_data_is_zero() {
    let d = Aarch64VdsoData::new();
    assert!(d.timen_data.iter().all(|&b| b == 0));
    assert!(d.rng_data.iter().all(|&b| b == 0));
    assert!(d.arch_data.iter().all(|&b| b == 0));
    assert_eq!(d.time_data.clock_data[1].seq, 0);
}

#[test]
fn clock_mode_tags() {
    assert_eq!(ClockMode::Unsupported.raw(), 0);
    assert_eq!(ClockMode::Tsc.raw(), 1);
    assert_eq!(ClockMode::Pvclock.raw(), 2);
    assert_eq!(RiscvClockMode::Csr.raw(), 1);
    assert_eq!(LoongClockMode::Unsupported.raw(), 0);
}

#[test]
fn pvclock_records_start_zero() {
    let p = PvClockVcpuTimeInfo::new();
    assert_eq!((p.version, p.tsc_timestamp, p.system_time, p.tsc_shift, p.flags), (0, 0, 0, 0, 0));
    assert_eq!(PvClockTimeInfo::new().pvti.pad, [0, 0]);
}

#[test]
fn pvclock_slot_addresses() {
    assert_eq!(pvclock_record_paddr(0x8000_0000, 0), 0x8000_1000);
    assert_eq!(pvclock_record_paddr(0x8000_0000, 3), 0x8000_1000 + 96);
}

#[test]
fn kvm_msr_value_sets_enable_bit() {
    assert_eq!(kvm_clock_msr_words(0x1_2345_6000), (0x2345_6001, 0x1));
    assert_eq!(kvm_clock_msr_words(0), (1, 0));
}

#[test]
fn kvm_clock_detection() {
    assert!(!kvm_clock_supported(0x4000_0000, 0x9));
    assert!(kvm_clock_supported(0x4000_0001, 0x8));
    assert!(kvm_clock_supported(0x4000_0001, 0x1));
    assert!(!kvm_clock_supported(0x4000_0010, 0x6));
}

#[test]
fn getcpu_descriptor_encoding() {
    let (val, entry) = getcpu_gdt_entry(3, 1);
    assert_eq!(val, 0x1003);
    assert_eq!(entry, 0x1003 | (0xF2u64 << 40));
    let (val, entry) = getcpu_gdt_entry(0x1fff, 0x12);
    assert_eq!(val, 0x12fff);
    assert_eq!(entry, 0x2fff | (0xF2u64 << 40) | (0x1u64 << 48));
    assert!(gdt_needs_extension(126));
    assert!(!gdt_needs_extension(127));
    assert_eq!(gdt_entry_count(127), 16);
}

#[test]
fn clock_sample_saturates_factor() {
    let s = clock_sample(7, 8, 9, u64::MAX);
    assert_eq!(s, ClockSample { cycles: 7, mono_ns: 8, real_ns: 9, mult: u32::MAX, shift: 24 });
    assert_eq!(clock_sample(1, 2, 3, 1000).mult, 1000);
}

#[test]
fn default_page_equals_new() {
    let d = VdsoData::default();
    assert!(d.time_data.clock_data.iter().all(|c| c.seq == 0 && c.clock_mode == 0));
    assert_eq!(d.pvclock[0].pvti.version, 0);
    let a = Aarch64VdsoData::default();
    assert!(a.arch_data.iter().all(|&b| b == 0));
    assert_eq!(a.time_data.clock_data[0].cycle_last, 0);
}
