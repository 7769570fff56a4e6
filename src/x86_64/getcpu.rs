use vstd::prelude::*;

verus! {

/// Index of the GDT entry whose segment limit carries the CPU and node ids.
pub const GETCPU_GDT_ENTRY: usize = 15;

/// Number of 8-byte entries in the enlarged GDT.
pub const EXTENDED_GDT_ENTRIES: usize = 32;

/// Access byte of the getcpu entry: present, DPL 3, read-only data.
pub const GETCPU_ACCESS_BYTE: u64 = 0xF2;

/// The getcpu value: the node id above bit 12, the low 12 bits of the CPU
/// id below.
pub open spec fn getcpu_value(cpu_id: u32, node_id: u32) -> u32 {
    (node_id << 12u32) | (cpu_id & 0xfff)
}

/// The descriptor that encodes `val` in its 20-bit segment limit.
pub open spec fn getcpu_descriptor(val: u32) -> u64 {
    ((val & 0xffff) as u64) | (GETCPU_ACCESS_BYTE << 40u64) | ((((val >> 16u32) & 0xf) as u64)
        << 48u64)
}

/// Whether a GDT with the given limit lacks the getcpu entry.
pub fn gdt_needs_extension(limit: u16) -> (r: bool)
    ensures
        r == (limit < GETCPU_GDT_ENTRY * 8 + 7),
{
    let needed_limit: u16 = (GETCPU_GDT_ENTRY * 8 + 7) as u16;
    needed_limit > limit
}

/// Number of entries a GDT with the given limit holds.
pub fn gdt_entry_count(limit: u16) -> (r: usize)
    ensures
        r == (limit + 1) / 8,
{
    (limit as usize + 1) / 8
}

/// The getcpu value and the GDT descriptor that carries it.
pub fn getcpu_gdt_entry(cpu_id: u32, node_id: u32) -> (r: (u32, u64))
    ensures
        r.0 == getcpu_value(cpu_id, node_id),
        r.1 == getcpu_descriptor(r.0),
{
    let val = (node_id << 12u32) | (cpu_id & 0xfff);
    let limit_low = (val & 0xffff) as u64;
    let limit_high = ((val >> 16u32) & 0xf) as u64;
    let entry = limit_low | (GETCPU_ACCESS_BYTE << 40u64) | (limit_high << 48u64);
    (val, entry)
}

} // verus!
