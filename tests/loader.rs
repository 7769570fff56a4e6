use vdso_core::guard::VdsoAllocGuard;
use vdso_core::vdso::{
    load_vdso_at, map_vdso_segments, map_vvar_and_push_aux, parse_vdso_segments, plan_vdso_pages,
    segment_mapping, segment_mappings, shadow_image, vdso_aslr_addr_at, vvar_user_addr, AuxvEntry,
    ElfSegment, SegmentMapping, VdsoError, VdsoMapper, VdsoPageInfo, VdsoPagePlan,
    AT_SYSINFO_EHDR, VDSO_ASLR_PAGES, VDSO_USER_ADDR_BASE, MapSession, MapRequest, load_vdso_data,
    elf_header_fields_ok,
};
use vdso_core::loongarch64::config::VVAR_PAGES as LOONG_PAGES;
use vdso_core::riscv64::config::VVAR_PAGES as RISCV_PAGES;
use vdso_core::x86_64::config::VVAR_PAGES;

const PAGE: usize = 4096;

#[derive(Debug, Clone, PartialEq)]
enum Call {
    Image(usize, usize, usize),
    Vvar(usize, usize),
    Segment(usize, usize, usize),
}

struct Recorder {
    calls: Vec<Call>,
    fail_segment_at: Option<usize>,
    fail_vvar: bool,
    segments_seen: usize,
}

impl Recorder {
    fn new() -> Self {
        Recorder { calls: Vec::new(), fail_segment_at: None, fail_vvar: false, segments_seen: 0 }
    }
}

impl VdsoMapper for Recorder {
    type Error = &'static str;

    fn map_image(&mut self, user_addr: usize, paddr: usize, size: usize) -> Result<(), &'static str> {
        self.calls.push(Call::Image(user_addr, paddr, size));
        Ok(())
    }

    fn map_vvar(&mut self, user_addr: usize, paddr: usize) -> Result<(), &'static str> {
        self.calls.push(Call::Vvar(user_addr, paddr));
        if self.fail_vvar {
            Err("vvar")
        } else {
            Ok(())
        }
    }

    fn map_segment(&mut self, m: &SegmentMapping) -> Result<(), &'static str> {
        self.calls.push(Call::Segment(m.user_addr, m.paddr, m.size));
        let n = self.segments_seen;
        self.segments_seen += 1;
        if self.fail_segment_at == Some(n) {
            Err("segment")
        } else {
            Ok(())
        }
    }
}

fn put_u16(b: &mut [u8], at: usize, v: u16) {
    b[at..at + 2].copy_from_slice(&v.to_le_bytes());
}

fn put_u32(b: &mut [u8], at: usize, v: u32) {
    b[at..at + 4].copy_from_slice(&v.to_le_bytes());
}

fn put_u64(b: &mut [u8], at: usize, v: u64) {
    b[at..at + 8].copy_from_slice(&v.to_le_bytes());
}

/// A 64-bit little-endian ELF image of `len` bytes with the given program
/// headers `(type, vaddr, memsz)`, the table right after the file header.
fn synthetic_elf(len: usize, phs: &[(u32, u64, u64)]) -> Vec<u8> {
    let mut b = vec![0u8; len];
    b[0..4].copy_from_slice(&[0x7f, b'E', b'L', b'F']);
    b[4] = 2;
    b[5] = 1;
    b[6] = 1;
    put_u16(&mut b, 16, 3);
    put_u16(&mut b, 18, 0x3e);
    put_u32(&mut b, 20, 1);
    put_u64(&mut b, 32, 64);
    put_u16(&mut b, 52, 64);
    put_u16(&mut b, 54, 56);
    put_u16(&mut b, 56, phs.len() as u16);
    put_u16(&mut b, 58, 64);
    for (i, &(ty, vaddr, memsz)) in phs.iter().enumerate() {
        let at = 64 + 56 * i;
        put_u32(&mut b, at, ty);
        put_u32(&mut b, at + 4, 5);
        put_u64(&mut b, at + 16, vaddr);
        put_u64(&mut b, at + 24, vaddr);
        put_u64(&mut b, at + 32, memsz);
        put_u64(&mut b, at + 40, memsz);
        put_u64(&mut b, at + 48, 4096);
    }
    b
}

fn seg(is_load: bool, vaddr: u64, mem_size: u64) -> ElfSegment {
    ElfSegment { is_load, flags: 5, offset: 0, vaddr, file_size: mem_size, mem_size, align: 4096 }
}

#[test]
fn guard_disarmed_releases_nothing() {
    let mut g = VdsoAllocGuard::new(Some((0x10_0000, 3)));
    g.disarm();
    assert!(g.release().is_none());
}

#[test]
fn guard_armed_releases_once_with_page_layout() {
    let mut g = VdsoAllocGuard::new(Some((0x10_0000, 3)));
    let r = g.release().expect("armed guard releases");
    assert_eq!((r.addr, r.size, r.align), (0x10_0000, 3 * PAGE, PAGE));
    assert!(g.release().is_none());
}

#[test]
fn guard_without_allocation_releases_nothing() {
    let mut g = VdsoAllocGuard::new(None);
    assert!(g.release().is_none());
}

#[test]
fn plan_aligned_image_is_used_in_place() {
    let p = plan_vdso_pages(0x8000_0000, 0x8000_0000 + 10000).unwrap();
    assert_eq!(
        p,
        VdsoPagePlan { len: 10000, page_offset: 0, size: 3 * PAGE, num_pages: 3, needs_copy: false }
    );
}

#[test]
fn plan_misaligned_image_is_copied_at_its_offset() {
    let p = plan_vdso_pages(0x8000_0030, 0x8000_0030 + 10000).unwrap();
    assert_eq!(
        p,
        VdsoPagePlan { len: 10000, page_offset: 48, size: 3 * PAGE, num_pages: 3, needs_copy: true }
    );
    let p = plan_vdso_pages(0x8000_0ff0, 0x8000_0ff0 + 4096).unwrap();
    assert_eq!((p.page_offset, p.num_pages, p.size), (0xff0, 2, 2 * PAGE));
}

#[test]
fn plan_exact_page_multiple() {
    let p = plan_vdso_pages(0x1000, 0x3000).unwrap();
    assert_eq!((p.size, p.num_pages, p.page_offset), (2 * PAGE, 2, 0));
}

#[test]
fn plan_rejects_empty_or_inverted_range() {
    assert!(plan_vdso_pages(0x1000, 0x1000).is_none());
    assert!(plan_vdso_pages(0x2000, 0x1000).is_none());
}

#[test]
fn plan_rejects_sizes_that_do_not_fit() {
    assert!(plan_vdso_pages(0, usize::MAX).is_none());
    assert!(plan_vdso_pages(8, usize::MAX).is_none());
}

#[test]
fn shadow_copy_places_image_at_offset() {
    let src: Vec<u8> = (0..100u32).map(|i| (i % 251) as u8 + 1).collect();
    let out = shadow_image(&src, 48, PAGE);
    assert_eq!(out.len(), PAGE);
    assert!(out[..48].iter().all(|&b| b == 0));
    assert_eq!(&out[48..148], &src[..]);
    assert!(out[148..].iter().all(|&b| b == 0));
}

#[test]
fn aslr_addresses_for_fixed_inputs() {
    assert_eq!(
        vdso_aslr_addr_at(1_000_000, 0x8000_0030, 0x8000_0030 + 10000, 48),
        (0x7f04_7000, 0x7f04_7030)
    );
    assert_eq!(vdso_aslr_addr_at(0, 0x8000_0000, 0x8000_2000, 0), (0x7f04_9000, 0x7f04_9000));
    assert_eq!(vdso_aslr_addr_at(123_456_789, 0x40_0000, 0x40_1000, 0), (0x7f07_e000, 0x7f07_e000));
}

#[test]
fn aslr_base_stays_in_window() {
    for t in 0..2000u64 {
        let now = t.wrapping_mul(0x9e37_79b9_7f4a_7c15);
        let (base, vdso) = vdso_aslr_addr_at(now, 0x8000_0030, 0x8000_2000, 0x30);
        assert!(base >= VDSO_USER_ADDR_BASE);
        assert!(base < VDSO_USER_ADDR_BASE + VDSO_ASLR_PAGES * PAGE);
        assert_eq!(base % PAGE, 0);
        assert_eq!(vdso, base + 0x30);
        assert_eq!(vdso % PAGE, 0x30);
        let (b0, v0) = vdso_aslr_addr_at(now, 0x8000_0000, 0x8000_2000, 0);
        assert_eq!(b0, v0);
        assert_eq!(vdso_aslr_addr_at(now, 0x8000_0000, 0x8000_2000, 0), (b0, v0));
    }
}

#[test]
fn elf_parse_reads_program_headers() {
    let img = synthetic_elf(4096, &[(1, 0, 100), (2, 0x100, 16), (1, 8192, 50)]);
    let segs = parse_vdso_segments(&img).expect("valid ELF");
    assert_eq!(segs.len(), 3);
    assert_eq!(segs[0], seg(true, 0, 100));
    assert!(!segs[1].is_load);
    assert_eq!(segs[2], seg(true, 8192, 50));
}

#[test]
fn elf_parse_rejects_non_elf_and_out_of_range_table() {
    assert!(parse_vdso_segments(&vec![0u8; 4096]).is_none());
    let mut img = synthetic_elf(4096, &[(1, 0, 100)]);
    put_u64(&mut img, 32, 4090);
    assert!(parse_vdso_segments(&img).is_none());
}

#[test]
fn elf_parse_empty_table_has_no_segments() {
    let img = synthetic_elf(4096, &[]);
    assert_eq!(parse_vdso_segments(&img).unwrap().len(), 0);
}

#[test]
fn segment_mapping_rounds_and_offsets() {
    let m = segment_mapping(seg(true, 8192 + 16, 50), 0x7f04_7030, 0x1000_0000, 48).unwrap();
    assert_eq!((m.user_addr, m.paddr, m.size), (0x7f04_9000, 0x1000_2000, PAGE));
    let m = segment_mapping(seg(true, 0, 4090), 0x7f04_7030, 0x1000_0000, 48).unwrap();
    assert_eq!((m.user_addr, m.paddr, m.size), (0x7f04_7000, 0x1000_0000, 2 * PAGE));
    assert!(segment_mapping(seg(true, u64::MAX - 10, 50), 0x7f04_7000, 0, 0).is_none());
}

#[test]
fn two_segment_image_maps_twice() {
    let segs = vec![seg(true, 0, 100), seg(false, 0x100, 8), seg(true, 8192, 50)];
    let base = 0x7f04_7000;
    let mut rec = MapSession::new(Recorder::new());
    let r = map_vdso_segments(&segs, base, 0x1000_0000, 0, &mut rec);
    assert!(r.is_ok());
    assert_eq!(
        rec.mapper.calls,
        vec![
            Call::Segment(base, 0x1000_0000, PAGE),
            Call::Segment(base + 8192, 0x1000_0000 + 8192, PAGE),
        ]
    );
    let maps = segment_mappings(&segs, base, 0x1000_0000, 0).unwrap();
    assert!(maps[0].size >= 100 && maps[1].size >= 50);
}

#[test]
fn segment_overflow_is_invalid_executable_before_any_call() {
    let segs = vec![seg(true, 0, 100), seg(true, u64::MAX - 10, 50)];
    let mut rec = MapSession::new(Recorder::new());
    let r = map_vdso_segments(&segs, 0x7f04_7000, 0, 0, &mut rec);
    assert!(matches!(r, Err(VdsoError::InvalidExecutable)));
    assert!(rec.mapper.calls.is_empty());
}

#[test]
fn segment_failure_stops_mapping() {
    let segs = vec![seg(true, 0, 100), seg(true, 8192, 50)];
    let mut rec = MapSession::new(Recorder::new());
    rec.mapper.fail_segment_at = Some(0);
    let r = map_vdso_segments(&segs, 0x7f04_7000, 0, 0, &mut rec);
    assert!(matches!(r, Err(VdsoError::MapFailed("segment"))));
    assert_eq!(rec.mapper.calls.len(), 1);
}

#[test]
fn vvar_is_mapped_below_vdso_and_aux_pushed() {
    let mut auxv = vec![AuxvEntry { key: 6, value: PAGE }];
    let mut rec = MapSession::new(Recorder::new());
    let r = map_vvar_and_push_aux(&mut auxv, 0x7f04_7030, VVAR_PAGES, 0x2000_0000, &mut rec);
    assert!(r.is_ok());
    assert_eq!(rec.mapper.calls, vec![Call::Vvar(0x7f04_7030 - 6 * PAGE, 0x2000_0000)]);
    assert_eq!(auxv, vec![
        AuxvEntry { key: 6, value: PAGE },
        AuxvEntry { key: AT_SYSINFO_EHDR, value: 0x7f04_7030 },
    ]);
    assert_eq!(vvar_user_addr(0x7f04_7030, VVAR_PAGES), 0x7f04_7030 - VVAR_PAGES * PAGE);
}

#[test]
fn vvar_failure_leaves_auxv_alone() {
    let mut auxv = Vec::new();
    let mut rec = MapSession::new(Recorder::new());
    rec.mapper.fail_vvar = true;
    let r = map_vvar_and_push_aux(&mut auxv, 0x7f04_7030, VVAR_PAGES, 0x2000_0000, &mut rec);
    assert!(matches!(r, Err(VdsoError::MapFailed("vvar"))));
    assert!(auxv.is_empty());
}

fn misaligned_setup() -> (Vec<u8>, VdsoPageInfo, usize, usize) {
    let kstart = 0x8000_0030;
    let kend = kstart + 10000;
    let image = synthetic_elf(10000, &[(1, 0, 10000)]);
    let plan = plan_vdso_pages(kstart, kend).unwrap();
    assert_eq!(plan.page_offset, 48);
    let shadow = shadow_image(&image, plan.page_offset, plan.size);
    let info = VdsoPageInfo {
        paddr_page: 0x1000_0000,
        size: plan.size,
        page_offset: plan.page_offset,
        alloc: Some((0xdead_0000, plan.num_pages)),
    };
    (shadow, info, kstart, kend)
}

#[test]
fn end_to_end_misaligned_image_loads() {
    let (shadow, info, kstart, kend) = misaligned_setup();
    let bytes = &shadow[48..48 + 10000];
    let (base, vdso) = vdso_aslr_addr_at(777, kstart, kend, info.page_offset);
    assert_eq!(vdso, base + 48);
    let mut auxv = Vec::new();
    let mut rec = MapSession::new(Recorder::new());
    let (res, release) = load_vdso_at(&mut auxv, &mut rec, vdso, &info, bytes, VVAR_PAGES, 0x2000_0000);
    assert!(res.is_ok());
    assert!(release.is_none());
    assert_eq!(auxv, vec![AuxvEntry { key: AT_SYSINFO_EHDR, value: vdso }]);
    assert!(vdso >= VDSO_USER_ADDR_BASE && vdso < VDSO_USER_ADDR_BASE + VDSO_ASLR_PAGES * PAGE);
    assert_eq!(
        rec.mapper.calls,
        vec![
            Call::Segment(base, 0x1000_0000, 3 * PAGE),
            Call::Vvar(vdso - VVAR_PAGES * PAGE, 0x2000_0000),
        ]
    );
}

#[test]
fn load_failure_releases_scratch_pages() {
    let (shadow, info, kstart, kend) = misaligned_setup();
    let bytes = &shadow[48..48 + 10000];
    let (_, vdso) = vdso_aslr_addr_at(5, kstart, kend, info.page_offset);
    let mut auxv = Vec::new();
    let mut rec = MapSession::new(Recorder::new());
    rec.mapper.fail_segment_at = Some(0);
    let (res, release) = load_vdso_at(&mut auxv, &mut rec, vdso, &info, bytes, VVAR_PAGES, 0x2000_0000);
    assert!(matches!(res, Err(VdsoError::MapFailed("segment"))));
    let rel = release.expect("scratch pages are released");
    assert_eq!((rel.addr, rel.size, rel.align), (0xdead_0000, 3 * PAGE, PAGE));
    assert!(auxv.is_empty());
}

#[test]
fn load_vvar_failure_keeps_mapped_pages() {
    let (shadow, info, kstart, kend) = misaligned_setup();
    let bytes = &shadow[48..48 + 10000];
    let (_, vdso) = vdso_aslr_addr_at(5, kstart, kend, info.page_offset);
    let mut auxv = Vec::new();
    let mut rec = MapSession::new(Recorder::new());
    rec.mapper.fail_vvar = true;
    let (res, release) = load_vdso_at(&mut auxv, &mut rec, vdso, &info, bytes, VVAR_PAGES, 0x2000_0000);
    assert!(matches!(res, Err(VdsoError::MapFailed("vvar"))));
    assert!(release.is_none());
    assert!(auxv.is_empty());
}

#[test]
fn load_non_elf_image_falls_back_to_one_block() {
    let info = VdsoPageInfo { paddr_page: 0x1000_0000, size: 3 * PAGE, page_offset: 48, alloc: None };
    let bytes = vec![0u8; 10000];
    let vdso = 0x7f04_7030;
    let mut auxv = Vec::new();
    let mut rec = MapSession::new(Recorder::new());
    let (res, release) = load_vdso_at(&mut auxv, &mut rec, vdso, &info, &bytes, VVAR_PAGES, 0x2000_0000);
    assert!(res.is_ok());
    assert!(release.is_none());
    assert_eq!(
        rec.mapper.calls,
        vec![
            Call::Image(0x7f04_7000, 0x1000_0000, 3 * PAGE),
            Call::Vvar(vdso - VVAR_PAGES * PAGE, 0x2000_0000),
        ]
    );
}

#[test]
fn load_bad_segment_is_invalid_executable() {
    let info = VdsoPageInfo { paddr_page: 0x1000_0000, size: PAGE, page_offset: 0, alloc: Some((0xbeef_0000, 1)) };
    let img = synthetic_elf(4096, &[(1, u64::MAX - 100, 16)]);
    let mut auxv = Vec::new();
    let mut rec = MapSession::new(Recorder::new());
    let (res, release) = load_vdso_at(&mut auxv, &mut rec, 0x7f04_7000, &info, &img, VVAR_PAGES, 0x2000_0000);
    assert!(matches!(res, Err(VdsoError::InvalidExecutable)));
    let rel = release.unwrap();
    assert_eq!((rel.addr, rel.size), (0xbeef_0000, PAGE));
    assert!(rec.mapper.calls.is_empty());
}

#[test]
fn elf_with_short_entries_falls_back() {
    let mut img = synthetic_elf(4096, &[(1, 0, 100)]);
    put_u16(&mut img, 54, 8);
    assert!(!elf_header_fields_ok(&img));
    assert!(parse_vdso_segments(&img).is_none());
    let img = synthetic_elf(4096, &[(1, 0, 100)]);
    assert!(elf_header_fields_ok(&img));
}

#[test]
fn elf_with_table_end_past_u64_falls_back() {
    let mut img = synthetic_elf(4096, &[(1, 0, 100)]);
    put_u64(&mut img, 32, u64::MAX - 7);
    assert!(!elf_header_fields_ok(&img));
    assert!(parse_vdso_segments(&img).is_none());
}

#[test]
fn synthetic_two_segment_elf_maps_at_base_and_base_plus_8192() {
    let img = synthetic_elf(4096, &[(1, 0, 100), (1, 8192, 50)]);
    let info = VdsoPageInfo { paddr_page: 0x1000_0000, size: PAGE, page_offset: 0, alloc: None };
    let base = 0x7f04_7000;
    let mut auxv = Vec::new();
    let mut rec = MapSession::new(Recorder::new());
    let (res, release) = load_vdso_at(&mut auxv, &mut rec, base, &info, &img, VVAR_PAGES, 0x2000_0000);
    assert!(res.is_ok());
    assert!(release.is_none());
    let segs: Vec<&Call> = rec.mapper.calls.iter().filter(|c| matches!(c, Call::Segment(..))).collect();
    assert_eq!(segs.len(), 2);
    match (segs[0], segs[1]) {
        (Call::Segment(u0, _, s0), Call::Segment(u1, _, s1)) => {
            assert_eq!((*u0, *u1), (base, base + 8192));
            assert!(*s0 >= 100 && *s1 >= 50);
            assert_eq!((*s0 % PAGE, *s1 % PAGE), (0, 0));
        }
        _ => unreachable!(),
    }
}

#[test]
fn elf_with_misaligned_table_or_entries_falls_back() {
    let mut img = synthetic_elf(4096, &[(1, 0, 100), (1, 8192, 50)]);
    put_u64(&mut img, 32, 68);
    assert!(!elf_header_fields_ok(&img));
    assert!(parse_vdso_segments(&img).is_none());
    let mut img = synthetic_elf(4096, &[(1, 0, 100), (1, 8192, 50)]);
    put_u16(&mut img, 54, 60);
    assert!(!elf_header_fields_ok(&img));
    assert!(parse_vdso_segments(&img).is_none());
}

#[test]
fn elf_parse_works_on_unaligned_slice() {
    let img = synthetic_elf(4097, &[(1, 0, 100), (1, 8192, 50)]);
    let mut shifted = vec![0u8; 1];
    shifted.extend_from_slice(&img[..4096]);
    let segs = parse_vdso_segments(&shifted[1..]).expect("valid ELF at an odd address");
    assert_eq!(segs.len(), 2);
    assert_eq!(segs[1], seg(true, 8192, 50));
}

#[test]
fn session_records_requests_in_order() {
    let mut s = MapSession::new(Recorder::new());
    assert!(s.request(MapRequest::Vvar { user_addr: 1, paddr: 2 }).is_ok());
    assert!(s.request(MapRequest::Image { user_addr: 3, paddr: 4, size: 5 }).is_ok());
    assert_eq!(s.mapper.calls, vec![Call::Vvar(1, 2), Call::Image(3, 4, 5)]);
}

#[test]
fn load_rejects_empty_range_before_any_request() {
    let info = VdsoPageInfo { paddr_page: 0, size: PAGE, page_offset: 0, alloc: Some((0xbeef_0000, 1)) };
    let mut auxv = Vec::new();
    let mut rec = MapSession::new(Recorder::new());
    let img = synthetic_elf(4096, &[(1, 0, 100)]);
    let (res, release) = load_vdso_data(&mut auxv, &mut rec, 0x2000, 0x2000, &info, &img, VVAR_PAGES, 0);
    assert!(matches!(res, Err(VdsoError::InvalidExecutable)));
    assert_eq!(release.unwrap().addr, 0xbeef_0000);
    assert!(rec.mapper.calls.is_empty());
    assert!(auxv.is_empty());
}

#[test]
fn vvar_page_count_is_per_architecture() {
    assert_eq!(vvar_user_addr(0x7f04_7030, RISCV_PAGES), 0x7f04_7030 - 4 * PAGE);
    assert_eq!(vvar_user_addr(0x7f04_7030, LOONG_PAGES), 0x7f04_7030 - 20 * PAGE);
}
