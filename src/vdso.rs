use vstd::prelude::*;

use rand_core::RngCore;

use crate::guard::{released_by, ReleaseLayout, VdsoAllocGuard, PAGE_SIZE_4K};

verus! {

/// Lowest user address the vDSO image can be placed at.
pub const VDSO_USER_ADDR_BASE: usize = 0x7f00_0000;

/// Number of page positions the placement is drawn from.
pub const VDSO_ASLR_PAGES: usize = 256;

/// Auxiliary-vector key that carries the vDSO's user address.
pub const AT_SYSINFO_EHDR: usize = 33;

/// Why loading the vDSO failed.
pub enum VdsoError<E> {
    /// The image or its layout cannot be mapped.
    InvalidExecutable,
    /// The mapper rejected a region; its error, as it gave it.
    MapFailed(E),
}

/// One entry of a process's auxiliary vector.
#[derive(Clone, Copy, PartialEq, Eq, Structural, Debug)]
pub struct AuxvEntry {
    pub key: usize,
    pub value: usize,
}

/// Where the image's pages come from and how they are laid out.
#[derive(Clone, Copy, PartialEq, Eq, Structural, Debug)]
pub struct VdsoPagePlan {
    /// Bytes of the image.
    pub len: usize,
    /// Offset of the image's first byte within its first page.
    pub page_offset: usize,
    /// Bytes of the mapping: whole pages.
    pub size: usize,
    /// Pages of the mapping.
    pub num_pages: usize,
    /// Whether the image must be copied to fresh pages at `page_offset`.
    pub needs_copy: bool,
}

/// The image's pages as prepared for mapping.
#[derive(Clone, Copy, Debug)]
pub struct VdsoPageInfo {
    /// Physical address of the first page.
    pub paddr_page: usize,
    /// Bytes of the mapping: whole pages.
    pub size: usize,
    /// Offset of the image's first byte within the first page.
    pub page_offset: usize,
    /// `(address, page count)` of a scratch copy still to be freed on failure.
    pub alloc: Option<(usize, usize)>,
}

/// `n` rounded up to whole pages.
pub open spec fn page_round_up(n: int) -> int {
    (n + 4095) / 4096 * 4096
}

/// `n` rounded down to a page boundary.
pub open spec fn page_round_down(n: int) -> int {
    n - n % 4096
}

/// The layout for the image at kernel addresses `[kstart, kend)`, or `None`
/// when the image is empty or its sizes do not fit.
pub open spec fn vdso_page_plan(kstart: usize, kend: usize) -> Option<VdsoPagePlan> {
    if kend <= kstart {
        None
    } else {
        let len = kend - kstart;
        let off = kstart % 4096;
        if off == 0 {
            if len + 4095 > usize::MAX {
                None
            } else {
                Some(
                    VdsoPagePlan {
                        len: len as usize,
                        page_offset: 0,
                        size: page_round_up(len) as usize,
                        num_pages: (page_round_up(len) / 4096) as usize,
                        needs_copy: false,
                    },
                )
            }
        } else if page_round_up(len + off) > isize::MAX {
            None
        } else {
            Some(
                VdsoPagePlan {
                    len: len as usize,
                    page_offset: off as usize,
                    size: page_round_up(len + off) as usize,
                    num_pages: (page_round_up(len + off) / 4096) as usize,
                    needs_copy: true,
                },
            )
        }
    }
}

/// Plans the pages of the image at kernel addresses `[kstart, kend)`.
///
/// A page-aligned image is mapped where it lies; any other one is copied to
/// fresh pages at the same offset within its first page. `None` means the
/// image is not a valid executable.
pub fn plan_vdso_pages(vdso_kstart: usize, vdso_kend: usize) -> (r: Option<VdsoPagePlan>)
    ensures
        r == vdso_page_plan(vdso_kstart, vdso_kend),
{
    if vdso_kend <= vdso_kstart {
        return None;
    }
    let len = vdso_kend - vdso_kstart;
    let off = vdso_kstart % PAGE_SIZE_4K;
    if off == 0 {
        if len > usize::MAX - (PAGE_SIZE_4K - 1) {
            return None;
        }
        let t = len + (PAGE_SIZE_4K - 1);
        let size = t - t % PAGE_SIZE_4K;
        Some(
            VdsoPagePlan {
                len,
                page_offset: 0,
                size,
                num_pages: size / PAGE_SIZE_4K,
                needs_copy: false,
            },
        )
    } else {
        let total = len + off;
        let num_pages = total / PAGE_SIZE_4K + if total % PAGE_SIZE_4K != 0 {
            1usize
        } else {
            0usize
        };
        assert(num_pages * 4096 == page_round_up(total as int)) by (nonlinear_arith)
            requires
                num_pages == total / 4096 + if total % 4096 != 0 {
                    1int
                } else {
                    0int
                },
                total >= 0,
        ;
        match num_pages.checked_mul(PAGE_SIZE_4K) {
            None => None,
            Some(size) => {
                if size > isize::MAX as usize {
                    None
                } else {
                    Some(VdsoPagePlan { len, page_offset: off, size, num_pages, needs_copy: true })
                }
            },
        }
    }
}

/// A page-aligned image is used in place: offset 0, no copy. An image `k`
/// bytes into its page, `0 < k < 4096`, is copied at offset exactly `k` into
/// `ceil((len + k) / 4096)` fresh pages. Either way the mapping covers the
/// image and is whole pages.
pub proof fn lemma_plan_offset_and_pages(kstart: usize, kend: usize)
    requires
        vdso_page_plan(kstart, kend) is Some,
    ensures
        ({
            let p = vdso_page_plan(kstart, kend)->Some_0;
            let k = kstart % 4096;
            &&& p.page_offset == k
            &&& p.needs_copy <==> k != 0
            &&& p.len == kend - kstart
            &&& k != 0 ==> p.num_pages == (p.len + k + 4095) / 4096
            &&& p.size == p.num_pages * 4096
            &&& p.page_offset + p.len <= p.size
        }),
{
    let p = vdso_page_plan(kstart, kend)->Some_0;
    let k = kstart % 4096;
    let n = (kend - kstart) + k;
    assert(page_round_up(n) == (n + 4095) / 4096 * 4096);
    assert(n <= page_round_up(n)) by (nonlinear_arith)
        requires
            n >= 0,
            page_round_up(n) == (n + 4095) / 4096 * 4096,
    ;
}

/// The contents of the scratch pages: `size` bytes, zero but for a copy of
/// `image` starting at `page_offset`.
pub fn shadow_image(image: &[u8], page_offset: usize, size: usize) -> (r: Vec<u8>)
    requires
        page_offset + image@.len() <= size,
    ensures
        r@.len() == size,
        forall|i: int| 0 <= i < page_offset ==> #[trigger] r@[i] == 0,
        forall|i: int|
            page_offset <= i < page_offset + image@.len() ==> #[trigger] r@[i] == image@[i
                - page_offset],
        forall|i: int| page_offset + image@.len() <= i < size ==> #[trigger] r@[i] == 0,
{
    let mut r: Vec<u8> = Vec::new();
    let end = page_offset + image.len();
    let mut i: usize = 0;
    while i < size
        invariant
            i <= size,
            end == page_offset + image@.len(),
            end <= size,
            r@.len() == i,
            forall|j: int| 0 <= j < i && j < page_offset ==> #[trigger] r@[j] == 0,
            forall|j: int|
                0 <= j < i && page_offset <= j < end ==> #[trigger] r@[j] == image@[j
                    - page_offset],
            forall|j: int| 0 <= j < i && end <= j ==> #[trigger] r@[j] == 0,
        decreases size - i,
    {
        if i >= page_offset && i < end {
            r.push(image[i - page_offset]);
        } else {
            r.push(0u8);
        }
        i = i + 1;
    }
    r
}

/// Multiplier of the `Pcg64Mcg` generator.
pub const PCG_MULTIPLIER: u128 = 0x2360_ED05_1FC6_5DA4_4385_DF64_9FCC_F645;

/// `x` rotated right by `r` bits, `r < 64`.
pub open spec fn rotr64(x: u64, r: u64) -> u64 {
    if r == 0 {
        x
    } else {
        (x >> r) | (x << (64 - r) as u64)
    }
}

/// The first 64-bit draw of a `Pcg64Mcg` generator seeded with `seed`: the
/// state `seed | 1` is multiplied once, modulo `2^128`, and its halves are
/// xored and rotated by the state's top six bits.
pub open spec fn pcg64mcg_first_u64(seed: u128) -> u64 {
    let state = (((seed | 1) as int * PCG_MULTIPLIER) % (u128::MAX as int + 1)) as u128;
    rotr64(((state >> 64u128) as u64) ^ (state as u64), (state >> 122u128) as u64)
}

/// Draws once from a fresh generator.
///
/// Relies on `rand_pcg::Pcg64Mcg::new` (state `seed | 1`) followed by
/// `RngCore::next_u64` (one multiply, then the XSL-RR output).
#[verifier::external_body]
fn pcg64mcg_draw(seed: u128) -> (r: u64)
    ensures
        r == pcg64mcg_first_u64(seed),
{
    let mut rng = rand_pcg::Pcg64Mcg::new(seed);
    rng.next_u64()
}

/// `x` rotated left by `k` bits, `0 < k < 128`.
pub open spec fn rotl128(x: u128, k: u128) -> u128 {
    (x << k) | (x >> (128 - k) as u128)
}

fn rotate_left_u128(x: u128, k: u128) -> (r: u128)
    requires
        0 < k < 128,
    ensures
        r == rotl128(x, k),
{
    (x << k) | (x >> (128 - k))
}

/// The generator seed: the clock reading folded with the rotated image
/// bounds.
pub open spec fn aslr_seed(now_nanos: u64, kstart: usize, kend: usize) -> u128 {
    (now_nanos as u128) ^ rotl128(kstart as u128, 13) ^ rotl128(kend as u128, 37)
}

/// The page-aligned base address drawn for the given clock reading and
/// image bounds.
pub open spec fn aslr_base(now_nanos: u64, kstart: usize, kend: usize) -> int {
    VDSO_USER_ADDR_BASE + (pcg64mcg_first_u64(aslr_seed(now_nanos, kstart, kend)) % 256) * 4096
}

/// The `(base, vdso)` address pair for a given clock reading.
pub open spec fn aslr_addrs(now_nanos: u64, kstart: usize, kend: usize, page_offset: usize) -> (
    usize,
    usize,
) {
    let base = aslr_base(now_nanos, kstart, kend);
    (base as usize, (base + page_offset) as usize)
}

/// Picks the vDSO's user address from a clock reading and the image bounds.
///
/// The base is one of `VDSO_ASLR_PAGES` pages from `VDSO_USER_ADDR_BASE` up;
/// the vDSO address is the base moved by the intra-page `page_offset`.
pub fn vdso_aslr_addr_at(now_nanos: u64, vdso_kstart: usize, vdso_kend: usize, vdso_page_offset: usize) -> (r: (usize, usize))
    requires
        vdso_page_offset < PAGE_SIZE_4K,
    ensures
        r == aslr_addrs(now_nanos, vdso_kstart, vdso_kend, vdso_page_offset),
        VDSO_USER_ADDR_BASE <= r.0 < VDSO_USER_ADDR_BASE + VDSO_ASLR_PAGES * PAGE_SIZE_4K,
        r.0 % PAGE_SIZE_4K == 0,
        r.1 == r.0 + vdso_page_offset,
{
    let seed: u128 = (now_nanos as u128) ^ rotate_left_u128(vdso_kstart as u128, 13) ^ rotate_left_u128(
        vdso_kend as u128,
        37,
    );
    let draw = pcg64mcg_draw(seed);
    let page_off = (draw % (VDSO_ASLR_PAGES as u64)) as usize;
    let base_addr = VDSO_USER_ADDR_BASE + page_off * PAGE_SIZE_4K;
    let vdso_addr = base_addr + vdso_page_offset;
    (base_addr, vdso_addr)
}

/// For any clock reading and image bounds, the base is a page of the
/// `VDSO_ASLR_PAGES`-page window above `VDSO_USER_ADDR_BASE`, the vDSO
/// address is the base plus the intra-page offset, and equal inputs give
/// equal addresses.
pub proof fn lemma_aslr_window(now_nanos: u64, kstart: usize, kend: usize, page_offset: usize)
    requires
        page_offset < PAGE_SIZE_4K,
    ensures
        ({
            let (base, vdso) = aslr_addrs(now_nanos, kstart, kend, page_offset);
            &&& VDSO_USER_ADDR_BASE <= base < VDSO_USER_ADDR_BASE + VDSO_ASLR_PAGES * PAGE_SIZE_4K
            &&& base % PAGE_SIZE_4K == 0
            &&& vdso == base + page_offset
            &&& page_offset == 0 ==> vdso == base
        }),
{
    let d = pcg64mcg_first_u64(aslr_seed(now_nanos, kstart, kend)) % 256;
    assert(0 <= d < 256);
    assert(0 <= d * 4096 <= 255 * 4096) by (nonlinear_arith)
        requires
            0 <= d < 256,
    ;
    assert((VDSO_USER_ADDR_BASE + d * 4096) % 4096 == 0) by (nonlinear_arith)
        requires
            0 <= d,
    ;
}

/// Picks the vDSO's user address from the monotonic clock and the image
/// bounds.
pub fn calculate_vdso_aslr_addr(vdso_kstart: usize, vdso_kend: usize, vdso_page_offset: usize) -> (r: (usize, usize))
    requires
        vdso_page_offset < PAGE_SIZE_4K,
    ensures
        exists|t: u64| r == aslr_addrs(t, vdso_kstart, vdso_kend, vdso_page_offset),
        VDSO_USER_ADDR_BASE <= r.0 < VDSO_USER_ADDR_BASE + VDSO_ASLR_PAGES * PAGE_SIZE_4K,
        r.0 % PAGE_SIZE_4K == 0,
        r.1 == r.0 + vdso_page_offset,
{
    let now = crate::platform::monotonic_time_nanos();
    vdso_aslr_addr_at(now, vdso_kstart, vdso_kend, vdso_page_offset)
}

/// One program header of the image, as plain values.
#[derive(Clone, Copy, PartialEq, Eq, Structural, Debug)]
pub struct ElfSegment {
    /// Whether the header's type is `PT_LOAD`.
    pub is_load: bool,
    /// Permission bits (`PF_X`, `PF_W`, `PF_R`).
    pub flags: u32,
    pub offset: u64,
    pub vaddr: u64,
    pub file_size: u64,
    pub mem_size: u64,
    pub align: u64,
}

/// The little-endian 16-bit value at `at`.
pub open spec fn le16(b: Seq<u8>, at: int) -> int {
    b[at] + b[at + 1] * 256
}

/// The little-endian 64-bit value at `at`.
pub open spec fn le64(b: Seq<u8>, at: int) -> int {
    b[at] + b[at + 1] * 0x100 + b[at + 2] * 0x1_0000 + b[at + 3] * 0x100_0000 + b[at + 4]
        * 0x1_0000_0000 + b[at + 5] * 0x100_0000_0000 + b[at + 6] * 0x1_0000_0000_0000 + b[at
        + 7] * 0x100_0000_0000_0000
}

/// The little-endian 32-bit value at `at`.
pub open spec fn le32(b: Seq<u8>, at: int) -> int {
    b[at] + b[at + 1] * 0x100 + b[at + 2] * 0x1_0000 + b[at + 3] * 0x100_0000
}

/// Whether `image` starts with an ELF header the parser accepts: the magic,
/// a 32- or 64-bit class, and room for the whole header.
pub open spec fn elf_header_present(image: Seq<u8>) -> bool {
    &&& image.len() >= 16
    &&& image[0] == 0x7f && image[1] == 0x45 && image[2] == 0x4c && image[3] == 0x46
    &&& (image[4] == 2 && image.len() >= 64) || (image[4] == 1 && image.len() >= 52)
}

/// Offset, entry size and entry count of the program-header table, as the
/// header gives them.
pub open spec fn elf_ph_fields(image: Seq<u8>) -> (int, int, int) {
    if image[4] == 2 {
        (le64(image, 32), le16(image, 54), le16(image, 56))
    } else {
        (le32(image, 28), le16(image, 42), le16(image, 44))
    }
}

/// The byte range of the program-header table that the ELF header of
/// `image` names, or `None` when `image` has no ELF header.
pub open spec fn elf_ph_table_range(image: Seq<u8>) -> Option<(u64, u64)> {
    if !elf_header_present(image) {
        None
    } else {
        let (off, entsize, count) = elf_ph_fields(image);
        Some((off as u64, (off + entsize * count) as u64))
    }
}

/// The program header whose record starts at `at` in `t`, in the layout of
/// the image's class.
pub open spec fn elf_segment_at(class: u8, t: Seq<u8>, at: int) -> ElfSegment {
    if class == 2 {
        ElfSegment {
            is_load: le32(t, at) == 1,
            flags: le32(t, at + 4) as u32,
            offset: le64(t, at + 8) as u64,
            vaddr: le64(t, at + 16) as u64,
            file_size: le64(t, at + 32) as u64,
            mem_size: le64(t, at + 40) as u64,
            align: le64(t, at + 48) as u64,
        }
    } else {
        ElfSegment {
            is_load: le32(t, at) == 1,
            offset: le32(t, at + 4) as u64,
            vaddr: le32(t, at + 8) as u64,
            file_size: le32(t, at + 16) as u64,
            mem_size: le32(t, at + 20) as u64,
            flags: le32(t, at + 24) as u32,
            align: le32(t, at + 28) as u64,
        }
    }
}

/// The program headers read from `table`: one per whole entry of the
/// header's entry size, or `None` when `image` has no ELF header.
pub open spec fn elf_program_headers(image: Seq<u8>, table: Seq<u8>) -> Option<Seq<ElfSegment>> {
    if !elf_header_present(image) {
        None
    } else {
        let entsize = elf_ph_fields(image).1;
        Some(
            Seq::new(
                (table.len() as int / entsize) as nat,
                |k: int| elf_segment_at(image[4], table, k * entsize),
            ),
        )
    }
}

/// Whether the ELF header fields that the header parser trusts are sound:
/// the program-header table starts on an 8-byte boundary, an entry is
/// either empty or a whole record of a multiple of 8 bytes, and the table's
/// end fits in 64 bits. Images that the parser rejects on their own (too
/// short, no magic, unknown class) pass. Fields are read little-endian, as
/// on the machines this runs on.
pub open spec fn elf_header_fields_sound(image: Seq<u8>) -> bool {
    if image.len() < 16 || image[0] != 0x7f || image[1] != 0x45 || image[2] != 0x4c || image[3]
        != 0x46 {
        true
    } else if image[4] == 2 {
        image.len() < 64 || {
            let entsize = le16(image, 54);
            &&& entsize == 0 || entsize >= 56
            &&& entsize % 8 == 0
            &&& le64(image, 32) % 8 == 0
            &&& le64(image, 32) + entsize * le16(image, 56) <= u64::MAX
        }
    } else if image[4] == 1 {
        image.len() < 52 || {
            let entsize = le16(image, 42);
            &&& entsize == 0 || entsize >= 32
            &&& entsize % 8 == 0
            &&& image[28] % 8 == 0
        }
    } else {
        true
    }
}

fn read_le16(b: &[u8], at: usize) -> (r: u64)
    requires
        at + 2 <= b@.len(),
    ensures
        r == le16(b@, at as int),
{
    b[at] as u64 + b[at + 1] as u64 * 256
}

fn read_le64(b: &[u8], at: usize) -> (r: u128)
    requires
        at + 8 <= b@.len(),
    ensures
        r == le64(b@, at as int),
{
    b[at] as u128 + b[at + 1] as u128 * 0x100 + b[at + 2] as u128 * 0x1_0000 + b[at + 3] as u128
        * 0x100_0000 + b[at + 4] as u128 * 0x1_0000_0000 + b[at + 5] as u128 * 0x100_0000_0000
        + b[at + 6] as u128 * 0x1_0000_0000_0000 + b[at + 7] as u128 * 0x100_0000_0000_0000
}

/// Checks [`elf_header_fields_sound`].
pub fn elf_header_fields_ok(image: &[u8]) -> (r: bool)
    ensures
        r == elf_header_fields_sound(image@),
{
    if image.len() < 16 || image[0] != 0x7f || image[1] != 0x45 || image[2] != 0x4c || image[3]
        != 0x46 {
        true
    } else if image[4] == 2 {
        if image.len() < 64 {
            return true;
        }
        let entsize = read_le16(image, 54);
        let count = read_le16(image, 56);
        let phoff = read_le64(image, 32);
        assert(entsize * count <= 0xffff * 0xffff) by (nonlinear_arith)
            requires
                entsize <= 0xffff,
                count <= 0xffff,
        ;
        (entsize == 0 || entsize >= 56) && entsize % 8 == 0 && phoff % 8 == 0 && phoff + (entsize
            * count) as u128 <= u64::MAX as u128
    } else if image[4] == 1 {
        if image.len() < 52 {
            return true;
        }
        let entsize = read_le16(image, 42);
        (entsize == 0 || entsize >= 32) && entsize % 8 == 0 && image[28] % 8 == 0
    } else {
        true
    }
}

/// Reads the ELF header of `image` and the range of its program-header
/// table.
///
/// Relies on `kernel_elf_parser::ELFHeadersBuilder::new`, which fails on an
/// image without a valid header, and on `ELFHeadersBuilder::ph_range`, which
/// reads the table's offset, entry size and count from that header and adds
/// them unchecked. Fields are read in the machine's byte order, little-endian
/// on the targets of this crate. The parser reads the header in place, 8-byte
/// aligned, so
/// it is handed an aligned copy of the bytes (`zerocopy::IntoBytes` views a
/// `u64` buffer as bytes).
#[verifier::external_body]
fn elf_table_range(image: &[u8]) -> (r: Option<(u64, u64)>)
    requires
        elf_header_fields_sound(image@),
    ensures
        r == elf_ph_table_range(image@),
{
    let mut words = vec![0u64; image.len().div_ceil(8)];
    let buf = &mut zerocopy::IntoBytes::as_mut_bytes(words.as_mut_slice())[..image.len()];
    buf.copy_from_slice(image);
    match kernel_elf_parser::ELFHeadersBuilder::new(buf) {
        Ok(b) => Some((b.ph_range().start, b.ph_range().end)),
        Err(_) => None,
    }
}

/// Reads the program headers of `image` out of its bytes `[s, e)`.
///
/// Relies on `kernel_elf_parser::ELFHeadersBuilder::build`, which cuts the
/// table into entries of the header's entry size and reads each in place as
/// a program header, and on `ProgramHeader64::get_type` to tell `PT_LOAD`
/// apart. A non-empty table from the range the header names has a non-zero
/// entry size, which `build` needs; the parser is handed an 8-byte aligned
/// copy of the image, and sound header fields keep every entry aligned and
/// whole.
#[verifier::external_body]
fn elf_build_headers(image: &[u8], s: usize, e: usize) -> (r: Option<Vec<ElfSegment>>)
    requires
        elf_header_fields_sound(image@),
        s < e <= image@.len(),
        elf_ph_table_range(image@) == Some((s as u64, e as u64)),
    ensures
        match r {
            Some(v) => elf_program_headers(image@, image@.subrange(s as int, e as int)) == Some(v@),
            None => elf_program_headers(image@, image@.subrange(s as int, e as int)).is_none(),
        },
{
    let mut words = vec![0u64; image.len().div_ceil(8)];
    let img = &mut zerocopy::IntoBytes::as_mut_bytes(words.as_mut_slice())[..image.len()];
    img.copy_from_slice(image);
    match kernel_elf_parser::ELFHeadersBuilder::new(img).and_then(|b| b.build(&img[s..e])) {
        Ok(h) => Some(h.ph.iter().map(|ph| ElfSegment {
            is_load: ph.get_type() == Ok(xmas_elf::program::Type::Load),
            flags: ph.flags.0,
            offset: ph.offset,
            vaddr: ph.virtual_addr,
            file_size: ph.file_size,
            mem_size: ph.mem_size,
            align: ph.align,
        }).collect()),
        Err(_) => None,
    }
}

/// The program headers of the image, or `None` when it is not an ELF file
/// with sound header fields whose header table lies within it.
pub open spec fn vdso_elf_segments(image: Seq<u8>) -> Option<Seq<ElfSegment>> {
    if !elf_header_fields_sound(image) {
        None
    } else {
        match elf_ph_table_range(image) {
            None => None,
            Some((s, e)) => {
                if s <= e && e <= image.len() {
                    if s == e {
                        Some(Seq::empty())
                    } else {
                        elf_program_headers(image, image.subrange(s as int, e as int))
                    }
                } else {
                    None
                }
            },
        }
    }
}

/// Parses the program headers of the vDSO image.
pub fn parse_vdso_segments(image: &[u8]) -> (r: Option<Vec<ElfSegment>>)
    ensures
        match r {
            Some(v) => vdso_elf_segments(image@) == Some(v@),
            None => vdso_elf_segments(image@).is_none(),
        },
{
    if !elf_header_fields_ok(image) {
        return None;
    }
    match elf_table_range(image) {
        None => None,
        Some((s, e)) => {
            if s <= e && e <= image.len() as u64 {
                if s == e {
                    Some(Vec::new())
                } else {
                    elf_build_headers(image, s as usize, e as usize)
                }
            } else {
                None
            }
        },
    }
}

/// One region to map for a loadable segment.
#[derive(Clone, Copy, PartialEq, Eq, Structural, Debug)]
pub struct SegmentMapping {
    pub user_addr: usize,
    pub paddr: usize,
    /// Bytes: whole pages.
    pub size: usize,
    pub segment: ElfSegment,
}

/// The region for `seg` when the image's first page is at user address
/// `page_round_down(vdso_user_addr)` and physical address `paddr_page`, or
/// `None` when an address or size does not fit.
pub open spec fn segment_mapping_of(
    seg: ElfSegment,
    vdso_user_addr: usize,
    paddr_page: usize,
    page_offset: usize,
) -> Option<SegmentMapping> {
    let v = seg.vaddr as int;
    let pad = v % 4096 + page_offset;
    let user = page_round_down(vdso_user_addr as int) + page_round_down(v);
    let phys = paddr_page + page_round_down(v);
    if v > usize::MAX || seg.mem_size + pad + 4095 > usize::MAX || user > usize::MAX || phys
        > usize::MAX {
        None
    } else {
        Some(
            SegmentMapping {
                user_addr: user as usize,
                paddr: phys as usize,
                size: page_round_up(seg.mem_size + pad) as usize,
                segment: seg,
            },
        )
    }
}

/// The regions for the loadable segments among the first `n` headers, in
/// order; `None` when one of them does not fit.
pub open spec fn segment_mappings_upto(
    segs: Seq<ElfSegment>,
    n: int,
    vdso_user_addr: usize,
    paddr_page: usize,
    page_offset: usize,
) -> Option<Seq<SegmentMapping>>
    decreases n,
{
    if n <= 0 {
        Some(Seq::empty())
    } else {
        match segment_mappings_upto(segs, n - 1, vdso_user_addr, paddr_page, page_offset) {
            None => None,
            Some(prev) => {
                if !segs[n - 1].is_load {
                    Some(prev)
                } else {
                    match segment_mapping_of(segs[n - 1], vdso_user_addr, paddr_page, page_offset) {
                        None => None,
                        Some(m) => Some(prev.push(m)),
                    }
                }
            },
        }
    }
}

/// The regions for all loadable segments.
pub open spec fn segment_mappings_of(
    segs: Seq<ElfSegment>,
    vdso_user_addr: usize,
    paddr_page: usize,
    page_offset: usize,
) -> Option<Seq<SegmentMapping>> {
    segment_mappings_upto(segs, segs.len() as int, vdso_user_addr, paddr_page, page_offset)
}

/// Two loadable segments at virtual addresses 0 and 8192 are mapped as two
/// regions, in order: at the vDSO's first page and 8192 bytes above it, at
/// the image's first physical page and 8192 bytes above it, each rounded up
/// to whole pages covering its memory size plus the intra-page offset.
pub proof fn lemma_two_segment_mappings(
    a: ElfSegment,
    b: ElfSegment,
    vdso_user_addr: usize,
    paddr_page: usize,
    page_offset: usize,
)
    requires
        a.is_load && a.vaddr == 0,
        b.is_load && b.vaddr == 8192,
        a.mem_size + page_offset + 4095 <= usize::MAX,
        b.mem_size + page_offset + 4095 <= usize::MAX,
        page_round_down(vdso_user_addr as int) + 8192 <= usize::MAX,
        paddr_page + 8192 <= usize::MAX,
    ensures
        segment_mappings_of(seq![a, b], vdso_user_addr, paddr_page, page_offset) == Some(
            seq![
                SegmentMapping {
                    user_addr: page_round_down(vdso_user_addr as int) as usize,
                    paddr: paddr_page,
                    size: page_round_up(a.mem_size + page_offset) as usize,
                    segment: a,
                },
                SegmentMapping {
                    user_addr: (page_round_down(vdso_user_addr as int) + 8192) as usize,
                    paddr: (paddr_page + 8192) as usize,
                    size: page_round_up(b.mem_size + page_offset) as usize,
                    segment: b,
                },
            ],
        ),
        a.mem_size <= page_round_up(a.mem_size + page_offset),
        b.mem_size <= page_round_up(b.mem_size + page_offset),
        page_round_up(a.mem_size + page_offset) % 4096 == 0,
        page_round_up(b.mem_size + page_offset) % 4096 == 0,
{
    let segs = seq![a, b];
    assert(segs[0] == a && segs[1] == b);
    assert(page_round_down(0) == 0);
    assert(page_round_down(8192) == 8192);
    let ma = segment_mapping_of(a, vdso_user_addr, paddr_page, page_offset);
    let mb = segment_mapping_of(b, vdso_user_addr, paddr_page, page_offset);
    assert(ma is Some);
    assert(mb is Some);
    assert(segment_mappings_upto(segs, 0, vdso_user_addr, paddr_page, page_offset) == Some(
        Seq::<SegmentMapping>::empty(),
    ));
    assert(segment_mappings_upto(segs, 1, vdso_user_addr, paddr_page, page_offset) == Some(
        Seq::<SegmentMapping>::empty().push(ma->Some_0),
    ));
    assert(segment_mappings_upto(segs, 2, vdso_user_addr, paddr_page, page_offset) == Some(
        Seq::<SegmentMapping>::empty().push(ma->Some_0).push(mb->Some_0),
    ));
    assert(Seq::<SegmentMapping>::empty().push(segment_mapping_of(a, vdso_user_addr, paddr_page, page_offset)->Some_0).push(
        segment_mapping_of(b, vdso_user_addr, paddr_page, page_offset)->Some_0) =~= seq![
        segment_mapping_of(a, vdso_user_addr, paddr_page, page_offset)->Some_0,
        segment_mapping_of(b, vdso_user_addr, paddr_page, page_offset)->Some_0,
    ]);
    let x = a.mem_size + page_offset;
    let y = b.mem_size + page_offset;
    assert(x <= (x + 4095) / 4096 * 4096 && ((x + 4095) / 4096 * 4096) % 4096 == 0) by (nonlinear_arith)
        requires
            x >= 0,
    ;
    assert(y <= (y + 4095) / 4096 * 4096 && ((y + 4095) / 4096 * 4096) % 4096 == 0) by (nonlinear_arith)
        requires
            y >= 0,
    ;
}

/// Computes the region of one loadable segment.
pub fn segment_mapping(seg: ElfSegment, vdso_user_addr: usize, paddr_page: usize, page_offset: usize) -> (r: Option<SegmentMapping>)
    ensures
        r == segment_mapping_of(seg, vdso_user_addr, paddr_page, page_offset),
{
    if seg.vaddr > usize::MAX as u64 {
        return None;
    }
    let vaddr = seg.vaddr as usize;
    let seg_pad_low = vaddr % PAGE_SIZE_4K;
    let vaddr_down = vaddr - seg_pad_low;
    if page_offset > usize::MAX - seg_pad_low {
        return None;
    }
    let seg_pad = seg_pad_low + page_offset;
    if seg.mem_size > usize::MAX as u64 {
        return None;
    }
    let mem_size = seg.mem_size as usize;
    if mem_size > usize::MAX - seg_pad || mem_size + seg_pad > usize::MAX - (PAGE_SIZE_4K - 1) {
        return None;
    }
    let t = mem_size + seg_pad + (PAGE_SIZE_4K - 1);
    let size = t - t % PAGE_SIZE_4K;
    let map_base_user = vdso_user_addr - vdso_user_addr % PAGE_SIZE_4K;
    if vaddr_down > usize::MAX - map_base_user || vaddr_down > usize::MAX - paddr_page {
        return None;
    }
    Some(
        SegmentMapping {
            user_addr: map_base_user + vaddr_down,
            paddr: paddr_page + vaddr_down,
            size,
            segment: seg,
        },
    )
}

/// Computes the regions of all loadable segments, in header order.
pub fn segment_mappings(segs: &Vec<ElfSegment>, vdso_user_addr: usize, paddr_page: usize, page_offset: usize) -> (r: Option<Vec<SegmentMapping>>)
    ensures
        match r {
            Some(v) => segment_mappings_of(segs@, vdso_user_addr, paddr_page, page_offset) == Some(
                v@,
            ),
            None => segment_mappings_of(segs@, vdso_user_addr, paddr_page, page_offset).is_none(),
        },
{
    let mut out: Vec<SegmentMapping> = Vec::new();
    let mut i: usize = 0;
    while i < segs.len()
        invariant
            i <= segs@.len(),
            segment_mappings_upto(segs@, i as int, vdso_user_addr, paddr_page, page_offset) == Some(
                out@,
            ),
        decreases segs@.len() - i,
    {
        let seg = segs[i];
        if seg.is_load {
            match segment_mapping(seg, vdso_user_addr, paddr_page, page_offset) {
                None => {
                    assert(segment_mappings_upto(
                        segs@,
                        i + 1,
                        vdso_user_addr,
                        paddr_page,
                        page_offset,
                    ).is_none());
                    proof {
                        lemma_mappings_stay_none(
                            segs@,
                            i + 1,
                            segs@.len() as int,
                            vdso_user_addr,
                            paddr_page,
                            page_offset,
                        );
                    }
                    return None;
                },
                Some(m) => {
                    out.push(m);
                },
            }
        }
        i = i + 1;
    }
    Some(out)
}

proof fn lemma_mappings_stay_none(
    segs: Seq<ElfSegment>,
    i: int,
    n: int,
    vdso_user_addr: usize,
    paddr_page: usize,
    page_offset: usize,
)
    requires
        0 <= i <= n,
        segment_mappings_upto(segs, i, vdso_user_addr, paddr_page, page_offset).is_none(),
    ensures
        segment_mappings_upto(segs, n, vdso_user_addr, paddr_page, page_offset).is_none(),
    decreases n - i,
{
    if n > i {
        lemma_mappings_stay_none(segs, i, n - 1, vdso_user_addr, paddr_page, page_offset);
    }
}

/// The page-table operations the loader needs from its caller.
pub trait VdsoMapper {
    type Error;

    /// Maps `size` bytes at `paddr` to `user_addr`: the whole image, when it
    /// has no readable ELF headers.
    fn map_image(&mut self, user_addr: usize, paddr: usize, size: usize) -> Result<(), Self::Error>;

    /// Maps the shared-state pages at `paddr` to `user_addr`.
    fn map_vvar(&mut self, user_addr: usize, paddr: usize) -> Result<(), Self::Error>;

    /// Maps one loadable segment, with the permissions of its header.
    fn map_segment(&mut self, m: &SegmentMapping) -> Result<(), Self::Error>;
}

/// One request made to a [`VdsoMapper`].
#[derive(Clone, Copy, PartialEq, Eq, Structural, Debug)]
pub enum MapRequest {
    Image { user_addr: usize, paddr: usize, size: usize },
    Vvar { user_addr: usize, paddr: usize },
    Segment(SegmentMapping),
}

/// A mapper together with the record of every request made to it through
/// this session and the answer it gave.
pub struct MapSession<M: VdsoMapper> {
    pub mapper: M,
    log: Ghost<Seq<(MapRequest, Result<(), M::Error>)>>,
}

impl<M: VdsoMapper> MapSession<M> {
    /// The requests made so far, in order, each with the mapper's answer.
    pub closed spec fn calls(&self) -> Seq<(MapRequest, Result<(), M::Error>)> {
        self.log@
    }

    pub fn new(mapper: M) -> (r: Self)
        ensures
            r.calls() == Seq::<(MapRequest, Result<(), M::Error>)>::empty(),
    {
        MapSession { mapper, log: Ghost(Seq::empty()) }
    }

    /// Passes one request to the mapper and records it with the answer.
    pub fn request(&mut self, req: MapRequest) -> (r: Result<(), M::Error>)
        ensures
            final(self).calls() == old(self).calls().push((req, r)),
    {
        let r = match req {
            MapRequest::Image { user_addr, paddr, size } => self.mapper.map_image(
                user_addr,
                paddr,
                size,
            ),
            MapRequest::Vvar { user_addr, paddr } => self.mapper.map_vvar(user_addr, paddr),
            MapRequest::Segment(m) => self.mapper.map_segment(&m),
        };
        self.log = Ghost(self.log@.push((req, r)));
        r
    }
}

/// `calls` made the requests `reqs` in order, stopping right after the first
/// one the mapper refused, and went through them all otherwise.
pub open spec fn runs_until_failure<E>(
    calls: Seq<(MapRequest, Result<(), E>)>,
    reqs: Seq<MapRequest>,
) -> bool {
    &&& calls.len() <= reqs.len()
    &&& forall|k: int| 0 <= k < calls.len() ==> (#[trigger] calls[k]).0 == reqs[k]
    &&& forall|k: int| 0 <= k < calls.len() - 1 ==> (#[trigger] calls[k]).1 is Ok
    &&& calls.len() < reqs.len() ==> calls.len() > 0 && calls.last().1 is Err
}

/// The result of such a run: `Ok` when every request was accepted, else the
/// mapper's own error for the refused one.
pub open spec fn run_result<E>(calls: Seq<(MapRequest, Result<(), E>)>, reqs: Seq<MapRequest>) -> Result<(), VdsoError<E>> {
    if calls.len() == reqs.len() && (calls.len() == 0 || calls.last().1 is Ok) {
        Ok(())
    } else {
        Err(VdsoError::MapFailed(calls.last().1->Err_0))
    }
}

/// The requests made since the session held `n` of them.
pub open spec fn calls_since<M: VdsoMapper>(s: MapSession<M>, n: int) -> Seq<(MapRequest, Result<(), M::Error>)> {
    s.calls().subrange(n, s.calls().len() as int)
}

/// Makes the requests in order, stopping at the first refusal.
pub fn run_requests<M: VdsoMapper>(session: &mut MapSession<M>, reqs: &Vec<MapRequest>) -> (r: Result<(), VdsoError<M::Error>>)
    ensures
        final(session).calls().len() >= old(session).calls().len(),
        final(session).calls().subrange(0, old(session).calls().len() as int) == old(session).calls(),
        runs_until_failure(calls_since(*final(session), old(session).calls().len() as int), reqs@),
        r == run_result(calls_since(*final(session), old(session).calls().len() as int), reqs@),
{
    let ghost n0 = session.calls().len() as int;
    let mut i: usize = 0;
    while i < reqs.len()
        invariant
            i <= reqs@.len(),
            session.calls().len() == n0 + i,
            n0 == old(session).calls().len(),
            session.calls().subrange(0, n0) == old(session).calls(),
            forall|k: int| 0 <= k < i ==> (#[trigger] session.calls()[n0 + k]).0 == reqs@[k] && session.calls()[n0 + k].1 is Ok,
        decreases reqs@.len() - i,
    {
        let ghost before = session.calls();
        let res = session.request(reqs[i]);
        assert(session.calls().subrange(0, n0) =~= old(session).calls()) by {
            assert(session.calls().subrange(0, n0) =~= before.subrange(0, n0));
        }
        match res {
            Err(e) => {
                proof {
                    let c = calls_since(*session, n0);
                    assert forall|k: int| 0 <= k < c.len() implies (#[trigger] c[k]).0 == reqs@[k] by {
                        assert(c[k] == session.calls()[n0 + k]);
                    }
                    assert forall|k: int| 0 <= k < c.len() - 1 implies (#[trigger] c[k]).1 is Ok by {
                        assert(c[k] == session.calls()[n0 + k]);
                    }
                    assert(c.last() == session.calls()[n0 + i]);
                }
                return Err(VdsoError::MapFailed(e));
            },
            Ok(()) => {},
        }
        i = i + 1;
    }
    proof {
        let c = calls_since(*session, n0);
        assert forall|k: int| 0 <= k < c.len() implies (#[trigger] c[k]).0 == reqs@[k] && c[k].1 is Ok by {
            assert(c[k] == session.calls()[n0 + k]);
        }
        if c.len() > 0 {
            assert(c.last() == c[c.len() - 1]);
        }
    }
    Ok(())
}

/// The requests that map the loadable segments.
pub open spec fn segment_requests(maps: Seq<SegmentMapping>) -> Seq<MapRequest> {
    maps.map_values(|m: SegmentMapping| MapRequest::Segment(m))
}

/// User address of the shared-state pages: right below the vDSO image.
pub open spec fn vvar_user_addr_of(vdso_user_addr: usize, vvar_pages: usize) -> int {
    vdso_user_addr - vvar_pages * PAGE_SIZE_4K
}

/// The auxiliary-vector entry that tells user space where the vDSO is.
pub open spec fn sysinfo_ehdr(vdso_user_addr: usize) -> AuxvEntry {
    AuxvEntry { key: AT_SYSINFO_EHDR, value: vdso_user_addr }
}

/// The request that maps the shared-state pages.
pub open spec fn vvar_request(vdso_user_addr: usize, vvar_pages: usize, vvar_paddr: usize) -> MapRequest {
    MapRequest::Vvar { user_addr: vvar_user_addr_of(vdso_user_addr, vvar_pages) as usize, paddr: vvar_paddr }
}

/// Computes the user address of the shared-state pages.
pub fn vvar_user_addr(vdso_user_addr: usize, vvar_pages: usize) -> (r: usize)
    requires
        vvar_pages * PAGE_SIZE_4K <= vdso_user_addr,
    ensures
        r == vvar_user_addr_of(vdso_user_addr, vvar_pages),
{
    vdso_user_addr - vvar_pages * PAGE_SIZE_4K
}

/// Maps the `vvar_pages` shared-state pages below the vDSO and, once that
/// succeeded, appends the `AT_SYSINFO_EHDR` entry.
pub fn map_vvar_and_push_aux<M: VdsoMapper>(
    auxv: &mut Vec<AuxvEntry>,
    vdso_user_addr: usize,
    vvar_pages: usize,
    vvar_paddr: usize,
    session: &mut MapSession<M>,
) -> (r: Result<(), VdsoError<M::Error>>)
    requires
        vvar_pages * PAGE_SIZE_4K <= vdso_user_addr,
    ensures
        final(session).calls() == old(session).calls().push(
            (vvar_request(vdso_user_addr, vvar_pages, vvar_paddr), final(session).calls().last().1),
        ),
        r == run_result(
            seq![final(session).calls().last()],
            seq![vvar_request(vdso_user_addr, vvar_pages, vvar_paddr)],
        ),
        r is Ok ==> final(auxv)@ == old(auxv)@.push(sysinfo_ehdr(vdso_user_addr)),
        r is Err ==> final(auxv)@ == old(auxv)@,
{
    let vvar_user = vvar_user_addr(vdso_user_addr, vvar_pages);
    match session.request(MapRequest::Vvar { user_addr: vvar_user, paddr: vvar_paddr }) {
        Err(e) => Err(VdsoError::MapFailed(e)),
        Ok(()) => {
            auxv.push(AuxvEntry { key: AT_SYSINFO_EHDR, value: vdso_user_addr });
            Ok(())
        },
    }
}

/// Wraps each segment region in a mapping request.
pub fn to_segment_requests(maps: &Vec<SegmentMapping>) -> (r: Vec<MapRequest>)
    ensures
        r@ == segment_requests(maps@),
{
    let mut r: Vec<MapRequest> = Vec::new();
    let mut i: usize = 0;
    while i < maps.len()
        invariant
            i <= maps@.len(),
            r@ == segment_requests(maps@.subrange(0, i as int)),
        decreases maps@.len() - i,
    {
        r.push(MapRequest::Segment(maps[i]));
        i = i + 1;
        assert(segment_requests(maps@.subrange(0, i as int)) =~= segment_requests(
            maps@.subrange(0, i - 1),
        ).push(MapRequest::Segment(maps@[i - 1])));
    }
    assert(maps@.subrange(0, maps@.len() as int) =~= maps@);
    r
}

/// Maps every loadable segment, in header order, stopping at the first
/// refusal.
///
/// Fails with `InvalidExecutable`, before any request, exactly when the
/// region of some loadable segment does not fit in the address space.
pub fn map_vdso_segments<M: VdsoMapper>(
    segs: &Vec<ElfSegment>,
    vdso_user_addr: usize,
    paddr_page: usize,
    page_offset: usize,
    session: &mut MapSession<M>,
) -> (r: Result<(), VdsoError<M::Error>>)
    ensures
        final(session).calls().subrange(0, old(session).calls().len() as int) == old(session).calls(),
        final(session).calls().len() >= old(session).calls().len(),
        match segment_mappings_of(segs@, vdso_user_addr, paddr_page, page_offset) {
            None => r is Err && r->Err_0 is InvalidExecutable && final(session).calls() == old(session).calls(),
            Some(maps) => {
                let c = calls_since(*final(session), old(session).calls().len() as int);
                &&& runs_until_failure(c, segment_requests(maps))
                &&& r == run_result(c, segment_requests(maps))
            },
        },
{
    let maps = match segment_mappings(segs, vdso_user_addr, paddr_page, page_offset) {
        None => {
            return Err(VdsoError::InvalidExecutable);
        },
        Some(m) => m,
    };
    let reqs = to_segment_requests(&maps);
    run_requests(session, &reqs)
}

/// The single region the whole image is mapped as when it has no readable
/// ELF headers: from the start of its first page.
pub open spec fn fallback_request(vdso_user_addr: usize, info: VdsoPageInfo) -> MapRequest {
    MapRequest::Image {
        user_addr: (vdso_user_addr - info.page_offset) as usize,
        paddr: info.paddr_page,
        size: info.size,
    }
}

/// Computes [`fallback_request`].
pub fn fallback_region(vdso_user_addr: usize, info: &VdsoPageInfo) -> (r: MapRequest)
    requires
        info.page_offset <= vdso_user_addr,
    ensures
        r == fallback_request(vdso_user_addr, *info),
{
    MapRequest::Image {
        user_addr: vdso_user_addr - info.page_offset,
        paddr: info.paddr_page,
        size: info.size,
    }
}

/// The requests that map the image: its loadable segments when its ELF
/// headers can be read, the whole image otherwise; `None` when a segment's
/// region does not fit.
pub open spec fn image_requests(vdso_bytes: Seq<u8>, vdso_user_addr: usize, info: VdsoPageInfo) -> Option<Seq<MapRequest>> {
    match vdso_elf_segments(vdso_bytes) {
        Some(segs) => match segment_mappings_of(segs, vdso_user_addr, info.paddr_page, info.page_offset) {
            Some(maps) => Some(segment_requests(maps)),
            None => None,
        },
        None => Some(seq![fallback_request(vdso_user_addr, info)]),
    }
}

/// What [`load_vdso_at`] does, given the requests made and their answers.
pub open spec fn load_outcome<E>(
    vdso_bytes: Seq<u8>,
    vdso_user_addr: usize,
    info: VdsoPageInfo,
    vvar_pages: usize,
    vvar_paddr: usize,
    calls: Seq<(MapRequest, Result<(), E>)>,
    r: (Result<(), VdsoError<E>>, Option<ReleaseLayout>),
) -> bool {
    match image_requests(vdso_bytes, vdso_user_addr, info) {
        None => {
            &&& calls.len() == 0
            &&& r.0 is Err && r.0->Err_0 is InvalidExecutable
            &&& r.1 == released_by(info.alloc)
        },
        Some(img) => {
            let all = img.push(vvar_request(vdso_user_addr, vvar_pages, vvar_paddr));
            &&& runs_until_failure(calls, all)
            &&& r.0 == run_result(calls, all)
            &&& r.1 == if r.0 is Err && calls.len() < all.len() {
                released_by(info.alloc)
            } else {
                None
            }
        },
    }
}

/// Maps the prepared image at `vdso_user_addr`, then the shared-state pages,
/// and appends the `AT_SYSINFO_EHDR` entry.
///
/// The image is mapped segment by segment when its ELF headers can be read,
/// and as one block otherwise. The second result is the scratch allocation
/// the caller must free: the one of `info` when the load failed before the
/// image was mapped, and nothing otherwise.
#[verifier::rlimit(40)]
pub fn load_vdso_at<M: VdsoMapper>(
    auxv: &mut Vec<AuxvEntry>,
    session: &mut MapSession<M>,
    vdso_user_addr: usize,
    info: &VdsoPageInfo,
    vdso_bytes: &[u8],
    vvar_pages: usize,
    vvar_paddr: usize,
) -> (r: (Result<(), VdsoError<M::Error>>, Option<ReleaseLayout>))
    requires
        vvar_pages * PAGE_SIZE_4K <= vdso_user_addr,
        info.page_offset <= vdso_user_addr,
    ensures
        final(session).calls().subrange(0, old(session).calls().len() as int) == old(session).calls(),
        final(session).calls().len() >= old(session).calls().len(),
        load_outcome(
            vdso_bytes@,
            vdso_user_addr,
            *info,
            vvar_pages,
            vvar_paddr,
            calls_since(*final(session), old(session).calls().len() as int),
            r,
        ),
        r.0 is Ok ==> final(auxv)@ == old(auxv)@.push(sysinfo_ehdr(vdso_user_addr)),
        r.0 is Err ==> final(auxv)@ == old(auxv)@,
{
    let ghost n0 = session.calls().len() as int;
    let mut guard = VdsoAllocGuard::new(info.alloc);
    let reqs = match parse_vdso_segments(vdso_bytes) {
        Some(segs) => match segment_mappings(&segs, vdso_user_addr, info.paddr_page, info.page_offset) {
            None => {
                let rel = guard.release();
                return (Err(VdsoError::InvalidExecutable), rel);
            },
            Some(maps) => to_segment_requests(&maps),
        },
        None => {
            let mut v: Vec<MapRequest> = Vec::new();
            v.push(fallback_region(vdso_user_addr, info));
            assert(v@ =~= seq![fallback_request(vdso_user_addr, *info)]);
            v
        },
    };
    let ghost img = reqs@;
    match run_requests(session, &reqs) {
        Err(e) => {
            let rel = guard.release();
            return (Err(e), rel);
        },
        Ok(()) => {
            guard.disarm();
        },
    }
    let ghost n1 = session.calls().len() as int;
    let ghost mid = session.calls();
    let res = map_vvar_and_push_aux(auxv, vdso_user_addr, vvar_pages, vvar_paddr, session);
    let rel = guard.release();
    proof {
        let all = img.push(vvar_request(vdso_user_addr, vvar_pages, vvar_paddr));
        let c = calls_since(*session, n0);
        assert(session.calls() == mid.push(session.calls().last()));
        assert(c =~= mid.subrange(n0, n1).push(session.calls().last()));
        assert(session.calls().subrange(0, n0) =~= mid.subrange(0, n0));
        assert forall|k: int| 0 <= k < c.len() implies (#[trigger] c[k]).0 == all[k] by {
            if k < img.len() {
                assert(c[k] == mid.subrange(n0, n1)[k]);
            }
        }
        assert forall|k: int| 0 <= k < c.len() - 1 implies (#[trigger] c[k]).1 is Ok by {
            assert(c[k] == mid.subrange(n0, n1)[k]);
            if img.len() > 0 {
                assert(mid.subrange(n0, n1).last() == mid.subrange(n0, n1)[img.len() - 1]);
            }
        }
    }
    (res, rel)
}

/// Loads the prepared vDSO image into a process: picks its user address,
/// maps it and the `vvar_pages` shared-state pages, and appends
/// `AT_SYSINFO_EHDR`.
///
/// An empty or inverted image range fails with `InvalidExecutable` before
/// anything is requested. The second result is the scratch allocation the
/// caller must free, as for [`load_vdso_at`].
#[verifier::rlimit(40)]
pub fn load_vdso_data<M: VdsoMapper>(
    auxv: &mut Vec<AuxvEntry>,
    session: &mut MapSession<M>,
    vdso_kstart: usize,
    vdso_kend: usize,
    info: &VdsoPageInfo,
    vdso_bytes: &[u8],
    vvar_pages: usize,
    vvar_paddr: usize,
) -> (r: (Result<(), VdsoError<M::Error>>, Option<ReleaseLayout>))
    requires
        info.page_offset < PAGE_SIZE_4K,
        vvar_pages * PAGE_SIZE_4K <= VDSO_USER_ADDR_BASE,
    ensures
        final(session).calls().subrange(0, old(session).calls().len() as int) == old(session).calls(),
        final(session).calls().len() >= old(session).calls().len(),
        vdso_kend <= vdso_kstart ==> {
            &&& r.0 is Err && r.0->Err_0 is InvalidExecutable
            &&& r.1 == released_by(info.alloc)
            &&& final(session).calls() == old(session).calls()
        },
        vdso_kstart < vdso_kend ==> exists|t: u64|
            load_outcome(
                vdso_bytes@,
                (#[trigger] aslr_addrs(t, vdso_kstart, vdso_kend, info.page_offset)).1,
                *info,
                vvar_pages,
                vvar_paddr,
                calls_since(*final(session), old(session).calls().len() as int),
                r,
            ) && (r.0 is Ok ==> final(auxv)@ == old(auxv)@.push(sysinfo_ehdr(aslr_addrs(t, vdso_kstart, vdso_kend, info.page_offset).1))),
        r.0 is Err ==> final(auxv)@ == old(auxv)@,
        r.0 is Ok ==> {
            let v = final(auxv)@.last().value;
            &&& VDSO_USER_ADDR_BASE <= v < VDSO_USER_ADDR_BASE + VDSO_ASLR_PAGES * PAGE_SIZE_4K
            &&& v % PAGE_SIZE_4K == info.page_offset
        },
{
    if vdso_kend <= vdso_kstart {
        let mut guard = VdsoAllocGuard::new(info.alloc);
        let rel = guard.release();
        return (Err(VdsoError::InvalidExecutable), rel);
    }
    let (_base_addr, vdso_user_addr) = calculate_vdso_aslr_addr(
        vdso_kstart,
        vdso_kend,
        info.page_offset,
    );
    let ghost t = choose|t: u64|
        (_base_addr, vdso_user_addr) == aslr_addrs(t, vdso_kstart, vdso_kend, info.page_offset);
    let r = load_vdso_at(auxv, session, vdso_user_addr, info, vdso_bytes, vvar_pages, vvar_paddr);
    assert(vdso_user_addr == aslr_addrs(t, vdso_kstart, vdso_kend, info.page_offset).1);
    r
}

} // verus!
