use vstd::prelude::*;

verus! {

/// Size of one page of the scratch allocation, in bytes.
pub const PAGE_SIZE_4K: usize = 4096;

/// Scoped-release handle for the scratch pages that hold a shifted copy of
/// the vDSO image.
///
/// While armed it holds `(address, page count)` of the allocation. The
/// allocation is handed back exactly once by [`VdsoAllocGuard::release`],
/// which the owner runs on every exit path; after [`VdsoAllocGuard::disarm`]
/// nothing is handed back.
pub struct VdsoAllocGuard {
    alloc: Option<(usize, usize)>,
}

/// The size and alignment with which a scratch allocation is freed.
pub struct ReleaseLayout {
    pub addr: usize,
    pub size: usize,
    pub align: usize,
}

/// What releasing an allocation of `pages` pages at `addr` frees, when its
/// byte size fits in a machine word.
pub open spec fn release_layout_of(addr: usize, pages: usize) -> Option<ReleaseLayout> {
    if pages * PAGE_SIZE_4K <= usize::MAX {
        Some(ReleaseLayout { addr, size: (pages * PAGE_SIZE_4K) as usize, align: PAGE_SIZE_4K })
    } else {
        None
    }
}

impl VdsoAllocGuard {
    /// The allocation that is still owned by the guard.
    pub closed spec fn held(&self) -> Option<(usize, usize)> {
        self.alloc
    }

    pub fn new(alloc: Option<(usize, usize)>) -> (r: Self)
        ensures
            r.held() == alloc,
    {
        Self { alloc }
    }

    /// Gives up ownership: a later release frees nothing.
    pub fn disarm(&mut self)
        ensures
            final(self).held().is_none(),
    {
        self.alloc = None;
    }

    /// Hands back the layout to free, at most once: the guard is disarmed
    /// afterwards.
    pub fn release(&mut self) -> (r: Option<ReleaseLayout>)
        ensures
            final(self).held().is_none(),
            r == released_by(old(self).held()),
    {
        let r = match self.alloc {
            None => None,
            Some((addr, pages)) => match pages.checked_mul(PAGE_SIZE_4K) {
                Some(size) => Some(ReleaseLayout { addr, size, align: PAGE_SIZE_4K }),
                None => None,
            },
        };
        self.alloc = None;
        r
    }
}

/// What releasing a guard that holds `alloc` frees.
pub open spec fn released_by(alloc: Option<(usize, usize)>) -> Option<ReleaseLayout> {
    match alloc {
        None => None,
        Some((addr, pages)) => release_layout_of(addr, pages),
    }
}

/// A guard that was disarmed (it holds nothing) releases nothing; a guard
/// made with `(addr, pages)` and not disarmed releases exactly that
/// allocation, `pages` pages long and page-aligned, and holds nothing
/// afterwards, so a second release frees nothing.
pub proof fn lemma_guard_releases_once(addr: usize, pages: usize)
    requires
        pages * PAGE_SIZE_4K <= usize::MAX,
    ensures
        released_by(None).is_none(),
        released_by(Some((addr, pages))) == Some(
            ReleaseLayout { addr, size: (pages * PAGE_SIZE_4K) as usize, align: PAGE_SIZE_4K },
        ),
{
}

} // verus!
