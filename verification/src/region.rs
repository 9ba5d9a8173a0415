use vstd::prelude::*;
use crate::error::Error;
use crate::flags::PageFlags;
use crate::mapper::{PageMapper, PAGE_SIZE};

verus! {

/// The page number of the first page covered by a range starting at
/// `start`.
pub open spec fn first_page(start: u64) -> int {
    start as int / PAGE_SIZE as int
}

/// How many whole pages cover `size` bytes: the last partial page, if any,
/// is fully counted, which keeps every mapping loop uniform at the cost of
/// up to one page of address space.
pub open spec fn num_pages(size: int) -> int {
    size / PAGE_SIZE as int + if size % PAGE_SIZE as int == 0 {
        0int
    } else {
        1int
    }
}

/// Whether page `p` lies in the page range covering `size` bytes at
/// `start`.
pub open spec fn covers(start: u64, size: int, p: u64) -> bool {
    first_page(start) <= (p as int) < first_page(start) + num_pages(size)
}

/// The page-table fragment a freshly mapped range contributes: every
/// covered page, mapped with `flags`.
pub open spec fn covered_map(start: u64, size: int, flags: PageFlags) -> Map<u64, PageFlags> {
    Map::new(|p: u64| covers(start, size, p), |p: u64| flags)
}

/// The set of pages covering `size` bytes at `start`.
pub open spec fn covered_set(start: u64, size: int) -> Set<u64> {
    Set::new(|p: u64| covers(start, size, p))
}

/// What a resize from `old_size` to `new_size` does to the page table `m`:
/// growth maps, with `flags`, every newly covered page that is not already
/// mapped (so a redundant call is idempotent); shrinking unmaps every page
/// no longer covered.
pub open spec fn resized_table(
    m: Map<u64, PageFlags>,
    start: u64,
    old_size: int,
    new_size: int,
    flags: PageFlags,
) -> Map<u64, PageFlags> {
    if new_size >= old_size {
        m.union_prefer_right(
            Map::new(
                |p: u64| covers(start, new_size, p) && !covers(start, old_size, p)
                    && !m.contains_key(p),
                |p: u64| flags,
            ),
        )
    } else {
        m.remove_keys(
            Set::new(|p: u64| covers(start, old_size, p) && !covers(start, new_size, p)),
        )
    }
}

/// A region of virtual memory kept consistently mapped with one permission
/// set, and exposed as a bounds-checked byte view of exactly `size` bytes
/// (not of the rounded-up page count).
#[derive(Debug)]
pub struct Region {
    start: u64,
    size: usize,
    flags: PageFlags,
    bytes: Vec<u8>,
}

impl View for Region {
    type V = Seq<u8>;

    closed spec fn view(&self) -> Seq<u8> {
        self.bytes@
    }
}

impl Region {
    pub closed spec fn spec_start(&self) -> u64 {
        self.start
    }

    pub closed spec fn spec_size(&self) -> usize {
        self.size
    }

    pub closed spec fn spec_flags(&self) -> PageFlags {
        self.flags
    }

    pub open spec fn wf(&self) -> bool {
        &&& self@.len() == self.spec_size()
        &&& self.spec_start() % (PAGE_SIZE as u64) == 0
        &&& self.spec_start() as int + self.spec_size() as int <= u64::MAX as int
    }

    /// Every page this region covers is mapped in `m` with exactly the
    /// region's flags.
    pub open spec fn mapped_in(&self, m: Map<u64, PageFlags>) -> bool {
        forall|p: u64|
            #[trigger] covers(self.spec_start(), self.spec_size() as int, p) ==> m.contains_key(p)
                && m[p] == self.spec_flags()
    }

    pub fn start(&self) -> (r: u64)
        ensures
            r == self.spec_start(),
    {
        self.start
    }

    pub fn size(&self) -> (r: usize)
        ensures
            r == self.spec_size(),
    {
        self.size
    }

    pub fn flags(&self) -> (r: PageFlags)
        ensures
            r == self.spec_flags(),
    {
        self.flags
    }

    /// Construct a region at the page-aligned `start`, `size` bytes long,
    /// mapping every covered page with `flags` and, when `zero` is set,
    /// zero-filling the view.
    ///
    /// Zeroing a range that is not writable is refused outright rather
    /// than skipped silently.  Mapping fails exactly when some covered
    /// page is already mapped; a failed construction releases whatever it
    /// had acquired, so the page table is left as it was found.
    pub fn new(
        mapper: &mut PageMapper,
        start: u64,
        size: usize,
        flags: PageFlags,
        zero: bool,
    ) -> (r: Result<Region, Error>)
        requires
            start % (PAGE_SIZE as u64) == 0,
            start as int + size as int <= u64::MAX as int,
        ensures
            (r is Ok) <==> (!(zero && !flags.writable) && (forall|p: u64|
                #[trigger] covers(start, size as int, p) ==> !old(mapper)@.contains_key(p))),
            r is Ok ==> ({
                let region = r->Ok_0;
                &&& region.wf()
                &&& region.spec_start() == start
                &&& region.spec_size() == size
                &&& region.spec_flags() == flags
                &&& (zero ==> region@ == Seq::new(size as nat, |k: int| 0u8))
                &&& region.mapped_in(final(mapper)@)
                &&& final(mapper)@ == old(mapper)@.union_prefer_right(
                    covered_map(start, size as int, flags),
                )
            }),
            r is Err ==> final(mapper)@ == old(mapper)@,
            r is Err ==> ((r->Err_0 == Error::PermissionDenied) <==> (zero && !flags.writable)),
            r is Err ==> (r->Err_0 == Error::PermissionDenied || r->Err_0 == Error::Internal),
    {
        if zero && !flags.writable {
            return Err(Error::PermissionDenied);
        }
        let first: u64 = start / (PAGE_SIZE as u64);
        let count: usize = size / PAGE_SIZE + (if size % PAGE_SIZE != 0 {
            1usize
        } else {
            0usize
        });
        proof {
            lemma_cover_bound(start, size as int);
            assert(first as int == first_page(start));
            assert(count as int == num_pages(size as int));
        }
        // Refuse construction while the page table is untouched if any
        // covered page is already mapped.
        let mut i: usize = 0;
        while i < count
            invariant
                i <= count,
                first as int == first_page(start),
                count as int == num_pages(size as int),
                first as int + count as int <= u64::MAX as int,
                forall|p: u64|
                    #![trigger mapper@.contains_key(p)]
                    first as int <= (p as int) < first as int + i ==> !mapper@.contains_key(p),
            decreases count - i,
        {
            let page: u64 = first + i as u64;
            if mapper.translate(page).is_some() {
                proof {
                    assert(covers(start, size as int, page));
                }
                return Err(Error::Internal);
            }
            i = i + 1;
        }
        let ghost m0 = mapper@;
        let mut i: usize = 0;
        while i < count
            invariant
                i <= count,
                first as int == first_page(start),
                count as int == num_pages(size as int),
                first as int + count as int <= u64::MAX as int,
                forall|p: u64|
                    #![trigger m0.contains_key(p)]
                    first as int <= (p as int) < first as int + count ==> !m0.contains_key(p),
                mapper@ == m0.union_prefer_right(
                    Map::new(
                        |p: u64| first as int <= (p as int) < first as int + i,
                        |p: u64| flags,
                    ),
                ),
            decreases count - i,
        {
            let page: u64 = first + i as u64;
            proof {
                assert(!m0.contains_key(page));
            }
            match mapper.map(page, flags) {
                Ok(flusher) => flusher.flush(),
                Err(_) => {
                    // unreachable: the pages were checked free before mapping began
                    proof {
                        assert(false);
                    }
                    return Err(Error::Internal);
                },
            }
            proof {
                let next = Map::new(
                    |p: u64| first as int <= (p as int) < first as int + (i + 1),
                    |p: u64| flags,
                );
                assert(mapper@ =~= m0.union_prefer_right(next));
            }
            i = i + 1;
        }
        let mut bytes: Vec<u8> = Vec::new();
        while bytes.len() < size
            invariant
                bytes@.len() <= size,
                forall|k: int| 0 <= k < bytes@.len() ==> bytes@[k] == 0u8,
            decreases size - bytes@.len(),
        {
            bytes.push(0u8);
        }
        proof {
            assert(bytes@ =~= Seq::new(size as nat, |k: int| 0u8));
            assert(mapper@ =~= m0.union_prefer_right(covered_map(start, size as int, flags)));
        }
        let region = Region { start, size, flags, bytes };
        proof {
            assert forall|p: u64| #[trigger] covers(start, size as int, p) implies mapper@.contains_key(p)
                && mapper@[p] == flags by {
                assert(covered_map(start, size as int, flags).contains_key(p));
            }
        }
        Ok(region)
    }

    /// Reapply a new permission set to every covered page, then record it.
    /// The page set is unchanged.  Fails, changing nothing, exactly when
    /// some covered page is not currently mapped.
    pub fn remap(&mut self, mapper: &mut PageMapper, new_flags: PageFlags) -> (r: Result<
        (),
        Error,
    >)
        requires
            old(self).wf(),
        ensures
            final(self).wf(),
            (r is Ok) <==> (forall|p: u64|
                #[trigger] covers(old(self).spec_start(), old(self).spec_size() as int, p)
                    ==> old(mapper)@.contains_key(p)),
            r is Ok ==> ({
                &&& final(self).spec_start() == old(self).spec_start()
                &&& final(self).spec_size() == old(self).spec_size()
                &&& final(self).spec_flags() == new_flags
                &&& final(self)@ == old(self)@
                &&& final(mapper)@ == old(mapper)@.union_prefer_right(
                    covered_map(old(self).spec_start(), old(self).spec_size() as int, new_flags),
                )
                &&& final(self).mapped_in(final(mapper)@)
            }),
            r is Err ==> *final(self) == *old(self) && final(mapper)@ == old(mapper)@ && r->Err_0
                == Error::Internal,
    {
        let first: u64 = self.start / (PAGE_SIZE as u64);
        let count: usize = self.size / PAGE_SIZE + (if self.size % PAGE_SIZE != 0 {
            1usize
        } else {
            0usize
        });
        proof {
            lemma_cover_bound(self.start, self.size as int);
            assert(first as int == first_page(self.spec_start()));
            assert(count as int == num_pages(self.spec_size() as int));
        }
        let mut i: usize = 0;
        while i < count
            invariant
                i <= count,
                first as int == first_page(self.spec_start()),
                count as int == num_pages(self.spec_size() as int),
                first as int + count as int <= u64::MAX as int,
                forall|p: u64|
                    #![trigger mapper@.contains_key(p)]
                    first as int <= (p as int) < first as int + i ==> mapper@.contains_key(p),
            decreases count - i,
        {
            let page: u64 = first + i as u64;
            if mapper.translate(page).is_none() {
                proof {
                    assert(covers(self.spec_start(), self.spec_size() as int, page));
                }
                return Err(Error::Internal);
            }
            i = i + 1;
        }
        let ghost m0 = mapper@;
        let mut i: usize = 0;
        while i < count
            invariant
                i <= count,
                first as int == first_page(self.spec_start()),
                count as int == num_pages(self.spec_size() as int),
                first as int + count as int <= u64::MAX as int,
                forall|p: u64|
                    #![trigger m0.contains_key(p)]
                    first as int <= (p as int) < first as int + count ==> m0.contains_key(p),
                mapper@ == m0.union_prefer_right(
                    Map::new(
                        |p: u64| first as int <= (p as int) < first as int + i,
                        |p: u64| new_flags,
                    ),
                ),
            decreases count - i,
        {
            let page: u64 = first + i as u64;
            proof {
                assert(m0.contains_key(page));
            }
            match mapper.remap(page, new_flags) {
                Ok(flusher) => flusher.flush(),
                Err(_) => {
                    // unreachable: the pages were checked free before mapping began
                    proof {
                        assert(false);
                    }
                    return Err(Error::Internal);
                },
            }
            proof {
                let next = Map::new(
                    |p: u64| first as int <= (p as int) < first as int + (i + 1),
                    |p: u64| new_flags,
                );
                assert(mapper@ =~= m0.union_prefer_right(next));
            }
            i = i + 1;
        }
        self.flags = new_flags;
        proof {
            assert(mapper@ =~= m0.union_prefer_right(
                covered_map(self.spec_start(), self.spec_size() as int, new_flags),
            ));
            assert forall|p: u64|
                #[trigger] covers(self.spec_start(), self.spec_size() as int, p) implies mapper@.contains_key(p)
                && mapper@[p] == new_flags by {
                assert(covered_map(self.spec_start(), self.spec_size() as int, new_flags)
                    .contains_key(p));
            }
        }
        Ok(())
    }

    /// Resize in place.  Growth maps every newly covered page that is not
    /// already mapped (a `translate` guard makes a redundant call
    /// idempotent) and zero-fills exactly the added byte range
    /// `[old_size, new_size)` when `zero` is set; shrinking unmaps every
    /// page no longer covered, skipping pages already gone.  The stored
    /// size is updated last.  Zero-filling new bytes of a region that is
    /// not writable is refused outright.
    pub fn resize(&mut self, mapper: &mut PageMapper, new_size: usize, zero: bool) -> (r: Result<
        (),
        Error,
    >)
        requires
            old(self).wf(),
            old(self).spec_start() as int + new_size as int <= u64::MAX as int,
        ensures
            final(self).wf(),
            (r is Ok) <==> !(zero && new_size > old(self).spec_size()
                && !old(self).spec_flags().writable),
            r is Ok ==> ({
                &&& final(self).spec_start() == old(self).spec_start()
                &&& final(self).spec_flags() == old(self).spec_flags()
                &&& final(self).spec_size() == new_size
                &&& final(self)@.len() == new_size
                &&& (forall|k: int|
                    0 <= k < old(self).spec_size() && k < new_size ==> final(self)@[k] == old(
                        self,
                    )@[k])
                &&& (zero ==> forall|k: int|
                    old(self).spec_size() <= k < new_size ==> final(self)@[k] == 0u8)
                &&& final(mapper)@ == resized_table(
                    old(mapper)@,
                    old(self).spec_start(),
                    old(self).spec_size() as int,
                    new_size as int,
                    old(self).spec_flags(),
                )
            }),
            r is Err ==> *final(self) == *old(self) && final(mapper)@ == old(mapper)@ && r->Err_0
                == Error::PermissionDenied,
    {
        let first: u64 = self.start / (PAGE_SIZE as u64);
        let old_size = self.size;
        let old_count: usize = old_size / PAGE_SIZE + (if old_size % PAGE_SIZE != 0 {
            1usize
        } else {
            0usize
        });
        let new_count: usize = new_size / PAGE_SIZE + (if new_size % PAGE_SIZE != 0 {
            1usize
        } else {
            0usize
        });
        proof {
            lemma_cover_bound(self.start, old_size as int);
            lemma_cover_bound(self.start, new_size as int);
            if old_size <= new_size {
                lemma_num_pages_mono(old_size as int, new_size as int);
            } else {
                lemma_num_pages_mono(new_size as int, old_size as int);
            }
            assert(first as int == first_page(self.spec_start()));
            assert(old_count as int == num_pages(old_size as int));
            assert(new_count as int == num_pages(new_size as int));
        }
        if new_size > old_size {
            if zero && !self.flags.writable {
                return Err(Error::PermissionDenied);
            }
            let ghost m0 = mapper@;
            let mut i: usize = old_count;
            while i < new_count
                invariant
                    old_count <= i <= new_count,
                    first as int == first_page(self.spec_start()),
                    old_count as int == num_pages(old_size as int),
                    new_count as int == num_pages(new_size as int),
                    first as int + new_count as int <= u64::MAX as int,
                    mapper@ == m0.union_prefer_right(
                        Map::new(
                            |p: u64| first as int + old_count <= (p as int) < first as int + i
                                && !m0.contains_key(p),
                            |p: u64| self.spec_flags(),
                        ),
                    ),
                decreases new_count - i,
            {
                let page: u64 = first + i as u64;
                if mapper.translate(page).is_none() {
                    match mapper.map(page, self.flags) {
                        Ok(flusher) => flusher.flush(),
                        Err(_) => {
                            // unreachable: the translate guard saw the page free
                            proof {
                                assert(false);
                            }
                            return Err(Error::PermissionDenied);
                        },
                    }
                }
                proof {
                    let next = Map::new(
                        |p: u64| first as int + old_count <= (p as int) < first as int + (i + 1)
                            && !m0.contains_key(p),
                        |p: u64| self.spec_flags(),
                    );
                    assert(mapper@ =~= m0.union_prefer_right(next));
                }
                i = i + 1;
            }
            while self.bytes.len() < new_size
                invariant
                    self.start == old(self).spec_start(),
                    self.size == old(self).spec_size(),
                    self.flags == old(self).spec_flags(),
                    old_size <= self.bytes@.len() <= new_size,
                    forall|k: int| 0 <= k < old_size ==> self.bytes@[k] == old(self)@[k],
                    forall|k: int| old_size <= k < self.bytes@.len() ==> self.bytes@[k] == 0u8,
                decreases new_size - self.bytes@.len(),
            {
                self.bytes.push(0u8);
            }
            self.size = new_size;
            proof {
                assert(mapper@ =~= resized_table(
                    m0,
                    self.spec_start(),
                    old_size as int,
                    new_size as int,
                    self.spec_flags(),
                ));
            }
            Ok(())
        } else if new_size < old_size {
            let ghost m0 = mapper@;
            let mut i: usize = new_count;
            while i < old_count
                invariant
                    new_count <= i <= old_count,
                    first as int == first_page(self.spec_start()),
                    old_count as int == num_pages(old_size as int),
                    new_count as int == num_pages(new_size as int),
                    first as int + old_count as int <= u64::MAX as int,
                    mapper@ == m0.remove_keys(
                        Set::new(|p: u64| first as int + new_count <= (p as int) < first as int + i),
                    ),
                decreases old_count - i,
            {
                let page: u64 = first + i as u64;
                if mapper.translate(page).is_some() {
                    match mapper.unmap(page) {
                        Ok(flusher) => flusher.flush(),
                        Err(_) => {
                            // unreachable: the translate guard saw the page mapped
                            proof {
                                assert(false);
                            }
                            return Err(Error::PermissionDenied);
                        },
                    }
                }
                proof {
                    let next = Set::new(
                        |p: u64| first as int + new_count <= (p as int) < first as int + (i + 1),
                    );
                    assert(mapper@ =~= m0.remove_keys(next));
                }
                i = i + 1;
            }
            self.bytes.truncate(new_size);
            self.size = new_size;
            proof {
                assert(mapper@ =~= resized_table(
                    m0,
                    self.spec_start(),
                    old_size as int,
                    new_size as int,
                    self.spec_flags(),
                ));
            }
            Ok(())
        } else {
            proof {
                assert(mapper@ =~= resized_table(
                    mapper@,
                    self.spec_start(),
                    old_size as int,
                    new_size as int,
                    self.spec_flags(),
                ));
            }
            Ok(())
        }
    }

    /// Best-effort teardown: unmap every covered page, skipping pages
    /// already gone rather than failing, since destruction must be
    /// unconditional.  Consumes the region.
    pub fn unmap(self, mapper: &mut PageMapper)
        requires
            self.wf(),
        ensures
            final(mapper)@ == old(mapper)@.remove_keys(
                covered_set(self.spec_start(), self.spec_size() as int),
            ),
    {
        let first: u64 = self.start / (PAGE_SIZE as u64);
        let count: usize = self.size / PAGE_SIZE + (if self.size % PAGE_SIZE != 0 {
            1usize
        } else {
            0usize
        });
        proof {
            lemma_cover_bound(self.start, self.size as int);
            assert(first as int == first_page(self.spec_start()));
            assert(count as int == num_pages(self.spec_size() as int));
        }
        let ghost m0 = mapper@;
        let mut i: usize = 0;
        while i < count
            invariant
                i <= count,
                first as int == first_page(self.spec_start()),
                count as int == num_pages(self.spec_size() as int),
                first as int + count as int <= u64::MAX as int,
                mapper@ == m0.remove_keys(
                    Set::new(|p: u64| first as int <= (p as int) < first as int + i),
                ),
            decreases count - i,
        {
            let page: u64 = first + i as u64;
            if mapper.translate(page).is_some() {
                match mapper.unmap(page) {
                    Ok(flusher) => flusher.flush(),
                    Err(_) => {
                        // unreachable: the translate guard saw the page mapped
                        proof {
                            assert(false);
                        }
                    },
                }
            }
            proof {
                let next = Set::new(|p: u64| first as int <= (p as int) < first as int + (i + 1));
                assert(mapper@ =~= m0.remove_keys(next));
            }
            i = i + 1;
        }
        proof {
            assert(mapper@ =~= m0.remove_keys(
                covered_set(self.spec_start(), self.spec_size() as int),
            ));
        }
    }

    /// Read one byte of the view.  Succeeds exactly on offsets inside the
    /// declared size of a readable region; nothing at or past `size` is
    /// reachable, even where the rounded-up page count goes further.
    pub fn read(&self, offset: usize) -> (r: Result<u8, Error>)
        requires
            self.wf(),
        ensures
            (r is Ok) <==> (offset < self.spec_size() && self.spec_flags().readable),
            r is Ok ==> r->Ok_0 == self@[offset as int],
            r is Err ==> ((r->Err_0 == Error::OutOfBounds) <==> offset >= self.spec_size()),
            r is Err ==> ((r->Err_0 == Error::PermissionDenied) <==> (offset < self.spec_size()
                && !self.spec_flags().readable)),
    {
        if offset >= self.size {
            return Err(Error::OutOfBounds);
        }
        if !self.flags.readable {
            return Err(Error::PermissionDenied);
        }
        Ok(self.bytes[offset])
    }

    /// Write one byte of the view.  Succeeds exactly on offsets inside the
    /// declared size of a writable region.
    pub fn write(&mut self, offset: usize, value: u8) -> (r: Result<(), Error>)
        requires
            old(self).wf(),
        ensures
            final(self).wf(),
            final(self).spec_start() == old(self).spec_start(),
            final(self).spec_size() == old(self).spec_size(),
            final(self).spec_flags() == old(self).spec_flags(),
            (r is Ok) <==> (offset < old(self).spec_size() && old(self).spec_flags().writable),
            r is Ok ==> final(self)@ == old(self)@.update(offset as int, value),
            r is Err ==> *final(self) == *old(self),
            r is Err ==> ((r->Err_0 == Error::OutOfBounds) <==> offset >= old(self).spec_size()),
            r is Err ==> ((r->Err_0 == Error::PermissionDenied) <==> (offset < old(
                self,
            ).spec_size() && !old(self).spec_flags().writable)),
    {
        if offset >= self.size {
            return Err(Error::OutOfBounds);
        }
        if !self.flags.writable {
            return Err(Error::PermissionDenied);
        }
        self.bytes[offset] = value;
        Ok(())
    }
}

/// Covering more bytes never takes fewer pages.
proof fn lemma_num_pages_mono(a: int, b: int)
    requires
        0 <= a <= b,
    ensures
        num_pages(a) <= num_pages(b),
{
    let d = PAGE_SIZE as int;
    assert(a / d + (if a % d == 0 {
        0int
    } else {
        1int
    }) <= b / d + (if b % d == 0 {
        0int
    } else {
        1int
    })) by (nonlinear_arith)
        requires
            0 <= a <= b,
            d == PAGE_SIZE as int,
            PAGE_SIZE == 4096,
    ;
}

/// The covered page range fits the page-number space: needed so that page
/// arithmetic in the mapping loops cannot overflow.
proof fn lemma_cover_bound(start: u64, size: int)
    requires
        size >= 0,
        start as int + size <= u64::MAX as int,
    ensures
        first_page(start) + num_pages(size) <= u64::MAX as int,
{
    vstd::arithmetic::div_mod::lemma_div_is_ordered(start as int, u64::MAX as int, PAGE_SIZE as int);
    vstd::arithmetic::div_mod::lemma_div_is_ordered(size, u64::MAX as int, PAGE_SIZE as int);
}

/// Law: growing a region and then shrinking it back to its original size
/// restores the exact original page-table state.  The proviso is the
/// region's ownership discipline: the pages the growth would newly cover
/// are free beforehand, as they always are while nothing else maps inside
/// the region's reservation.
pub proof fn lemma_resize_round_trip(
    m: Map<u64, PageFlags>,
    start: u64,
    size0: int,
    size1: int,
    flags: PageFlags,
)
    requires
        0 <= size0 <= size1,
        forall|p: u64|
            #[trigger] covers(start, size1, p) && !covers(start, size0, p) ==> !m.contains_key(p),
    ensures
        resized_table(resized_table(m, start, size0, size1, flags), start, size1, size0, flags)
            =~= m,
{
    let grown = resized_table(m, start, size0, size1, flags);
    let back = resized_table(grown, start, size1, size0, flags);
    assert forall|p: u64| back.contains_key(p) <==> m.contains_key(p) by {
        assert(covers(start, size1, p) || !covers(start, size1, p));
    }
    assert forall|p: u64| #[trigger] back.contains_key(p) implies back[p] == m[p] by {
        assert(covers(start, size1, p) || !covers(start, size1, p));
    }
}

} // verus!
