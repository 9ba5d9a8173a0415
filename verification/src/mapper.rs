use vstd::prelude::*;
use std::collections::HashMap;
use crate::flags::PageFlags;

verus! {

broadcast use vstd::std_specs::hash::group_hash_axioms;

/// Size in bytes of one machine page.
pub const PAGE_SIZE: usize = 4096;

/// The failure of a single page-table operation: mapping a page that is
/// already mapped, or unmapping/remapping one that is not.
#[derive(Clone, Copy, Debug, PartialEq, Eq, Structural)]
pub struct MapError;

/// Proof that a page-table edit still owes (or has had) its
/// translation-cache invalidation.  Every `map`, `unmap` and `remap` hands
/// one back, and the new state of the page may be relied on only after
/// `flush` has consumed it.
#[must_use]
pub struct Flusher {
    /// The page number whose stale translation must be invalidated.
    pub page: u64,
}

impl Flusher {
    /// Invalidate the stale translation for this page.  The model keeps no
    /// translation cache, so consuming the capability is the whole effect.
    pub fn flush(self) {
    }
}

/// A model of the architecture's page-table primitive for one address
/// space: the set of mapped page numbers, each with the permission flags it
/// was mapped with.
///
/// The page-table walker, the physical-page allocator and the TLB are out
/// of scope; the model identity-maps every page (page number `p` translates
/// to physical frame `p`), which is all the memory core ever relies on.
pub struct PageMapper {
    table: HashMap<u64, PageFlags>,
}

impl View for PageMapper {
    type V = Map<u64, PageFlags>;

    closed spec fn view(&self) -> Map<u64, PageFlags> {
        self.table@
    }
}

impl PageMapper {
    /// An address space with nothing mapped.
    pub fn new() -> (r: PageMapper)
        ensures
            r@ == Map::<u64, PageFlags>::empty(),
    {
        PageMapper { table: HashMap::new() }
    }

    /// Map `page` with `flags`.  Fails, changing nothing, exactly when the
    /// page is already mapped.
    pub fn map(&mut self, page: u64, flags: PageFlags) -> (r: Result<Flusher, MapError>)
        ensures
            r is Ok <==> !old(self)@.contains_key(page),
            r is Ok ==> final(self)@ == old(self)@.insert(page, flags),
            r is Err ==> final(self)@ == old(self)@,
    {
        if self.table.contains_key(&page) {
            Err(MapError)
        } else {
            self.table.insert(page, flags);
            Ok(Flusher { page })
        }
    }

    /// Unmap `page`.  Fails, changing nothing, exactly when the page is not
    /// mapped.
    pub fn unmap(&mut self, page: u64) -> (r: Result<Flusher, MapError>)
        ensures
            r is Ok <==> old(self)@.contains_key(page),
            r is Ok ==> final(self)@ == old(self)@.remove(page),
            r is Err ==> final(self)@ == old(self)@,
    {
        match self.table.remove(&page) {
            Some(_) => Ok(Flusher { page }),
            None => {
                proof {
                    assert(self@ =~= old(self)@);
                }
                Err(MapError)
            },
        }
    }

    /// Change the flags of the already-mapped `page` to `flags`.  Fails,
    /// changing nothing, exactly when the page is not mapped.
    pub fn remap(&mut self, page: u64, flags: PageFlags) -> (r: Result<Flusher, MapError>)
        ensures
            r is Ok <==> old(self)@.contains_key(page),
            r is Ok ==> final(self)@ == old(self)@.insert(page, flags),
            r is Err ==> final(self)@ == old(self)@,
    {
        if self.table.contains_key(&page) {
            self.table.insert(page, flags);
            Ok(Flusher { page })
        } else {
            Err(MapError)
        }
    }

    /// Look `page` up: the physical frame number it translates to, or
    /// `None` when the page is not mapped.  The model identity-maps, so a
    /// mapped page `p` translates to frame `p`.
    pub fn translate(&self, page: u64) -> (r: Option<u64>)
        ensures
            r is Some <==> self@.contains_key(page),
            r is Some ==> r->Some_0 == page,
    {
        match self.table.get(&page) {
            Some(_) => Some(page),
            None => None,
        }
    }

    /// The flags `page` is currently mapped with, or `None` when it is not
    /// mapped.  Diagnostic twin of `translate` for permission checks.
    pub fn flags_of(&self, page: u64) -> (r: Option<PageFlags>)
        ensures
            r is Some <==> self@.contains_key(page),
            r is Some ==> r->Some_0 == self@[page],
    {
        match self.table.get(&page) {
            Some(f) => Some(*f),
            None => None,
        }
    }
}

} // verus!
