use vstd::prelude::*;
use crate::error::Error;

verus! {

/// Size in bytes of one WASM linear-memory page.
pub const WASM_PAGE_SIZE: usize = 65536;

/// The largest page count a linear memory may declare (a 4 GiB address
/// range, the WASM limit).
pub const MAX_WASM_PAGES: usize = 65536;

/// One WASM linear memory: a byte-addressable, page-granular, grow-only
/// heap with a base address that is fixed at reservation time and never
/// moves.
///
/// Growth commits more pages at higher addresses of the same reservation,
/// never by relocating, so a base pointer cached by compiled code (for
/// instance inside a `VmCtx` already handed out) stays valid across every
/// successful or failed grow.
#[derive(Debug)]
pub struct WasmMemory {
    base: u64,
    pages: usize,
    max_pages: usize,
    bytes: Vec<u8>,
}

impl View for WasmMemory {
    type V = Seq<u8>;

    closed spec fn view(&self) -> Seq<u8> {
        self.bytes@
    }
}

impl WasmMemory {
    pub closed spec fn spec_base(&self) -> u64 {
        self.base
    }

    pub closed spec fn spec_pages(&self) -> usize {
        self.pages
    }

    pub closed spec fn spec_max_pages(&self) -> usize {
        self.max_pages
    }

    pub open spec fn wf(&self) -> bool {
        &&& self@.len() == self.spec_pages() * WASM_PAGE_SIZE
        &&& self.spec_pages() <= self.spec_max_pages()
        &&& self.spec_max_pages() <= MAX_WASM_PAGES
        &&& self.spec_max_pages() * WASM_PAGE_SIZE <= usize::MAX as int
        &&& self.spec_base() as int + self.spec_max_pages() * WASM_PAGE_SIZE <= u64::MAX as int
    }

    /// Reserve the backing store for one linear memory without committing
    /// any pages.  The base address is fixed here and never changes.
    /// Fails, exactly when the declared maximum does not fit the platform
    /// (more pages than the WASM limit, a byte count past `usize`, or a
    /// reservation running past the top of the address space), with
    /// nothing reserved.
    pub fn allocate(base: u64, max_pages: usize) -> (r: Result<WasmMemory, Error>)
        ensures
            (r is Ok) <==> (max_pages <= MAX_WASM_PAGES && max_pages * WASM_PAGE_SIZE
                <= usize::MAX as int && base as int + max_pages * WASM_PAGE_SIZE
                <= u64::MAX as int),
            r is Ok ==> ({
                let m = r->Ok_0;
                &&& m.wf()
                &&& m.spec_base() == base
                &&& m.spec_pages() == 0
                &&& m.spec_max_pages() == max_pages
                &&& m@ == Seq::<u8>::empty()
            }),
            r is Err ==> r->Err_0 == Error::Internal,
    {
        if max_pages > MAX_WASM_PAGES {
            return Err(Error::Internal);
        }
        let needed: u64 = (max_pages as u64) * (WASM_PAGE_SIZE as u64);
        if needed > usize::MAX as u64 {
            return Err(Error::Internal);
        }
        if base > u64::MAX - needed {
            return Err(Error::Internal);
        }
        Ok(WasmMemory { base, pages: 0, max_pages, bytes: Vec::new() })
    }

    /// The stable base address; callers may cache it for the memory's
    /// whole lifetime.
    pub fn as_base_pointer(&self) -> (r: u64)
        ensures
            r == self.spec_base(),
    {
        self.base
    }

    /// The committed page count.
    pub fn pages(&self) -> (r: usize)
        ensures
            r == self.spec_pages(),
    {
        self.pages
    }

    /// The declared maximum page count.
    pub fn max_pages(&self) -> (r: usize)
        ensures
            r == self.spec_max_pages(),
    {
        self.max_pages
    }

    /// Commit `additional_pages` more zeroed pages at the next addresses
    /// of the reservation.
    ///
    /// Growth is monotonic and never moves the base: the committed page
    /// count cannot decrease and the base address is identical before and
    /// after any call.  A request past the declared maximum fails with
    /// `CapacityExceeded` and no partial effect.
    pub fn grow(&mut self, additional_pages: usize) -> (r: Result<(), Error>)
        requires
            old(self).wf(),
        ensures
            final(self).wf(),
            final(self).spec_base() == old(self).spec_base(),
            final(self).spec_max_pages() == old(self).spec_max_pages(),
            final(self).spec_pages() >= old(self).spec_pages(),
            (r is Ok) <==> (old(self).spec_pages() + additional_pages <= old(
                self,
            ).spec_max_pages()),
            r is Ok ==> ({
                &&& final(self).spec_pages() == old(self).spec_pages() + additional_pages
                &&& final(self)@.len() == final(self).spec_pages() * WASM_PAGE_SIZE
                &&& final(self)@.subrange(0, old(self)@.len() as int) == old(self)@
                &&& (forall|k: int|
                    old(self)@.len() <= k < final(self)@.len() ==> final(self)@[k] == 0u8)
            }),
            r is Err ==> *final(self) == *old(self) && r->Err_0 == Error::CapacityExceeded,
    {
        if additional_pages > self.max_pages - self.pages {
            return Err(Error::CapacityExceeded);
        }
        let new_pages: usize = self.pages + additional_pages;
        proof {
            vstd::arithmetic::mul::lemma_mul_inequality(
                new_pages as int,
                self.max_pages as int,
                WASM_PAGE_SIZE as int,
            );
        }
        let new_len: usize = new_pages * WASM_PAGE_SIZE;
        while self.bytes.len() < new_len
            invariant
                self.base == old(self).spec_base(),
                self.pages == old(self).spec_pages(),
                self.max_pages == old(self).spec_max_pages(),
                old(self)@.len() <= self.bytes@.len() <= new_len,
                self.bytes@.subrange(0, old(self)@.len() as int) == old(self)@,
                forall|k: int| old(self)@.len() <= k < self.bytes@.len() ==> self.bytes@[k] == 0u8,
            decreases new_len - self.bytes@.len(),
        {
            self.bytes.push(0u8);
            proof {
                assert(self.bytes@.subrange(0, old(self)@.len() as int) =~= old(self)@);
            }
        }
        self.pages = new_pages;
        Ok(())
    }

    /// Copy `data` into the committed bytes at `offset`.  Succeeds exactly
    /// when the target window lies inside the committed bytes; nothing
    /// changes otherwise.
    pub fn write_bytes(&mut self, offset: usize, data: &[u8]) -> (r: Result<(), Error>)
        requires
            old(self).wf(),
        ensures
            final(self).wf(),
            final(self).spec_base() == old(self).spec_base(),
            final(self).spec_pages() == old(self).spec_pages(),
            final(self).spec_max_pages() == old(self).spec_max_pages(),
            (r is Ok) <==> (offset + data@.len() <= old(self)@.len()),
            r is Ok ==> final(self)@ == overwrite(old(self)@, offset as int, data@),
            r is Err ==> *final(self) == *old(self) && r->Err_0 == Error::OutOfBounds,
    {
        if data.len() > self.bytes.len() || offset > self.bytes.len() - data.len() {
            return Err(Error::OutOfBounds);
        }
        let mut j: usize = 0;
        while j < data.len()
            invariant
                j <= data@.len(),
                offset + data@.len() <= self.bytes@.len(),
                self.base == old(self).spec_base(),
                self.pages == old(self).spec_pages(),
                self.max_pages == old(self).spec_max_pages(),
                self.bytes@.len() == old(self)@.len(),
                forall|k: int|
                    0 <= k < self.bytes@.len() && !(offset <= k < offset + j) ==> self.bytes@[k]
                        == old(self)@[k],
                forall|k: int| offset <= k < offset + j ==> self.bytes@[k] == data@[k - offset],
            decreases data@.len() - j,
        {
            let b = data[j];
            self.bytes[offset + j] = b;
            j = j + 1;
        }
        proof {
            assert(self.bytes@ =~= overwrite(old(self)@, offset as int, data@));
        }
        Ok(())
    }

    /// The `len` committed bytes starting at `address`, or `None` when
    /// the window leaves the committed range.  Diagnostic twin of
    /// `carve_slice` for kernel-side introspection.
    pub fn inspect(&self, address: usize, len: usize) -> (r: Option<&[u8]>)
        ensures
            (r is Some) <==> (address + len <= self@.len()),
            r is Some ==> r->Some_0@ == self@.subrange(address as int, address as int + len as int),
    {
        if len > self.bytes.len() || address > self.bytes.len() - len {
            return None;
        }
        Some(vstd::slice::slice_subrange(self.bytes.as_slice(), address, address + len))
    }

    /// The `size` committed bytes starting at `offset`, or `None` when the
    /// window leaves the committed range.  This is the bounds-respecting
    /// read path handed to kernel services that consume sandbox buffers.
    pub fn carve_slice(&self, offset: u32, size: u32) -> (r: Option<&[u8]>)
        ensures
            (r is Some) <==> (offset + size <= self@.len()),
            r is Some ==> r->Some_0@ == self@.subrange(offset as int, offset as int + size as int),
    {
        let off = offset as usize;
        let len = size as usize;
        if len > self.bytes.len() || off > self.bytes.len() - len {
            return None;
        }
        Some(vstd::slice::slice_subrange(self.bytes.as_slice(), off, off + len))
    }
}

/// `s` with the window at `off` replaced by `data` (indices outside `s`
/// are ignored; instantiation validates every window before writing).
pub open spec fn overwrite(s: Seq<u8>, off: int, data: Seq<u8>) -> Seq<u8> {
    Seq::new(s.len(), |k: int| if off <= k < off + data.len() {
        data[k - off]
    } else {
        s[k]
    })
}

} // verus!
