use vstd::prelude::*;
use crate::error::Error;
use crate::memory::{WasmMemory, overwrite, MAX_WASM_PAGES, WASM_PAGE_SIZE};

verus! {

/// Width in bytes of one global slot.  Every global gets a full slot
/// whatever its declared width: a deliberate simplicity-over-density
/// tradeoff.
pub const GLOBAL_SLOT_SIZE: usize = 8;

/// Virtual address at which a process's globals buffer is exposed.
pub const GLOBALS_BASE: u64 = 0x80_0000_0000;

/// Virtual address of the first linear-memory reservation of a process.
pub const MEMORY_ARENA_BASE: u64 = 0x1000_0000_0000;

/// Bytes reserved per linear memory: the largest declarable memory, so
/// growth never needs to relocate.
pub const MEMORY_RESERVATION: u64 = 0x1_0000_0000;

/// How many linear-memory reservations fit the per-process arena.
pub const MAX_MEMORIES: usize = 4096;

/// A declared table: a resizable sequence of opaque function or reference
/// indices, `size` elements long at instantiation.
#[derive(Clone, Copy, Debug, PartialEq, Eq, Structural)]
pub struct TableDecl {
    pub size: usize,
}

/// A declared linear memory: committed to `pages_count` pages at
/// instantiation, never grown past `maximum`.
#[derive(Clone, Copy, Debug, PartialEq, Eq, Structural)]
pub struct MemoryDecl {
    pub pages_count: usize,
    pub maximum: usize,
}

/// The declarations of a compiled module that the runtime instantiates:
/// tables, linear memories, and a count of globals (their width is fixed
/// by this core, not by the declared type).
#[derive(Debug)]
pub struct Module {
    pub tables: Vec<TableDecl>,
    pub memories: Vec<MemoryDecl>,
    pub globals: usize,
}

/// A static byte payload copied into linear memory `memory_index` at
/// `offset` during instantiation.  A payload based at a global's value
/// rather than a flat offset carries `Some` in `base` and is unsupported:
/// instantiation rejects it.
#[derive(Debug)]
pub struct DataInitializer {
    pub memory_index: usize,
    pub offset: usize,
    pub data: Vec<u8>,
    pub base: Option<u32>,
}

/// The declared value type of a global, which determines how many of its
/// slot's bytes an inspection reads.
#[derive(Clone, Copy, Debug, PartialEq, Eq, Structural)]
pub enum GlobalType {
    I32,
    I64,
    F32,
    F64,
}

impl GlobalType {
    /// Width in bytes of a value of this type.
    pub open spec fn spec_width(self) -> int {
        match self {
            GlobalType::I32 => 4,
            GlobalType::I64 => 8,
            GlobalType::F32 => 4,
            GlobalType::F64 => 8,
        }
    }

    pub fn width(self) -> (r: usize)
        ensures
            r == self.spec_width(),
    {
        match self {
            GlobalType::I32 => 4,
            GlobalType::I64 => 8,
            GlobalType::F32 => 4,
            GlobalType::F64 => 8,
        }
    }
}

/// The ABI-fixed structure handed to compiled sandboxed code: the base
/// address of the globals buffer, and the base address of each linear
/// memory.  Every memory access compiled code performs is an offset from
/// one of these, so they must stay valid — the owning instance never moves
/// its buffers, and linear memories grow in place.
#[derive(Debug)]
pub struct VmCtx {
    pub globals: u64,
    pub memories: Vec<u64>,
}

/// Every declared maximum fits the platform: within the WASM page limit
/// and with a byte count addressable by `usize`.
pub open spec fn mems_within_limit(module: Module) -> bool {
    forall|i: int|
        0 <= i < module.memories@.len() ==> {
            &&& (#[trigger] module.memories@[i]).maximum <= MAX_WASM_PAGES
            &&& module.memories@[i].maximum * WASM_PAGE_SIZE <= usize::MAX as int
        }
}

/// Every declared initial page count stays within its declared maximum.
pub open spec fn mems_initial_ok(module: Module) -> bool {
    forall|i: int|
        0 <= i < module.memories@.len() ==> (#[trigger] module.memories@[i]).pages_count
            <= module.memories@[i].maximum
}

/// No initializer asks for the unsupported global-relative addressing.
pub open spec fn inits_flat(inits: Seq<DataInitializer>) -> bool {
    forall|k: int| 0 <= k < inits.len() ==> (#[trigger] inits[k]).base is None
}

/// Every initializer targets a declared memory and lies inside its
/// initial committed bytes.
pub open spec fn inits_in_bounds(module: Module, inits: Seq<DataInitializer>) -> bool {
    forall|k: int|
        0 <= k < inits.len() ==> {
            &&& (#[trigger] inits[k]).memory_index < module.memories@.len()
            &&& inits[k].offset + inits[k].data@.len() <= module.memories@[inits[k].memory_index
                as int].pages_count * WASM_PAGE_SIZE
        }
}

/// `n` zero bytes.
pub open spec fn zero_bytes(n: int) -> Seq<u8> {
    Seq::new(n as nat, |k: int| 0u8)
}

/// The contents of memory `mem_index` after applying `inits` in order to
/// `contents`: each initializer for this memory overwrites its window,
/// later ones on top of earlier ones.
pub open spec fn apply_initializers(
    mem_index: int,
    contents: Seq<u8>,
    inits: Seq<DataInitializer>,
) -> Seq<u8>
    decreases inits.len(),
{
    if inits.len() == 0 {
        contents
    } else {
        let stepped = if inits[0].memory_index as int == mem_index {
            overwrite(contents, inits[0].offset as int, inits[0].data@)
        } else {
            contents
        };
        apply_initializers(mem_index, stepped, inits.drop_first())
    }
}

/// The full runtime state of one instantiated sandboxed module: its
/// tables, its linear memories, and one flat buffer holding every global
/// in a fixed-width slot (global `i` lives at byte offset
/// `i * GLOBAL_SLOT_SIZE`).
#[derive(Debug)]
pub struct Instance {
    /// WebAssembly table data.
    pub tables: Vec<Vec<usize>>,
    /// WebAssembly linear memory data.
    pub memories: Vec<WasmMemory>,
    /// WebAssembly global variable data.
    pub globals: Vec<u8>,
    /// The stable base address of each memory, kept parallel to
    /// `memories` and used only to build `VmCtx`.
    pub memory_bases: Vec<u64>,
}

impl Instance {
    pub open spec fn wf(&self) -> bool {
        &&& forall|i: int| 0 <= i < self.memories@.len() ==> (#[trigger] self.memories@[i]).wf()
        &&& self.memory_bases@.len() == self.memories@.len()
        &&& forall|i: int|
            0 <= i < self.memories@.len() ==> self.memory_bases@[i] == (
            #[trigger] self.memories@[i]).spec_base()
    }

    /// Instantiate a module: one zeroed table per declaration, one linear
    /// memory per declaration grown to its initial page count and filled
    /// by the data initializers in order, and one zeroed fixed-width slot
    /// per declared global.
    ///
    /// The declarations and initializers are validated first, so failure
    /// acquires nothing: `Internal` when a declared maximum does not fit
    /// the platform, `CapacityExceeded` when an initial page count
    /// exceeds its maximum, `InvalidInitializer` when an initializer asks
    /// for global-relative addressing, and `OutOfBounds` when one misses
    /// its memory, in that order of precedence.
    pub fn new(module: &Module, data_initializers: &[DataInitializer]) -> (r: Result<
        Instance,
        Error,
    >)
        requires
            module.memories@.len() <= MAX_MEMORIES,
            module.globals * GLOBAL_SLOT_SIZE <= usize::MAX as int,
        ensures
            (r is Ok) <==> (mems_within_limit(*module) && mems_initial_ok(*module) && inits_flat(
                data_initializers@,
            ) && inits_in_bounds(*module, data_initializers@)),
            r is Err ==> ((r->Err_0 == Error::Internal) <==> !mems_within_limit(*module)),
            r is Err ==> ((r->Err_0 == Error::CapacityExceeded) <==> (mems_within_limit(*module)
                && !mems_initial_ok(*module))),
            r is Err ==> ((r->Err_0 == Error::InvalidInitializer) <==> (mems_within_limit(*module)
                && mems_initial_ok(*module) && !inits_flat(data_initializers@))),
            r is Err ==> ((r->Err_0 == Error::OutOfBounds) <==> (mems_within_limit(*module)
                && mems_initial_ok(*module) && inits_flat(data_initializers@) && !inits_in_bounds(
                *module,
                data_initializers@,
            ))),
            r is Ok ==> ({
                let inst = r->Ok_0;
                &&& inst.wf()
                &&& inst.tables@.len() == module.tables@.len()
                &&& (forall|i: int|
                    0 <= i < module.tables@.len() ==> (#[trigger] inst.tables@[i])@.len()
                        == module.tables@[i].size)
                &&& (forall|i: int, j: int|
                    #![trigger inst.tables@[i]@[j]]
                    0 <= i < module.tables@.len() && 0 <= j < inst.tables@[i]@.len()
                        ==> inst.tables@[i]@[j] == 0usize)
                &&& inst.memories@.len() == module.memories@.len()
                &&& (forall|i: int|
                    0 <= i < module.memories@.len() ==> {
                        let m = #[trigger] inst.memories@[i];
                        &&& m.spec_base() == MEMORY_ARENA_BASE as int + i * (
                        MEMORY_RESERVATION as int)
                        &&& m.spec_pages() == module.memories@[i].pages_count
                        &&& m.spec_max_pages() == module.memories@[i].maximum
                        &&& m@ == apply_initializers(
                            i,
                            zero_bytes(module.memories@[i].pages_count * WASM_PAGE_SIZE),
                            data_initializers@,
                        )
                    })
                &&& inst.globals@.len() == module.globals * GLOBAL_SLOT_SIZE
                &&& (forall|k: int| 0 <= k < inst.globals@.len() ==> inst.globals@[k] == 0u8)
            }),
    {
        // Validation: nothing is acquired until everything is known good.
        let mut i: usize = 0;
        while i < module.memories.len()
            invariant
                i <= module.memories@.len(),
                forall|j: int|
                    0 <= j < i ==> {
                        &&& (#[trigger] module.memories@[j]).maximum <= MAX_WASM_PAGES
                        &&& module.memories@[j].maximum * WASM_PAGE_SIZE <= usize::MAX as int
                    },
            decreases module.memories@.len() - i,
        {
            let decl = module.memories[i];
            if decl.maximum > MAX_WASM_PAGES {
                return Err(Error::Internal);
            }
            if (decl.maximum as u64) * (WASM_PAGE_SIZE as u64) > (usize::MAX as u64) {
                return Err(Error::Internal);
            }
            i = i + 1;
        }
        let mut i: usize = 0;
        while i < module.memories.len()
            invariant
                i <= module.memories@.len(),
                forall|j: int|
                    0 <= j < i ==> (#[trigger] module.memories@[j]).pages_count
                        <= module.memories@[j].maximum,
            decreases module.memories@.len() - i,
        {
            let decl = module.memories[i];
            if decl.pages_count > decl.maximum {
                return Err(Error::CapacityExceeded);
            }
            i = i + 1;
        }
        let mut k: usize = 0;
        while k < data_initializers.len()
            invariant
                k <= data_initializers@.len(),
                forall|j: int| 0 <= j < k ==> (#[trigger] data_initializers@[j]).base is None,
            decreases data_initializers@.len() - k,
        {
            let ini = vstd::slice::slice_index_get(data_initializers, k);
            if ini.base.is_some() {
                return Err(Error::InvalidInitializer);
            }
            k = k + 1;
        }
        let mut k: usize = 0;
        while k < data_initializers.len()
            invariant
                k <= data_initializers@.len(),
                forall|j: int|
                    0 <= j < k ==> {
                        &&& (#[trigger] data_initializers@[j]).memory_index
                            < module.memories@.len()
                        &&& data_initializers@[j].offset + data_initializers@[j].data@.len()
                            <= module.memories@[data_initializers@[j].memory_index as int].pages_count
                            * WASM_PAGE_SIZE
                    },
            decreases data_initializers@.len() - k,
        {
            let ini = vstd::slice::slice_index_get(data_initializers, k);
            if ini.memory_index >= module.memories.len() {
                return Err(Error::OutOfBounds);
            }
            let decl = module.memories[ini.memory_index];
            let limit: u64 = (decl.pages_count as u64) * (WASM_PAGE_SIZE as u64);
            if (ini.data.len() as u64) > limit || (ini.offset as u64) > limit - (ini.data.len()
                as u64) {
                return Err(Error::OutOfBounds);
            }
            k = k + 1;
        }
        let tables = Self::instantiate_tables(module);
        let (memories, memory_bases) = Self::instantiate_memories(module, data_initializers);
        let globals = Self::instantiate_globals(module);
        Ok(Instance { tables, memories, globals, memory_bases })
    }

    /// Allocate just the tables of the module: one zero-initialized
    /// sequence per declaration, with no initializers applied yet.
    fn instantiate_tables(module: &Module) -> (tables: Vec<Vec<usize>>)
        ensures
            tables@.len() == module.tables@.len(),
            forall|i: int|
                0 <= i < module.tables@.len() ==> (#[trigger] tables@[i])@.len()
                    == module.tables@[i].size,
            forall|i: int, j: int|
                #![trigger tables@[i]@[j]]
                0 <= i < module.tables@.len() && 0 <= j < tables@[i]@.len() ==> tables@[i]@[j]
                    == 0usize,
    {
        let mut tables: Vec<Vec<usize>> = Vec::new();
        let mut ti: usize = 0;
        while ti < module.tables.len()
            invariant
                ti <= module.tables@.len(),
                tables@.len() == ti,
                forall|i2: int|
                    0 <= i2 < ti ==> (#[trigger] tables@[i2])@.len() == module.tables@[i2].size,
                forall|i2: int, j2: int|
                    #![trigger tables@[i2]@[j2]]
                    0 <= i2 < ti && 0 <= j2 < tables@[i2]@.len() ==> tables@[i2]@[j2] == 0usize,
            decreases module.tables@.len() - ti,
        {
            let len = module.tables[ti].size;
            let mut t: Vec<usize> = Vec::new();
            while t.len() < len
                invariant
                    t@.len() <= len,
                    forall|j2: int| 0 <= j2 < t@.len() ==> t@[j2] == 0usize,
                decreases len - t@.len(),
            {
                t.push(0usize);
            }
            tables.push(t);
            ti = ti + 1;
        }
        tables
    }

    /// Allocate the linear memories of the module: each is reserved at its
    /// arena slot, grown to its declared initial page count, and filled by
    /// its data initializers in order.  Returns the memories and, parallel
    /// to them, their stable base addresses.
    fn instantiate_memories(module: &Module, data_initializers: &[DataInitializer]) -> (r: (
        Vec<WasmMemory>,
        Vec<u64>,
    ))
        requires
            module.memories@.len() <= MAX_MEMORIES,
            mems_within_limit(*module),
            mems_initial_ok(*module),
            inits_in_bounds(*module, data_initializers@),
        ensures
            r.0@.len() == module.memories@.len(),
            r.1@.len() == module.memories@.len(),
            forall|i: int| 0 <= i < module.memories@.len() ==> (#[trigger] r.0@[i]).wf(),
            forall|i: int|
                0 <= i < module.memories@.len() ==> r.1@[i] == (#[trigger] r.0@[i]).spec_base(),
            forall|i: int|
                0 <= i < module.memories@.len() ==> {
                    let m = #[trigger] r.0@[i];
                    &&& m.spec_base() == MEMORY_ARENA_BASE as int + i * (MEMORY_RESERVATION as int)
                    &&& m.spec_pages() == module.memories@[i].pages_count
                    &&& m.spec_max_pages() == module.memories@[i].maximum
                    &&& m@ == apply_initializers(
                        i,
                        zero_bytes(module.memories@[i].pages_count * WASM_PAGE_SIZE),
                        data_initializers@,
                    )
                },
    {
        let mut memories: Vec<WasmMemory> = Vec::new();
        let mut memory_bases: Vec<u64> = Vec::new();
        let mut mi: usize = 0;
        while mi < module.memories.len()
            invariant
                mi <= module.memories@.len(),
                memories@.len() == mi,
                memory_bases@.len() == mi,
                forall|i2: int| 0 <= i2 < mi ==> (#[trigger] memories@[i2]).wf(),
                forall|i2: int|
                    0 <= i2 < mi ==> memory_bases@[i2] == (#[trigger] memories@[i2]).spec_base(),
                forall|i2: int|
                    0 <= i2 < mi ==> {
                        let m = #[trigger] memories@[i2];
                        &&& m.spec_base() == MEMORY_ARENA_BASE as int + i2 * (
                        MEMORY_RESERVATION as int)
                        &&& m.spec_pages() == module.memories@[i2].pages_count
                        &&& m.spec_max_pages() == module.memories@[i2].maximum
                        &&& m@ == apply_initializers(
                            i2,
                            zero_bytes(module.memories@[i2].pages_count * WASM_PAGE_SIZE),
                            data_initializers@,
                        )
                    },
            decreases module.memories@.len() - mi,
        {
            let base: u64 = MEMORY_ARENA_BASE + (mi as u64) * MEMORY_RESERVATION;
            let decl = module.memories[mi];
            let mut heap = match WasmMemory::allocate(base, decl.maximum) {
                Ok(h) => h,
                Err(_) => {
                    // unreachable: the validation pass accepted this maximum
                    proof {
                        assert(false);
                    }
                    return (memories, memory_bases);
                },
            };
            match heap.grow(decl.pages_count) {
                Ok(_) => (),
                Err(_) => {
                    // unreachable: the validation pass bounded the initial page count
                    proof {
                        assert(false);
                    }
                    return (memories, memory_bases);
                },
            }
            let ghost zeros = zero_bytes(decl.pages_count * WASM_PAGE_SIZE);
            proof {
                assert(heap@ =~= zeros);
                assert(data_initializers@.skip(0) =~= data_initializers@);
            }
            let mut k2: usize = 0;
            while k2 < data_initializers.len()
                invariant
                    k2 <= data_initializers@.len(),
                    mi < module.memories@.len(),
                    heap.wf(),
                    heap.spec_base() == base,
                    heap.spec_pages() == decl.pages_count,
                    heap.spec_max_pages() == decl.maximum,
                    heap@.len() == decl.pages_count * WASM_PAGE_SIZE,
                    apply_initializers(mi as int, heap@, data_initializers@.skip(k2 as int))
                        == apply_initializers(mi as int, zeros, data_initializers@),
                decreases data_initializers@.len() - k2,
            {
                let ghost pre = heap@;
                let ini = vstd::slice::slice_index_get(data_initializers, k2);
                if ini.memory_index == mi {
                    match heap.write_bytes(ini.offset, ini.data.as_slice()) {
                        Ok(_) => (),
                        Err(_) => {
                            // unreachable: the validation pass bounded this window
                            proof {
                                assert(false);
                            }
                            return (memories, memory_bases);
                        },
                    }
                }
                proof {
                    let s = data_initializers@.skip(k2 as int);
                    assert(s[0] == data_initializers@[k2 as int]);
                    assert(s.drop_first() =~= data_initializers@.skip(k2 as int + 1));
                    assert(apply_initializers(mi as int, pre, s) == apply_initializers(
                        mi as int,
                        heap@,
                        data_initializers@.skip(k2 as int + 1),
                    ));
                }
                k2 = k2 + 1;
            }
            proof {
                assert(data_initializers@.skip(data_initializers@.len() as int)
                    =~= Seq::<DataInitializer>::empty());
                assert(heap@ == apply_initializers(mi as int, zeros, data_initializers@));
            }
            memories.push(heap);
            memory_bases.push(base);
            mi = mi + 1;
        }
        (memories, memory_bases)
    }

    /// Allocate the globals buffer of the module: one zeroed fixed-width
    /// slot per declared global.
    fn instantiate_globals(module: &Module) -> (globals: Vec<u8>)
        requires
            module.globals * GLOBAL_SLOT_SIZE <= usize::MAX as int,
        ensures
            globals@.len() == module.globals * GLOBAL_SLOT_SIZE,
            forall|k: int| 0 <= k < globals@.len() ==> globals@[k] == 0u8,
    {
        let gsize: usize = module.globals * GLOBAL_SLOT_SIZE;
        let mut globals: Vec<u8> = Vec::new();
        while globals.len() < gsize
            invariant
                globals@.len() <= gsize,
                forall|j: int| 0 <= j < globals@.len() ==> globals@[j] == 0u8,
            decreases gsize - globals@.len(),
        {
            globals.push(0u8);
        }
        globals
    }

    /// Build the `VmCtx` for compiled code.  Call it only once every
    /// table, memory and global is fully instantiated: the addresses it
    /// carries stay valid because the instance performs no further
    /// reallocation of those buffers, and memories only ever grow in
    /// place.
    pub fn generate_vmctx(&self) -> (r: VmCtx)
        requires
            self.wf(),
        ensures
            r.globals == GLOBALS_BASE,
            r.memories@.len() == self.memories@.len(),
            forall|i: int|
                0 <= i < self.memories@.len() ==> r.memories@[i] == (
                #[trigger] self.memories@[i]).spec_base(),
    {
        let mut mems: Vec<u64> = Vec::new();
        let mut i: usize = 0;
        while i < self.memory_bases.len()
            invariant
                i <= self.memory_bases@.len(),
                mems@.len() == i,
                forall|j: int| 0 <= j < i ==> mems@[j] == self.memory_bases@[j],
            decreases self.memory_bases@.len() - i,
        {
            let b = self.memory_bases[i];
            mems.push(b);
            i = i + 1;
        }
        VmCtx { globals: GLOBALS_BASE, memories: mems }
    }

    /// The committed bytes of memory `memory_index` in
    /// `[address, address + len)`.  Diagnostic accessor: it fails with
    /// `OutOfBounds` exactly when the memory does not exist or the window
    /// leaves its committed bytes.
    pub fn inspect_memory(&self, memory_index: usize, address: usize, len: usize) -> (r: Result<
        &[u8],
        Error,
    >)
        ensures
            (r is Ok) <==> (memory_index < self.memories@.len() && address + len
                <= self.memories@[memory_index as int]@.len()),
            r is Ok ==> r->Ok_0@ == self.memories@[memory_index as int]@.subrange(
                address as int,
                address as int + len as int,
            ),
            r is Err ==> r->Err_0 == Error::OutOfBounds,
    {
        if memory_index >= self.memories.len() {
            return Err(Error::OutOfBounds);
        }
        let mem = &self.memories[memory_index];
        match mem.inspect(address, len) {
            Some(s) => Ok(s),
            None => Err(Error::OutOfBounds),
        }
    }

    /// The bytes of global `global_index` read at the width of `ty`.
    /// Diagnostic accessor: it fails with `OutOfBounds` exactly when the
    /// window `[global_index * GLOBAL_SLOT_SIZE, .. + width)` leaves the
    /// globals buffer.
    pub fn inspect_globals(&self, global_index: usize, ty: GlobalType) -> (r: Result<&[u8], Error>)
        ensures
            (r is Ok) <==> (global_index * GLOBAL_SLOT_SIZE + ty.spec_width()
                <= self.globals@.len()),
            r is Ok ==> r->Ok_0@ == self.globals@.subrange(
                global_index * GLOBAL_SLOT_SIZE,
                global_index * GLOBAL_SLOT_SIZE + ty.spec_width(),
            ),
            r is Err ==> r->Err_0 == Error::OutOfBounds,
    {
        let width = ty.width();
        if global_index > self.globals.len() / GLOBAL_SLOT_SIZE {
            proof {
                lemma_slot_out_of_range(global_index as int, self.globals@.len() as int);
            }
            return Err(Error::OutOfBounds);
        }
        proof {
            lemma_slot_in_range(global_index as int, self.globals@.len() as int);
        }
        let offset: usize = global_index * GLOBAL_SLOT_SIZE;
        if width > self.globals.len() || offset > self.globals.len() - width {
            return Err(Error::OutOfBounds);
        }
        Ok(vstd::slice::slice_subrange(self.globals.as_slice(), offset, offset + width))
    }
}

/// A slot index past `len / GLOBAL_SLOT_SIZE` begins past `len`.
proof fn lemma_slot_out_of_range(gi: int, len: int)
    requires
        len >= 0,
        gi > len / GLOBAL_SLOT_SIZE as int,
    ensures
        gi * GLOBAL_SLOT_SIZE > len,
{
    assert(gi * 8 > len) by (nonlinear_arith)
        requires
            len >= 0,
            gi > len / 8,
    ;
}

/// A slot index up to `len / GLOBAL_SLOT_SIZE` begins at or before `len`.
proof fn lemma_slot_in_range(gi: int, len: int)
    requires
        len >= 0,
        0 <= gi <= len / GLOBAL_SLOT_SIZE as int,
    ensures
        gi * GLOBAL_SLOT_SIZE <= len,
{
    assert(gi * 8 <= len) by (nonlinear_arith)
        requires
            len >= 0,
            0 <= gi <= len / 8,
    ;
}

/// Law: in an instance built for a module declaring `g` globals — whose
/// globals buffer is `g * GLOBAL_SLOT_SIZE` bytes — the window read by
/// `inspect_globals(i, ty)` lies fully inside the buffer for every
/// `i < g`, so the inspection succeeds.
pub proof fn lemma_inspect_globals_in_bounds(g: int, i: int, ty: GlobalType)
    requires
        0 <= i < g,
    ensures
        i * GLOBAL_SLOT_SIZE + ty.spec_width() <= g * GLOBAL_SLOT_SIZE,
{
    vstd::arithmetic::mul::lemma_mul_inequality(i + 1, g, GLOBAL_SLOT_SIZE as int);
}

} // verus!
