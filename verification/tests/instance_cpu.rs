use nebulet::cpu::Cpu;
use nebulet::error::Error;
use nebulet::instance::{
    DataInitializer, GlobalType, Instance, MemoryDecl, Module, TableDecl, GLOBALS_BASE,
    GLOBAL_SLOT_SIZE, MEMORY_ARENA_BASE, MEMORY_RESERVATION,
};
use nebulet::memory::WASM_PAGE_SIZE;

fn one_memory_module(initial: usize, maximum: usize) -> Module {
    Module {
        tables: Vec::new(),
        memories: vec![MemoryDecl { pages_count: initial, maximum }],
        globals: 0,
    }
}

fn init(memory_index: usize, offset: usize, data: Vec<u8>) -> DataInitializer {
    DataInitializer { memory_index, offset, data, base: None }
}

#[test]
fn instance_end_to_end_one_memory() {
    let module = one_memory_module(1, 2);
    let inits = vec![init(0, 0, vec![1, 2, 3, 4])];
    let mut inst = Instance::new(&module, &inits).unwrap();

    assert_eq!(inst.inspect_memory(0, 0, 4).unwrap(), &[1, 2, 3, 4]);
    // every other committed byte is zero
    let rest = inst.inspect_memory(0, 4, WASM_PAGE_SIZE - 4).unwrap();
    assert!(rest.iter().all(|&b| b == 0));

    let base = inst.memories[0].as_base_pointer();
    inst.memories[0].grow(1).unwrap();
    assert_eq!(inst.memories[0].pages(), 2);
    assert_eq!(inst.memories[0].as_base_pointer(), base);
    assert_eq!(inst.inspect_memory(0, 0, 4).unwrap(), &[1, 2, 3, 4]);

    assert_eq!(inst.memories[0].grow(1), Err(Error::CapacityExceeded));
    assert_eq!(inst.memories[0].pages(), 2);
}

#[test]
fn instance_applies_initializers_in_order() {
    let module = one_memory_module(1, 1);
    let inits = vec![init(0, 0, vec![9, 9, 9]), init(0, 1, vec![5])];
    let inst = Instance::new(&module, &inits).unwrap();
    assert_eq!(inst.inspect_memory(0, 0, 3).unwrap(), &[9, 5, 9]);
}

#[test]
fn instance_rejects_global_relative_initializer() {
    let module = one_memory_module(1, 1);
    let inits = vec![DataInitializer {
        memory_index: 0,
        offset: 0,
        data: vec![1],
        base: Some(0),
    }];
    assert_eq!(Instance::new(&module, &inits).err(), Some(Error::InvalidInitializer));
}

#[test]
fn instance_rejects_out_of_bounds_initializer() {
    let module = one_memory_module(1, 1);
    let too_far = vec![init(0, WASM_PAGE_SIZE - 1, vec![1, 2])];
    assert_eq!(Instance::new(&module, &too_far).err(), Some(Error::OutOfBounds));
    let no_such_memory = vec![init(1, 0, vec![1])];
    assert_eq!(Instance::new(&module, &no_such_memory).err(), Some(Error::OutOfBounds));
}

#[test]
fn instance_rejects_bad_memory_declarations() {
    let initial_past_max = one_memory_module(3, 2);
    assert_eq!(
        Instance::new(&initial_past_max, &[]).err(),
        Some(Error::CapacityExceeded)
    );
    let max_past_limit = one_memory_module(1, 65537);
    assert_eq!(Instance::new(&max_past_limit, &[]).err(), Some(Error::Internal));
}

#[test]
fn instance_tables_are_zeroed_to_declared_length() {
    let module = Module {
        tables: vec![TableDecl { size: 4 }, TableDecl { size: 0 }],
        memories: Vec::new(),
        globals: 0,
    };
    let inst = Instance::new(&module, &[]).unwrap();
    assert_eq!(inst.tables.len(), 2);
    assert_eq!(inst.tables[0], vec![0usize; 4]);
    assert!(inst.tables[1].is_empty());
}

#[test]
fn instance_globals_buffer_and_inspection() {
    let module = Module { tables: Vec::new(), memories: Vec::new(), globals: 3 };
    let inst = Instance::new(&module, &[]).unwrap();
    assert_eq!(inst.globals.len(), 3 * GLOBAL_SLOT_SIZE);
    for i in 0..3 {
        let wide = inst.inspect_globals(i, GlobalType::I64).unwrap();
        assert_eq!(wide, &[0u8; 8]);
        let narrow = inst.inspect_globals(i, GlobalType::I32).unwrap();
        assert_eq!(narrow, &[0u8; 4]);
    }
    assert_eq!(inst.inspect_globals(3, GlobalType::I32).err(), Some(Error::OutOfBounds));
}

#[test]
fn vmctx_carries_stable_base_addresses() {
    let module = Module {
        tables: Vec::new(),
        memories: vec![
            MemoryDecl { pages_count: 1, maximum: 2 },
            MemoryDecl { pages_count: 0, maximum: 1 },
        ],
        globals: 1,
    };
    let mut inst = Instance::new(&module, &[]).unwrap();
    let ctx = inst.generate_vmctx();
    assert_eq!(ctx.globals, GLOBALS_BASE);
    assert_eq!(ctx.memories.len(), 2);
    assert_eq!(ctx.memories[0], MEMORY_ARENA_BASE);
    assert_eq!(ctx.memories[1], MEMORY_ARENA_BASE + MEMORY_RESERVATION);
    // growth commits pages in place, so a VmCtx built later agrees
    inst.memories[0].grow(1).unwrap();
    let again = inst.generate_vmctx();
    assert_eq!(again.memories, ctx.memories);
    assert_eq!(again.globals, ctx.globals);
}

#[test]
fn inspect_memory_rejects_bad_windows() {
    let module = one_memory_module(1, 1);
    let inst = Instance::new(&module, &[]).unwrap();
    assert_eq!(inst.inspect_memory(1, 0, 1).err(), Some(Error::OutOfBounds));
    assert_eq!(
        inst.inspect_memory(0, WASM_PAGE_SIZE, 1).err(),
        Some(Error::OutOfBounds)
    );
    assert_eq!(inst.inspect_memory(0, WASM_PAGE_SIZE, 0).unwrap(), &[]);
}

#[test]
fn cpu_preemption_counter_discipline() {
    let mut cpu = Cpu::new(0);
    assert!(cpu.allowed());
    assert_eq!(cpu.counter(), 0);
    assert!(!cpu.requested());

    // preemption allowed: reschedule right away, nothing left pending
    assert!(cpu.preempt());
    assert!(!cpu.requested());

    cpu.disable();
    assert!(!cpu.allowed());
    assert_eq!(cpu.counter(), 1);

    // forbidden now: the request is recorded instead
    assert!(!cpu.preempt());
    assert!(cpu.requested());

    cpu.disable();
    // leaving the inner section does not reschedule yet
    assert!(!cpu.enable(true));
    assert!(cpu.requested());
    // leaving the outer section honors the pending request
    assert!(cpu.enable(true));
    assert!(!cpu.requested());
    assert!(cpu.allowed());
}

#[test]
fn cpu_enable_defers_while_interrupts_are_off() {
    let mut cpu = Cpu::new(1);
    cpu.disable();
    assert!(!cpu.preempt());
    // interrupts disabled: the request stays pending
    assert!(!cpu.enable(false));
    assert!(cpu.requested());
    // and is honored on the next opportunity
    cpu.disable();
    assert!(cpu.enable(true));
}
