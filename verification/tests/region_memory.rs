use nebulet::error::Error;
use nebulet::flags::PageFlags;
use nebulet::mapper::{PageMapper, PAGE_SIZE};
use nebulet::memory::{WasmMemory, MAX_WASM_PAGES, WASM_PAGE_SIZE};
use nebulet::region::Region;

fn rw() -> PageFlags {
    PageFlags { readable: true, writable: true, executable: false, user_accessible: false }
}

fn ro() -> PageFlags {
    PageFlags { readable: true, writable: false, executable: false, user_accessible: false }
}

#[test]
fn region_new_maps_all_covered_pages() {
    let mut pm = PageMapper::new();
    let start = PAGE_SIZE as u64;
    let r = Region::new(&mut pm, start, 2 * PAGE_SIZE + 1, rw(), true).unwrap();
    assert_eq!(r.start(), start);
    assert_eq!(r.size(), 2 * PAGE_SIZE + 1);
    assert_eq!(r.flags(), rw());
    // pages 1, 2 and 3 are covered (the last partial page fully); 0 and 4 are not
    assert!(pm.translate(0).is_none());
    assert_eq!(pm.translate(1), Some(1));
    assert_eq!(pm.translate(2), Some(2));
    assert_eq!(pm.translate(3), Some(3));
    assert!(pm.translate(4).is_none());
    assert_eq!(pm.flags_of(2), Some(rw()));
}

#[test]
fn region_view_is_bounded_by_declared_size() {
    let mut pm = PageMapper::new();
    let mut r = Region::new(&mut pm, 0, 100, rw(), true).unwrap();
    assert_eq!(r.read(0), Ok(0));
    assert_eq!(r.read(99), Ok(0));
    // the page is mapped up to 4096 bytes, but the view ends at 100
    assert_eq!(r.read(100), Err(Error::OutOfBounds));
    assert_eq!(r.read(4095), Err(Error::OutOfBounds));
    assert_eq!(r.write(99, 7), Ok(()));
    assert_eq!(r.read(99), Ok(7));
    assert_eq!(r.write(100, 7), Err(Error::OutOfBounds));
}

#[test]
fn region_permissions_gate_the_view() {
    let mut pm = PageMapper::new();
    let mut r = Region::new(&mut pm, 0, 10, ro(), false).unwrap();
    assert_eq!(r.read(3), Ok(0));
    assert_eq!(r.write(3, 1), Err(Error::PermissionDenied));
    let dark = PageFlags { readable: false, writable: false, executable: true, user_accessible: false };
    let mut pm2 = PageMapper::new();
    let r2 = Region::new(&mut pm2, 0, 10, dark, false).unwrap();
    assert_eq!(r2.read(3), Err(Error::PermissionDenied));
}

#[test]
fn region_zeroing_readonly_is_rejected() {
    let mut pm = PageMapper::new();
    let r = Region::new(&mut pm, 0, 64, ro(), true);
    assert_eq!(r.err(), Some(Error::PermissionDenied));
    // the rejection acquired nothing
    assert!(pm.translate(0).is_none());
}

#[test]
fn region_new_over_a_mapped_page_fails_clean() {
    let mut pm = PageMapper::new();
    pm.map(2, ro()).unwrap().flush();
    let r = Region::new(&mut pm, 0, 3 * PAGE_SIZE, rw(), false);
    assert_eq!(r.err(), Some(Error::Internal));
    // nothing but the pre-existing mapping is left
    assert!(pm.translate(0).is_none());
    assert!(pm.translate(1).is_none());
    assert_eq!(pm.translate(2), Some(2));
}

#[test]
fn region_resize_round_trip_restores_page_set() {
    let mut pm = PageMapper::new();
    let mut r = Region::new(&mut pm, 0, PAGE_SIZE, rw(), true).unwrap();
    assert_eq!(pm.translate(0), Some(0));
    assert!(pm.translate(1).is_none());
    r.resize(&mut pm, 3 * PAGE_SIZE, true).unwrap();
    assert_eq!(pm.translate(1), Some(1));
    assert_eq!(pm.translate(2), Some(2));
    r.resize(&mut pm, PAGE_SIZE, false).unwrap();
    // exactly the original mapped-page set again
    assert_eq!(pm.translate(0), Some(0));
    assert!(pm.translate(1).is_none());
    assert!(pm.translate(2).is_none());
    assert_eq!(r.size(), PAGE_SIZE);
}

#[test]
fn region_resize_zeroes_only_the_new_range() {
    let mut pm = PageMapper::new();
    let mut r = Region::new(&mut pm, 0, 4, rw(), true).unwrap();
    r.write(1, 42).unwrap();
    r.resize(&mut pm, 8, true).unwrap();
    assert_eq!(r.read(1), Ok(42));
    for off in 4..8 {
        assert_eq!(r.read(off), Ok(0));
    }
    assert_eq!(r.read(8), Err(Error::OutOfBounds));
}

#[test]
fn region_resize_grow_zero_readonly_rejected() {
    let mut pm = PageMapper::new();
    let mut r = Region::new(&mut pm, 0, 16, ro(), false).unwrap();
    assert_eq!(r.resize(&mut pm, 32, true), Err(Error::PermissionDenied));
    assert_eq!(r.size(), 16);
}

#[test]
fn region_remap_changes_flags_everywhere() {
    let mut pm = PageMapper::new();
    let mut r = Region::new(&mut pm, 0, 2 * PAGE_SIZE, rw(), true).unwrap();
    r.write(5, 9).unwrap();
    r.remap(&mut pm, ro()).unwrap();
    assert_eq!(r.flags(), ro());
    assert_eq!(pm.flags_of(0), Some(ro()));
    assert_eq!(pm.flags_of(1), Some(ro()));
    assert_eq!(r.write(5, 1), Err(Error::PermissionDenied));
    assert_eq!(r.read(5), Ok(9));
}

#[test]
fn region_unmap_releases_every_covered_page() {
    let mut pm = PageMapper::new();
    let r = Region::new(&mut pm, 0, 2 * PAGE_SIZE, rw(), false).unwrap();
    assert_eq!(pm.translate(0), Some(0));
    r.unmap(&mut pm);
    assert!(pm.translate(0).is_none());
    assert!(pm.translate(1).is_none());
}

#[test]
fn mapper_refuses_double_map_and_missing_unmap() {
    let mut pm = PageMapper::new();
    pm.map(7, rw()).unwrap().flush();
    assert!(pm.map(7, rw()).is_err());
    assert!(pm.unmap(8).is_err());
    assert!(pm.remap(8, ro()).is_err());
    pm.remap(7, ro()).unwrap().flush();
    assert_eq!(pm.flags_of(7), Some(ro()));
    pm.unmap(7).unwrap().flush();
    assert!(pm.translate(7).is_none());
}

#[test]
fn wasm_memory_grow_is_monotonic_and_base_stable() {
    let mut m = WasmMemory::allocate(0x1000_0000_0000, 3).unwrap();
    let base = m.as_base_pointer();
    assert_eq!(m.pages(), 0);
    m.grow(1).unwrap();
    assert_eq!(m.pages(), 1);
    assert_eq!(m.as_base_pointer(), base);
    m.grow(2).unwrap();
    assert_eq!(m.pages(), 3);
    assert_eq!(m.as_base_pointer(), base);
    // a failed grow also leaves the base and the page count alone
    assert_eq!(m.grow(1), Err(Error::CapacityExceeded));
    assert_eq!(m.pages(), 3);
    assert_eq!(m.as_base_pointer(), base);
}

#[test]
fn wasm_memory_grow_past_maximum_fails_without_effect() {
    let mut m = WasmMemory::allocate(0, 2).unwrap();
    m.grow(1).unwrap();
    assert_eq!(m.grow(2), Err(Error::CapacityExceeded));
    assert_eq!(m.pages(), 1);
    assert_eq!(m.max_pages(), 2);
    assert_eq!(m.inspect(0, WASM_PAGE_SIZE).map(|s| s.len()), Some(WASM_PAGE_SIZE));
    assert!(m.inspect(0, WASM_PAGE_SIZE + 1).is_none());
}

#[test]
fn wasm_memory_allocate_rejects_oversized_reservations() {
    assert_eq!(WasmMemory::allocate(0, MAX_WASM_PAGES + 1).err(), Some(Error::Internal));
    assert_eq!(WasmMemory::allocate(u64::MAX - 5, 1).err(), Some(Error::Internal));
}

#[test]
fn wasm_memory_write_and_inspect() {
    let mut m = WasmMemory::allocate(0, 1).unwrap();
    m.grow(1).unwrap();
    m.write_bytes(10, &[5, 6, 7]).unwrap();
    assert_eq!(m.inspect(10, 3).unwrap(), &[5, 6, 7]);
    assert_eq!(m.inspect(9, 1).unwrap(), &[0]);
    assert_eq!(
        m.write_bytes(WASM_PAGE_SIZE - 1, &[1, 2]),
        Err(Error::OutOfBounds)
    );
    assert_eq!(m.inspect(WASM_PAGE_SIZE - 1, 1).unwrap(), &[0]);
    assert_eq!(m.carve_slice(10, 3).unwrap(), &[5, 6, 7]);
    assert!(m.carve_slice(u32::MAX, 2).is_none());
}
