//! Memory-map behaviour of the engine model: the open/map/write/read
//! scenario, byte-for-byte round trips, and the error taxonomy for
//! unmapped, protected and ill-formed ranges.

use unicorn_bridge::engine::Engine;
use unicorn_bridge::types::{Arch, UcError, PROT_ALL, PROT_READ, PROT_WRITE};

fn fresh_engine() -> Engine {
    Engine::open(Arch::X86, 4, 8, 1)
}

#[test]
fn open_map_write_read_unmap_scenario() {
    let mut e = fresh_engine();
    assert_eq!(e.mem_map(0x1000, 0x1000, PROT_ALL), Ok(()));
    let data: Vec<u8> = vec![0xDE, 0xAD, 0xBE, 0xEF];
    assert_eq!(e.mem_write(0x1000, &data), Ok(()));
    let back = e.mem_read(0x1000, 4).unwrap();
    assert_eq!(back, data);
    assert_eq!(e.mem_unmap(0x1000, 0x1000), Ok(()));
    assert_eq!(e.mem_read(0x1000, 4), Err(UcError::ReadUnmapped));
}

#[test]
fn write_read_round_trip_inside_mapped_range() {
    let mut e = fresh_engine();
    assert_eq!(e.mem_map(0x4000, 0x800, PROT_READ | PROT_WRITE), Ok(()));
    let data: Vec<u8> = (0u16..256).map(|b| b as u8).collect();
    assert_eq!(e.mem_write(0x4100, &data), Ok(()));
    assert_eq!(e.mem_read(0x4100, 256).unwrap(), data);
    // An inner slice of the written range reads back the same bytes.
    assert_eq!(e.mem_read(0x4110, 16).unwrap(), data[0x10..0x20].to_vec());
}

#[test]
fn mapped_range_starts_zero_filled() {
    let mut e = fresh_engine();
    assert_eq!(e.mem_map(0x2000, 0x100, PROT_ALL), Ok(()));
    assert_eq!(e.mem_read(0x2000, 0x100).unwrap(), vec![0u8; 0x100]);
}

#[test]
fn read_crossing_end_of_region_is_unmapped_not_partial() {
    let mut e = fresh_engine();
    assert_eq!(e.mem_map(0x1000, 0x100, PROT_ALL), Ok(()));
    assert_eq!(e.mem_read(0x10F0, 0x20), Err(UcError::ReadUnmapped));
}

#[test]
fn overlap_mapping_is_an_error() {
    let mut e = fresh_engine();
    assert_eq!(e.mem_map(0x1000, 0x1000, PROT_ALL), Ok(()));
    assert_eq!(e.mem_map(0x1800, 0x1000, PROT_ALL), Err(UcError::Mapping));
    assert_eq!(e.mem_map(0x0800, 0x900, PROT_ALL), Err(UcError::Mapping));
    // Adjacent, non-overlapping ranges are fine.
    assert_eq!(e.mem_map(0x2000, 0x1000, PROT_ALL), Ok(()));
}

#[test]
fn map_rejects_bad_arguments() {
    let mut e = fresh_engine();
    assert_eq!(e.mem_map(0x1000, 0, PROT_ALL), Err(UcError::Arg));
    assert_eq!(e.mem_map(u64::MAX, 2, PROT_ALL), Err(UcError::Arg));
    assert_eq!(e.mem_map(0x1000, 0x1000, 0xFF), Err(UcError::Arg));
}

#[test]
fn permission_mismatch_is_distinguished_from_unmapped() {
    let mut e = fresh_engine();
    assert_eq!(e.mem_map(0x1000, 0x100, PROT_WRITE), Ok(()));
    assert_eq!(e.mem_read(0x1000, 4), Err(UcError::ReadProt));
    assert_eq!(e.mem_map(0x2000, 0x100, PROT_READ), Ok(()));
    let data: Vec<u8> = vec![1, 2, 3];
    assert_eq!(e.mem_write(0x2000, &data), Err(UcError::WriteProt));
    // The failed write left the bytes untouched.
    assert_eq!(e.mem_read(0x2000, 3).unwrap(), vec![0, 0, 0]);
}

#[test]
fn unmap_requires_an_exact_mapping() {
    let mut e = fresh_engine();
    assert_eq!(e.mem_unmap(0x1000, 0x1000), Err(UcError::Mapping));
    assert_eq!(e.mem_map(0x1000, 0x1000, PROT_ALL), Ok(()));
    assert_eq!(e.mem_unmap(0x1000, 0x800), Err(UcError::Mapping));
    assert_eq!(e.mem_unmap(0x1000, 0x1000), Ok(()));
    assert_eq!(e.mem_unmap(0x1000, 0x1000), Err(UcError::Mapping));
}

#[test]
fn protect_changes_permissions_and_keeps_bytes() {
    let mut e = fresh_engine();
    assert_eq!(e.mem_map(0x1000, 0x100, PROT_ALL), Ok(()));
    let data: Vec<u8> = vec![7, 8, 9];
    assert_eq!(e.mem_write(0x1000, &data), Ok(()));
    assert_eq!(e.mem_protect(0x1000, 0x100, PROT_READ), Ok(()));
    assert_eq!(e.mem_read(0x1000, 3).unwrap(), data);
    assert_eq!(e.mem_write(0x1000, &data), Err(UcError::WriteProt));
    assert_eq!(e.mem_protect(0x1000, 0x100, 0xFF), Err(UcError::Arg));
    assert_eq!(e.mem_protect(0x3000, 0x100, PROT_READ), Err(UcError::Mapping));
}

#[test]
fn regions_are_enumerated_with_inclusive_ends() {
    let mut e = fresh_engine();
    assert_eq!(e.mem_map(0x1000, 0x1000, PROT_ALL), Ok(()));
    assert_eq!(e.mem_map(0x4000, 0x800, PROT_READ), Ok(()));
    let regions = e.mem_regions();
    assert_eq!(regions.len(), 2);
    assert_eq!(regions[0].begin, 0x1000);
    assert_eq!(regions[0].end, 0x1FFF);
    assert_eq!(regions[0].perms, PROT_ALL);
    assert_eq!(regions[1].begin, 0x4000);
    assert_eq!(regions[1].end, 0x47FF);
    assert_eq!(regions[1].perms, PROT_READ);
}

#[test]
fn write_to_unmapped_memory_is_an_unmapped_error() {
    let mut e = fresh_engine();
    let data: Vec<u8> = vec![1];
    assert_eq!(e.mem_write(0x1000, &data), Err(UcError::WriteUnmapped));
}

#[test]
fn empty_read_and_write_succeed_on_any_engine() {
    let mut e = fresh_engine();
    assert_eq!(e.mem_read(0x9999, 0).unwrap(), Vec::<u8>::new());
    let empty: Vec<u8> = Vec::new();
    assert_eq!(e.mem_write(0x9999, &empty), Ok(()));
}
