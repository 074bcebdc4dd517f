//! Register and context behaviour of the engine model: single and batch
//! access in array order, the partial-effect rule for a bad identifier,
//! and the save/restore round trip.

use unicorn_bridge::engine::Engine;
use unicorn_bridge::types::{Arch, Query, UcError};

fn fresh_engine() -> Engine {
    Engine::open(Arch::Arm64, 0, 8, 2)
}

#[test]
fn open_yields_a_zeroed_register_file() {
    let e = fresh_engine();
    for regid in 0i32..8 {
        assert_eq!(e.reg_read(regid), Ok(0));
    }
}

#[test]
fn single_register_write_then_read() {
    let mut e = fresh_engine();
    assert_eq!(e.reg_write(3, 0xDEAD_BEEF), Ok(()));
    assert_eq!(e.reg_read(3), Ok(0xDEAD_BEEF));
    assert_eq!(e.reg_read(2), Ok(0));
}

#[test]
fn unknown_register_identifiers_are_invalid_arguments() {
    let mut e = fresh_engine();
    assert_eq!(e.reg_read(8), Err(UcError::Arg));
    assert_eq!(e.reg_read(-1), Err(UcError::Arg));
    assert_eq!(e.reg_write(100, 1), Err(UcError::Arg));
    assert_eq!(e.reg_read(0), Ok(0));
}

#[test]
fn batch_write_applies_all_values_in_array_order() {
    let mut e = fresh_engine();
    let ids: Vec<i32> = vec![0, 1, 2, 1];
    let values: Vec<u64> = vec![10, 20, 30, 40];
    assert_eq!(e.reg_write_batch(&ids, &values), Ok(()));
    assert_eq!(e.reg_read(0), Ok(10));
    // The later write to the same identifier wins.
    assert_eq!(e.reg_read(1), Ok(40));
    assert_eq!(e.reg_read(2), Ok(30));
}

#[test]
fn batch_write_stops_at_first_bad_identifier_without_corrupting_earlier_ones() {
    let mut e = fresh_engine();
    let ids: Vec<i32> = vec![0, 1, 99, 2];
    let values: Vec<u64> = vec![5, 6, 7, 8];
    assert_eq!(e.reg_write_batch(&ids, &values), Err(UcError::Arg));
    // Positions before the bad identifier took effect ...
    assert_eq!(e.reg_read(0), Ok(5));
    assert_eq!(e.reg_read(1), Ok(6));
    // ... and nothing past it was touched.
    assert_eq!(e.reg_read(2), Ok(0));
}

#[test]
fn batch_read_returns_one_value_per_identifier_in_order() {
    let mut e = fresh_engine();
    assert_eq!(e.reg_write(0, 11), Ok(()));
    assert_eq!(e.reg_write(5, 55), Ok(()));
    let ids: Vec<i32> = vec![5, 0, 5];
    assert_eq!(e.reg_read_batch(&ids), Ok(vec![55, 11, 55]));
}

#[test]
fn batch_read_with_a_bad_identifier_returns_no_data() {
    let e = fresh_engine();
    let ids: Vec<i32> = vec![0, -3];
    assert_eq!(e.reg_read_batch(&ids), Err(UcError::Arg));
}

#[test]
fn context_save_then_restore_leaves_registers_bit_identical() {
    let mut e = fresh_engine();
    let ids: Vec<i32> = vec![0, 1, 2, 3];
    let values: Vec<u64> = vec![0xAAAA, 0xBBBB, u64::MAX, 1];
    assert_eq!(e.reg_write_batch(&ids, &values), Ok(()));
    let mut ctx = e.context_alloc();
    assert_eq!(e.context_save(&mut ctx), Ok(()));
    assert_eq!(e.context_restore(&ctx), Ok(()));
    assert_eq!(e.reg_read_batch(&ids), Ok(values));
}

#[test]
fn context_restore_brings_back_the_saved_register_file() {
    let mut e = fresh_engine();
    assert_eq!(e.reg_write(2, 77), Ok(()));
    let mut ctx = e.context_alloc();
    assert_eq!(e.context_save(&mut ctx), Ok(()));
    assert_eq!(e.reg_write(2, 99), Ok(()));
    assert_eq!(e.reg_write(3, 42), Ok(()));
    assert_eq!(e.context_restore(&ctx), Ok(()));
    assert_eq!(e.reg_read(2), Ok(77));
    assert_eq!(e.reg_read(3), Ok(0));
}

#[test]
fn context_of_another_register_file_size_is_rejected() {
    let small = Engine::open(Arch::X86, 0, 4, 3);
    let mut e = fresh_engine();
    let mut ctx = small.context_alloc();
    assert_eq!(e.context_save(&mut ctx), Err(UcError::Arg));
    assert_eq!(e.context_restore(&ctx), Err(UcError::Arg));
}

#[test]
fn errors_describe_themselves() {
    assert_eq!(UcError::Arg.message(), "invalid argument");
    assert_eq!(UcError::ReadUnmapped.message(), "invalid memory read");
    assert_eq!(UcError::Mapping.message(), "invalid memory mapping");
    assert_eq!(UcError::Hook.message(), "invalid hook type");
    assert_eq!(UcError::WriteProt.message(), "write to write-protected memory");
}

#[test]
fn query_reports_mode_page_size_and_architecture() {
    let e = Engine::open(Arch::Arm, 0x40, 8, 9);
    assert_eq!(e.query(Query::Mode), Ok(0x40));
    assert_eq!(e.query(Query::PageSize), Ok(4096));
    assert_eq!(e.query(Query::Arch), Ok(1));
    assert_eq!(e.query(Query::Timeout), Err(UcError::Arg));
}

#[test]
fn emu_stop_raises_the_stop_flag_and_nothing_else() {
    let mut e = fresh_engine();
    assert_eq!(e.reg_write(1, 9), Ok(()));
    assert!(!e.stop_requested);
    e.emu_stop();
    assert!(e.stop_requested);
    assert_eq!(e.reg_read(1), Ok(9));
}
