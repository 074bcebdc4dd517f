//! Hook registry and callback-bridge behaviour: an installed hook is
//! reported exactly once for its event, a removed hook never again; each
//! proxy invokes the hook exactly once with the arguments the native
//! layer reported and translates its result unchanged.

use unicorn_bridge::bridge::{
    block_hook_proxy, code_hook_proxy, insn_in_hook_proxy, insn_invalid_hook_proxy,
    insn_out_hook_proxy, insn_sys_hook_proxy, intr_hook_proxy, mem_hook_proxy,
    mmio_read_callback_proxy, mmio_write_callback_proxy, tlb_lookup_hook_proxy, UcHook,
};
use unicorn_bridge::engine::Engine;
use unicorn_bridge::recorder::EventRecorder;
use unicorn_bridge::types::{Arch, HookType, MemType, TlbEntry, UcError, PROT_ALL};

const HANDLE: u64 = 7;

fn fresh_engine() -> Engine {
    Engine::open(Arch::X86, 4, 8, HANDLE)
}

fn fresh_holder() -> UcHook<EventRecorder> {
    UcHook { callback: EventRecorder::new(), uc: HANDLE }
}

#[test]
fn installed_hook_is_reported_exactly_once_for_its_event() {
    let mut e = fresh_engine();
    let id = e.hook_add(HookType::Code, 0x1000, 0x1FFF);
    let fired = e.hooks_for_event(HookType::Code, 0x1500);
    assert_eq!(fired, vec![id]);
}

#[test]
fn hook_filters_by_category_and_range() {
    let mut e = fresh_engine();
    let id = e.hook_add(HookType::Code, 0x1000, 0x1FFF);
    assert!(e.hooks_for_event(HookType::Block, 0x1500).is_empty());
    assert!(e.hooks_for_event(HookType::Code, 0x2000).is_empty());
    assert!(e.hooks_for_event(HookType::Code, 0x0FFF).is_empty());
    assert_eq!(e.hooks_for_event(HookType::Code, 0x1000), vec![id]);
    assert_eq!(e.hooks_for_event(HookType::Code, 0x1FFF), vec![id]);
}

#[test]
fn inverted_range_hears_every_address() {
    let mut e = fresh_engine();
    let id = e.hook_add(HookType::Intr, 1, 0);
    assert_eq!(e.hooks_for_event(HookType::Intr, 0), vec![id]);
    assert_eq!(e.hooks_for_event(HookType::Intr, u64::MAX), vec![id]);
}

#[test]
fn hooks_fire_in_installation_order_with_distinct_handles() {
    let mut e = fresh_engine();
    let id1 = e.hook_add(HookType::Code, 1, 0);
    let id2 = e.hook_add(HookType::Code, 0x1000, 0x1FFF);
    let id3 = e.hook_add(HookType::Block, 1, 0);
    assert_ne!(id1, id2);
    assert_ne!(id2, id3);
    assert_eq!(e.hooks_for_event(HookType::Code, 0x1500), vec![id1, id2]);
    assert_eq!(e.hooks_for_event(HookType::Code, 0x3000), vec![id1]);
    assert_eq!(e.hooks_for_event(HookType::Block, 0x1500), vec![id3]);
}

#[test]
fn removed_hook_is_never_reported_again() {
    let mut e = fresh_engine();
    let id1 = e.hook_add(HookType::Code, 1, 0);
    let id2 = e.hook_add(HookType::Code, 1, 0);
    assert_eq!(e.hook_del(id1), Ok(()));
    assert_eq!(e.hooks_for_event(HookType::Code, 0x1000), vec![id2]);
    assert_eq!(e.hook_del(id1), Err(UcError::Hook));
    assert_eq!(e.hook_del(id2), Ok(()));
    assert!(e.hooks_for_event(HookType::Code, 0x1000).is_empty());
}

#[test]
fn unknown_hook_handle_is_an_error() {
    let mut e = fresh_engine();
    assert_eq!(e.hook_del(12345), Err(UcError::Hook));
}

#[test]
fn code_proxy_invokes_the_hook_once_with_the_reported_arguments() {
    let mut e = fresh_engine();
    let mut h = fresh_holder();
    code_hook_proxy(HANDLE, 0x1000, 3, &mut h, &mut e);
    assert_eq!(h.callback.calls, 1);
    assert_eq!(h.callback.last_addr, 0x1000);
    assert_eq!(h.callback.last_size, 3);
    code_hook_proxy(HANDLE, 0x1003, 5, &mut h, &mut e);
    assert_eq!(h.callback.calls, 2);
    assert_eq!(h.callback.last_addr, 0x1003);
    assert_eq!(h.callback.last_size, 5);
}

#[test]
fn block_proxy_invokes_the_hook_once_with_the_reported_arguments() {
    let mut e = fresh_engine();
    let mut h = fresh_holder();
    block_hook_proxy(HANDLE, 0x2000, 16, &mut h, &mut e);
    assert_eq!(h.callback.calls, 1);
    assert_eq!(h.callback.last_addr, 0x2000);
    assert_eq!(h.callback.last_size, 16);
}

#[test]
fn intr_proxy_passes_the_interrupt_number() {
    let mut e = fresh_engine();
    let mut h = fresh_holder();
    intr_hook_proxy(HANDLE, 0x80, &mut h, &mut e);
    assert_eq!(h.callback.calls, 1);
    assert_eq!(h.callback.last_value, 0x80);
}

#[test]
fn mem_proxy_passes_access_kind_address_size_and_value() {
    let mut e = fresh_engine();
    let mut h = fresh_holder();
    h.callback.ret_bool = false;
    let handled = mem_hook_proxy(HANDLE, MemType::WriteUnmapped, 0x5000, 4, -1, &mut h, &mut e);
    assert!(!handled);
    assert_eq!(h.callback.calls, 1);
    assert_eq!(h.callback.last_kind, Some(MemType::WriteUnmapped));
    assert_eq!(h.callback.last_addr, 0x5000);
    assert_eq!(h.callback.last_size, 4);
    assert_eq!(h.callback.last_ivalue, -1);
}

#[test]
fn mem_proxy_returns_the_hook_verdict_unchanged() {
    let mut e = fresh_engine();
    let mut h = fresh_holder();
    h.callback.ret_bool = true;
    assert!(mem_hook_proxy(HANDLE, MemType::Read, 0x10, 1, 0, &mut h, &mut e));
}

#[test]
fn insn_in_proxy_supplies_the_hook_value() {
    let mut e = fresh_engine();
    let mut h = fresh_holder();
    h.callback.ret_u32 = 0xCAFE;
    let v = insn_in_hook_proxy(HANDLE, 0x60, 2, &mut h, &mut e);
    assert_eq!(v, 0xCAFE);
    assert_eq!(h.callback.calls, 1);
    assert_eq!(h.callback.last_addr, 0x60);
    assert_eq!(h.callback.last_size, 2);
}

#[test]
fn insn_out_proxy_passes_port_size_and_value() {
    let mut e = fresh_engine();
    let mut h = fresh_holder();
    insn_out_hook_proxy(HANDLE, 0x3F8, 1, 0x41, &mut h, &mut e);
    assert_eq!(h.callback.calls, 1);
    assert_eq!(h.callback.last_addr, 0x3F8);
    assert_eq!(h.callback.last_size, 1);
    assert_eq!(h.callback.last_value, 0x41);
}

#[test]
fn insn_sys_proxy_invokes_the_hook_once() {
    let mut e = fresh_engine();
    let mut h = fresh_holder();
    insn_sys_hook_proxy(HANDLE, &mut h, &mut e);
    assert_eq!(h.callback.calls, 1);
}

#[test]
fn insn_invalid_proxy_returns_the_hook_verdict() {
    let mut e = fresh_engine();
    let mut h = fresh_holder();
    h.callback.ret_bool = false;
    assert!(!insn_invalid_hook_proxy(HANDLE, &mut h, &mut e));
    h.callback.ret_bool = true;
    assert!(insn_invalid_hook_proxy(HANDLE, &mut h, &mut e));
    assert_eq!(h.callback.calls, 2);
}

#[test]
fn mmio_read_proxy_supplies_the_hook_value() {
    let mut e = fresh_engine();
    let mut h = fresh_holder();
    h.callback.ret_u64 = 0x1122_3344_5566_7788;
    let v = mmio_read_callback_proxy(HANDLE, 0x40, 8, &mut h, &mut e);
    assert_eq!(v, 0x1122_3344_5566_7788);
    assert_eq!(h.callback.calls, 1);
    assert_eq!(h.callback.last_addr, 0x40);
    assert_eq!(h.callback.last_size, 8);
}

#[test]
fn mmio_write_proxy_passes_offset_size_and_value() {
    let mut e = fresh_engine();
    let mut h = fresh_holder();
    mmio_write_callback_proxy(HANDLE, 0x10, 4, 0xF00D, &mut h, &mut e);
    assert_eq!(h.callback.calls, 1);
    assert_eq!(h.callback.last_addr, 0x10);
    assert_eq!(h.callback.last_size, 4);
    assert_eq!(h.callback.last_value, 0xF00D);
}

#[test]
fn tlb_proxy_writes_the_returned_entry_and_signals_found() {
    let mut e = fresh_engine();
    let mut h = fresh_holder();
    h.callback.ret_entry = Some(TlbEntry { paddr: 0x8000, perms: PROT_ALL });
    let mut out = TlbEntry { paddr: 0, perms: 0 };
    let found = tlb_lookup_hook_proxy(HANDLE, 0x1234, MemType::Read, &mut out, &mut h, &mut e);
    assert!(found);
    assert_eq!(out.paddr, 0x8000);
    assert_eq!(out.perms, PROT_ALL);
    assert_eq!(h.callback.calls, 1);
    assert_eq!(h.callback.last_addr, 0x1234);
    assert_eq!(h.callback.last_kind, Some(MemType::Read));
}

#[test]
fn tlb_proxy_signals_not_found_and_leaves_the_output_slot_alone() {
    let mut e = fresh_engine();
    let mut h = fresh_holder();
    h.callback.ret_entry = None;
    let mut out = TlbEntry { paddr: 0x5555, perms: 3 };
    let found = tlb_lookup_hook_proxy(HANDLE, 0x9999, MemType::Write, &mut out, &mut h, &mut e);
    assert!(!found);
    assert_eq!(out.paddr, 0x5555);
    assert_eq!(out.perms, 3);
    assert_eq!(h.callback.calls, 1);
}

#[test]
fn hooks_can_drive_the_engine_they_were_reported_from() {
    // A hook may call back into the engine: install, trigger, and let the
    // observed state change drive a stop request, as a real hook would.
    let mut e = fresh_engine();
    let id = e.hook_add(HookType::Code, 1, 0);
    let mut h = fresh_holder();
    let fired = e.hooks_for_event(HookType::Code, 0x1000);
    assert_eq!(fired, vec![id]);
    for _ in fired {
        code_hook_proxy(HANDLE, 0x1000, 1, &mut h, &mut e);
    }
    assert_eq!(h.callback.calls, 1);
    e.emu_stop();
    assert!(e.stop_requested);
}
