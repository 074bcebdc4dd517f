//! The callback bridge: for every hook category, the proxy that stands
//! between the native layer and a user-supplied hook.
//!
//! In the native binding each proxy is a raw trampoline: the engine calls
//! it with a raw handle and an opaque user-data pointer, the trampoline
//! reinterprets the pointer as the hook holder, upgrades the holder's
//! non-owning engine reference (an expired reference is a fatal contract
//! violation, not a recoverable error), cross-checks that the raw handle
//! names the engine the holder was wired to, and only then invokes the
//! hook.  Here those boundary obligations are preconditions: the proxies
//! take the already-reconstructed engine state, demand that the handles
//! agree, and are verified never to reach the hook otherwise.  What each
//! proxy promises is that the hook ran exactly on the event the native
//! layer reported — same arguments, result translated unchanged.

use vstd::prelude::*;

use crate::engine::Engine;
use crate::types::{MemType, TlbEntry};

verus! {

/// The hook holder: the user-supplied callback value paired with the
/// handle of the engine it was registered on.  The native binding also
/// stores a weak reference to the engine's shared state here; its upgrade
/// lives at the unsafe boundary, and what remains of it at this level is
/// the engine's identity, which every proxy cross-checks.
pub struct UcHook<F> {
    pub callback: F,
    pub uc: u64,
}

/// Marker for hook holders, whatever their callback type.
pub trait IsUcHook {

}

impl<F> IsUcHook for UcHook<F> {

}

/// A hook for reads from a memory-mapped I/O region: given the offset
/// into the region and the access width, it supplies the value the guest
/// reads.
pub trait MmioReadCallback: Sized {
    /// What the hook demands of the engine and the reported access.
    spec fn mmio_read_req(&self, eng: Engine, offset: u64, size: usize) -> bool;

    /// How one invocation relates the hook's and the engine's states
    /// before and after, and what value it supplied.
    spec fn mmio_read_ens(
        &self,
        post: Self,
        pre_eng: Engine,
        post_eng: Engine,
        offset: u64,
        size: usize,
        r: u64,
    ) -> bool;

    fn on_mmio_read(&mut self, uc: &mut Engine, offset: u64, size: usize) -> (r: u64)
        requires
            old(uc).wf(),
            old(self).mmio_read_req(*old(uc), offset, size),
        ensures
            final(uc).wf(),
            old(self).mmio_read_ens(*final(self), *old(uc), *final(uc), offset, size, r),
    ;
}

/// A hook for writes to a memory-mapped I/O region.
pub trait MmioWriteCallback: Sized {
    spec fn mmio_write_req(&self, eng: Engine, offset: u64, size: usize, value: u64) -> bool;

    spec fn mmio_write_ens(
        &self,
        post: Self,
        pre_eng: Engine,
        post_eng: Engine,
        offset: u64,
        size: usize,
        value: u64,
    ) -> bool;

    fn on_mmio_write(&mut self, uc: &mut Engine, offset: u64, size: usize, value: u64)
        requires
            old(uc).wf(),
            old(self).mmio_write_req(*old(uc), offset, size, value),
        ensures
            final(uc).wf(),
            old(self).mmio_write_ens(*final(self), *old(uc), *final(uc), offset, size, value),
    ;
}

/// A per-instruction hook: told the address and size of the instruction
/// about to run.
pub trait CodeCallback: Sized {
    spec fn code_req(&self, eng: Engine, address: u64, size: u32) -> bool;

    spec fn code_ens(
        &self,
        post: Self,
        pre_eng: Engine,
        post_eng: Engine,
        address: u64,
        size: u32,
    ) -> bool;

    fn on_code(&mut self, uc: &mut Engine, address: u64, size: u32)
        requires
            old(uc).wf(),
            old(self).code_req(*old(uc), address, size),
        ensures
            final(uc).wf(),
            old(self).code_ens(*final(self), *old(uc), *final(uc), address, size),
    ;
}

/// A per-basic-block hook.
pub trait BlockCallback: Sized {
    spec fn block_req(&self, eng: Engine, address: u64, size: u32) -> bool;

    spec fn block_ens(
        &self,
        post: Self,
        pre_eng: Engine,
        post_eng: Engine,
        address: u64,
        size: u32,
    ) -> bool;

    fn on_block(&mut self, uc: &mut Engine, address: u64, size: u32)
        requires
            old(uc).wf(),
            old(self).block_req(*old(uc), address, size),
        ensures
            final(uc).wf(),
            old(self).block_ens(*final(self), *old(uc), *final(uc), address, size),
    ;
}

/// A memory-access hook: told the kind of access, its address, width and
/// (for writes) value; answers whether the access is handled, `false`
/// meaning fault.
pub trait MemCallback: Sized {
    spec fn mem_req(
        &self,
        eng: Engine,
        mem_type: MemType,
        address: u64,
        size: usize,
        value: i64,
    ) -> bool;

    spec fn mem_ens(
        &self,
        post: Self,
        pre_eng: Engine,
        post_eng: Engine,
        mem_type: MemType,
        address: u64,
        size: usize,
        value: i64,
        r: bool,
    ) -> bool;

    fn on_mem(
        &mut self,
        uc: &mut Engine,
        mem_type: MemType,
        address: u64,
        size: usize,
        value: i64,
    ) -> (r: bool)
        requires
            old(uc).wf(),
            old(self).mem_req(*old(uc), mem_type, address, size, value),
        ensures
            final(uc).wf(),
            old(self).mem_ens(*final(self), *old(uc), *final(uc), mem_type, address, size, value, r),
    ;
}

/// An interrupt/exception hook, told the interrupt number.
pub trait IntrCallback: Sized {
    spec fn intr_req(&self, eng: Engine, value: u32) -> bool;

    spec fn intr_ens(&self, post: Self, pre_eng: Engine, post_eng: Engine, value: u32) -> bool;

    fn on_intr(&mut self, uc: &mut Engine, value: u32)
        requires
            old(uc).wf(),
            old(self).intr_req(*old(uc), value),
        ensures
            final(uc).wf(),
            old(self).intr_ens(*final(self), *old(uc), *final(uc), value),
    ;
}

/// A port-input hook: supplies the value the guest reads from a port.
pub trait InsnInCallback: Sized {
    spec fn insn_in_req(&self, eng: Engine, port: u32, size: usize) -> bool;

    spec fn insn_in_ens(
        &self,
        post: Self,
        pre_eng: Engine,
        post_eng: Engine,
        port: u32,
        size: usize,
        r: u32,
    ) -> bool;

    fn on_insn_in(&mut self, uc: &mut Engine, port: u32, size: usize) -> (r: u32)
        requires
            old(uc).wf(),
            old(self).insn_in_req(*old(uc), port, size),
        ensures
            final(uc).wf(),
            old(self).insn_in_ens(*final(self), *old(uc), *final(uc), port, size, r),
    ;
}

/// An invalid-instruction hook: answers whether the instruction was
/// handled, `false` meaning fault.
pub trait InsnInvalidCallback: Sized {
    spec fn insn_invalid_req(&self, eng: Engine) -> bool;

    spec fn insn_invalid_ens(&self, post: Self, pre_eng: Engine, post_eng: Engine, r: bool) -> bool;

    fn on_insn_invalid(&mut self, uc: &mut Engine) -> (r: bool)
        requires
            old(uc).wf(),
            old(self).insn_invalid_req(*old(uc)),
        ensures
            final(uc).wf(),
            old(self).insn_invalid_ens(*final(self), *old(uc), *final(uc), r),
    ;
}

/// A port-output hook, told the port, width and written value.
pub trait InsnOutCallback: Sized {
    spec fn insn_out_req(&self, eng: Engine, port: u32, size: usize, value: u32) -> bool;

    spec fn insn_out_ens(
        &self,
        post: Self,
        pre_eng: Engine,
        post_eng: Engine,
        port: u32,
        size: usize,
        value: u32,
    ) -> bool;

    fn on_insn_out(&mut self, uc: &mut Engine, port: u32, size: usize, value: u32)
        requires
            old(uc).wf(),
            old(self).insn_out_req(*old(uc), port, size, value),
        ensures
            final(uc).wf(),
            old(self).insn_out_ens(*final(self), *old(uc), *final(uc), port, size, value),
    ;
}

/// A syscall/sysenter hook; the event carries no further arguments.
pub trait InsnSysCallback: Sized {
    spec fn insn_sys_req(&self, eng: Engine) -> bool;

    spec fn insn_sys_ens(&self, post: Self, pre_eng: Engine, post_eng: Engine) -> bool;

    fn on_insn_sys(&mut self, uc: &mut Engine)
        requires
            old(uc).wf(),
            old(self).insn_sys_req(*old(uc)),
        ensures
            final(uc).wf(),
            old(self).insn_sys_ens(*final(self), *old(uc), *final(uc)),
    ;
}

/// A TLB-lookup hook: asked to translate a virtual address for a given
/// kind of access; returns the translation entry, or nothing to fall
/// back to a translation fault.
pub trait TlbLookupCallback: Sized {
    spec fn tlb_req(&self, eng: Engine, vaddr: u64, mem_type: MemType) -> bool;

    spec fn tlb_ens(
        &self,
        post: Self,
        pre_eng: Engine,
        post_eng: Engine,
        vaddr: u64,
        mem_type: MemType,
        r: Option<TlbEntry>,
    ) -> bool;

    fn on_tlb(&mut self, uc: &mut Engine, vaddr: u64, mem_type: MemType) -> (r: Option<TlbEntry>)
        requires
            old(uc).wf(),
            old(self).tlb_req(*old(uc), vaddr, mem_type),
        ensures
            final(uc).wf(),
            old(self).tlb_ens(*final(self), *old(uc), *final(uc), vaddr, mem_type, r),
    ;
}

/// Forwards a memory-mapped I/O read to the holder's hook and hands the
/// supplied value back to the native layer unchanged.
pub fn mmio_read_callback_proxy<F: MmioReadCallback>(
    uc: u64,
    offset: u64,
    size: usize,
    user_data: &mut UcHook<F>,
    engine: &mut Engine,
) -> (r: u64)
    requires
        old(engine).wf(),
        uc == old(engine).handle,
        old(user_data).uc == uc,
        old(user_data).callback.mmio_read_req(*old(engine), offset, size),
    ensures
        final(engine).wf(),
        final(user_data).uc == old(user_data).uc,
        old(user_data).callback.mmio_read_ens(
            final(user_data).callback,
            *old(engine),
            *final(engine),
            offset,
            size,
            r,
        ),
{
    user_data.callback.on_mmio_read(engine, offset, size)
}

/// Forwards a memory-mapped I/O write to the holder's hook.
pub fn mmio_write_callback_proxy<F: MmioWriteCallback>(
    uc: u64,
    offset: u64,
    size: usize,
    value: u64,
    user_data: &mut UcHook<F>,
    engine: &mut Engine,
)
    requires
        old(engine).wf(),
        uc == old(engine).handle,
        old(user_data).uc == uc,
        old(user_data).callback.mmio_write_req(*old(engine), offset, size, value),
    ensures
        final(engine).wf(),
        final(user_data).uc == old(user_data).uc,
        old(user_data).callback.mmio_write_ens(
            final(user_data).callback,
            *old(engine),
            *final(engine),
            offset,
            size,
            value,
        ),
{
    user_data.callback.on_mmio_write(engine, offset, size, value);
}

/// Forwards a per-instruction event to the holder's hook.
pub fn code_hook_proxy<F: CodeCallback>(
    uc: u64,
    address: u64,
    size: u32,
    user_data: &mut UcHook<F>,
    engine: &mut Engine,
)
    requires
        old(engine).wf(),
        uc == old(engine).handle,
        old(user_data).uc == uc,
        old(user_data).callback.code_req(*old(engine), address, size),
    ensures
        final(engine).wf(),
        final(user_data).uc == old(user_data).uc,
        old(user_data).callback.code_ens(
            final(user_data).callback,
            *old(engine),
            *final(engine),
            address,
            size,
        ),
{
    user_data.callback.on_code(engine, address, size);
}

/// Forwards a basic-block event to the holder's hook.
pub fn block_hook_proxy<F: BlockCallback>(
    uc: u64,
    address: u64,
    size: u32,
    user_data: &mut UcHook<F>,
    engine: &mut Engine,
)
    requires
        old(engine).wf(),
        uc == old(engine).handle,
        old(user_data).uc == uc,
        old(user_data).callback.block_req(*old(engine), address, size),
    ensures
        final(engine).wf(),
        final(user_data).uc == old(user_data).uc,
        old(user_data).callback.block_ens(
            final(user_data).callback,
            *old(engine),
            *final(engine),
            address,
            size,
        ),
{
    user_data.callback.on_block(engine, address, size);
}

/// Forwards a memory-access event to the holder's hook and hands its
/// verdict back unchanged; the native layer widens the reported size,
/// and the proxy passes it through as the hook's width argument.
pub fn mem_hook_proxy<F: MemCallback>(
    uc: u64,
    mem_type: MemType,
    address: u64,
    size: u32,
    value: i64,
    user_data: &mut UcHook<F>,
    engine: &mut Engine,
) -> (r: bool)
    requires
        old(engine).wf(),
        uc == old(engine).handle,
        old(user_data).uc == uc,
        old(user_data).callback.mem_req(*old(engine), mem_type, address, size as usize, value),
    ensures
        final(engine).wf(),
        final(user_data).uc == old(user_data).uc,
        old(user_data).callback.mem_ens(
            final(user_data).callback,
            *old(engine),
            *final(engine),
            mem_type,
            address,
            size as usize,
            value,
            r,
        ),
{
    user_data.callback.on_mem(engine, mem_type, address, size as usize, value)
}

/// Forwards an interrupt event to the holder's hook.
pub fn intr_hook_proxy<F: IntrCallback>(
    uc: u64,
    value: u32,
    user_data: &mut UcHook<F>,
    engine: &mut Engine,
)
    requires
        old(engine).wf(),
        uc == old(engine).handle,
        old(user_data).uc == uc,
        old(user_data).callback.intr_req(*old(engine), value),
    ensures
        final(engine).wf(),
        final(user_data).uc == old(user_data).uc,
        old(user_data).callback.intr_ens(
            final(user_data).callback,
            *old(engine),
            *final(engine),
            value,
        ),
{
    user_data.callback.on_intr(engine, value);
}

/// Forwards a port-input event to the holder's hook and hands the
/// supplied value back unchanged.
pub fn insn_in_hook_proxy<F: InsnInCallback>(
    uc: u64,
    port: u32,
    size: usize,
    user_data: &mut UcHook<F>,
    engine: &mut Engine,
) -> (r: u32)
    requires
        old(engine).wf(),
        uc == old(engine).handle,
        old(user_data).uc == uc,
        old(user_data).callback.insn_in_req(*old(engine), port, size),
    ensures
        final(engine).wf(),
        final(user_data).uc == old(user_data).uc,
        old(user_data).callback.insn_in_ens(
            final(user_data).callback,
            *old(engine),
            *final(engine),
            port,
            size,
            r,
        ),
{
    user_data.callback.on_insn_in(engine, port, size)
}

/// Forwards an invalid-instruction event to the holder's hook and hands
/// its verdict back unchanged.
pub fn insn_invalid_hook_proxy<F: InsnInvalidCallback>(
    uc: u64,
    user_data: &mut UcHook<F>,
    engine: &mut Engine,
) -> (r: bool)
    requires
        old(engine).wf(),
        uc == old(engine).handle,
        old(user_data).uc == uc,
        old(user_data).callback.insn_invalid_req(*old(engine)),
    ensures
        final(engine).wf(),
        final(user_data).uc == old(user_data).uc,
        old(user_data).callback.insn_invalid_ens(
            final(user_data).callback,
            *old(engine),
            *final(engine),
            r,
        ),
{
    user_data.callback.on_insn_invalid(engine)
}

/// Forwards a port-output event to the holder's hook.
pub fn insn_out_hook_proxy<F: InsnOutCallback>(
    uc: u64,
    port: u32,
    size: usize,
    value: u32,
    user_data: &mut UcHook<F>,
    engine: &mut Engine,
)
    requires
        old(engine).wf(),
        uc == old(engine).handle,
        old(user_data).uc == uc,
        old(user_data).callback.insn_out_req(*old(engine), port, size, value),
    ensures
        final(engine).wf(),
        final(user_data).uc == old(user_data).uc,
        old(user_data).callback.insn_out_ens(
            final(user_data).callback,
            *old(engine),
            *final(engine),
            port,
            size,
            value,
        ),
{
    user_data.callback.on_insn_out(engine, port, size, value);
}

/// Forwards a syscall/sysenter event to the holder's hook.
pub fn insn_sys_hook_proxy<F: InsnSysCallback>(
    uc: u64,
    user_data: &mut UcHook<F>,
    engine: &mut Engine,
)
    requires
        old(engine).wf(),
        uc == old(engine).handle,
        old(user_data).uc == uc,
        old(user_data).callback.insn_sys_req(*old(engine)),
    ensures
        final(engine).wf(),
        final(user_data).uc == old(user_data).uc,
        old(user_data).callback.insn_sys_ens(
            final(user_data).callback,
            *old(engine),
            *final(engine),
        ),
{
    user_data.callback.on_insn_sys(engine);
}

/// Forwards a TLB-lookup event to the holder's hook.  When the hook
/// returns an entry, its fields are written through the native output
/// slot, field for field, and `true` ("found") goes back; when it
/// returns nothing, `false` goes back and the output slot is left as it
/// was — though only this contract, not the native one, promises that.
pub fn tlb_lookup_hook_proxy<F: TlbLookupCallback>(
    uc: u64,
    vaddr: u64,
    mem_type: MemType,
    result: &mut TlbEntry,
    user_data: &mut UcHook<F>,
    engine: &mut Engine,
) -> (found: bool)
    requires
        old(engine).wf(),
        uc == old(engine).handle,
        old(user_data).uc == uc,
        old(user_data).callback.tlb_req(*old(engine), vaddr, mem_type),
    ensures
        final(engine).wf(),
        final(user_data).uc == old(user_data).uc,
        old(user_data).callback.tlb_ens(
            final(user_data).callback,
            *old(engine),
            *final(engine),
            vaddr,
            mem_type,
            if found {
                Some(*final(result))
            } else {
                None
            },
        ),
        !found ==> *final(result) == *old(result),
{
    let r = user_data.callback.on_tlb(engine, vaddr, mem_type);
    match r {
        Some(e) => {
            *result = e;
            true
        },
        None => false,
    }
}

} // verus!
