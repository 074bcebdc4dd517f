//! A hook implementation that only observes: it counts its invocations,
//! records the arguments of the last one, answers value-returning events
//! from preconfigured fields, and never touches the engine.  It is how a
//! caller (or a test) checks that the bridge delivered an event exactly
//! once with exactly the arguments the native layer reported.

use vstd::prelude::*;

use crate::bridge::{
    BlockCallback, CodeCallback, InsnInCallback, InsnInvalidCallback, InsnOutCallback,
    InsnSysCallback, IntrCallback, MemCallback, MmioReadCallback, MmioWriteCallback,
    TlbLookupCallback,
};
use crate::engine::Engine;
use crate::types::{MemType, TlbEntry};

verus! {

/// The observing hook.  `calls` counts invocations; the `last_*` fields
/// hold the latest event's arguments (slots an event does not use are
/// reset); the `ret_*` fields are what value-returning events answer.
pub struct EventRecorder {
    pub calls: u64,
    pub last_addr: u64,
    pub last_size: u64,
    pub last_value: u64,
    pub last_ivalue: i64,
    pub last_kind: Option<MemType>,
    pub ret_u64: u64,
    pub ret_u32: u32,
    pub ret_bool: bool,
    pub ret_entry: Option<TlbEntry>,
}

impl EventRecorder {
    /// A fresh recorder that answers value-returning events with zeros,
    /// verdicts with `handled`, and lookups with nothing.
    pub fn new() -> (r: EventRecorder)
        ensures
            r.calls == 0,
            r.last_addr == 0,
            r.last_size == 0,
            r.last_value == 0,
            r.last_ivalue == 0,
            r.last_kind is None,
            r.ret_u64 == 0,
            r.ret_u32 == 0,
            r.ret_bool,
            r.ret_entry is None,
    {
        EventRecorder {
            calls: 0,
            last_addr: 0,
            last_size: 0,
            last_value: 0,
            last_ivalue: 0,
            last_kind: None,
            ret_u64: 0,
            ret_u32: 0,
            ret_bool: true,
            ret_entry: None,
        }
    }

    /// One more invocation was recorded, with the given argument slots,
    /// and the configured answers were kept.
    pub open spec fn bumped(
        self,
        post: EventRecorder,
        addr: u64,
        size: u64,
        value: u64,
        ivalue: i64,
        kind: Option<MemType>,
    ) -> bool {
        &&& post.calls == self.calls + 1
        &&& post.last_addr == addr
        &&& post.last_size == size
        &&& post.last_value == value
        &&& post.last_ivalue == ivalue
        &&& post.last_kind == kind
        &&& post.ret_u64 == self.ret_u64
        &&& post.ret_u32 == self.ret_u32
        &&& post.ret_bool == self.ret_bool
        &&& post.ret_entry == self.ret_entry
    }
}

impl MmioReadCallback for EventRecorder {
    open spec fn mmio_read_req(&self, eng: Engine, offset: u64, size: usize) -> bool {
        self.calls < u64::MAX
    }

    open spec fn mmio_read_ens(
        &self,
        post: Self,
        pre_eng: Engine,
        post_eng: Engine,
        offset: u64,
        size: usize,
        r: u64,
    ) -> bool {
        &&& self.bumped(post, offset, size as u64, 0, 0, None)
        &&& post_eng == pre_eng
        &&& r == self.ret_u64
    }

    fn on_mmio_read(&mut self, uc: &mut Engine, offset: u64, size: usize) -> (r: u64) {
        self.calls = self.calls + 1;
        self.last_addr = offset;
        self.last_size = size as u64;
        self.last_value = 0;
        self.last_ivalue = 0;
        self.last_kind = None;
        self.ret_u64
    }
}

impl MmioWriteCallback for EventRecorder {
    open spec fn mmio_write_req(&self, eng: Engine, offset: u64, size: usize, value: u64) -> bool {
        self.calls < u64::MAX
    }

    open spec fn mmio_write_ens(
        &self,
        post: Self,
        pre_eng: Engine,
        post_eng: Engine,
        offset: u64,
        size: usize,
        value: u64,
    ) -> bool {
        &&& self.bumped(post, offset, size as u64, value, 0, None)
        &&& post_eng == pre_eng
    }

    fn on_mmio_write(&mut self, uc: &mut Engine, offset: u64, size: usize, value: u64) {
        self.calls = self.calls + 1;
        self.last_addr = offset;
        self.last_size = size as u64;
        self.last_value = value;
        self.last_ivalue = 0;
        self.last_kind = None;
    }
}

impl CodeCallback for EventRecorder {
    open spec fn code_req(&self, eng: Engine, address: u64, size: u32) -> bool {
        self.calls < u64::MAX
    }

    open spec fn code_ens(
        &self,
        post: Self,
        pre_eng: Engine,
        post_eng: Engine,
        address: u64,
        size: u32,
    ) -> bool {
        &&& self.bumped(post, address, size as u64, 0, 0, None)
        &&& post_eng == pre_eng
    }

    fn on_code(&mut self, uc: &mut Engine, address: u64, size: u32) {
        self.calls = self.calls + 1;
        self.last_addr = address;
        self.last_size = size as u64;
        self.last_value = 0;
        self.last_ivalue = 0;
        self.last_kind = None;
    }
}

impl BlockCallback for EventRecorder {
    open spec fn block_req(&self, eng: Engine, address: u64, size: u32) -> bool {
        self.calls < u64::MAX
    }

    open spec fn block_ens(
        &self,
        post: Self,
        pre_eng: Engine,
        post_eng: Engine,
        address: u64,
        size: u32,
    ) -> bool {
        &&& self.bumped(post, address, size as u64, 0, 0, None)
        &&& post_eng == pre_eng
    }

    fn on_block(&mut self, uc: &mut Engine, address: u64, size: u32) {
        self.calls = self.calls + 1;
        self.last_addr = address;
        self.last_size = size as u64;
        self.last_value = 0;
        self.last_ivalue = 0;
        self.last_kind = None;
    }
}

impl MemCallback for EventRecorder {
    open spec fn mem_req(
        &self,
        eng: Engine,
        mem_type: MemType,
        address: u64,
        size: usize,
        value: i64,
    ) -> bool {
        self.calls < u64::MAX
    }

    open spec fn mem_ens(
        &self,
        post: Self,
        pre_eng: Engine,
        post_eng: Engine,
        mem_type: MemType,
        address: u64,
        size: usize,
        value: i64,
        r: bool,
    ) -> bool {
        &&& self.bumped(post, address, size as u64, 0, value, Some(mem_type))
        &&& post_eng == pre_eng
        &&& r == self.ret_bool
    }

    fn on_mem(
        &mut self,
        uc: &mut Engine,
        mem_type: MemType,
        address: u64,
        size: usize,
        value: i64,
    ) -> (r: bool) {
        self.calls = self.calls + 1;
        self.last_addr = address;
        self.last_size = size as u64;
        self.last_value = 0;
        self.last_ivalue = value;
        self.last_kind = Some(mem_type);
        self.ret_bool
    }
}

impl IntrCallback for EventRecorder {
    open spec fn intr_req(&self, eng: Engine, value: u32) -> bool {
        self.calls < u64::MAX
    }

    open spec fn intr_ens(
        &self,
        post: Self,
        pre_eng: Engine,
        post_eng: Engine,
        value: u32,
    ) -> bool {
        &&& self.bumped(post, 0, 0, value as u64, 0, None)
        &&& post_eng == pre_eng
    }

    fn on_intr(&mut self, uc: &mut Engine, value: u32) {
        self.calls = self.calls + 1;
        self.last_addr = 0;
        self.last_size = 0;
        self.last_value = value as u64;
        self.last_ivalue = 0;
        self.last_kind = None;
    }
}

impl InsnInCallback for EventRecorder {
    open spec fn insn_in_req(&self, eng: Engine, port: u32, size: usize) -> bool {
        self.calls < u64::MAX
    }

    open spec fn insn_in_ens(
        &self,
        post: Self,
        pre_eng: Engine,
        post_eng: Engine,
        port: u32,
        size: usize,
        r: u32,
    ) -> bool {
        &&& self.bumped(post, port as u64, size as u64, 0, 0, None)
        &&& post_eng == pre_eng
        &&& r == self.ret_u32
    }

    fn on_insn_in(&mut self, uc: &mut Engine, port: u32, size: usize) -> (r: u32) {
        self.calls = self.calls + 1;
        self.last_addr = port as u64;
        self.last_size = size as u64;
        self.last_value = 0;
        self.last_ivalue = 0;
        self.last_kind = None;
        self.ret_u32
    }
}

impl InsnInvalidCallback for EventRecorder {
    open spec fn insn_invalid_req(&self, eng: Engine) -> bool {
        self.calls < u64::MAX
    }

    open spec fn insn_invalid_ens(
        &self,
        post: Self,
        pre_eng: Engine,
        post_eng: Engine,
        r: bool,
    ) -> bool {
        &&& self.bumped(post, 0, 0, 0, 0, None)
        &&& post_eng == pre_eng
        &&& r == self.ret_bool
    }

    fn on_insn_invalid(&mut self, uc: &mut Engine) -> (r: bool) {
        self.calls = self.calls + 1;
        self.last_addr = 0;
        self.last_size = 0;
        self.last_value = 0;
        self.last_ivalue = 0;
        self.last_kind = None;
        self.ret_bool
    }
}

impl InsnOutCallback for EventRecorder {
    open spec fn insn_out_req(&self, eng: Engine, port: u32, size: usize, value: u32) -> bool {
        self.calls < u64::MAX
    }

    open spec fn insn_out_ens(
        &self,
        post: Self,
        pre_eng: Engine,
        post_eng: Engine,
        port: u32,
        size: usize,
        value: u32,
    ) -> bool {
        &&& self.bumped(post, port as u64, size as u64, value as u64, 0, None)
        &&& post_eng == pre_eng
    }

    fn on_insn_out(&mut self, uc: &mut Engine, port: u32, size: usize, value: u32) {
        self.calls = self.calls + 1;
        self.last_addr = port as u64;
        self.last_size = size as u64;
        self.last_value = value as u64;
        self.last_ivalue = 0;
        self.last_kind = None;
    }
}

impl InsnSysCallback for EventRecorder {
    open spec fn insn_sys_req(&self, eng: Engine) -> bool {
        self.calls < u64::MAX
    }

    open spec fn insn_sys_ens(&self, post: Self, pre_eng: Engine, post_eng: Engine) -> bool {
        &&& self.bumped(post, 0, 0, 0, 0, None)
        &&& post_eng == pre_eng
    }

    fn on_insn_sys(&mut self, uc: &mut Engine) {
        self.calls = self.calls + 1;
        self.last_addr = 0;
        self.last_size = 0;
        self.last_value = 0;
        self.last_ivalue = 0;
        self.last_kind = None;
    }
}

impl TlbLookupCallback for EventRecorder {
    open spec fn tlb_req(&self, eng: Engine, vaddr: u64, mem_type: MemType) -> bool {
        self.calls < u64::MAX
    }

    open spec fn tlb_ens(
        &self,
        post: Self,
        pre_eng: Engine,
        post_eng: Engine,
        vaddr: u64,
        mem_type: MemType,
        r: Option<TlbEntry>,
    ) -> bool {
        &&& self.bumped(post, vaddr, 0, 0, 0, Some(mem_type))
        &&& post_eng == pre_eng
        &&& r == self.ret_entry
    }

    fn on_tlb(&mut self, uc: &mut Engine, vaddr: u64, mem_type: MemType) -> (r: Option<TlbEntry>) {
        self.calls = self.calls + 1;
        self.last_addr = vaddr;
        self.last_size = 0;
        self.last_value = 0;
        self.last_ivalue = 0;
        self.last_kind = Some(mem_type);
        self.ret_entry
    }
}

} // verus!
