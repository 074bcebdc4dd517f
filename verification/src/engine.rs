//! The verified state model behind an engine handle: the register file,
//! the set of mapped memory regions with their contents, the table of
//! installed hooks, and saved register contexts.  Every operation of the
//! raw surface that decides something (which accesses succeed, which
//! error code comes back, which hooks an event reaches) is an executable
//! function here with a contract that pins the result down.

use vstd::prelude::*;

use crate::types::{Arch, HookType, MemRegion, Query, UcError, PROT_ALL, PROT_READ, PROT_WRITE};
use vstd::pervasive::unreached;

verus! {

/// One mapped region: start address, length in bytes, permission bits and
/// the backing bytes themselves.
pub struct MappedRegion {
    pub begin: u64,
    pub size: u64,
    pub perms: u32,
    pub data: Vec<u8>,
}

/// One installed hook: its handle, its category, and the address range it
/// filters on (`begin > end` means every address, as the native layer has
/// it).
pub struct HookEntry {
    pub id: u64,
    pub kind: HookType,
    pub begin: u64,
    pub end: u64,
}

/// An opaque snapshot of the full register state.
pub struct Context {
    pub regs: Vec<u64>,
}

/// A region is well formed when it is non-empty, stays inside the 64-bit
/// address space, and carries exactly one byte per address.
pub open spec fn region_wf(r: MappedRegion) -> bool {
    &&& r.size > 0
    &&& r.begin + r.size <= 0x1_0000_0000_0000_0000
    &&& r.data@.len() == r.size
}

/// Two regions cover no address in common.
pub open spec fn regions_disjoint(a: MappedRegion, b: MappedRegion) -> bool {
    a.begin + a.size <= b.begin || b.begin + b.size <= a.begin
}

/// The state a live engine handle stands for.
pub struct Engine {
    /// The identifier the surrounding wrapper knows this engine by; the
    /// bridge cross-checks it on every callback.
    pub handle: u64,
    pub arch: Arch,
    /// Mode selector bits, kept as the native layer passed them.
    pub mode: u32,
    /// The register file; a register identifier is valid when it indexes
    /// into this vector.
    pub regs: Vec<u64>,
    /// The mapped regions, pairwise disjoint.
    pub mem: Vec<MappedRegion>,
    /// The installed hooks, in installation order, with pairwise distinct
    /// handles.
    pub hooks: Vec<HookEntry>,
    /// The next hook handle to hand out; larger than every installed one.
    pub next_hook: u64,
    /// Set when a hook asked the running emulation to stop at its next
    /// safe point.
    pub stop_requested: bool,
}

impl Engine {
    /// The internal invariant every operation preserves.
    pub open spec fn wf(self) -> bool {
        &&& forall|i: int| 0 <= i < self.mem@.len() ==> region_wf(#[trigger] self.mem@[i])
        &&& forall|i: int, j: int|
            0 <= i < self.mem@.len() && 0 <= j < self.mem@.len() && i != j ==> regions_disjoint(
                #[trigger] self.mem@[i],
                #[trigger] self.mem@[j],
            )
        &&& forall|i: int, j: int|
            0 <= i < self.hooks@.len() && 0 <= j < self.hooks@.len() && i != j
                ==> (#[trigger] self.hooks@[i]).id != (#[trigger] self.hooks@[j]).id
        &&& forall|i: int|
            0 <= i < self.hooks@.len() ==> (#[trigger] self.hooks@[i]).id < self.next_hook
    }

    /// Region `i` covers address `a`.
    pub open spec fn contains_at(self, i: int, a: int) -> bool {
        self.mem@[i].begin <= a < self.mem@[i].begin + self.mem@[i].size
    }

    /// Some mapped region covers address `a`.
    pub open spec fn mapped(self, a: int) -> bool {
        exists|i: int| 0 <= i < self.mem@.len() && self.contains_at(i, a)
    }

    /// The index of the region covering `a` (unique under `wf`).
    pub open spec fn region_index(self, a: int) -> int {
        choose|i: int| 0 <= i < self.mem@.len() && self.contains_at(i, a)
    }

    /// The byte stored at mapped address `a`.
    pub open spec fn byte_at(self, a: int) -> u8 {
        let r = self.mem@[self.region_index(a)];
        r.data@[a - r.begin]
    }

    /// The permission bits governing mapped address `a`.
    pub open spec fn perms_at(self, a: int) -> u32 {
        self.mem@[self.region_index(a)].perms
    }

    /// Every address of `[addr, addr + size)` is mapped.
    pub open spec fn range_mapped(self, addr: int, size: int) -> bool {
        forall|a: int| addr <= a < addr + size ==> self.mapped(a)
    }

    /// Every address of `[addr, addr + size)` is mapped with all bits of
    /// `p` among its permissions.
    pub open spec fn range_perm(self, addr: int, size: int, p: u32) -> bool {
        forall|a: int|
            addr <= a < addr + size ==> self.mapped(a) && (#[trigger] self.perms_at(a)) & p == p
    }

    /// The bytes stored at `[addr, addr + size)`.
    pub open spec fn mem_bytes(self, addr: int, size: nat) -> Seq<u8> {
        Seq::new(size, |i: int| self.byte_at(addr + i))
    }

    /// Register identifier `regid` names a register of this engine.
    pub open spec fn reg_valid(self, regid: i32) -> bool {
        0 <= regid < self.regs@.len()
    }

    /// The hook table holds an entry with handle `id`.
    pub open spec fn hook_installed(self, id: u64) -> bool {
        exists|i: int| 0 <= i < self.hooks@.len() && (#[trigger] self.hooks@[i]).id == id
    }

    /// Under `wf`, at most one region covers any address.
    pub proof fn lemma_region_unique(self, i: int, j: int, a: int)
        requires
            self.wf(),
            0 <= i < self.mem@.len(),
            0 <= j < self.mem@.len(),
            self.contains_at(i, a),
            self.contains_at(j, a),
        ensures
            i == j,
    {
        if i != j {
            assert(regions_disjoint(self.mem@[i], self.mem@[j]));
        }
    }

    /// Under `wf`, a region known to cover `a` is the region `region_index`
    /// picks.
    pub proof fn lemma_region_index_is(self, i: int, a: int)
        requires
            self.wf(),
            0 <= i < self.mem@.len(),
            self.contains_at(i, a),
        ensures
            self.mapped(a),
            self.region_index(a) == i,
    {
        assert(self.mapped(a));
        self.lemma_region_unique(i, self.region_index(a), a);
    }

    /// Mapped addresses lie inside the 64-bit address space.
    pub proof fn lemma_mapped_in_space(self, a: int)
        requires
            self.wf(),
            self.mapped(a),
        ensures
            0 <= a < 0x1_0000_0000_0000_0000,
    {
        let i = choose|i: int| 0 <= i < self.mem@.len() && self.contains_at(i, a);
        assert(region_wf(self.mem@[i]));
    }

    /// Opens a fresh engine: an empty address space, a zeroed register
    /// file of `reg_count` registers (the surrounding wrapper supplies the
    /// register-file size its architecture calls for), no hooks, no stop
    /// request.  `handle` is the identifier the wrapper will know the
    /// engine by.
    pub fn open(arch: Arch, mode: u32, reg_count: usize, handle: u64) -> (e: Engine)
        ensures
            e.wf(),
            e.handle == handle,
            e.arch == arch,
            e.mode == mode,
            e.regs@.len() == reg_count,
            forall|i: int| 0 <= i < reg_count ==> e.regs@[i] == 0,
            e.mem@.len() == 0,
            forall|a: int| !e.mapped(a),
            e.hooks@.len() == 0,
            e.next_hook == 1,
            !e.stop_requested,
    {
        let mut regs: Vec<u64> = Vec::new();
        let mut i: usize = 0;
        while i < reg_count
            invariant
                i <= reg_count,
                regs@.len() == i,
                forall|j: int| 0 <= j < i ==> regs@[j] == 0,
            decreases reg_count - i,
        {
            regs.push(0);
            i += 1;
        }
        Engine {
            handle,
            arch,
            mode,
            regs,
            mem: Vec::new(),
            hooks: Vec::new(),
            next_hook: 1,
            stop_requested: false,
        }
    }

    /// Finds the region covering `a`, if any.
    fn find_region(&self, a: u64) -> (r: Option<usize>)
        requires
            self.wf(),
        ensures
            match r {
                Some(i) => i < self.mem@.len() && self.contains_at(i as int, a as int)
                    && self.mapped(a as int) && self.region_index(a as int) == i,
                None => !self.mapped(a as int),
            },
    {
        let n = self.mem.len();
        let mut i: usize = 0;
        while i < n
            invariant
                self.wf(),
                n == self.mem@.len(),
                i <= n,
                forall|j: int| 0 <= j < i ==> !self.contains_at(j, a as int),
            decreases n - i,
        {
            let r = &self.mem[i];
            if r.begin <= a && a - r.begin < r.size {
                proof {
                    self.lemma_region_index_is(i as int, a as int);
                }
                return Some(i);
            }
            i += 1;
        }
        return None;
    }

    /// Reads one register.  Succeeds exactly on valid identifiers; an
    /// unknown identifier is an invalid-argument error.
    pub fn reg_read(&self, regid: i32) -> (r: Result<u64, UcError>)
        ensures
            r is Ok <==> self.reg_valid(regid),
            r is Ok ==> r->Ok_0 == self.regs@[regid as int],
            r is Err ==> r->Err_0 == UcError::Arg,
    {
        if regid >= 0 && (regid as usize) < self.regs.len() {
            Ok(self.regs[regid as usize])
        } else {
            Err(UcError::Arg)
        }
    }

    /// Writes one register.  Succeeds exactly on valid identifiers and
    /// changes nothing else; an unknown identifier is an invalid-argument
    /// error and leaves the engine untouched.
    pub fn reg_write(&mut self, regid: i32, value: u64) -> (r: Result<(), UcError>)
        ensures
            r is Ok <==> old(self).reg_valid(regid),
            r is Err ==> r->Err_0 == UcError::Arg && *final(self) == *old(self),
            r is Ok ==> final(self).regs@ == old(self).regs@.update(regid as int, value),
            same_except_regs(*old(self), *final(self)),
            old(self).wf() ==> final(self).wf(),
    {
        if regid >= 0 && (regid as usize) < self.regs.len() {
            self.regs.set(regid as usize, value);
            Ok(())
        } else {
            Err(UcError::Arg)
        }
    }
}

/// The register file after the first `n` of the batch writes
/// `(ids, vals)` have been applied to `regs`, in array order; a write
/// through an invalid identifier changes nothing.
pub open spec fn regs_after_writes(regs: Seq<u64>, ids: Seq<i32>, vals: Seq<u64>, n: int) -> Seq<
    u64,
>
    decreases n,
{
    if n <= 0 {
        regs
    } else {
        let prev = regs_after_writes(regs, ids, vals, n - 1);
        if 0 <= ids[n - 1] < regs.len() {
            prev.update(ids[n - 1] as int, vals[n - 1])
        } else {
            prev
        }
    }
}

/// Batch writes never change the size of the register file.
pub proof fn lemma_regs_after_writes_len(regs: Seq<u64>, ids: Seq<i32>, vals: Seq<u64>, n: int)
    ensures
        regs_after_writes(regs, ids, vals, n).len() == regs.len(),
    decreases n,
{
    if n > 0 {
        lemma_regs_after_writes_len(regs, ids, vals, n - 1);
    }
}

impl Engine {
    /// Writes the `regids.len()` registers named by `regids` to the values
    /// of `values`, in array order.  Succeeds exactly when every
    /// identifier is valid.  An invalid identifier at position `k` stops
    /// the batch with an invalid-argument error: the writes before `k`
    /// have taken effect and nothing past `k` has been touched.
    pub fn reg_write_batch(&mut self, regids: &Vec<i32>, values: &Vec<u64>) -> (r: Result<
        (),
        UcError,
    >)
        requires
            regids@.len() == values@.len(),
        ensures
            same_except_regs(*old(self), *final(self)),
            old(self).wf() ==> final(self).wf(),
            r is Ok <==> (forall|i: int|
                0 <= i < regids@.len() ==> old(self).reg_valid(#[trigger] regids@[i])),
            r is Ok ==> final(self).regs@ == regs_after_writes(
                old(self).regs@,
                regids@,
                values@,
                regids@.len() as int,
            ),
            r is Err ==> r->Err_0 == UcError::Arg && (exists|k: int|
                0 <= k < regids@.len() && !old(self).reg_valid(regids@[k]) && (forall|j: int|
                    0 <= j < k ==> old(self).reg_valid(#[trigger] regids@[j]))
                    && final(self).regs@ == regs_after_writes(old(self).regs@, regids@, values@, k)),
    {
        let n = regids.len();
        let mut i: usize = 0;
        while i < n
            invariant
                n == regids@.len(),
                n == values@.len(),
                i <= n,
                same_except_regs(*old(self), *self),
                old(self).wf() ==> self.wf(),
                forall|j: int| 0 <= j < i ==> old(self).reg_valid(#[trigger] regids@[j]),
                self.regs@ == regs_after_writes(old(self).regs@, regids@, values@, i as int),
            decreases n - i,
        {
            proof {
                lemma_regs_after_writes_len(old(self).regs@, regids@, values@, i as int);
            }
            let regid = regids[i];
            if regid >= 0 && (regid as usize) < self.regs.len() {
                self.regs.set(regid as usize, values[i]);
            } else {
                return Err(UcError::Arg);
            }
            i += 1;
        }
        Ok(())
    }

    /// Reads the `regids.len()` registers named by `regids`, in array
    /// order.  Succeeds exactly when every identifier is valid, returning
    /// one value per identifier; any invalid identifier is an
    /// invalid-argument error and nothing is returned.
    pub fn reg_read_batch(&self, regids: &Vec<i32>) -> (r: Result<Vec<u64>, UcError>)
        ensures
            r is Ok <==> (forall|i: int|
                0 <= i < regids@.len() ==> self.reg_valid(#[trigger] regids@[i])),
            r is Ok ==> (r->Ok_0)@.len() == regids@.len() && (forall|i: int|
                0 <= i < regids@.len() ==> (r->Ok_0)@[i] == self.regs@[regids@[i] as int]),
            r is Err ==> r->Err_0 == UcError::Arg,
    {
        let n = regids.len();
        let mut out: Vec<u64> = Vec::new();
        let mut i: usize = 0;
        while i < n
            invariant
                n == regids@.len(),
                i <= n,
                out@.len() == i,
                forall|j: int| 0 <= j < i ==> self.reg_valid(#[trigger] regids@[j]),
                forall|j: int| 0 <= j < i ==> out@[j] == self.regs@[regids@[j] as int],
            decreases n - i,
        {
            let regid = regids[i];
            if regid >= 0 && (regid as usize) < self.regs.len() {
                out.push(self.regs[regid as usize]);
            } else {
                return Err(UcError::Arg);
            }
            i += 1;
        }
        Ok(out)
    }

    /// Allocates an empty context snapshot sized for this engine's
    /// register file.
    pub fn context_alloc(&self) -> (c: Context)
        ensures
            c.regs@.len() == self.regs@.len(),
            forall|i: int| 0 <= i < c.regs@.len() ==> c.regs@[i] == 0,
    {
        let n = self.regs.len();
        let mut regs: Vec<u64> = Vec::new();
        let mut i: usize = 0;
        while i < n
            invariant
                i <= n,
                regs@.len() == i,
                forall|j: int| 0 <= j < i ==> regs@[j] == 0,
            decreases n - i,
        {
            regs.push(0);
            i += 1;
        }
        Context { regs }
    }

    /// Copies the live register state into `context`.  Succeeds exactly
    /// when the context was allocated for a register file of this size; a
    /// context of another size is an invalid-argument error and is left
    /// untouched.
    pub fn context_save(&self, context: &mut Context) -> (r: Result<(), UcError>)
        ensures
            r is Ok <==> old(context).regs@.len() == self.regs@.len(),
            r is Ok ==> context_save_ok(*self, *final(context)),
            r is Err ==> r->Err_0 == UcError::Arg && *final(context) == *old(context),
    {
        if context.regs.len() != self.regs.len() {
            return Err(UcError::Arg);
        }
        let n = self.regs.len();
        let mut i: usize = 0;
        while i < n
            invariant
                n == self.regs@.len(),
                i <= n,
                context.regs@.len() == n,
                forall|j: int| 0 <= j < i ==> context.regs@[j] == self.regs@[j],
            decreases n - i,
        {
            context.regs.set(i, self.regs[i]);
            i += 1;
        }
        proof {
            assert(context.regs@ =~= self.regs@);
        }
        Ok(())
    }

    /// Copies a saved context back into the live register state.  Succeeds
    /// exactly when the context matches this engine's register-file size;
    /// nothing but the register file changes, and on error nothing at all.
    pub fn context_restore(&mut self, context: &Context) -> (r: Result<(), UcError>)
        ensures
            same_except_regs(*old(self), *final(self)),
            old(self).wf() ==> final(self).wf(),
            r is Ok <==> context.regs@.len() == old(self).regs@.len(),
            r is Ok ==> final(self).regs@ == context.regs@,
            r is Err ==> r->Err_0 == UcError::Arg && *final(self) == *old(self),
    {
        if context.regs.len() != self.regs.len() {
            return Err(UcError::Arg);
        }
        let n = context.regs.len();
        let mut i: usize = 0;
        while i < n
            invariant
                n == context.regs@.len(),
                i <= n,
                same_except_regs(*old(self), *self),
                old(self).wf() ==> self.wf(),
                self.regs@.len() == n,
                forall|j: int| 0 <= j < i ==> self.regs@[j] == context.regs@[j],
            decreases n - i,
        {
            self.regs.set(i, context.regs[i]);
            i += 1;
        }
        proof {
            assert(self.regs@ =~= context.regs@);
        }
        Ok(())
    }

    /// The numeric identifier the native layer gives each architecture.
    pub open spec fn arch_id(arch: Arch) -> u64 {
        match arch {
            Arch::Arm => 1,
            Arch::Arm64 => 2,
            Arch::Mips => 3,
            Arch::X86 => 4,
            Arch::Ppc => 5,
            Arch::Sparc => 6,
            Arch::M68k => 7,
            Arch::Riscv => 8,
            Arch::S390x => 9,
            Arch::Tricore => 10,
        }
    }

    /// Answers a generic query: the mode bits, the page size, or the
    /// architecture's numeric identifier.  The timeout of a running
    /// emulation lives in the native layer alone, so asking for it here
    /// is an invalid-argument error.
    pub fn query(&self, query_type: Query) -> (r: Result<u64, UcError>)
        ensures
            query_type == Query::Mode ==> r == Ok::<u64, UcError>(self.mode as u64),
            query_type == Query::PageSize ==> r == Ok::<u64, UcError>(4096u64),
            query_type == Query::Arch ==> r == Ok::<u64, UcError>(Self::arch_id(self.arch)),
            query_type == Query::Timeout ==> r == Err::<u64, UcError>(UcError::Arg),
    {
        match query_type {
            Query::Mode => Ok(self.mode as u64),
            Query::PageSize => Ok(4096),
            Query::Arch => Ok(
                match self.arch {
                    Arch::Arm => 1,
                    Arch::Arm64 => 2,
                    Arch::Mips => 3,
                    Arch::X86 => 4,
                    Arch::Ppc => 5,
                    Arch::Sparc => 6,
                    Arch::M68k => 7,
                    Arch::Riscv => 8,
                    Arch::S390x => 9,
                    Arch::Tricore => 10,
                },
            ),
            Query::Timeout => Err(UcError::Arg),
        }
    }

    /// Asks a running emulation to return at its next safe point.  Safe to
    /// call from inside a hook: it only raises the stop flag.
    pub fn emu_stop(&mut self)
        ensures
            final(self).stop_requested,
            final(self).handle == old(self).handle,
            final(self).arch == old(self).arch,
            final(self).mode == old(self).mode,
            final(self).regs@ == old(self).regs@,
            final(self).mem@ == old(self).mem@,
            final(self).hooks@ == old(self).hooks@,
            final(self).next_hook == old(self).next_hook,
            old(self).wf() ==> final(self).wf(),
    {
        self.stop_requested = true;
    }
}

/// What a successful context save leaves behind: the snapshot holds the
/// engine's register file, bit for bit.
pub open spec fn context_save_ok(e: Engine, c: Context) -> bool {
    c.regs@ == e.regs@
}

/// Saving the register state and restoring it immediately, with no
/// register write in between, leaves every register bit-identical to its
/// pre-save value.
pub proof fn lemma_context_round_trip(e0: Engine, c: Context, e1: Engine)
    requires
        context_save_ok(e0, c),
        e1.regs@ == c.regs@,
    ensures
        e1.regs@ == e0.regs@,
{
}

/// Region `r` covers at least one address of `[addr, addr + size)`.
pub open spec fn region_intersects(r: MappedRegion, addr: int, size: int) -> bool {
    r.begin < addr + size && addr < r.begin + r.size
}

/// The arguments the mapping operation accepts: a non-empty range inside
/// the 64-bit address space, and permission bits drawn from the
/// read/write/execute set.
pub open spec fn map_args_ok(address: u64, size: u64, perms: u32) -> bool {
    &&& size > 0
    &&& address + size <= 0x1_0000_0000_0000_0000
    &&& perms <= PROT_ALL
}

/// What a successful mapping leaves behind: the new range is mapped with
/// the given permissions and zero-filled, and no other address changed in
/// any observable way.
pub open spec fn mem_map_ok(pre: Engine, post: Engine, address: u64, size: u64, perms: u32) -> bool {
    &&& forall|a: int|
        address <= a < address + size ==> (#[trigger] post.mapped(a)) && post.perms_at(a) == perms
            && post.byte_at(a) == 0
    &&& forall|a: int|
        !(address <= a < address + size) ==> (#[trigger] post.mapped(a)) == pre.mapped(a)
    &&& forall|a: int|
        !(address <= a < address + size) && (#[trigger] pre.mapped(a)) ==> post.perms_at(a)
            == pre.perms_at(a) && post.byte_at(a) == pre.byte_at(a)
}

impl Engine {
    /// Some address of `[addr, addr + size)` is already mapped.
    pub open spec fn overlaps_existing(self, addr: int, size: int) -> bool {
        exists|a: int| addr <= a < addr + size && (#[trigger] self.mapped(a))
    }

    /// A region intersecting a range yields a mapped address in the range.
    proof fn lemma_intersect_gives_overlap(self, i: int, addr: int, size: int)
        requires
            self.wf(),
            0 <= i < self.mem@.len(),
            size > 0,
            region_intersects(self.mem@[i], addr, size),
        ensures
            self.overlaps_existing(addr, size),
    {
        let r = self.mem@[i];
        let a: int = if addr >= r.begin {
            addr
        } else {
            r.begin as int
        };
        assert(region_wf(r));
        assert(self.contains_at(i, a));
        assert(addr <= a < addr + size && self.mapped(a));
    }

    /// Maps `size` bytes at `address` with permission bits `perms`.  The
    /// new range starts zero-filled.  Fails with an invalid-argument
    /// error on an empty range, a range leaving the address space, or
    /// stray permission bits; with an out-of-memory error on a range no
    /// host allocation can back; and with a mapping error when any byte
    /// of the range is already mapped.  On failure nothing changes.
    pub fn mem_map(&mut self, address: u64, size: u64, perms: u32) -> (r: Result<(), UcError>)
        requires
            old(self).wf(),
        ensures
            final(self).wf(),
            same_except_mem(*old(self), *final(self)),
            r is Ok <==> map_args_ok(address, size, perms) && size <= usize::MAX as u64 && !old(
                self,
            ).overlaps_existing(address as int, size as int),
            r is Ok ==> mem_map_ok(*old(self), *final(self), address, size, perms),
            r is Err ==> *final(self) == *old(self),
            r is Err ==> r->Err_0 == (if !map_args_ok(address, size, perms) {
                UcError::Arg
            } else if size > usize::MAX as u64 {
                UcError::NoMem
            } else {
                UcError::Mapping
            }),
    {
        if size == 0 || size - 1 > u64::MAX - address || perms > PROT_ALL {
            return Err(UcError::Arg);
        }
        if size > usize::MAX as u64 {
            return Err(UcError::NoMem);
        }
        let last = address + (size - 1);
        let n = self.mem.len();
        let mut i: usize = 0;
        while i < n
            invariant
                self.wf(),
                n == self.mem@.len(),
                i <= n,
                last == address + size - 1,
                map_args_ok(address, size, perms),
                size <= usize::MAX as u64,
                forall|j: int|
                    0 <= j < i ==> !region_intersects(
                        #[trigger] self.mem@[j],
                        address as int,
                        size as int,
                    ),
            decreases n - i,
        {
            let r = &self.mem[i];
            proof {
                assert(region_wf(self.mem@[i as int]));
            }
            if r.begin <= last && address <= r.begin + (r.size - 1) {
                proof {
                    self.lemma_intersect_gives_overlap(i as int, address as int, size as int);
                }
                return Err(UcError::Mapping);
            }
            i += 1;
        }
        proof {
            assert(!self.overlaps_existing(address as int, size as int)) by {
                if self.overlaps_existing(address as int, size as int) {
                    let a = choose|a: int|
                        address <= a < address + size && #[trigger] self.mapped(a);
                    let j = choose|j: int|
                        0 <= j < self.mem@.len() && self.contains_at(j, a);
                    assert(region_intersects(self.mem@[j], address as int, size as int));
                }
            }
        }
        let count = size as usize;
        let mut data: Vec<u8> = Vec::new();
        let mut k: usize = 0;
        while k < count
            invariant
                k <= count,
                data@.len() == k,
                forall|j: int| 0 <= j < k ==> data@[j] == 0,
            decreases count - k,
        {
            data.push(0);
            k += 1;
        }
        let ghost pre = *self;
        let nr = MappedRegion { begin: address, size, perms, data };
        self.mem.push(nr);
        proof {
            let post = *self;
            let len = pre.mem@.len() as int;
            assert(post.mem@ == pre.mem@.push(post.mem@[len]));
            assert(region_wf(post.mem@[len]));
            assert forall|i2: int| 0 <= i2 < len implies regions_disjoint(
                post.mem@[i2],
                post.mem@[len],
            ) by {
                if !regions_disjoint(pre.mem@[i2], post.mem@[len]) {
                    assert(region_intersects(pre.mem@[i2], address as int, size as int));
                    pre.lemma_intersect_gives_overlap(i2, address as int, size as int);
                }
            }
            assert(post.wf());
            assert forall|a: int| address <= a < address + size implies (#[trigger] post.mapped(a))
                && post.perms_at(a) == perms && post.byte_at(a) == 0 by {
                assert(post.contains_at(len, a));
                post.lemma_region_index_is(len, a);
            }
            assert forall|a: int| !(address <= a < address + size) implies (#[trigger] post.mapped(
                a,
            )) == pre.mapped(a) by {
                if post.mapped(a) {
                    let j = choose|j: int| 0 <= j < post.mem@.len() && post.contains_at(j, a);
                    assert(j < len);
                    assert(pre.contains_at(j, a));
                    assert(pre.mapped(a));
                }
                if pre.mapped(a) {
                    let j = choose|j: int| 0 <= j < pre.mem@.len() && pre.contains_at(j, a);
                    assert(post.contains_at(j, a));
                    assert(post.mapped(a));
                }
            }
            assert forall|a: int| !(address <= a < address + size) && (#[trigger] pre.mapped(a))
                implies post.perms_at(a) == pre.perms_at(a) && post.byte_at(a) == pre.byte_at(
                a,
            ) by {
                let j = choose|j: int| 0 <= j < pre.mem@.len() && pre.contains_at(j, a);
                pre.lemma_region_index_is(j, a);
                assert(post.contains_at(j, a));
                post.lemma_region_index_is(j, a);
            }
        }
        Ok(())
    }

    /// Reads the byte stored at one mapped address.
    fn read_byte(&self, a: u64) -> (b: u8)
        requires
            self.wf(),
            self.mapped(a as int),
        ensures
            b == self.byte_at(a as int),
    {
        match self.find_region(a) {
            Some(idx) => {
                let r = &self.mem[idx];
                let dlen = r.data.len();
                proof {
                    assert(region_wf(self.mem@[idx as int]));
                    assert(a - r.begin < dlen);
                }
                r.data[(a - r.begin) as usize]
            },
            None => unreached(),
        }
    }

    /// Overwrites the byte stored at one mapped address, changing nothing
    /// else that can be observed.
    fn write_byte(&mut self, a: u64, b: u8)
        requires
            old(self).wf(),
            old(self).mapped(a as int),
        ensures
            final(self).wf(),
            same_except_mem(*old(self), *final(self)),
            final(self).mapped(a as int),
            final(self).byte_at(a as int) == b,
            forall|x: int| (#[trigger] final(self).mapped(x)) == old(self).mapped(x),
            forall|x: int|
                old(self).mapped(x) ==> (#[trigger] final(self).perms_at(x)) == old(
                    self,
                ).perms_at(x),
            forall|x: int|
                x != a && old(self).mapped(x) ==> (#[trigger] final(self).byte_at(x)) == old(
                    self,
                ).byte_at(x),
    {
        let ghost pre = *self;
        match self.find_region(a) {
            Some(idx) => {
                proof {
                    assert(region_wf(self.mem@[idx as int]));
                }
                let off = {
                    let r = &self.mem[idx];
                    let dlen = r.data.len();
                    proof {
                        assert(a - r.begin < dlen);
                    }
                    (a - r.begin) as usize
                };
                let mut region = self.mem.remove(idx);
                region.data.set(off, b);
                self.mem.insert(idx, region);
                proof {
                    let post = *self;
                    let i = idx as int;
                    assert(post.mem@ =~= pre.mem@.update(i, post.mem@[i]));
                    assert(post.mem@[i].begin == pre.mem@[i].begin);
                    assert(post.mem@[i].size == pre.mem@[i].size);
                    assert(post.mem@[i].perms == pre.mem@[i].perms);
                    assert(post.mem@[i].data@ == pre.mem@[i].data@.update(
                        a - pre.mem@[i].begin,
                        b,
                    ));
                    assert(region_wf(post.mem@[i]));
                    assert forall|i2: int, j2: int|
                        0 <= i2 < post.mem@.len() && 0 <= j2 < post.mem@.len() && i2 != j2
                            implies regions_disjoint(post.mem@[i2], post.mem@[j2]) by {
                        assert(regions_disjoint(pre.mem@[i2], pre.mem@[j2]));
                    }
                    assert(post.wf());
                    assert forall|x: int| (#[trigger] post.mapped(x)) == pre.mapped(x) by {
                        if post.mapped(x) {
                            let j = choose|j: int|
                                0 <= j < post.mem@.len() && post.contains_at(j, x);
                            assert(pre.contains_at(j, x));
                        }
                        if pre.mapped(x) {
                            let j = choose|j: int| 0 <= j < pre.mem@.len() && pre.contains_at(j, x);
                            assert(post.contains_at(j, x));
                        }
                    }
                    assert forall|x: int| pre.mapped(x) implies (#[trigger] post.perms_at(x))
                        == pre.perms_at(x) by {
                        let j = choose|j: int| 0 <= j < pre.mem@.len() && pre.contains_at(j, x);
                        pre.lemma_region_index_is(j, x);
                        assert(post.contains_at(j, x));
                        post.lemma_region_index_is(j, x);
                    }
                    assert forall|x: int| x != a && pre.mapped(x) implies (#[trigger] post.byte_at(
                        x,
                    )) == pre.byte_at(x) by {
                        let j = choose|j: int| 0 <= j < pre.mem@.len() && pre.contains_at(j, x);
                        pre.lemma_region_index_is(j, x);
                        assert(post.contains_at(j, x));
                        post.lemma_region_index_is(j, x);
                    }
                    assert(post.contains_at(i, a as int));
                    post.lemma_region_index_is(i, a as int);
                    pre.lemma_region_index_is(i, a as int);
                }
            },
            None => unreached(),
        }
    }

    /// Reads `size` bytes starting at `address`.  Succeeds exactly when
    /// the whole range is mapped and readable, returning the stored bytes
    /// in address order; otherwise no data comes back at all: an
    /// unmapped-access error when any byte of the range is unmapped, and
    /// a protection error when the range is mapped but some byte lacks
    /// read permission.
    pub fn mem_read(&self, address: u64, size: usize) -> (r: Result<Vec<u8>, UcError>)
        requires
            self.wf(),
        ensures
            r is Ok <==> self.range_mapped(address as int, size as int) && self.range_perm(
                address as int,
                size as int,
                PROT_READ,
            ),
            r is Ok ==> (r->Ok_0)@ == self.mem_bytes(address as int, size as nat),
            r is Err ==> r->Err_0 == (if !self.range_mapped(address as int, size as int) {
                UcError::ReadUnmapped
            } else {
                UcError::ReadProt
            }),
    {
        match self.check_range(address, size, PROT_READ) {
            Some(e) => {
                return Err(e);
            },
            None => {},
        }
        let mut out: Vec<u8> = Vec::new();
        let mut i: usize = 0;
        while i < size
            invariant
                self.wf(),
                i <= size,
                out@.len() == i,
                self.range_mapped(address as int, size as int),
                forall|j: int| 0 <= j < i ==> out@[j] == self.byte_at(address + j),
            decreases size - i,
        {
            proof {
                assert(self.mapped(address + i));
                self.lemma_mapped_in_space(address + i);
            }
            let b = self.read_byte(address + i as u64);
            out.push(b);
            i += 1;
        }
        proof {
            assert(out@ =~= self.mem_bytes(address as int, size as nat));
        }
        Ok(out)
    }

    /// Checks that every byte of `[address, address + size)` is mapped
    /// and carries the permission bits `perm`; reports the first class of
    /// failure, unmapped before permission.  The error codes are the
    /// read-access ones for `PROT_READ` and the write-access ones for
    /// `PROT_WRITE`.
    fn check_range(&self, address: u64, size: usize, perm: u32) -> (r: Option<UcError>)
        requires
            self.wf(),
            perm == PROT_READ || perm == PROT_WRITE,
        ensures
            r is None <==> self.range_mapped(address as int, size as int) && self.range_perm(
                address as int,
                size as int,
                perm,
            ),
            r is Some ==> r->0 == (if !self.range_mapped(address as int, size as int) {
                if perm == PROT_READ {
                    UcError::ReadUnmapped
                } else {
                    UcError::WriteUnmapped
                }
            } else {
                if perm == PROT_READ {
                    UcError::ReadProt
                } else {
                    UcError::WriteProt
                }
            }),
    {
        let mut i: usize = 0;
        while i < size
            invariant
                self.wf(),
                i <= size,
                perm == PROT_READ || perm == PROT_WRITE,
                forall|j: int| 0 <= j < i ==> #[trigger] self.mapped(address + j),
            decreases size - i,
        {
            if (i as u64) > u64::MAX - address {
                proof {
                    if self.mapped(address + i) {
                        self.lemma_mapped_in_space(address + i);
                    }
                }
                return Some(
                    if perm == PROT_READ {
                        UcError::ReadUnmapped
                    } else {
                        UcError::WriteUnmapped
                    },
                );
            }
            match self.find_region(address + i as u64) {
                Some(_) => {},
                None => {
                    return Some(
                        if perm == PROT_READ {
                            UcError::ReadUnmapped
                        } else {
                            UcError::WriteUnmapped
                        },
                    );
                },
            }
            i += 1;
        }
        proof {
            assert forall|a: int| address <= a < address + size implies self.mapped(a) by {
                let j = a - address;
                assert(self.mapped(address + j));
            }
        }
        let mut k: usize = 0;
        while k < size
            invariant
                self.wf(),
                k <= size,
                perm == PROT_READ || perm == PROT_WRITE,
                self.range_mapped(address as int, size as int),
                forall|j: int|
                    0 <= j < k ==> (#[trigger] self.perms_at(address + j)) & perm == perm,
            decreases size - k,
        {
            proof {
                assert(self.mapped(address + k));
                self.lemma_mapped_in_space(address + k);
            }
            match self.find_region(address + k as u64) {
                Some(idx) => {
                    let p = self.mem[idx].perms;
                    if p & perm != perm {
                        proof {
                            assert(self.perms_at(address + k) == p);
                            assert(!self.range_perm(address as int, size as int, perm)) by {
                                assert(address <= address + k < address + size && !(
                                self.perms_at(address + k) & perm == perm));
                            }
                        }
                        return Some(
                            if perm == PROT_READ {
                                UcError::ReadProt
                            } else {
                                UcError::WriteProt
                            },
                        );
                    }
                },
                None => unreached(),
            }
            k += 1;
        }
        proof {
            assert forall|a: int| address <= a < address + size implies self.mapped(a) && (
            #[trigger] self.perms_at(a)) & perm == perm by {
                let j = a - address;
                assert(self.perms_at(address + j) & perm == perm);
            }
        }
        None
    }

    /// Writes the bytes of `bytes` starting at `address`.  Succeeds
    /// exactly when the whole range is mapped and writable, storing the
    /// bytes in address order and changing nothing else; otherwise the
    /// engine is left entirely untouched — never partially written — with
    /// an unmapped-access error when any byte of the range is unmapped,
    /// and a protection error when the range is mapped but some byte
    /// lacks write permission.
    pub fn mem_write(&mut self, address: u64, bytes: &Vec<u8>) -> (r: Result<(), UcError>)
        requires
            old(self).wf(),
        ensures
            final(self).wf(),
            same_except_mem(*old(self), *final(self)),
            r is Ok <==> old(self).range_mapped(address as int, bytes@.len() as int) && old(
                self,
            ).range_perm(address as int, bytes@.len() as int, PROT_WRITE),
            r is Err ==> *final(self) == *old(self),
            r is Err ==> r->Err_0 == (if !old(self).range_mapped(
                address as int,
                bytes@.len() as int,
            ) {
                UcError::WriteUnmapped
            } else {
                UcError::WriteProt
            }),
            r is Ok ==> mem_write_ok(*old(self), *final(self), address, bytes@),
    {
        let size = bytes.len();
        match self.check_range(address, size, PROT_WRITE) {
            Some(e) => {
                return Err(e);
            },
            None => {},
        }
        let ghost pre = *self;
        let mut i: usize = 0;
        while i < size
            invariant
                self.wf(),
                i <= size,
                size == bytes@.len(),
                same_except_mem(pre, *self),
                pre.wf(),
                pre.range_mapped(address as int, size as int),
                pre.range_perm(address as int, size as int, PROT_WRITE),
                forall|x: int| (#[trigger] self.mapped(x)) == pre.mapped(x),
                forall|x: int|
                    pre.mapped(x) ==> (#[trigger] self.perms_at(x)) == pre.perms_at(x),
                forall|j: int| 0 <= j < i ==> self.byte_at(address + j) == bytes@[j],
                forall|x: int|
                    pre.mapped(x) && !(address <= x < address + i) ==> (#[trigger] self.byte_at(x))
                        == pre.byte_at(x),
            decreases size - i,
        {
            proof {
                assert(pre.mapped(address + i));
                self.lemma_mapped_in_space(address + i);
            }
            self.write_byte(address + i as u64, bytes[i]);
            i += 1;
        }
        Ok(())
    }
}

/// What a successful unmapping leaves behind: the range is gone and no
/// other address changed in any observable way.
pub open spec fn mem_unmap_ok(pre: Engine, post: Engine, address: u64, size: u64) -> bool {
    &&& forall|a: int| address <= a < address + size ==> !(#[trigger] post.mapped(a))
    &&& forall|a: int|
        !(address <= a < address + size) ==> (#[trigger] post.mapped(a)) == pre.mapped(a)
    &&& forall|a: int|
        !(address <= a < address + size) && pre.mapped(a) ==> (#[trigger] post.perms_at(a))
            == pre.perms_at(a) && post.byte_at(a) == pre.byte_at(a)
}

/// What a successful write leaves behind: the written range holds the
/// given bytes, and no other address changed in any observable way.
pub open spec fn mem_write_ok(pre: Engine, post: Engine, address: u64, data: Seq<u8>) -> bool {
    &&& forall|x: int| (#[trigger] post.mapped(x)) == pre.mapped(x)
    &&& forall|x: int| pre.mapped(x) ==> (#[trigger] post.perms_at(x)) == pre.perms_at(x)
    &&& forall|j: int| 0 <= j < data.len() ==> (#[trigger] post.byte_at(address + j)) == data[j]
    &&& forall|x: int|
        pre.mapped(x) && !(address <= x < address + data.len()) ==> (#[trigger] post.byte_at(x))
            == pre.byte_at(x)
}

impl Engine {
    /// Region `i` is exactly the range `[address, address + size)`.
    pub open spec fn exact_region_at(self, i: int, address: u64, size: u64) -> bool {
        self.mem@[i].begin == address && self.mem@[i].size == size
    }

    /// Some region is exactly the range `[address, address + size)`.
    pub open spec fn has_exact_region(self, address: u64, size: u64) -> bool {
        exists|i: int| 0 <= i < self.mem@.len() && self.exact_region_at(i, address, size)
    }

    /// Finds the index of the region that is exactly `[address, address +
    /// size)`, if any.
    fn find_exact_region(&self, address: u64, size: u64) -> (r: Option<usize>)
        requires
            self.wf(),
        ensures
            match r {
                Some(i) => i < self.mem@.len() && self.exact_region_at(i as int, address, size),
                None => !self.has_exact_region(address, size),
            },
    {
        let n = self.mem.len();
        let mut i: usize = 0;
        while i < n
            invariant
                n == self.mem@.len(),
                i <= n,
                forall|j: int| 0 <= j < i ==> !self.exact_region_at(j, address, size),
            decreases n - i,
        {
            let r = &self.mem[i];
            if r.begin == address && r.size == size {
                return Some(i);
            }
            i += 1;
        }
        None
    }

    /// Unmaps the region that was mapped as exactly `[address, address +
    /// size)`.  Succeeds exactly when such a region exists; afterwards no
    /// address of the range is mapped and nothing else changed.
    /// Unmapping a range that no single mapping covers exactly is a
    /// mapping error and changes nothing.
    pub fn mem_unmap(&mut self, address: u64, size: u64) -> (r: Result<(), UcError>)
        requires
            old(self).wf(),
        ensures
            final(self).wf(),
            same_except_mem(*old(self), *final(self)),
            r is Ok <==> old(self).has_exact_region(address, size),
            r is Err ==> r->Err_0 == UcError::Mapping && *final(self) == *old(self),
            r is Ok ==> mem_unmap_ok(*old(self), *final(self), address, size),
    {
        let ghost pre = *self;
        match self.find_exact_region(address, size) {
            Some(idx) => {
                self.mem.remove(idx);
                proof {
                    let post = *self;
                    let i = idx as int;
                    let len = pre.mem@.len() as int;
                    assert(post.mem@ == pre.mem@.remove(i));
                    assert(region_wf(pre.mem@[i]));
                    assert forall|j: int| 0 <= j < post.mem@.len() implies post.mem@[j]
                        == pre.mem@[if j < i {
                        j
                    } else {
                        j + 1
                    }] by {}
                    assert(post.wf());
                    assert forall|a: int| address <= a < address + size implies !(
                    #[trigger] post.mapped(a)) by {
                        if post.mapped(a) {
                            let j = choose|j: int|
                                0 <= j < post.mem@.len() && post.contains_at(j, a);
                            let j2 = if j < i {
                                j
                            } else {
                                j + 1
                            };
                            assert(pre.contains_at(j2, a));
                            assert(pre.contains_at(i, a));
                            pre.lemma_region_unique(j2, i, a);
                        }
                    }
                    assert forall|a: int| !(address <= a < address + size) implies (
                    #[trigger] post.mapped(a)) == pre.mapped(a) by {
                        if post.mapped(a) {
                            let j = choose|j: int|
                                0 <= j < post.mem@.len() && post.contains_at(j, a);
                            let j2 = if j < i {
                                j
                            } else {
                                j + 1
                            };
                            assert(pre.contains_at(j2, a));
                            assert(pre.mapped(a));
                        }
                        if pre.mapped(a) {
                            let j2 = choose|j2: int|
                                0 <= j2 < pre.mem@.len() && pre.contains_at(j2, a);
                            assert(j2 != i) by {
                                if j2 == i {
                                    assert(address <= a < address + size);
                                }
                            }
                            let j = if j2 < i {
                                j2
                            } else {
                                j2 - 1
                            };
                            assert(post.contains_at(j, a));
                            assert(post.mapped(a));
                        }
                    }
                    assert forall|a: int|
                        !(address <= a < address + size) && pre.mapped(a) implies (
                    #[trigger] post.perms_at(a)) == pre.perms_at(a) && post.byte_at(a)
                        == pre.byte_at(a) by {
                        let j2 = choose|j2: int|
                            0 <= j2 < pre.mem@.len() && pre.contains_at(j2, a);
                        pre.lemma_region_index_is(j2, a);
                        assert(j2 != i) by {
                            if j2 == i {
                                assert(address <= a < address + size);
                            }
                        }
                        let j = if j2 < i {
                            j2
                        } else {
                            j2 - 1
                        };
                        assert(post.contains_at(j, a));
                        post.lemma_region_index_is(j, a);
                        assert(post.mem@[j] == pre.mem@[j2]);
                    }
                    assert(mem_unmap_ok(pre, post, address, size));
                }
                Ok(())
            },
            None => Err(UcError::Mapping),
        }
    }

    /// Changes the permission bits of the region that was mapped as
    /// exactly `[address, address + size)`.  Fails with an
    /// invalid-argument error on stray permission bits and with a mapping
    /// error when no single mapping covers the range exactly; on failure
    /// nothing changes.  On success the range keeps its bytes and gets
    /// the new permissions; nothing else changes.
    #[verifier::spinoff_prover]
    #[verifier::rlimit(50)]
    pub fn mem_protect(&mut self, address: u64, size: u64, perms: u32) -> (r: Result<(), UcError>)
        requires
            old(self).wf(),
        ensures
            final(self).wf(),
            same_except_mem(*old(self), *final(self)),
            r is Ok <==> perms <= PROT_ALL && old(self).has_exact_region(address, size),
            r is Err ==> *final(self) == *old(self),
            r is Err ==> r->Err_0 == (if perms > PROT_ALL {
                UcError::Arg
            } else {
                UcError::Mapping
            }),
            r is Ok ==> (forall|a: int|
                (#[trigger] final(self).mapped(a)) == old(self).mapped(a)),
            r is Ok ==> (forall|a: int|
                address <= a < address + size ==> (#[trigger] final(self).perms_at(a)) == perms),
            r is Ok ==> (forall|a: int|
                old(self).mapped(a) ==> (#[trigger] final(self).byte_at(a)) == old(self).byte_at(
                    a,
                )),
            r is Ok ==> (forall|a: int|
                old(self).mapped(a) && !(address <= a < address + size) ==> (
                #[trigger] final(self).perms_at(a)) == old(self).perms_at(a)),
    {
        if perms > PROT_ALL {
            return Err(UcError::Arg);
        }
        let ghost pre = *self;
        match self.find_exact_region(address, size) {
            Some(idx) => {
                let mut region = self.mem.remove(idx);
                region.perms = perms;
                self.mem.insert(idx, region);
                proof {
                    let post = *self;
                    let i = idx as int;
                    assert(post.mem@ =~= pre.mem@.update(i, post.mem@[i]));
                    assert(post.mem@[i].begin == pre.mem@[i].begin);
                    assert(post.mem@[i].size == pre.mem@[i].size);
                    assert(post.mem@[i].perms == perms);
                    assert(post.mem@[i].data@ == pre.mem@[i].data@);
                    assert(region_wf(pre.mem@[i]));
                    assert(region_wf(post.mem@[i]));
                    assert forall|i2: int, j2: int|
                        0 <= i2 < post.mem@.len() && 0 <= j2 < post.mem@.len() && i2 != j2
                            implies regions_disjoint(post.mem@[i2], post.mem@[j2]) by {
                        assert(regions_disjoint(pre.mem@[i2], pre.mem@[j2]));
                    }
                    assert(post.wf());
                    assert forall|a: int| (#[trigger] post.mapped(a)) == pre.mapped(a) by {
                        if post.mapped(a) {
                            let j = choose|j: int|
                                0 <= j < post.mem@.len() && post.contains_at(j, a);
                            assert(pre.contains_at(j, a));
                        }
                        if pre.mapped(a) {
                            let j = choose|j: int| 0 <= j < pre.mem@.len() && pre.contains_at(j, a);
                            assert(post.contains_at(j, a));
                        }
                    }
                    assert forall|a: int| address <= a < address + size implies (
                    #[trigger] post.perms_at(a)) == perms by {
                        assert(pre.contains_at(i, a));
                        assert(post.contains_at(i, a));
                        post.lemma_region_index_is(i, a);
                    }
                    assert forall|a: int| pre.mapped(a) implies (#[trigger] post.byte_at(a))
                        == pre.byte_at(a) by {
                        let j = choose|j: int| 0 <= j < pre.mem@.len() && pre.contains_at(j, a);
                        pre.lemma_region_index_is(j, a);
                        assert(post.contains_at(j, a));
                        post.lemma_region_index_is(j, a);
                    }
                    assert forall|a: int|
                        pre.mapped(a) && !(address <= a < address + size) implies (
                    #[trigger] post.perms_at(a)) == pre.perms_at(a) by {
                        let j = choose|j: int| 0 <= j < pre.mem@.len() && pre.contains_at(j, a);
                        pre.lemma_region_index_is(j, a);
                        assert(post.contains_at(j, a));
                        post.lemma_region_index_is(j, a);
                        assert(j != i) by {
                            if j == i {
                                assert(address <= a < address + size);
                            }
                        }
                    }
                }
                Ok(())
            },
            None => Err(UcError::Mapping),
        }
    }

    /// Enumerates the mapped regions as descriptors: first address, last
    /// address (inclusive), permission bits — one per region, in order.
    pub fn mem_regions(&self) -> (r: Vec<MemRegion>)
        requires
            self.wf(),
        ensures
            r@.len() == self.mem@.len(),
            forall|i: int|
                0 <= i < r@.len() ==> r@[i] == (MemRegion {
                    begin: self.mem@[i].begin,
                    end: (self.mem@[i].begin + self.mem@[i].size - 1) as u64,
                    perms: self.mem@[i].perms,
                }),
    {
        let n = self.mem.len();
        let mut out: Vec<MemRegion> = Vec::new();
        let mut i: usize = 0;
        while i < n
            invariant
                self.wf(),
                n == self.mem@.len(),
                i <= n,
                out@.len() == i,
                forall|j: int|
                    0 <= j < i ==> out@[j] == (MemRegion {
                        begin: self.mem@[j].begin,
                        end: (self.mem@[j].begin + self.mem@[j].size - 1) as u64,
                        perms: self.mem@[j].perms,
                    }),
            decreases n - i,
        {
            let r = &self.mem[i];
            proof {
                assert(region_wf(self.mem@[i as int]));
            }
            out.push(MemRegion { begin: r.begin, end: r.begin + (r.size - 1), perms: r.perms });
            i += 1;
        }
        out
    }
}

/// Hook `h` is interested in an event of category `kind` at address
/// `addr`: the category matches and the address falls in the hook's
/// filter range (`begin > end` meaning every address).
pub open spec fn hook_matches(h: HookEntry, kind: HookType, addr: u64) -> bool {
    h.kind == kind && (h.begin > h.end || (h.begin <= addr && addr <= h.end))
}

/// What a successful installation leaves behind: one new entry with the
/// returned handle appended to the table, and nothing else changed.
pub open spec fn hook_add_ok(
    pre: Engine,
    post: Engine,
    kind: HookType,
    begin: u64,
    end: u64,
    id: u64,
) -> bool {
    &&& id == pre.next_hook
    &&& post.next_hook == pre.next_hook + 1
    &&& post.hooks@ == pre.hooks@.push(HookEntry { id, kind, begin, end })
    &&& post.handle == pre.handle
    &&& post.arch == pre.arch
    &&& post.mode == pre.mode
    &&& post.regs@ == pre.regs@
    &&& post.mem@ == pre.mem@
    &&& post.stop_requested == pre.stop_requested
}

/// What a successful removal leaves behind: the entry with the removed
/// handle is gone, every other entry survives in order, and nothing else
/// changed.
pub open spec fn hook_del_ok(pre: Engine, post: Engine, id: u64) -> bool {
    &&& !post.hook_installed(id)
    &&& exists|k: int|
        0 <= k < pre.hooks@.len() && (#[trigger] pre.hooks@[k]).id == id && post.hooks@
            == pre.hooks@.remove(k)
    &&& post.next_hook == pre.next_hook
    &&& post.handle == pre.handle
    &&& post.arch == pre.arch
    &&& post.mode == pre.mode
    &&& post.regs@ == pre.regs@
    &&& post.mem@ == pre.mem@
    &&& post.stop_requested == pre.stop_requested
}

/// The handles of the hooks in `hooks` interested in an event of
/// category `kind` at `addr`, in table order.
pub open spec fn matching_ids(hooks: Seq<HookEntry>, kind: HookType, addr: u64) -> Seq<u64>
    decreases hooks.len(),
{
    if hooks.len() == 0 {
        Seq::empty()
    } else {
        let rest = matching_ids(hooks.drop_last(), kind, addr);
        if hook_matches(hooks.last(), kind, addr) {
            rest.push(hooks.last().id)
        } else {
            rest
        }
    }
}

/// What event dispatch reports: `fired` holds the handle of every
/// installed hook interested in the event — each exactly once, in
/// installation order.
pub open spec fn dispatch_ok(e: Engine, kind: HookType, addr: u64, fired: Seq<u64>) -> bool {
    &&& fired == matching_ids(e.hooks@, kind, addr)
    &&& forall|id: u64|
        fired.contains(id) <==> (exists|i: int|
            0 <= i < e.hooks@.len() && (#[trigger] e.hooks@[i]).id == id && hook_matches(
                e.hooks@[i],
                kind,
                addr,
            ))
    &&& fired.no_duplicates()
}

impl Engine {
    /// Installs a hook of category `kind` filtering on the address range
    /// `[begin, end]` (`begin > end` to hear every address) and hands
    /// back its fresh handle.  The new entry joins the table; nothing
    /// else changes.
    pub fn hook_add(&mut self, kind: HookType, begin: u64, end: u64) -> (id: u64)
        requires
            old(self).wf(),
            old(self).next_hook < u64::MAX,
        ensures
            final(self).wf(),
            hook_add_ok(*old(self), *final(self), kind, begin, end, id),
    {
        let id = self.next_hook;
        self.hooks.push(HookEntry { id, kind, begin, end });
        self.next_hook = self.next_hook + 1;
        proof {
            assert(self.hooks@ == old(self).hooks@.push(
                HookEntry { id, kind, begin, end },
            ));
            assert forall|i: int, j: int|
                0 <= i < self.hooks@.len() && 0 <= j < self.hooks@.len() && i != j implies (
            self.hooks@[i]).id != (self.hooks@[j]).id by {
                if i < self.hooks@.len() - 1 && j < self.hooks@.len() - 1 {
                    assert((old(self).hooks@[i]).id != (old(self).hooks@[j]).id);
                }
            }
        }
        id
    }

    /// Removes the hook with handle `hook`.  Succeeds exactly when such a
    /// hook is installed; afterwards the engine will never again report
    /// it for any event.  An unknown handle is an invalid-hook error and
    /// changes nothing.
    pub fn hook_del(&mut self, hook: u64) -> (r: Result<(), UcError>)
        requires
            old(self).wf(),
        ensures
            final(self).wf(),
            r is Ok <==> old(self).hook_installed(hook),
            r is Err ==> r->Err_0 == UcError::Hook && *final(self) == *old(self),
            r is Ok ==> hook_del_ok(*old(self), *final(self), hook),
    {
        let ghost pre = *self;
        let n = self.hooks.len();
        let mut i: usize = 0;
        while i < n
            invariant
                self.wf(),
                pre == *old(self),
                *self == pre,
                n == self.hooks@.len(),
                i <= n,
                forall|j: int| 0 <= j < i ==> (#[trigger] self.hooks@[j]).id != hook,
            decreases n - i,
        {
            if self.hooks[i].id == hook {
                self.hooks.remove(i);
                proof {
                    let post = *self;
                    let k = i as int;
                    assert(post.hooks@ == pre.hooks@.remove(k));
                    assert forall|j: int| 0 <= j < post.hooks@.len() implies post.hooks@[j]
                        == pre.hooks@[if j < k {
                        j
                    } else {
                        j + 1
                    }] by {}
                    assert(post.wf());
                    assert(!post.hook_installed(hook)) by {
                        if post.hook_installed(hook) {
                            let j = choose|j: int|
                                0 <= j < post.hooks@.len() && (#[trigger] post.hooks@[j]).id
                                    == hook;
                            let j2 = if j < k {
                                j
                            } else {
                                j + 1
                            };
                            assert((pre.hooks@[j2]).id == hook && (pre.hooks@[k]).id == hook);
                        }
                    }
                    assert(hook_del_ok(pre, post, hook));
                }
                return Ok(());
            }
            i += 1;
        }
        proof {
            assert(!pre.hook_installed(hook)) by {
                if pre.hook_installed(hook) {
                    let j = choose|j: int|
                        0 <= j < pre.hooks@.len() && (#[trigger] pre.hooks@[j]).id == hook;
                }
            }
        }
        Err(UcError::Hook)
    }

    /// Reports which installed hooks an event of category `kind` at
    /// address `addr` reaches: the handle of every interested hook, each
    /// exactly once.
    pub fn hooks_for_event(&self, kind: HookType, addr: u64) -> (fired: Vec<u64>)
        requires
            self.wf(),
        ensures
            dispatch_ok(*self, kind, addr, fired@),
    {
        let n = self.hooks.len();
        let mut fired: Vec<u64> = Vec::new();
        let mut i: usize = 0;
        while i < n
            invariant
                self.wf(),
                n == self.hooks@.len(),
                i <= n,
                fired@ == matching_ids(self.hooks@.take(i as int), kind, addr),
                forall|id: u64|
                    fired@.contains(id) <==> (exists|j: int|
                        0 <= j < i && (#[trigger] self.hooks@[j]).id == id && hook_matches(
                            self.hooks@[j],
                            kind,
                            addr,
                        )),
                fired@.no_duplicates(),
            decreases n - i,
        {
            proof {
                let taken = self.hooks@.take(i as int + 1);
                assert(taken.drop_last() =~= self.hooks@.take(i as int));
                assert(taken.last() == self.hooks@[i as int]);
            }
            let h = &self.hooks[i];
            let matches_kind = hook_type_eq(h.kind, kind);
            if matches_kind && (h.begin > h.end || (h.begin <= addr && addr <= h.end)) {
                let ghost hid = (self.hooks@[i as int]).id;
                proof {
                    assert(!fired@.contains(hid)) by {
                        if fired@.contains(hid) {
                            let j = choose|j: int|
                                0 <= j < i && (#[trigger] self.hooks@[j]).id == hid
                                    && hook_matches(self.hooks@[j], kind, addr);
                        }
                    }
                }
                let ghost fired0 = fired@;
                fired.push(h.id);
                proof {
                    assert(fired@ == fired0.push(hid));
                    assert forall|id: u64| fired@.contains(id) implies (exists|j: int|
                        0 <= j < i + 1 && (#[trigger] self.hooks@[j]).id == id && hook_matches(
                            self.hooks@[j],
                            kind,
                            addr,
                        )) by {
                        let k = choose|k: int| 0 <= k < fired@.len() && fired@[k] == id;
                        if k < fired0.len() {
                            assert(fired0[k] == id);
                            assert(fired0.contains(id));
                        } else {
                            assert((self.hooks@[i as int]).id == id);
                        }
                    }
                    assert forall|id: u64|
                        (exists|j: int|
                            0 <= j < i + 1 && (#[trigger] self.hooks@[j]).id == id && hook_matches(
                                self.hooks@[j],
                                kind,
                                addr,
                            )) implies fired@.contains(id) by {
                        let j = choose|j: int|
                            0 <= j < i + 1 && (#[trigger] self.hooks@[j]).id == id && hook_matches(
                                self.hooks@[j],
                                kind,
                                addr,
                            );
                        if j < i {
                            assert(fired0.contains(id));
                            let k = choose|k: int| 0 <= k < fired0.len() && fired0[k] == id;
                            assert(fired@[k] == id);
                        } else {
                            assert(fired@[fired@.len() - 1] == id);
                        }
                    }
                    assert(fired@.no_duplicates()) by {
                        assert forall|p: int, q: int|
                            0 <= p < fired@.len() && 0 <= q < fired@.len() && p != q implies fired@[p]
                            != fired@[q] by {
                            if p < fired0.len() && q < fired0.len() {
                                assert(fired0[p] != fired0[q]);
                            } else if p < fired0.len() {
                                if fired@[p] == hid {
                                    assert(fired0[p] == hid);
                                    assert(fired0.contains(hid));
                                }
                            } else if q < fired0.len() {
                                if fired@[q] == hid {
                                    assert(fired0[q] == hid);
                                    assert(fired0.contains(hid));
                                }
                            }
                        }
                    }
                }
            } else {
                proof {
                    assert forall|id: u64| fired@.contains(id) implies (exists|j: int|
                        0 <= j < i + 1 && (#[trigger] self.hooks@[j]).id == id && hook_matches(
                            self.hooks@[j],
                            kind,
                            addr,
                        )) by {}
                    assert forall|id: u64|
                        (exists|j: int|
                            0 <= j < i + 1 && (#[trigger] self.hooks@[j]).id == id && hook_matches(
                                self.hooks@[j],
                                kind,
                                addr,
                            )) implies fired@.contains(id) by {
                        let j = choose|j: int|
                            0 <= j < i + 1 && (#[trigger] self.hooks@[j]).id == id && hook_matches(
                                self.hooks@[j],
                                kind,
                                addr,
                            );
                        assert(j < i || !hook_matches(self.hooks@[i as int], kind, addr));
                    }
                }
            }
            i += 1;
        }
        proof {
            assert(self.hooks@.take(n as int) =~= self.hooks@);
        }
        fired
    }
}

/// Category equality, written out so verified code does not lean on a
/// derived comparison.
pub fn hook_type_eq(a: HookType, b: HookType) -> (r: bool)
    ensures
        r == (a == b),
{
    match (a, b) {
        (HookType::Intr, HookType::Intr) => true,
        (HookType::Insn, HookType::Insn) => true,
        (HookType::Code, HookType::Code) => true,
        (HookType::Block, HookType::Block) => true,
        (HookType::Mem, HookType::Mem) => true,
        (HookType::InsnInvalid, HookType::InsnInvalid) => true,
        (HookType::MmioRead, HookType::MmioRead) => true,
        (HookType::MmioWrite, HookType::MmioWrite) => true,
        (HookType::TlbLookup, HookType::TlbLookup) => true,
        _ => false,
    }
}

/// A hook just installed for a matching category and range is reported
/// for the event — after every hook that was already installed, and,
/// handles never repeating, exactly once.
pub proof fn lemma_new_hook_fires_exactly_once(
    pre: Engine,
    post: Engine,
    kind: HookType,
    begin: u64,
    end: u64,
    id: u64,
    addr: u64,
    fired: Seq<u64>,
)
    requires
        pre.wf(),
        hook_add_ok(pre, post, kind, begin, end, id),
        begin > end || (begin <= addr && addr <= end),
        dispatch_ok(post, kind, addr, fired),
    ensures
        fired.contains(id),
        fired == matching_ids(pre.hooks@, kind, addr).push(id),
        forall|i: int, j: int|
            0 <= i < fired.len() && 0 <= j < fired.len() && fired[i] == id && fired[j] == id ==> i
                == j,
{
    let k = post.hooks@.len() - 1;
    assert((post.hooks@[k]).id == id && hook_matches(post.hooks@[k], kind, addr));
    assert(post.hooks@.drop_last() =~= pre.hooks@);
    assert(post.hooks@.last() == post.hooks@[k]);
}

/// After a hook is removed, no event of any category at any address
/// reports it again.
pub proof fn lemma_removed_hook_never_fires(
    pre: Engine,
    post: Engine,
    id: u64,
    kind: HookType,
    addr: u64,
    fired: Seq<u64>,
)
    requires
        hook_del_ok(pre, post, id),
        dispatch_ok(post, kind, addr, fired),
    ensures
        !fired.contains(id),
{
    if fired.contains(id) {
        let i = choose|i: int|
            0 <= i < post.hooks@.len() && (#[trigger] post.hooks@[i]).id == id && hook_matches(
                post.hooks@[i],
                kind,
                addr,
            );
        assert(post.hook_installed(id));
    }
}

/// Immediately after a region is mapped with read permission, every
/// subrange of it — any offset, any size inside the region — is readable
/// and reads back zero-filled, byte for byte.
pub proof fn lemma_fresh_mapping_reads_zero(
    pre: Engine,
    post: Engine,
    address: u64,
    size: u64,
    perms: u32,
    offset: int,
    n: nat,
)
    requires
        mem_map_ok(pre, post, address, size, perms),
        perms & PROT_READ == PROT_READ,
        0 <= offset,
        offset + n <= size,
    ensures
        post.range_mapped(address + offset, n as int),
        post.range_perm(address + offset, n as int, PROT_READ),
        post.mem_bytes(address + offset, n) =~= Seq::new(n, |i: int| 0u8),
{
    assert forall|a: int| address + offset <= a < address + offset + n implies post.mapped(a) && (
    #[trigger] post.perms_at(a)) & PROT_READ == PROT_READ by {
        assert(address <= a < address + size);
        assert(post.mapped(a));
    }
    assert forall|j: int| 0 <= j < n implies #[trigger] post.byte_at(address + offset + j)
        == 0u8 by {
        assert(address <= address + offset + j < address + size);
        assert(post.mapped(address + offset + j));
    }
}

/// Writing bytes to a range mapped readable and writable, then reading
/// the same range, hands the same bytes back: the written range holds
/// `data` byte for byte, and a read of it succeeds.
pub proof fn lemma_write_read_round_trip(pre: Engine, post: Engine, address: u64, data: Seq<u8>)
    requires
        pre.wf(),
        pre.range_mapped(address as int, data.len() as int),
        pre.range_perm(address as int, data.len() as int, PROT_READ),
        mem_write_ok(pre, post, address, data),
    ensures
        post.range_mapped(address as int, data.len() as int),
        post.range_perm(address as int, data.len() as int, PROT_READ),
        post.mem_bytes(address as int, data.len()) == data,
{
    assert forall|a: int| address <= a < address + data.len() implies post.mapped(a) && (
    #[trigger] post.perms_at(a)) & PROT_READ == PROT_READ by {
        assert(pre.mapped(a) && pre.perms_at(a) & PROT_READ == PROT_READ);
    }
    assert forall|j: int| 0 <= j < data.len() implies post.mem_bytes(address as int, data.len())[j]
        == data[j] by {
        assert(post.byte_at(address + j) == data[j]);
    }
    assert(post.mem_bytes(address as int, data.len()) =~= data);
}

/// Everything but the memory map is the same in `pre` and `post`.
pub open spec fn same_except_mem(pre: Engine, post: Engine) -> bool {
    &&& post.handle == pre.handle
    &&& post.arch == pre.arch
    &&& post.mode == pre.mode
    &&& post.regs@ == pre.regs@
    &&& post.hooks@ == pre.hooks@
    &&& post.next_hook == pre.next_hook
    &&& post.stop_requested == pre.stop_requested
}

/// Everything but the register file is the same in `pre` and `post`.
pub open spec fn same_except_regs(pre: Engine, post: Engine) -> bool {
    &&& post.handle == pre.handle
    &&& post.arch == pre.arch
    &&& post.mode == pre.mode
    &&& post.regs@.len() == pre.regs@.len()
    &&& post.mem@ == pre.mem@
    &&& post.hooks@ == pre.hooks@
    &&& post.next_hook == pre.next_hook
    &&& post.stop_requested == pre.stop_requested
}

} // verus!
