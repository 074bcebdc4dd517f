//! Value types shared by the engine model and the callback bridge:
//! architecture and mode selectors, hook categories, memory-access kinds,
//! permission bits, region descriptors, translation entries, and the
//! closed error taxonomy the native layer reports.

use vstd::prelude::*;
use vstd::string::StringExecFns;

verus! {

/// Read permission bit for a mapped region.
pub const PROT_READ: u32 = 1;
/// Write permission bit for a mapped region.
pub const PROT_WRITE: u32 = 2;
/// Execute permission bit for a mapped region.
pub const PROT_EXEC: u32 = 4;
/// All three permission bits together.
pub const PROT_ALL: u32 = 7;

/// Architecture selector handed to `Engine::open`.
#[derive(Clone, Copy, Debug, PartialEq, Eq, Structural)]
pub enum Arch {
    Arm,
    Arm64,
    Mips,
    X86,
    Ppc,
    Sparc,
    M68k,
    Riscv,
    S390x,
    Tricore,
}

/// Hook categories an engine dispatches events for.  Each category has a
/// matching proxy in the bridge module.
#[derive(Clone, Copy, Debug, PartialEq, Eq, Structural)]
pub enum HookType {
    /// Interrupt / exception hook.
    Intr,
    /// Particular-instruction hook (port in/out, syscall, sysenter).
    Insn,
    /// Per-instruction code hook.
    Code,
    /// Per-basic-block hook.
    Block,
    /// Memory-access hook (valid and faulting accesses alike).
    Mem,
    /// Invalid-instruction hook.
    InsnInvalid,
    /// Memory-mapped I/O read hook.
    MmioRead,
    /// Memory-mapped I/O write hook.
    MmioWrite,
    /// TLB-lookup hook overriding the engine's address translation.
    TlbLookup,
}

/// The kind of memory access a memory hook or TLB lookup is told about.
#[derive(Clone, Copy, Debug, PartialEq, Eq, Structural)]
pub enum MemType {
    Read,
    Write,
    Fetch,
    ReadUnmapped,
    WriteUnmapped,
    FetchUnmapped,
    WriteProt,
    ReadProt,
    FetchProt,
    ReadAfter,
}

/// Descriptor of one mapped region, as region enumeration reports it:
/// first address, last address (inclusive) and permission bits.
#[derive(Clone, Copy, Debug, PartialEq, Eq, Structural)]
pub struct MemRegion {
    pub begin: u64,
    pub end: u64,
    pub perms: u32,
}

/// One virtual-to-physical translation, as a TLB-lookup hook returns it
/// and as the bridge writes it through the native output pointer.
#[derive(Clone, Copy, Debug, PartialEq, Eq, Structural)]
pub struct TlbEntry {
    pub paddr: u64,
    pub perms: u32,
}

/// Selectors for the generic query operation.
#[derive(Clone, Copy, Debug, PartialEq, Eq, Structural)]
pub enum Query {
    /// The mode bits the engine was opened with.
    Mode,
    /// The page size the engine maps memory in.
    PageSize,
    /// The numeric identifier of the engine's architecture.
    Arch,
    /// The timeout of the current emulation, which this layer does not
    /// track.
    Timeout,
}

/// The closed taxonomy of failures the native layer reports.  Success is
/// not a member: the model's operations return `Result` and use this type
/// only on the error side.
#[derive(Clone, Copy, Debug, PartialEq, Eq, Structural)]
pub enum UcError {
    /// Out of memory.
    NoMem,
    /// Unsupported architecture.
    Arch,
    /// Invalid handle.
    Handle,
    /// Invalid or unsupported mode.
    Mode,
    /// Unsupported version.
    Version,
    /// Read from unmapped memory.
    ReadUnmapped,
    /// Write to unmapped memory.
    WriteUnmapped,
    /// Fetch from unmapped memory.
    FetchUnmapped,
    /// Invalid hook handle.
    Hook,
    /// Invalid instruction.
    InsnInvalid,
    /// Invalid memory mapping.
    Mapping,
    /// Write to write-protected memory.
    WriteProt,
    /// Read from read-protected memory.
    ReadProt,
    /// Fetch from non-executable memory.
    FetchProt,
    /// Invalid argument.
    Arg,
    /// Unaligned read.
    ReadUnaligned,
    /// Unaligned write.
    WriteUnaligned,
    /// Unaligned fetch.
    FetchUnaligned,
    /// A hook for this event already exists.
    HookExist,
    /// Insufficient resources.
    Resource,
    /// Unhandled CPU exception.
    Exception,
}

impl UcError {
    /// The description the native layer's error-string lookup gives each
    /// failure.
    pub open spec fn message_of(e: UcError) -> Seq<char> {
        match e {
            UcError::NoMem => "no memory available"@,
            UcError::Arch => "unsupported architecture"@,
            UcError::Handle => "invalid handle"@,
            UcError::Mode => "invalid mode"@,
            UcError::Version => "different API version between core and binding"@,
            UcError::ReadUnmapped => "invalid memory read"@,
            UcError::WriteUnmapped => "invalid memory write"@,
            UcError::FetchUnmapped => "invalid memory fetch"@,
            UcError::Hook => "invalid hook type"@,
            UcError::InsnInvalid => "invalid instruction"@,
            UcError::Mapping => "invalid memory mapping"@,
            UcError::WriteProt => "write to write-protected memory"@,
            UcError::ReadProt => "read from non-readable memory"@,
            UcError::FetchProt => "fetch from non-executable memory"@,
            UcError::Arg => "invalid argument"@,
            UcError::ReadUnaligned => "read from unaligned memory"@,
            UcError::WriteUnaligned => "write to unaligned memory"@,
            UcError::FetchUnaligned => "fetch from unaligned memory"@,
            UcError::HookExist => "hook for this event already exists"@,
            UcError::Resource => "insufficient resource"@,
            UcError::Exception => "unhandled CPU exception"@,
        }
    }

    /// Describes the failure, as the native layer's error-string lookup
    /// does.
    pub fn message(&self) -> (r: String)
        ensures
            r@ == UcError::message_of(*self),
    {
        match self {
            UcError::NoMem => String::from_str("no memory available"),
            UcError::Arch => String::from_str("unsupported architecture"),
            UcError::Handle => String::from_str("invalid handle"),
            UcError::Mode => String::from_str("invalid mode"),
            UcError::Version => String::from_str(
                "different API version between core and binding",
            ),
            UcError::ReadUnmapped => String::from_str("invalid memory read"),
            UcError::WriteUnmapped => String::from_str("invalid memory write"),
            UcError::FetchUnmapped => String::from_str("invalid memory fetch"),
            UcError::Hook => String::from_str("invalid hook type"),
            UcError::InsnInvalid => String::from_str("invalid instruction"),
            UcError::Mapping => String::from_str("invalid memory mapping"),
            UcError::WriteProt => String::from_str("write to write-protected memory"),
            UcError::ReadProt => String::from_str("read from non-readable memory"),
            UcError::FetchProt => String::from_str("fetch from non-executable memory"),
            UcError::Arg => String::from_str("invalid argument"),
            UcError::ReadUnaligned => String::from_str("read from unaligned memory"),
            UcError::WriteUnaligned => String::from_str("write to unaligned memory"),
            UcError::FetchUnaligned => String::from_str("fetch from unaligned memory"),
            UcError::HookExist => String::from_str("hook for this event already exists"),
            UcError::Resource => String::from_str("insufficient resource"),
            UcError::Exception => String::from_str("unhandled CPU exception"),
        }
    }
}

} // verus!
